//! Support types for the host's voice-synthesis layer: the catalogue
//! record for a voice, and the pure cost estimate for a request. The
//! synthesis itself — remote calls and audio caching — is the host's.

use vstd::prelude::*;
use vstd::string::StringExecFns;
use vstd::string::StringSliceAdditionalSpecFns;

verus! {

/// Synthesis parameters for one request. The knobs the remote service
/// takes as fractions between zero and one (stability, similarity boost,
/// style) and as rate/pitch factors are held here in per-mille fixed
/// point — 1000 stands for 1.0 — so that configuration stays exact; the
/// host converts at the service edge.
#[derive(Clone, Debug)]
pub struct VoiceConfig {
    /// Voice ID or name.
    pub voice_id: String,
    /// Synthesis model to request.
    pub model: String,
    /// Stability, per-mille of 1.0.
    pub stability: i64,
    /// Similarity boost, per-mille of 1.0.
    pub similarity_boost: i64,
    /// Style, per-mille of 1.0.
    pub style: i64,
    /// Use speaker boost.
    pub use_speaker_boost: bool,
    /// Speaking rate adjustment, per-mille of the natural rate.
    pub rate: i64,
    /// Pitch adjustment, per-mille of the natural pitch.
    pub pitch: i64,
    /// Output format (mp3, wav).
    pub format: String,
}

impl Default for VoiceConfig {
    /// The stock narration setup: the "Rachel" voice on the multilingual
    /// model, mid stability, strong similarity, neutral style, natural
    /// rate and pitch, mp3 output.
    fn default() -> (config: Self)
        ensures
            config.voice_id@ == "21m00Tcm4TlvDq8ikWAM"@,
            config.model@ == "eleven_multilingual_v2"@,
            config.stability == 500,
            config.similarity_boost == 750,
            config.style == 0,
            config.use_speaker_boost,
            config.rate == 1000,
            config.pitch == 1000,
            config.format@ == "mp3"@,
    {
        VoiceConfig {
            voice_id: String::from_str("21m00Tcm4TlvDq8ikWAM"),
            model: String::from_str("eleven_multilingual_v2"),
            stability: 500,
            similarity_boost: 750,
            style: 0,
            use_speaker_boost: true,
            rate: 1000,
            pitch: 1000,
            format: String::from_str("mp3"),
        }
    }
}

/// Information about one synthesis voice.
#[derive(Clone, Debug)]
pub struct VoiceInfo {
    pub id: String,
    pub name: String,
    pub category: String,
    pub description: String,
}

/// The built-in voice catalogue: three premade voices, each with its
/// service id and a short description.
pub fn get_available_voices() -> (voices: Vec<VoiceInfo>)
    ensures
        voices@.len() == 3,
        voices@[0].id@ == "21m00Tcm4TlvDq8ikWAM"@,
        voices@[0].name@ == "Rachel"@,
        voices@[0].description@ == "Female, soft, American"@,
        voices@[1].id@ == "AZnzlk1Xhk6s7t6p32M5"@,
        voices@[1].name@ == "Nicole"@,
        voices@[1].description@ == "Female, energetic, American"@,
        voices@[2].id@ == "EXAVITQu4vr4xn7AYnmo"@,
        voices@[2].name@ == "Bella"@,
        voices@[2].description@ == "Female, soft, American"@,
        forall|i: int| 0 <= i < 3 ==> (#[trigger] voices@[i].category)@ == "premade"@,
{
    let voices = vec![
        VoiceInfo {
            id: String::from_str("21m00Tcm4TlvDq8ikWAM"),
            name: String::from_str("Rachel"),
            category: String::from_str("premade"),
            description: String::from_str("Female, soft, American"),
        },
        VoiceInfo {
            id: String::from_str("AZnzlk1Xhk6s7t6p32M5"),
            name: String::from_str("Nicole"),
            category: String::from_str("premade"),
            description: String::from_str("Female, energetic, American"),
        },
        VoiceInfo {
            id: String::from_str("EXAVITQu4vr4xn7AYnmo"),
            name: String::from_str("Bella"),
            category: String::from_str("premade"),
            description: String::from_str("Female, soft, American"),
        },
    ];
    voices
}

/// Estimate the token cost of a synthesis request: one token per four
/// bytes of the request text's UTF-8 encoding (`str::len` counts bytes).
pub fn estimate_tokens(request: &str) -> (tokens: usize)
    ensures
        tokens == request.len() / 4,
        request.spec_bytes().len() <= usize::MAX ==> tokens == request.spec_bytes().len() / 4,
{
    request.len() / 4
}

} // verus!
