//! Settings of the transcription collaborator: which model, which device,
//! which languages.

use vstd::prelude::*;
use vstd::string::*;
use crate::envfile::{trim_range, trimmed};
use crate::text::chars_of;

verus! {

/// The device that transcription runs on.
#[derive(Debug, Clone, Copy, PartialEq, Eq, Structural)]
pub enum WhisperDevice {
    Cpu,
    Gpu,
    Auto,
}

impl WhisperDevice {
    /// Whether the machine offers a GPU to transcription. No GPU is ever
    /// reported: the CPU works everywhere.
    pub open spec fn gpu_available_spec() -> bool {
        false
    }

    /// The device that `self` stands for: `Auto` stands for the GPU where
    /// one is available and for the CPU otherwise; the others stand for
    /// themselves.
    pub open spec fn resolved(self) -> WhisperDevice {
        match self {
            WhisperDevice::Auto => if Self::gpu_available_spec() {
                WhisperDevice::Gpu
            } else {
                WhisperDevice::Cpu
            },
            other => other,
        }
    }

    /// The words that describe each device.
    pub open spec fn description_spec(self) -> Seq<char> {
        match self {
            WhisperDevice::Cpu => "CPU (Compatible with all systems)"@,
            WhisperDevice::Gpu => "GPU (Hardware acceleration)"@,
            WhisperDevice::Auto => "Auto-detect (CPU fallback for laptops)"@,
        }
    }

    /// The best device that is available: the CPU.
    pub fn auto_detect() -> (r: Self)
        ensures
            r == WhisperDevice::Cpu,
    {
        WhisperDevice::Cpu
    }

    /// Whether a GPU is available.
    pub fn gpu_available() -> (r: bool)
        ensures
            r == Self::gpu_available_spec(),
    {
        false
    }

    /// The device to run on. The result is never `Auto`.
    pub fn resolve(&self) -> (r: Self)
        ensures
            r == self.resolved(),
            r != WhisperDevice::Auto,
    {
        match self {
            WhisperDevice::Auto => {
                if Self::gpu_available() {
                    WhisperDevice::Gpu
                } else {
                    WhisperDevice::Cpu
                }
            },
            WhisperDevice::Cpu => WhisperDevice::Cpu,
            WhisperDevice::Gpu => WhisperDevice::Gpu,
        }
    }

    /// The words that describe the device.
    pub fn description(&self) -> (r: &'static str)
        ensures
            r@ == self.description_spec(),
    {
        match self {
            WhisperDevice::Cpu => "CPU (Compatible with all systems)",
            WhisperDevice::Gpu => "GPU (Hardware acceleration)",
            WhisperDevice::Auto => "Auto-detect (CPU fallback for laptops)",
        }
    }
}

/// The quality that transcription aims for.
#[derive(Debug, Clone, Copy, PartialEq, Eq, Structural)]
pub enum WhisperQuality {
    Maximum,
}

/// The settings of one transcription service.
#[derive(Debug)]
pub struct WhisperConfig {
    pub model_name: String,
    pub model_path: Option<String>,
    pub language: Option<String>,
    pub device: WhisperDevice,
    pub quality: WhisperQuality,
    pub enable_vad: bool,
    pub enable_diarization: bool,
    pub beam_size: u32,
}

impl Default for WhisperConfig {
    /// The largest model, language and device chosen automatically, voice
    /// detection and speaker separation on, five beams.
    fn default() -> (r: Self)
        ensures
            r.model_name@ == "openai/whisper-large-v3"@,
            r.model_path is None,
            r.language is None,
            r.device == WhisperDevice::Auto,
            r.quality == WhisperQuality::Maximum,
            r.enable_vad,
            r.enable_diarization,
            r.beam_size == 5,
    {
        WhisperConfig {
            model_name: String::from_str("openai/whisper-large-v3"),
            model_path: None,
            language: None,
            device: WhisperDevice::Auto,
            quality: WhisperQuality::Maximum,
            enable_vad: true,
            enable_diarization: true,
            beam_size: 5,
        }
    }
}

/// The languages that transcription knows.
#[derive(Debug, Clone, Copy, PartialEq, Eq, Structural)]
pub struct SupportedLanguages;

impl SupportedLanguages {
    /// The languages as pairs of code and name.
    pub open spec fn all() -> Seq<(Seq<char>, Seq<char>)> {
        seq![("auto"@, "Auto-detect"@), ("en"@, "English"@), ("tr"@, "Turkish"@)]
    }

    /// Lists the languages as pairs of code and name: automatic detection
    /// first, then English and Turkish.
    pub fn get_all() -> (r: Vec<(String, String)>)
        ensures
            r.len() == 3,
            forall|i: int|
                0 <= i < 3 ==> (#[trigger] r[i]).0@ == Self::all()[i].0 && r[i].1@
                    == Self::all()[i].1,
    {
        let mut out: Vec<(String, String)> = Vec::new();
        out.push((String::from_str("auto"), String::from_str("Auto-detect")));
        out.push((String::from_str("en"), String::from_str("English")));
        out.push((String::from_str("tr"), String::from_str("Turkish")));
        out
    }
}

/// Whether `c` is a letter in the sense of Unicode.
pub uninterp spec fn is_letter(c: char) -> bool;

/// `char::is_alphabetic` tests the `Alphabetic` property of Unicode, which
/// is a property of the character alone.
pub assume_specification[ char::is_alphabetic ](c: char) -> (r: bool)
    ensures
        r == is_letter(c),
;

/// The first character of the upper-case form of `c`.
pub uninterp spec fn upper_first(c: char) -> char;

/// `char::to_uppercase` and the first character it yields. The mapping is
/// a table of Unicode that gives every character at least one character.
#[verifier::external_body]
fn first_upper(c: char) -> (r: char)
    ensures
        r == upper_first(c),
{
    c.to_uppercase().next().unwrap_or(c)
}

/// `String::from_iter` over the characters of `chars`: the text that holds
/// these characters in this order.
#[verifier::external_body]
fn text_of(chars: &Vec<char>) -> (r: String)
    ensures
        r@ == chars@,
{
    chars.iter().collect()
}

/// `s` with every run of spaces shortened to one space.
pub open spec fn collapsed(s: Seq<char>) -> Seq<char>
    decreases s.len(),
{
    if s.len() == 0 {
        s
    } else if s.len() >= 2 && s[0] == ' ' && s[1] == ' ' {
        collapsed(s.skip(1))
    } else {
        seq![s[0]] + collapsed(s.skip(1))
    }
}

/// Whether `c` ends a sentence.
pub open spec fn ends_sentence(c: char) -> bool {
    c == '.' || c == '!' || c == '?'
}

/// `s` with the first letter of each sentence in upper case; `pending`
/// tells whether a sentence begins before `s`.
pub open spec fn capitalized(s: Seq<char>, pending: bool) -> Seq<char>
    decreases s.len(),
{
    if s.len() == 0 {
        s
    } else if pending && is_letter(s[0]) {
        seq![upper_first(s[0])] + capitalized(s.skip(1), false)
    } else {
        seq![s[0]] + capitalized(s.skip(1), pending || ends_sentence(s[0]))
    }
}

/// A transcript made ready to read: trimmed, runs of spaces shortened, and
/// sentences begun in upper case.
pub open spec fn post_processed(raw: Seq<char>) -> Seq<char> {
    capitalized(collapsed(trimmed(raw)), true)
}

/// Shortens every run of spaces in `chars[from..to]` to one space.
fn collapse_spaces(chars: &Vec<char>, from: usize, to: usize) -> (r: Vec<char>)
    requires
        from <= to <= chars.len(),
    ensures
        r@ == collapsed(chars@.subrange(from as int, to as int)),
{
    let ghost s = chars@.subrange(from as int, to as int);
    let mut out: Vec<char> = Vec::new();
    let mut i: usize = from;
    proof {
        assert(s.skip(0) =~= s);
        assert(out@ + collapsed(s) =~= collapsed(s));
    }
    while i < to
        invariant
            from <= i <= to <= chars.len(),
            s == chars@.subrange(from as int, to as int),
            out@ + collapsed(s.skip(i - from)) == collapsed(s),
        decreases to - i,
    {
        let ghost rest = s.skip(i - from);
        proof {
            assert(rest[0] == chars@[i as int]);
            assert(rest.skip(1) =~= s.skip(i - from + 1));
            if i + 1 < to {
                assert(rest[1] == chars@[i + 1]);
            }
        }
        if !(chars[i] == ' ' && i + 1 < to && chars[i + 1] == ' ') {
            proof {
                assert(out@.push(chars@[i as int]) + collapsed(rest.skip(1)) =~= out@ + (seq![
                    rest[0],
                ] + collapsed(rest.skip(1))));
            }
            out.push(chars[i]);
        }
        i = i + 1;
    }
    proof {
        assert(s.skip(to - from) =~= Seq::<char>::empty());
        assert(out@ + Seq::<char>::empty() =~= out@);
    }
    out
}

/// Puts the first letter of each sentence of `chars` in upper case.
fn capitalize(chars: &Vec<char>) -> (r: Vec<char>)
    ensures
        r@ == capitalized(chars@, true),
{
    let mut out: Vec<char> = Vec::new();
    let mut pending = true;
    let mut i: usize = 0;
    proof {
        assert(chars@.skip(0) =~= chars@);
        assert(out@ + capitalized(chars@, true) =~= capitalized(chars@, true));
    }
    while i < chars.len()
        invariant
            i <= chars.len(),
            out@ + capitalized(chars@.skip(i as int), pending) == capitalized(chars@, true),
        decreases chars.len() - i,
    {
        let ghost rest = chars@.skip(i as int);
        let ghost before = out@;
        let c = chars[i];
        proof {
            assert(rest[0] == c);
            assert(rest.skip(1) =~= chars@.skip(i + 1));
        }
        if pending && c.is_alphabetic() {
            let upper = first_upper(c);
            out.push(upper);
            pending = false;
            proof {
                assert(before.push(upper) + capitalized(rest.skip(1), false) =~= before + (seq![
                    upper,
                ] + capitalized(rest.skip(1), false)));
            }
        } else {
            out.push(c);
            let ghost was = pending;
            if c == '.' || c == '!' || c == '?' {
                pending = true;
            }
            proof {
                assert(pending == (was || ends_sentence(c)));
                assert(before.push(c) + capitalized(rest.skip(1), pending) =~= before + (seq![c]
                    + capitalized(rest.skip(1), pending)));
            }
        }
        i = i + 1;
    }
    proof {
        assert(chars@.skip(chars.len() as int) =~= Seq::<char>::empty());
        assert(out@ + Seq::<char>::empty() =~= out@);
    }
    out
}

/// Begins every sentence of `text` with an upper-case letter: the first
/// letter of the text and the first letter after each `.`, `!` and `?`.
pub fn capitalize_sentences(text: &str) -> (r: String)
    ensures
        r@ == capitalized(text@, true),
{
    let chars = chars_of(text);
    let out = capitalize(&chars);
    text_of(&out)
}

/// Makes a raw transcript ready to read.
pub fn post_process_transcript(raw_transcript: &str) -> (r: String)
    ensures
        r@ == post_processed(raw_transcript@),
{
    let chars = chars_of(raw_transcript);
    let (from, to) = trim_range(&chars, 0, chars.len());
    proof {
        assert(chars@.subrange(0, chars.len() as int) =~= chars@);
    }
    let spaced = collapse_spaces(&chars, from, to);
    let out = capitalize(&spaced);
    text_of(&out)
}

} // verus!
