//! What the coordinator writes about a chunk once it was transcribed: the
//! time stamps of its lines and the speaker who holds the floor at its
//! middle.

use vstd::prelude::*;
use vstd::string::*;
use crate::text::{append_zero_padded, zero_padded};

verus! {

/// The time `seconds` as hours, minutes and seconds, each with at least two
/// digits: `HH:MM:SS`.
pub open spec fn clock_text(seconds: nat) -> Seq<char> {
    zero_padded(seconds / 3600, 2) + ":"@ + zero_padded((seconds % 3600) / 60, 2) + ":"@
        + zero_padded(seconds % 60, 2)
}

/// Writes a time in seconds as `HH:MM:SS`.
pub fn hhmmss(seconds: u64) -> (r: String)
    ensures
        r@ == clock_text(seconds as nat),
{
    let h = seconds / 3600;
    let m = (seconds % 3600) / 60;
    let sec = seconds % 60;
    let mut out = String::new();
    append_zero_padded(&mut out, h, 2);
    out.append(":");
    append_zero_padded(&mut out, m, 2);
    out.append(":");
    append_zero_padded(&mut out, sec, 2);
    proof {
        assert(out@ =~= clock_text(seconds as nat));
    }
    out
}

/// The whole seconds in `millis` milliseconds, at most what 64 bits hold.
pub open spec fn whole_seconds(millis: u128) -> nat {
    if millis / 1000 > u64::MAX {
        u64::MAX as nat
    } else {
        (millis / 1000) as nat
    }
}

/// Writes a time in milliseconds as `HH:MM:SS`, dropping the fraction of a
/// second.
pub fn stamp(millis: u128) -> (r: String)
    ensures
        r@ == clock_text(whole_seconds(millis)),
{
    let seconds: u128 = millis / 1000;
    if seconds > u64::MAX as u128 {
        hhmmss(u64::MAX)
    } else {
        hhmmss(seconds as u64)
    }
}

/// The name under which a line is written where no speaker is known.
pub open spec fn speaker_or_default(speaker: Option<Seq<char>>) -> Seq<char> {
    match speaker {
        Some(s) => s,
        None => "Speaker"@,
    }
}

/// The line of the live transcript for a chunk: its span in brackets, the
/// speaker, and the text.
pub open spec fn live_line_text(
    start_ms: u128,
    end_ms: u128,
    speaker: Option<Seq<char>>,
    text: Seq<char>,
) -> Seq<char> {
    "["@ + clock_text(whole_seconds(start_ms)) + " - "@ + clock_text(whole_seconds(end_ms)) + "] "@
        + speaker_or_default(speaker) + ": "@ + text + "\n"@
}

/// Writes the line of the live transcript for a chunk.
pub fn live_line(start_ms: u128, end_ms: u128, speaker: Option<&str>, text: &str) -> (r: String)
    ensures
        r@ == live_line_text(
            start_ms,
            end_ms,
            match speaker {
                Some(s) => Some(s@),
                None => None,
            },
            text@,
        ),
{
    let mut out = String::from_str("[");
    let from = stamp(start_ms);
    out.append(from.as_str());
    out.append(" - ");
    let to = stamp(end_ms);
    out.append(to.as_str());
    out.append("] ");
    match speaker {
        Some(s) => {
            out.append(s);
        },
        None => {
            out.append("Speaker");
        },
    }
    out.append(": ");
    out.append(text);
    out.append("\n");
    out
}

/// One stretch of time in which one speaker talks.
#[derive(Debug)]
pub struct SpeakerTurn {
    pub start_ms: u128,
    pub end_ms: u128,
    pub speaker: String,
}

/// The middle of a span of time, rounded down.
pub open spec fn middle(start_ms: u128, end_ms: u128) -> int {
    (start_ms + end_ms) / 2
}

/// Computes the middle of a span of time.
pub fn midpoint(start_ms: u128, end_ms: u128) -> (r: u128)
    ensures
        r == middle(start_ms, end_ms),
{
    start_ms / 2 + end_ms / 2 + (start_ms % 2 + end_ms % 2) / 2
}

/// Whether `turn` covers the instant `at`, its ends included.
pub open spec fn covers(turn: SpeakerTurn, at: u128) -> bool {
    turn.start_ms <= at <= turn.end_ms
}

/// Finds the speaker of a chunk: the speaker of the first turn that covers
/// the middle of the chunk. Where no turn does, no speaker is known.
pub fn speaker_at(turns: &Vec<SpeakerTurn>, start_ms: u128, end_ms: u128) -> (r: Option<String>)
    ensures
        match r {
            Some(s) => exists|i: int|
                0 <= i < turns.len()
                    && covers(#[trigger] turns[i], middle(start_ms, end_ms) as u128)
                    && turns[i].speaker@ == s@ && forall|j: int|
                    0 <= j < i ==> !covers(#[trigger] turns[j], middle(start_ms, end_ms) as u128),
            None => forall|j: int|
                0 <= j < turns.len() ==> !covers(
                    #[trigger] turns[j],
                    middle(start_ms, end_ms) as u128,
                ),
        },
{
    let mid = midpoint(start_ms, end_ms);
    let mut i: usize = 0;
    while i < turns.len()
        invariant
            i <= turns.len(),
            mid == middle(start_ms, end_ms),
            forall|j: int| 0 <= j < i ==> !covers(#[trigger] turns[j], mid),
        decreases turns.len() - i,
    {
        if turns[i].start_ms <= mid && mid <= turns[i].end_ms {
            let name = turns[i].speaker.clone();
            proof {
                assert(covers(turns[i as int], mid));
            }
            return Some(name);
        }
        i = i + 1;
    }
    None
}

} // verus!
