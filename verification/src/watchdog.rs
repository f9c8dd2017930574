//! Watching whether the main thread still answers, and what is noted when it does
//! not.

use vstd::prelude::*;
use crate::interaction;
use crate::text;
use crate::text::{decimal, same};

verus! {

/// How often the main thread is asked, in milliseconds.
pub const PING_MS: u64 = 500;

/// How long it has to answer.
pub const STALL_MS: u64 = 3_000;

/// How often in a row it is noted that it does not.
pub const MAX_REPORTS_PER_STALL: u8 = 3;

/// The log is begun anew once it is longer than this.
pub const LOG_MAX_BYTES: u64 = 65_536;

/// Whether the watchdog is on: it is, unless the environment says `0`.
pub fn enabled(set: Option<&str>) -> (r: bool)
    ensures
        r == (interaction::opt_str(set) != Some("0"@)),
{
    match set {
        Some(s) => !same(s, "0"),
        None => true,
    }
}

/// What is noted.
#[derive(Clone, Copy, PartialEq, Eq, Structural, Debug)]
pub enum Note {
    Nothing,
    /// The main thread answers again, after so many times without an answer.
    Recovered(u8),
    /// The main thread does not answer.
    Stalled,
}

/// What is noted once the main thread was asked, `before` times having gone
/// without an answer.
pub open spec fn note_of(answered: bool, before: u8) -> Note {
    if answered {
        if before > 0 {
            Note::Recovered(before)
        } else {
            Note::Nothing
        }
    } else if before < MAX_REPORTS_PER_STALL {
        Note::Stalled
    } else {
        Note::Nothing
    }
}

/// How often in a row the main thread has not answered.
pub open spec fn missed(answered: bool, before: u8) -> u8 {
    if answered {
        0
    } else if before == u8::MAX {
        u8::MAX
    } else {
        (before + 1) as u8
    }
}

/// Takes in whether the main thread answered.
pub fn observe(reports: &mut u8, answered: bool) -> (r: Note)
    ensures
        r == note_of(answered, *old(reports)),
        *final(reports) == missed(answered, *old(reports)),
{
    let before: u8 = *reports;
    if answered {
        *reports = 0;
        return if before > 0 {
            Note::Recovered(before)
        } else {
            Note::Nothing
        };
    }
    *reports = if before == u8::MAX {
        u8::MAX
    } else {
        before + 1
    };
    if before < MAX_REPORTS_PER_STALL {
        Note::Stalled
    } else {
        Note::Nothing
    }
}

/// The log's line when the main thread answers again.
pub fn recovered_line(now_ms: u64, reports: u8) -> (r: String)
    ensures
        r@ == text::int_text(now_ms as int) + "\t主线程恢复（本轮累计停滞 "@ + text::int_text(
            reports as int,
        ) + " 次上报）"@,
{
    let mut r = decimal(now_ms);
    r.append("\t主线程恢复（本轮累计停滞 ");
    r.append(decimal(reports as u64).as_str());
    r.append(" 次上报）");
    r
}

/// The log's line when the main thread does not answer: for how long, and what it
/// was last seen doing.
pub fn stalled_line(now_ms: u64, stalled_ms: u64, doing: Option<&str>) -> (r: String)
    ensures
        r@ == text::int_text(now_ms as int) + "\t停滞 "@ + text::int_text(stalled_ms as int)
            + "ms\t"@ + (match doing {
            Some(d) => d@,
            None => "(未登记 —— 不在 timed 包住的调用里)"@,
        }),
{
    let mut r = decimal(now_ms);
    r.append("\t停滞 ");
    r.append(decimal(stalled_ms).as_str());
    r.append("ms\t");
    match doing {
        Some(d) => r.append(d),
        None => r.append("(未登记 —— 不在 timed 包住的调用里)"),
    }
    r
}

/// Whether the log is begun anew.
pub fn log_is_full(bytes: u64) -> (r: bool)
    ensures
        r == (bytes > LOG_MAX_BYTES),
{
    bytes > LOG_MAX_BYTES
}

/// However long the main thread does not answer, that is noted only so often.
pub proof fn law_a_long_stall_is_noted_briefly(before: u8)
    requires
        before >= MAX_REPORTS_PER_STALL,
    ensures
        note_of(false, before) == Note::Nothing,
        missed(false, before) >= MAX_REPORTS_PER_STALL,
        note_of(true, missed(false, before)) is Recovered,
{
}

/// A stall is noted three times at most, and its end once, with how often it was
/// missed; while all is well nothing is noted.
pub proof fn law_what_is_noted_of_a_stall(before: u8)
    ensures
        note_of(true, 0) == Note::Nothing,
        before > 0 ==> note_of(true, before) == Note::Recovered(before),
        before < 3 ==> note_of(false, before) == Note::Stalled,
        before >= 3 ==> note_of(false, before) == Note::Nothing,
        missed(true, before) == 0,
        before < u8::MAX ==> missed(false, before) == before + 1,
{
}

/// How often it is looked, how long is waited, and how long the log may grow.
pub proof fn law_how_often_it_is_looked()
    ensures
        PING_MS == 500,
        STALL_MS == 3_000,
        LOG_MAX_BYTES == 65_536,
{
}

} // verus!
