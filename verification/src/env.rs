//! The settings that the hook takes from its environment.

use vstd::prelude::*;
use crate::text;
use crate::text::{same, to_lower};

verus! {

/// How long a popup may wait for an answer by default.
pub const DEFAULT_CONFIRM_TIMEOUT_MS: u64 = 3_600_000;

/// The longest that a popup may wait for an answer.
pub const MAX_CONFIRM_TIMEOUT_MS: u64 = 7_200_000;

/// How much longer than the popup the hook waits for the gateway.
pub const HOOK_WAIT_GRACE_MS: u64 = 300_000;

/// The hook's default wait, in seconds.
pub const DEFAULT_HOOK_TIMEOUT_S: u64 = 3_600;

/// The hook's longest wait, in seconds.
pub const MAX_HOOK_TIMEOUT_S: u64 = 7_200;

/// The wait written into a host's configuration, in seconds.
pub const HOST_HOOK_TIMEOUT_S: u64 = 4_200;

/// How long the hook waits for the gateway.
pub fn hook_wait_ms() -> (r: u64)
    ensures
        r == DEFAULT_CONFIRM_TIMEOUT_MS + HOOK_WAIT_GRACE_MS,
{
    DEFAULT_CONFIRM_TIMEOUT_MS + HOOK_WAIT_GRACE_MS
}

/// The three waits are nested: the host outlasts the hook, and the hook
/// outlasts the popup, also where the popup waits as long as it may by default.
pub proof fn law_waits_are_nested()
    ensures
        HOST_HOOK_TIMEOUT_S * 1000 > DEFAULT_CONFIRM_TIMEOUT_MS + HOOK_WAIT_GRACE_MS,
        DEFAULT_CONFIRM_TIMEOUT_MS + HOOK_WAIT_GRACE_MS > DEFAULT_CONFIRM_TIMEOUT_MS,
        MAX_CONFIRM_TIMEOUT_MS >= DEFAULT_CONFIRM_TIMEOUT_MS,
        MAX_HOOK_TIMEOUT_S >= DEFAULT_HOOK_TIMEOUT_S,
{
}

/// The value of a variable that is set and not empty.
pub open spec fn said(v: Option<String>) -> Option<Seq<char>> {
    match v {
        Some(s) if s@.len() > 0 => Some(s@),
        _ => None,
    }
}

/// The value of a variable that is set and not empty.
pub fn env_str(v: &Option<String>) -> (r: Option<String>)
    ensures
        said(r) == said(*v),
        r is Some == said(*v) is Some,
{
    match v {
        Some(s) => if s.as_str().is_empty() {
            None
        } else {
            Some(s.clone())
        },
        None => None,
    }
}

/// The words that switch something off.
pub open spec fn off_word(s: Seq<char>) -> bool {
    s == "0"@ || s == "false"@ || s == "no"@ || s == "off"@
}

/// A switch: unset and empty mean the default, an off word in any case means
/// off, and everything else means on.
pub open spec fn flag(v: Option<String>, default: bool) -> bool {
    match said(v) {
        None => default,
        Some(s) => !off_word(text::lowered(s)),
    }
}

/// Reads a switch.
pub fn env_flag(v: &Option<String>, default: bool) -> (r: bool)
    ensures
        r == flag(*v, default),
{
    match v {
        Some(s) => {
            if s.as_str().is_empty() {
                return default;
            }
            let l = to_lower(s.as_str());
            !(same(l.as_str(), "0") || same(l.as_str(), "false") || same(l.as_str(), "no") || same(
                l.as_str(),
                "off",
            ))
        },
        None => default,
    }
}

/// A number as it was read from a text.
#[derive(Clone, Copy)]
pub enum Reading {
    /// Nothing, or not a number.
    Absent,
    /// An infinite number, by whether it is positive.
    Infinite(bool),
    /// A finite number.
    Finite(Amount),
}

/// A finite number: whether it is zero, whether it is greater than zero, and
/// the nearest integer (halves away from zero), held within `i64`.
#[derive(Clone, Copy)]
pub struct Amount {
    pub zero: bool,
    pub positive: bool,
    pub rounded: i64,
}

/// The popup's wait in milliseconds, from a number of seconds: rounded and held
/// between 5 and 7200, or an hour where there is no number or it is zero.
pub open spec fn wait_of(r: Reading) -> int {
    match r {
        Reading::Absent => 3_600_000,
        Reading::Infinite(positive) => if positive {
            7_200_000
        } else {
            5_000
        },
        Reading::Finite(a) => if a.zero {
            3_600_000
        } else if a.rounded > 7200 {
            7_200_000
        } else if a.rounded < 5 {
            5_000
        } else {
            a.rounded * 1000
        },
    }
}

/// The popup's wait in milliseconds, from a number of seconds.
pub fn timeout_ms(r: Reading) -> (ms: u64)
    ensures
        ms == wait_of(r),
        5_000 <= ms <= 7_200_000,
{
    match r {
        Reading::Absent => 3_600_000,
        Reading::Infinite(positive) => if positive {
            7_200_000
        } else {
            5_000
        },
        Reading::Finite(a) => if a.zero {
            3_600_000
        } else if a.rounded > 7200 {
            7_200_000
        } else if a.rounded < 5 {
            5_000
        } else {
            (a.rounded as u64) * 1000
        },
    }
}

/// The variables that steer the hook, as they are set.
pub struct Env {
    /// `POMODORO_SOURCE`
    pub source: Option<String>,
    /// `ZCODE_PLUGIN_ROOT`
    pub zcode_plugin_root: Option<String>,
    /// `ZCODE_CLI_HOME`
    pub zcode_cli_home: Option<String>,
    /// `POMODORO_ASK`
    pub ask: Option<String>,
    /// `POMODORO_PERMISSION`
    pub permission: Option<String>,
    /// `POMODORO_ALWAYS_ALLOW`
    pub always_allow: Option<String>,
    /// `POMODORO_LOCAL_ALWAYS_ALLOW`
    pub local_always_allow: Option<String>,
    /// `POMODORO_ASK_MODE`
    pub ask_mode: Option<String>,
    /// `POMODORO_PERMISSION_DEST`
    pub permission_dest: Option<String>,
    /// `POMODORO_TIMEOUT_S`
    pub timeout: Reading,
    /// The name of the lead host.
    pub lead: String,
}

// ---------------------------------------------------------------------------
// Laws
// ---------------------------------------------------------------------------

proof fn lemma_small(s: Seq<char>)
    requires
        forall|i: int| 0 <= i < s.len() ==> !('A' <= #[trigger] s[i] <= 'Z'),
    ensures
        text::lowered(s) == s,
{
    assert(text::lowered(s) =~= s);
}

/// A switch is off where it is set to one of four words, on where it is set to
/// anything else, and as it stands by default where it is not set.
pub proof fn law_four_words_switch_off(v: String, default: bool)
    ensures
        flag(None, default) == default,
        v@.len() == 0 ==> flag(Some(v), default) == default,
        text::lowered(v@) == "0"@ || text::lowered(v@) == "false"@ || text::lowered(v@) == "no"@
            || text::lowered(v@) == "off"@ ==> !flag(Some(v), default),
        v@.len() > 0 && text::lowered(v@) != "0"@ && text::lowered(v@) != "false"@ && text::lowered(
            v@,
        ) != "no"@ && text::lowered(v@) != "off"@ ==> flag(Some(v), default),
        v@ == "0"@ || v@ == "false"@ || v@ == "no"@ || v@ == "off"@ ==> !flag(Some(v), default),
        v@ == "1"@ || v@ == "true"@ || v@ == "yes"@ || v@ == "on"@ ==> flag(Some(v), default),
{
    reveal_strlit("0");
    reveal_strlit("false");
    reveal_strlit("no");
    reveal_strlit("off");
    reveal_strlit("1");
    reveal_strlit("true");
    reveal_strlit("yes");
    reveal_strlit("on");
    assert forall|i: int| 0 <= i < "0"@.len() implies !('A' <= #[trigger] "0"@[i] <= 'Z') by {
        assert(i == 0);
        assert("0"@[0] == '0');
    }
    assert forall|i: int| 0 <= i < "false"@.len() implies !('A' <= #[trigger] "false"@[i] <= 'Z') by {
        assert(i == 0 || i == 1 || i == 2 || i == 3 || i == 4);
        assert("false"@[0] == 'f');
        assert("false"@[1] == 'a');
        assert("false"@[2] == 'l');
        assert("false"@[3] == 's');
        assert("false"@[4] == 'e');
    }
    assert forall|i: int| 0 <= i < "no"@.len() implies !('A' <= #[trigger] "no"@[i] <= 'Z') by {
        assert(i == 0 || i == 1);
        assert("no"@[0] == 'n');
        assert("no"@[1] == 'o');
    }
    assert forall|i: int| 0 <= i < "off"@.len() implies !('A' <= #[trigger] "off"@[i] <= 'Z') by {
        assert(i == 0 || i == 1 || i == 2);
        assert("off"@[0] == 'o');
        assert("off"@[1] == 'f');
        assert("off"@[2] == 'f');
    }
    assert forall|i: int| 0 <= i < "1"@.len() implies !('A' <= #[trigger] "1"@[i] <= 'Z') by {
        assert(i == 0);
        assert("1"@[0] == '1');
    }
    assert forall|i: int| 0 <= i < "true"@.len() implies !('A' <= #[trigger] "true"@[i] <= 'Z') by {
        assert(i == 0 || i == 1 || i == 2 || i == 3);
        assert("true"@[0] == 't');
        assert("true"@[1] == 'r');
        assert("true"@[2] == 'u');
        assert("true"@[3] == 'e');
    }
    assert forall|i: int| 0 <= i < "yes"@.len() implies !('A' <= #[trigger] "yes"@[i] <= 'Z') by {
        assert(i == 0 || i == 1 || i == 2);
        assert("yes"@[0] == 'y');
        assert("yes"@[1] == 'e');
        assert("yes"@[2] == 's');
    }
    assert forall|i: int| 0 <= i < "on"@.len() implies !('A' <= #[trigger] "on"@[i] <= 'Z') by {
        assert(i == 0 || i == 1);
        assert("on"@[0] == 'o');
        assert("on"@[1] == 'n');
    }
    lemma_small("0"@);
    lemma_small("false"@);
    lemma_small("no"@);
    lemma_small("off"@);
    lemma_small("1"@);
    lemma_small("true"@);
    lemma_small("yes"@);
    lemma_small("on"@);
    assert("0"@.len() == 1);
    assert("0"@[0] == '0');
    assert("false"@.len() == 5);
    assert("false"@[0] == 'f');
    assert("false"@[1] == 'a');
    assert("false"@[2] == 'l');
    assert("false"@[3] == 's');
    assert("false"@[4] == 'e');
    assert("no"@.len() == 2);
    assert("no"@[0] == 'n');
    assert("no"@[1] == 'o');
    assert("off"@.len() == 3);
    assert("off"@[0] == 'o');
    assert("off"@[1] == 'f');
    assert("off"@[2] == 'f');
    assert("1"@.len() == 1);
    assert("1"@[0] == '1');
    assert("true"@.len() == 4);
    assert("true"@[0] == 't');
    assert("true"@[1] == 'r');
    assert("true"@[2] == 'u');
    assert("true"@[3] == 'e');
    assert("yes"@.len() == 3);
    assert("yes"@[0] == 'y');
    assert("yes"@[1] == 'e');
    assert("yes"@[2] == 's');
    assert("on"@.len() == 2);
    assert("on"@[0] == 'o');
    assert("on"@[1] == 'n');
    assert(text::lowered(v@).len() == v@.len());
}

/// The hook waits as many seconds as it is told, but at least five and at most two
/// hours; where it is told nothing, or zero, for an hour.
pub proof fn law_the_hook_waits_as_told(seconds: i64, a: Amount)
    ensures
        wait_of(Reading::Absent) == 3_600_000,
        wait_of(Reading::Infinite(true)) == 7_200_000,
        wait_of(Reading::Infinite(false)) == 5_000,
        a.zero ==> wait_of(Reading::Finite(a)) == 3_600_000,
        !a.zero && a.rounded == seconds && 5 <= seconds <= 7_200 ==> wait_of(Reading::Finite(a))
            == seconds * 1_000,
        !a.zero && a.rounded == seconds && seconds < 5 ==> wait_of(Reading::Finite(a)) == 5_000,
        !a.zero && a.rounded == seconds && seconds > 7_200 ==> wait_of(Reading::Finite(a))
            == 7_200_000,
{
}

/// The waits fit into each other: the gateway waits for the user, the hook longer for
/// the gateway, and the host longer for the hook.
pub proof fn law_waits_fit_into_each_other()
    ensures
        DEFAULT_CONFIRM_TIMEOUT_MS == 3_600_000,
        MAX_CONFIRM_TIMEOUT_MS == 7_200_000,
        DEFAULT_CONFIRM_TIMEOUT_MS == DEFAULT_HOOK_TIMEOUT_S * 1_000,
        MAX_CONFIRM_TIMEOUT_MS == MAX_HOOK_TIMEOUT_S * 1_000,
        HOOK_WAIT_GRACE_MS == 300_000,
        DEFAULT_CONFIRM_TIMEOUT_MS < DEFAULT_CONFIRM_TIMEOUT_MS + HOOK_WAIT_GRACE_MS
            < HOST_HOOK_TIMEOUT_S * 1_000,
        HOST_HOOK_TIMEOUT_S == 4_200,
{
}

} // verus!
