//! The states that the application's parts share: the window's shape, the timer
//! as it was last reported, what the tray shows, and what agents have done.

use vstd::prelude::*;
use crate::geometry::{Edge, Rect};
use crate::interaction;
use crate::json::{Fraction, Json, JsonView};

verus! {

// ---------------------------------------------------------------------------
// The window
// ---------------------------------------------------------------------------

/// A drag of the mini window.
#[derive(Clone, Copy, Debug)]
pub struct Drag {
    /// Where the cursor was in the window when the drag began.
    pub offset: (i32, i32),
    /// The window's size when the drag began.
    pub size: (i32, i32),
    /// The work area that the window is held in.
    pub wa: Rect,
}

/// The window's shape.
#[derive(Clone, Copy, Debug)]
pub struct WindowState {
    /// Where the full window was before it became the mini window.
    pub full: Option<Rect>,
    /// Whether it is the mini window.
    pub mini: bool,
    /// The edge that it is docked to.
    pub dock: Option<Edge>,
    /// Whether a docked window is put away, so that only its strip is visible.
    pub dock_hidden: bool,
    /// The work area in which it was docked.
    pub dock_wa: Option<Rect>,
    /// The drag that goes on.
    pub drag: Option<Drag>,
    /// Changes whenever a delayed putting away is scheduled or called off.
    pub hide_token: u64,
}

impl WindowState {
    /// Only a mini window is docked or dragged, only a docked one is put away,
    /// and a docked one knows its work area.
    pub open spec fn wf(self) -> bool {
        &&& self.dock is Some ==> self.mini && self.dock_wa is Some
        &&& self.dock_hidden ==> self.dock is Some
        &&& self.drag is Some ==> self.mini
    }
}

impl Default for WindowState {
    /// The full window, nowhere docked.
    fn default() -> (r: WindowState)
        ensures
            r == (WindowState {
                full: None,
                mini: false,
                dock: None,
                dock_hidden: false,
                dock_wa: None,
                drag: None,
                hide_token: 0,
            }),
            r.wf(),
    {
        WindowState {
            full: None,
            mini: false,
            dock: None,
            dock_hidden: false,
            dock_wa: None,
            drag: None,
            hide_token: 0,
        }
    }
}

// ---------------------------------------------------------------------------
// The timer
// ---------------------------------------------------------------------------

/// The timer as it was last reported. The numbers are JSON numbers.
pub struct TimerState {
    pub phase: String,
    pub running: bool,
    pub remain_ms: Json,
    pub total_ms: Json,
    pub completed_focus: Json,
    pub round_in_cycle: Json,
    pub rounds: Json,
}

/// The model of a [`TimerState`].
pub struct TimerView {
    pub phase: Seq<char>,
    pub running: bool,
    pub remain_ms: JsonView,
    pub total_ms: JsonView,
    pub completed_focus: JsonView,
    pub round_in_cycle: JsonView,
    pub rounds: JsonView,
}

impl View for TimerState {
    type V = TimerView;

    open spec fn view(&self) -> TimerView {
        TimerView {
            phase: self.phase@,
            running: self.running,
            remain_ms: self.remain_ms@,
            total_ms: self.total_ms@,
            completed_focus: self.completed_focus@,
            round_in_cycle: self.round_in_cycle@,
            rounds: self.rounds@,
        }
    }
}

/// A report of the timer, of which parts may be missing.
pub struct TrayPatch {
    pub phase: Option<String>,
    pub running: Option<bool>,
    pub time_left_text: Option<String>,
    pub remain_ms: Option<Json>,
    pub total_ms: Option<Json>,
    pub completed_focus: Option<Json>,
    pub round_in_cycle: Option<Json>,
    pub rounds: Option<Json>,
}

/// A number after a report: the reported one, or the one before.
pub open spec fn reported(v: Option<Json>, before: JsonView) -> JsonView {
    match v {
        Some(j) => j@,
        None => before,
    }
}

/// The timer after a report: what the report does not carry stays as it was.
pub open spec fn merged(t: TimerView, p: TrayPatch) -> TimerView {
    TimerView {
        phase: match p.phase {
            Some(s) => s@,
            None => t.phase,
        },
        running: match p.running {
            Some(b) => b,
            None => t.running,
        },
        remain_ms: reported(p.remain_ms, t.remain_ms),
        total_ms: reported(p.total_ms, t.total_ms),
        completed_focus: reported(p.completed_focus, t.completed_focus),
        round_in_cycle: reported(p.round_in_cycle, t.round_in_cycle),
        rounds: reported(p.rounds, t.rounds),
    }
}

/// Zero as a number that need not be whole.
pub open spec fn zero() -> JsonView {
    JsonView::Frac(
        crate::json::FractionView { text: "0.0"@, zero: true, positive: false, rounded: 0 },
    )
}

fn zero_number() -> (r: Json)
    ensures
        r@ == zero(),
{
    Json::Frac(Fraction { text: "0.0".to_owned(), zero: true, positive: false, rounded: 0 })
}

impl Default for TimerState {
    /// A timer that does not run, in its working phase.
    fn default() -> (r: TimerState)
        ensures
            r@ == (TimerView {
                phase: "work"@,
                running: false,
                remain_ms: zero(),
                total_ms: zero(),
                completed_focus: zero(),
                round_in_cycle: zero(),
                rounds: zero(),
            }),
    {
        TimerState {
            phase: "work".to_owned(),
            running: false,
            remain_ms: zero_number(),
            total_ms: zero_number(),
            completed_focus: zero_number(),
            round_in_cycle: zero_number(),
            rounds: zero_number(),
        }
    }
}

fn take_number(into: &mut Json, v: &Option<Json>)
    ensures
        final(into)@ == reported(*v, old(into)@),
{
    if let Some(j) = v {
        *into = j.clone();
    }
}

impl TimerState {
    /// Takes a report in: only what it carries is overwritten.
    pub fn merge(&mut self, p: &TrayPatch)
        ensures
            final(self)@ == merged(old(self)@, *p),
    {
        take_number(&mut self.remain_ms, &p.remain_ms);
        take_number(&mut self.total_ms, &p.total_ms);
        take_number(&mut self.completed_focus, &p.completed_focus);
        take_number(&mut self.round_in_cycle, &p.round_in_cycle);
        take_number(&mut self.rounds, &p.rounds);
        if let Some(b) = p.running {
            self.running = b;
        }
        if let Some(s) = &p.phase {
            self.phase = s.clone();
        }
    }
}

// ---------------------------------------------------------------------------
// The tray
// ---------------------------------------------------------------------------

/// What the tray shows.
pub struct TraySync {
    pub phase: Option<String>,
    pub running: Option<bool>,
    pub time_text: Option<String>,
    /// How many popups were put aside.
    pub pending: Option<usize>,
}

/// The model of a [`TraySync`].
pub struct TrayView {
    pub phase: Option<Seq<char>>,
    pub running: Option<bool>,
    pub time_text: Option<Seq<char>>,
    pub pending: Option<usize>,
}

impl View for TraySync {
    type V = TrayView;

    open spec fn view(&self) -> TrayView {
        TrayView {
            phase: interaction::opt_text(self.phase),
            running: self.running,
            time_text: interaction::opt_text(self.time_text),
            pending: self.pending,
        }
    }
}

impl Default for TraySync {
    /// A tray that shows nothing yet.
    fn default() -> (r: TraySync)
        ensures
            r@ == (TrayView { phase: None, running: None, time_text: None, pending: None }),
    {
        TraySync { phase: None, running: None, time_text: None, pending: None }
    }
}

// ---------------------------------------------------------------------------
// The agents
// ---------------------------------------------------------------------------

/// What agents did since the working phase began.
#[derive(Clone, Copy, Debug)]
pub struct Activity {
    pub since: Option<i64>,
    pub tool_calls: u64,
    pub interruptions: u64,
    pub stops: u64,
    pub sessions: u64,
}

impl Default for Activity {
    /// Nothing yet.
    fn default() -> (r: Activity)
        ensures
            r == (Activity {
                since: None,
                tool_calls: 0,
                interruptions: 0,
                stops: 0,
                sessions: 0,
            }),
    {
        Activity { since: None, tool_calls: 0, interruptions: 0, stops: 0, sessions: 0 }
    }
}

/// What agents did, as it is reported.
pub open spec fn activity_json(a: Activity) -> JsonView {
    JsonView::object().with(
        "since"@,
        match a.since {
            Some(n) => JsonView::Int(n as int),
            None => JsonView::Null,
        },
    ).with("toolCalls"@, JsonView::Int(a.tool_calls as int)).with(
        "interruptions"@,
        JsonView::Int(a.interruptions as int),
    ).with("stops"@, JsonView::Int(a.stops as int)).with("sessions"@, JsonView::Int(a.sessions as int))
}

impl Activity {
    /// What agents did, as it is reported.
    pub fn to_json(&self) -> (r: Json)
        ensures
            r@ == activity_json(*self),
    {
        let since = match self.since {
            Some(n) => Json::integer(n),
            None => Json::Null,
        };
        Json::object().with("since", since).with("toolCalls", Json::PosInt(self.tool_calls)).with(
            "interruptions",
            Json::PosInt(self.interruptions),
        ).with("stops", Json::PosInt(self.stops)).with("sessions", Json::PosInt(self.sessions))
    }
}

/// What the gateway keeps between requests.
pub struct GatewayState {
    pub activity: Activity,
    /// The phase that the timer was last seen in.
    pub prev_phase: Option<String>,
    /// When a break was last suggested.
    pub last_break_suggest_at: i64,
}

impl Default for GatewayState {
    /// Nothing seen yet.
    fn default() -> (r: GatewayState)
        ensures
            r.prev_phase is None,
            r.last_break_suggest_at == 0,
            r.activity == (Activity {
                since: None,
                tool_calls: 0,
                interruptions: 0,
                stops: 0,
                sessions: 0,
            }),
    {
        GatewayState { activity: Activity::default(), prev_phase: None, last_break_suggest_at: 0 }
    }
}

// ---------------------------------------------------------------------------
// Laws
// ---------------------------------------------------------------------------

/// A report changes nothing of which it says nothing.
pub proof fn law_report_keeps_what_it_does_not_say(t: TimerView, p: TrayPatch)
    ensures
        p.phase is None ==> merged(t, p).phase == t.phase,
        p.remain_ms is None ==> merged(t, p).remain_ms == t.remain_ms,
        p.total_ms is None ==> merged(t, p).total_ms == t.total_ms,
        p.completed_focus is None ==> merged(t, p).completed_focus == t.completed_focus,
        p.round_in_cycle is None ==> merged(t, p).round_in_cycle == t.round_in_cycle,
        p.rounds is None ==> merged(t, p).rounds == t.rounds,
        p.running is None ==> merged(t, p).running == t.running,
{
}

/// The counts are told under their names.
pub proof fn law_activity_is_told(a: Activity)
    ensures
        ({
            let j = activity_json(a);
            &&& j is Obj
            &&& j.field("toolCalls"@) == Some(JsonView::Int(a.tool_calls as int))
            &&& j.field("interruptions"@) == Some(JsonView::Int(a.interruptions as int))
            &&& j.field("stops"@) == Some(JsonView::Int(a.stops as int))
            &&& j.field("sessions"@) == Some(JsonView::Int(a.sessions as int))
            &&& a.since matches Some(n) ==> j.field("since"@) == Some(JsonView::Int(n as int))
            &&& a.since is None ==> j.field("since"@) == Some(JsonView::Null)
        }),
{
    broadcast use crate::json::group_fields;

    reveal_strlit("since");
    reveal_strlit("toolCalls");
    reveal_strlit("interruptions");
    reveal_strlit("stops");
    reveal_strlit("sessions");
    assert("since"@.len() == 5);
    assert("toolCalls"@.len() == 9);
    assert("interruptions"@.len() == 13);
    assert("stops"@.len() == 5);
    assert("sessions"@.len() == 8);
    assert("since"@[1] == 'i');
    assert("stops"@[1] == 't');
}

/// What a report of the timer says is what is known of it.
pub proof fn law_a_report_is_taken_in(t: TimerView, p: TrayPatch)
    ensures
        p.phase matches Some(s) ==> merged(t, p).phase == s@,
        p.running matches Some(b) ==> merged(t, p).running == b,
        p.remain_ms matches Some(j) ==> merged(t, p).remain_ms == j@,
        p.total_ms matches Some(j) ==> merged(t, p).total_ms == j@,
        p.completed_focus matches Some(j) ==> merged(t, p).completed_focus == j@,
        p.round_in_cycle matches Some(j) ==> merged(t, p).round_in_cycle == j@,
        p.rounds matches Some(j) ==> merged(t, p).rounds == j@,
{
}

} // verus!
