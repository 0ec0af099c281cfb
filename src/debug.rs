//! The debug broadcaster: at most one live sink for human-readable progress
//! events. Publishing is advisory: with no sink it does nothing, and the
//! caller delivers the formatted event to the sink it is handed, ignoring
//! delivery failures.

use vstd::prelude::*;

verus! {

/// A wall-clock moment, as seconds counted like Unix time, rendered with a
/// chrono format pattern.
pub uninterp spec fn clock_text(secs: int, pattern: Seq<char>) -> Seq<char>;

/// Relies on `chrono::DateTime::from_timestamp(secs, 0)`, which yields a time
/// for every second count within about ±262000 years (so for every count up
/// to 2^40 in size), and on `DateTime::format`; the pattern is one that chrono
/// can render, so `to_string` does not fail.
#[verifier::external_body]
fn format_clock(secs: i64, pattern: &str) -> (r: Option<String>)
    requires
        -0x10000000000 <= secs <= 0x10000000000,
        pattern@ == stamp_pattern(),
    ensures
        r is Some,
        r matches Some(t) ==> t@ == clock_text(secs as int, pattern@),
{
    match chrono::DateTime::from_timestamp(secs, 0) {
        Some(t) => Some(t.format(pattern).to_string()),
        None => None,
    }
}

/// Day/month/year and hours:minutes:seconds.
pub open spec fn stamp_pattern() -> Seq<char> {
    "%d/%m/%Y %T"@
}

/// The markup of one event, prepended to the observer's debug panel.
pub open spec fn event_markup(stamp: Seq<char>, msg: Seq<char>) -> Seq<char> {
    "<div id=\"debug\" hx-swap-oob=\"afterbegin\"><p><b>\u{2022} "@ + stamp + " : </b>"@ + msg
        + "</p></div>"@
}

/// The markup of an event with its time stamp.
pub fn debug_event_markup(stamp: &str, msg: &str) -> (r: String)
    ensures
        r@ == event_markup(stamp@, msg@),
{
    String::from_str("<div id=\"debug\" hx-swap-oob=\"afterbegin\"><p><b>\u{2022} ").concat(stamp).concat(
        " : </b>",
    ).concat(msg).concat("</p></div>")
}

/// Where an event goes: the sink that is set, if any.
pub open spec fn event_target<S>(session: Option<S>) -> Option<S> {
    session
}

/// The sink after `set_debug_session(s)`, whatever was set before.
pub open spec fn replaced_session<S>(before: Option<S>, s: S) -> Option<S> {
    Some(s)
}

/// Holds at most one event sink.
pub struct DebugService<S> {
    debug_session: Option<S>,
}

impl<S> DebugService<S> {
    /// The sink that is set, if any.
    pub closed spec fn session(&self) -> Option<S> {
        self.debug_session
    }

    /// A broadcaster with no sink.
    pub fn new() -> (r: DebugService<S>)
        ensures
            r.session() is None,
    {
        DebugService { debug_session: None }
    }

    /// Replaces the sink; the previous one, if any, is dropped.
    pub fn set_debug_session(&mut self, session: S)
        ensures
            final(self).session() == replaced_session(old(self).session(), session),
    {
        self.debug_session = Some(session);
    }

    /// Removes the sink.
    pub fn clear_debug_session(&mut self)
        ensures
            final(self).session() is None,
    {
        self.debug_session = None;
    }

    /// The delivery of `msg` at the moment `unix_secs` (seconds since the Unix
    /// epoch), stamped with the local time `utc_offset_secs` ahead of UTC: the
    /// sink it goes to and its markup, or nothing where no sink is set.
    pub fn send_debug_event(&self, msg: &str, unix_secs: u32, utc_offset_secs: i32) -> (r: Option<(&S, String)>)
        ensures
            event_target(self.session()) is None ==> r is None,
            event_target(self.session()) matches Some(s) ==> (r matches Some((t, text)) && *t == s
                && text@ == event_markup(
                clock_text(unix_secs + utc_offset_secs, stamp_pattern()),
                msg@,
            )),
    {
        match &self.debug_session {
            Some(session) => {
                let local = unix_secs as i64 + utc_offset_secs as i64;
                let stamp = match format_clock(local, "%d/%m/%Y %T") {
                    Some(t) => t,
                    None => String::new(),
                };
                Some((session, debug_event_markup(stamp.as_str(), msg)))
            },
            None => None,
        }
    }
}

impl<S> Default for DebugService<S> {
    fn default() -> (r: DebugService<S>)
        ensures
            r.session() is None,
    {
        DebugService::new()
    }
}

/// Setting the sink to `a` and then to `b` sends events to `b`, never to `a`.
pub proof fn lemma_latest_sink_receives<S>(before: Option<S>, a: S, b: S)
    ensures
        event_target(replaced_session(replaced_session(before, a), b)) == Some(b),
        a != b ==> event_target(replaced_session(replaced_session(before, a), b)) != Some(a),
{
}

} // verus!
