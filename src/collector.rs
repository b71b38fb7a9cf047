//! Collection of classified messages until the cutoff policy stops it.
use crate::cutoff::{next_phase, Config, Tracker};
use crate::message::{is_diagnostic, is_error, message_of, Message, MessageKind, MessageView, Level};
use vstd::prelude::*;

verus! {

/// Number of diagnostics in a sequence of messages.
pub open spec fn diagnostic_count(s: Seq<MessageView>) -> nat
    decreases s.len(),
{
    if s.len() == 0 {
        0
    } else {
        diagnostic_count(s.drop_last()) + if is_diagnostic(s.last()) { 1nat } else { 0nat }
    }
}

pub open spec fn views(s: Seq<Message>) -> Seq<MessageView> {
    s.map_values(|m: Message| m@)
}

/// The messages collected so far, in order of arrival, and the cutoff policy.
pub struct Collector {
    pub messages: Vec<Message>,
    pub tracker: Tracker,
}

impl Collector {
    pub open spec fn collected(&self) -> Seq<MessageView> {
        views(self.messages@)
    }

    /// The tracker counts exactly the collected diagnostics.
    pub open spec fn wf(&self) -> bool {
        &&& self.tracker.wf()
        &&& self.tracker.count == diagnostic_count(self.collected())
        &&& self.tracker.count <= self.messages@.len()
    }

    pub fn new(config: &Config) -> (r: Collector)
        ensures
            r.wf(),
            r.collected() == Seq::<MessageView>::empty(),
            !r.tracker.is_stopped(),
            r.tracker.message_limit == config.message_limit,
            r.tracker.time_limit_seconds == config.time_limit_seconds,
    {
        let r = Collector { messages: Vec::new(), tracker: Tracker::new(config) };
        assert(r.collected() =~= Seq::<MessageView>::empty());
        r
    }

    pub fn is_stopped(&self) -> (r: bool)
        ensures
            r == self.tracker.is_stopped(),
    {
        self.tracker.stopped()
    }

    /// Takes one line of output that arrived at time `now` (milliseconds):
    /// classifies it, keeps it and consults the cutoff policy. Returns whether
    /// collection has stopped; once it has, lines are no longer taken.
    pub fn on_line(&mut self, line: &str, now: u64) -> (stopped: bool)
        requires
            old(self).wf(),
            old(self).messages@.len() < usize::MAX,
        ensures
            final(self).wf(),
            stopped == final(self).tracker.is_stopped(),
            old(self).tracker.is_stopped() ==> final(self).collected() == old(self).collected()
                && final(self).tracker == old(self).tracker,
            !old(self).tracker.is_stopped() ==> final(self).collected() == old(
                self,
            ).collected().push(message_of(line@)),
            !old(self).tracker.is_stopped() ==> final(self).tracker.phase == next_phase(
                old(self).tracker.phase,
                final(self).tracker.count,
                old(self).tracker.message_limit,
                old(self).tracker.time_limit_seconds,
                is_error(message_of(line@)),
                now,
            ),
            final(self).tracker.message_limit == old(self).tracker.message_limit,
            final(self).tracker.time_limit_seconds == old(self).tracker.time_limit_seconds,
    {
        if self.tracker.stopped() {
            return true;
        }
        let m = Message::classify(line);
        let (diag, err) = match &m.kind {
            MessageKind::CompilerMessage(d) => (true, d.level == Level::Error),
            _ => (false, false),
        };
        self.messages.push(m);
        let ghost s = self.collected();
        assert(s.drop_last() =~= old(self).collected());
        self.tracker.observe(diag, err, now);
        self.tracker.stopped()
    }
}

} // verus!
