//! One run of the download queue, from the moment it starts until it is
//! paused or runs out of work.
use vstd::prelude::*;
use crate::task::Timestamp;

verus! {

/// A length of time, in nanoseconds; negative when it runs backwards.
#[derive(Debug, Clone, Copy, PartialEq, Eq, Structural)]
pub struct TimeSpan {
    pub nanos: i128,
}

/// A point in time as nanoseconds since the Unix epoch.
pub open spec fn instant_nanos(t: Timestamp) -> int {
    t.secs * 1_000_000_000 + t.nanos
}

/// Whole seconds in `nanos` nanoseconds, rounded toward zero.
pub open spec fn whole_seconds(nanos: int) -> int {
    if nanos >= 0 {
        nanos / 1_000_000_000
    } else {
        -((-nanos) / 1_000_000_000)
    }
}

impl TimeSpan {
    /// The time from `start` to `end`.
    pub fn between(start: Timestamp, end: Timestamp) -> (r: TimeSpan)
        ensures
            r.nanos == instant_nanos(end) - instant_nanos(start),
    {
        let e: i128 = (end.secs as i128) * 1_000_000_000 + (end.nanos as i128);
        let s: i128 = (start.secs as i128) * 1_000_000_000 + (start.nanos as i128);
        TimeSpan { nanos: e - s }
    }

    /// The whole seconds of this span, rounded toward zero.
    pub fn num_seconds(&self) -> (r: i128)
        ensures
            r == whole_seconds(self.nanos as int),
    {
        if self.nanos >= 0 {
            self.nanos / 1_000_000_000
        } else {
            let magnitude: i128 = if self.nanos == i128::MIN {
                i128::MAX
            } else {
                -self.nanos
            };
            proof {
                if self.nanos == i128::MIN {
                    assert(170141183460469231731687303715884105727int / 1_000_000_000
                        == 170141183460469231731687303715884105728int / 1_000_000_000);
                }
            }
            -(magnitude / 1_000_000_000)
        }
    }
}

/// Whether a run goes on or has ended.
#[derive(Debug, Clone, Copy, PartialEq, Eq, Structural)]
pub enum RunSessionStatus {
    Active,
    Ended,
}

/// What ending a run did.
#[derive(Debug, Clone, Copy, PartialEq, Eq, Structural)]
pub enum EndRunSessionOutcome {
    Ended,
    AlreadyEnded,
}

/// One run of the queue: its id, when it started and, once it has, when it
/// ended.
#[derive(Debug, Clone)]
pub struct RunSession {
    id: String,
    started_at: Timestamp,
    ended_at: Option<Timestamp>,
    status: RunSessionStatus,
}

impl RunSession {
    pub closed spec fn id_spec(&self) -> Seq<char> {
        self.id@
    }

    pub closed spec fn started_at_spec(&self) -> Timestamp {
        self.started_at
    }

    pub closed spec fn ended_at_spec(&self) -> Option<Timestamp> {
        self.ended_at
    }

    pub closed spec fn active(&self) -> bool {
        self.status == RunSessionStatus::Active
    }

    /// An active run has no end; an ended one has.
    pub closed spec fn wf(&self) -> bool {
        self.active() == (self.ended_at is None)
    }

    /// A run that started at `started_at` and goes on.
    pub fn new(id: String, started_at: Timestamp) -> (r: RunSession)
        ensures
            r.wf(),
            r.id_spec() == id@,
            r.started_at_spec() == started_at,
            r.ended_at_spec() is None,
            r.active(),
    {
        RunSession { id, started_at, ended_at: None, status: RunSessionStatus::Active }
    }

    pub fn id(&self) -> (r: &str)
        ensures
            r@ == self.id_spec(),
    {
        self.id.as_str()
    }

    pub fn started_at(&self) -> (r: Timestamp)
        ensures
            r == self.started_at_spec(),
    {
        self.started_at
    }

    pub fn ended_at(&self) -> (r: Option<Timestamp>)
        ensures
            r == self.ended_at_spec(),
    {
        self.ended_at
    }

    pub fn is_active(&self) -> (r: bool)
        ensures
            r == self.active(),
    {
        self.status == RunSessionStatus::Active
    }

    /// Ends the run at `ended_at`; a run that has ended already keeps its end.
    pub fn end(&mut self, ended_at: Timestamp) -> (r: EndRunSessionOutcome)
        requires
            old(self).wf(),
        ensures
            final(self).wf(),
            final(self).id_spec() == old(self).id_spec(),
            final(self).started_at_spec() == old(self).started_at_spec(),
            !final(self).active(),
            old(self).active() ==> r == EndRunSessionOutcome::Ended
                && final(self).ended_at_spec() == Some(ended_at),
            !old(self).active() ==> r == EndRunSessionOutcome::AlreadyEnded
                && final(self).ended_at_spec() == old(self).ended_at_spec(),
    {
        if self.status == RunSessionStatus::Ended {
            return EndRunSessionOutcome::AlreadyEnded;
        }
        self.status = RunSessionStatus::Ended;
        self.ended_at = Some(ended_at);
        EndRunSessionOutcome::Ended
    }

    /// How long the run lasted, once it has ended.
    pub fn duration(&self) -> (r: Option<TimeSpan>)
        ensures
            match self.ended_at_spec() {
                Some(end) => r == Some(
                    TimeSpan { nanos: (instant_nanos(end) - instant_nanos(self.started_at_spec())) as i128 },
                ),
                None => r is None,
            },
    {
        match self.ended_at {
            Some(end) => Some(TimeSpan::between(self.started_at, end)),
            None => None,
        }
    }
}

} // verus!
