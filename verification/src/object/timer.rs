//! Timer objects: one-shot and periodic deadlines with slack.

use vstd::prelude::*;
use crate::object::ids::{IdAllocator, nth_id};
use crate::object::handle::{KernelObjectBase, ObjectType, count_after_inc, count_after_dec};

verus! {

/// Timer identifier.
pub type TimerId = u64;

/// Timer state.
#[derive(Debug, Clone, Copy, PartialEq, Eq, Structural)]
pub enum TimerState {
    /// Disarmed
    Disarmed,
    /// Armed, waiting for its deadline
    Armed,
    /// Fired
    Fired,
    /// Canceled
    Canceled,
}

impl TimerState {
    /// Raw number of each state.
    pub open spec fn raw_of(s: TimerState) -> u8 {
        match s {
            TimerState::Disarmed => 0,
            TimerState::Armed => 1,
            TimerState::Fired => 2,
            TimerState::Canceled => 3,
        }
    }

    /// Create from raw value; unknown values give `Disarmed`.
    pub fn from_raw(raw: u8) -> (r: TimerState)
        ensures
            raw <= 3 ==> Self::raw_of(r) == raw,
            raw > 3 ==> r == TimerState::Disarmed,
    {
        match raw {
            1 => TimerState::Armed,
            2 => TimerState::Fired,
            3 => TimerState::Canceled,
            _ => TimerState::Disarmed,
        }
    }

    /// Get the raw value.
    pub fn into_raw(self) -> (r: u8)
        ensures
            r == Self::raw_of(self),
    {
        match self {
            TimerState::Disarmed => 0,
            TimerState::Armed => 1,
            TimerState::Fired => 2,
            TimerState::Canceled => 3,
        }
    }
}

/// Timer slack policy: how far a deadline may move to coalesce wakeups.
#[derive(Debug, Clone, Copy, PartialEq, Eq, Structural)]
pub enum SlackPolicy {
    /// No slack (precise timing)
    NoSlack,
    /// Small slack (default)
    Small,
    /// Medium slack
    Medium,
    /// Large slack
    Large,
}

impl SlackPolicy {
    /// Raw number of each policy.
    pub open spec fn raw_of(p: SlackPolicy) -> u32 {
        match p {
            SlackPolicy::NoSlack => 0,
            SlackPolicy::Small => 1,
            SlackPolicy::Medium => 2,
            SlackPolicy::Large => 3,
        }
    }

    /// Slack duration of each policy, in nanoseconds.
    pub open spec fn duration_of(p: SlackPolicy) -> u64 {
        match p {
            SlackPolicy::NoSlack => 0,
            SlackPolicy::Small => 100_000,
            SlackPolicy::Medium => 1_000_000,
            SlackPolicy::Large => 10_000_000,
        }
    }

    /// Create from raw value; unknown values give `NoSlack`.
    pub fn from_raw(raw: u32) -> (r: SlackPolicy)
        ensures
            raw <= 3 ==> Self::raw_of(r) == raw,
            raw > 3 ==> r == SlackPolicy::NoSlack,
    {
        match raw {
            1 => SlackPolicy::Small,
            2 => SlackPolicy::Medium,
            3 => SlackPolicy::Large,
            _ => SlackPolicy::NoSlack,
        }
    }

    /// Get the raw value.
    pub fn into_raw(self) -> (r: u32)
        ensures
            r == Self::raw_of(self),
    {
        match self {
            SlackPolicy::NoSlack => 0,
            SlackPolicy::Small => 1,
            SlackPolicy::Medium => 2,
            SlackPolicy::Large => 3,
        }
    }

    /// Slack duration in nanoseconds.
    pub fn duration(self) -> (r: u64)
        ensures
            r == Self::duration_of(self),
    {
        match self {
            SlackPolicy::NoSlack => 0,
            SlackPolicy::Small => 100_000,
            SlackPolicy::Medium => 1_000_000,
            SlackPolicy::Large => 10_000_000,
        }
    }
}

/// Law: slack grows with the policy level.
pub proof fn lemma_slack_monotone(a: SlackPolicy, b: SlackPolicy)
    ensures
        SlackPolicy::raw_of(a) <= SlackPolicy::raw_of(b) ==> SlackPolicy::duration_of(a)
            <= SlackPolicy::duration_of(b),
{
}

/// A timer object.
pub struct Timer {
    pub base: KernelObjectBase,
    pub id: TimerId,
    /// Deadline in nanoseconds
    pub deadline: u64,
    /// Slack in nanoseconds
    pub slack: u64,
    /// Period in nanoseconds (`None` for a one-shot timer); never zero
    pub period: Option<u64>,
    pub state: TimerState,
    /// Signaled when the timer fires
    pub event: bool,
    pub slack_policy: SlackPolicy,
}

impl Timer {
    /// A stored period is never zero.
    pub open spec fn wf(&self) -> bool {
        self.period matches Some(p) ==> p != 0
    }

    /// Create a disarmed timer with a fresh id.
    pub fn create(ids: &mut IdAllocator) -> (r: Result<Timer, &'static str>)
        ensures
            r matches Ok(t) && {
                &&& t.wf()
                &&& t.id == old(ids).next
                &&& t.state == TimerState::Disarmed
                &&& t.deadline == 0 && t.slack == 0 && t.period is None
                &&& !t.event
                &&& t.slack_policy == SlackPolicy::Small
                &&& t.base.obj_type == ObjectType::Timer && t.base.ref_count == 1
            },
            final(ids).next == nth_id(old(ids).next, 1),
    {
        Ok(Timer {
            base: KernelObjectBase::new(ObjectType::Timer),
            id: ids.next_id(),
            deadline: 0,
            slack: 0,
            period: None,
            state: TimerState::Disarmed,
            event: false,
            slack_policy: SlackPolicy::Small,
        })
    }

    /// Get the timer id.
    pub fn id(&self) -> (r: TimerId)
        ensures
            r == self.id,
    {
        self.id
    }

    /// Get the timer state.
    pub fn state(&self) -> (r: TimerState)
        ensures
            r == self.state,
    {
        self.state
    }

    /// Arm the timer for `deadline` with the given slack (0 when absent);
    /// a previous deadline is replaced.
    pub fn set(&mut self, deadline: u64, slack: Option<u64>) -> (r: Result<(), &'static str>)
        requires
            old(self).wf(),
        ensures
            final(self).wf(),
            r is Ok,
            final(self).deadline == deadline,
            final(self).slack == (match slack {
                Some(s) => s,
                None => 0,
            }),
            final(self).state == TimerState::Armed,
            !final(self).event,
            final(self).period == old(self).period,
            final(self).id == old(self).id,
            final(self).base == old(self).base,
            final(self).slack_policy == old(self).slack_policy,
    {
        self.deadline = deadline;
        self.slack = match slack {
            Some(s) => s,
            None => 0,
        };
        self.state = TimerState::Armed;
        self.event = false;
        Ok(())
    }

    /// Arm a periodic timer: first deadline `deadline`, then every `period`.
    pub fn set_periodic(&mut self, deadline: u64, period: u64, slack: Option<u64>) -> (r: Result<
        (),
        &'static str,
    >)
        requires
            old(self).wf(),
        ensures
            final(self).wf(),
            period == 0 ==> r == Err::<(), &'static str>("period cannot be zero") && *final(self)
                == *old(self),
            period != 0 ==> {
                &&& r is Ok
                &&& final(self).period == Some(period)
                &&& final(self).deadline == deadline
                &&& final(self).slack == (match slack {
                    Some(s) => s,
                    None => 0,
                })
                &&& final(self).state == TimerState::Armed
                &&& !final(self).event
                &&& final(self).id == old(self).id
            },
    {
        if period == 0 {
            return Err("period cannot be zero");
        }
        self.period = Some(period);
        self.set(deadline, slack)
    }

    /// Cancel an armed timer; any other timer (disarmed, canceled or
    /// fired) is not armed and stays as it is.
    pub fn cancel(&mut self) -> (r: Result<(), &'static str>)
        ensures
            old(self).state != TimerState::Armed ==> r == Err::<(), &'static str>("timer not armed")
                && *final(self) == *old(self),
            old(self).state == TimerState::Armed ==> {
                &&& r is Ok
                &&& final(self).state == TimerState::Canceled
                &&& !final(self).event
                &&& final(self).deadline == old(self).deadline
                &&& final(self).slack == old(self).slack
                &&& final(self).period == old(self).period
                &&& final(self).id == old(self).id
            },
    {
        match self.state {
            TimerState::Disarmed | TimerState::Canceled | TimerState::Fired => Err("timer not armed"),
            TimerState::Armed => {
                self.state = TimerState::Canceled;
                self.event = false;
                Ok(())
            },
        }
    }

    /// The outcome of a wait once the timer's event has been signaled:
    /// an error when the timer was canceled, else success.
    pub fn wait(&self) -> (r: Result<(), &'static str>)
        ensures
            self.state == TimerState::Canceled ==> r == Err::<(), &'static str>("timer canceled"),
            self.state != TimerState::Canceled ==> r is Ok,
    {
        if self.state == TimerState::Canceled {
            return Err("timer canceled");
        }
        Ok(())
    }

    /// Current deadline.
    pub fn deadline(&self) -> (r: u64)
        ensures
            r == self.deadline,
    {
        self.deadline
    }

    /// Current slack.
    pub fn slack(&self) -> (r: u64)
        ensures
            r == self.slack,
    {
        self.slack
    }

    /// The kernel object base.
    pub fn base(&self) -> (r: &KernelObjectBase)
        ensures
            *r == self.base,
    {
        &self.base
    }

    /// Reference count.
    pub fn ref_count(&self) -> (r: usize)
        ensures
            r == self.base.ref_count,
    {
        self.base.ref_count()
    }

    /// Increment the reference count.
    pub fn ref_inc(&mut self)
        ensures
            final(self).base.ref_count == count_after_inc(old(self).base.ref_count),
            final(self).state == old(self).state,
    {
        self.base.ref_inc();
    }

    /// Decrement the reference count; true when this was the last reference.
    pub fn ref_dec(&mut self) -> (last: bool)
        ensures
            last == (old(self).base.ref_count == 1),
            final(self).base.ref_count == count_after_dec(old(self).base.ref_count),
            final(self).state == old(self).state,
    {
        self.base.ref_dec()
    }
}

} // verus!
