//! A sleep that another task can interrupt.

use vstd::prelude::*;

verus! {

/// How a sleep ended.
#[derive(Clone, Copy, Debug, PartialEq, Eq, Structural)]
pub enum SleepResult {
    Interrupted,
    Slept,
    /// Nobody can interrupt it any more.
    Dropped,
}

/// What the sleeper and the one who may interrupt it share. It is to be used by
/// one sleeper and one interrupter.
#[derive(Clone, Copy, Debug, PartialEq, Eq, Structural)]
pub struct AbortableSleep {
    /// A sleep has begun and has not ended yet.
    pub begun: bool,
    /// An interruption came that no sleep has ended with yet.
    pub should_abort: bool,
    /// The interrupter is gone.
    pub dropped: bool,
}

impl AbortableSleep {
    /// What follows an interruption.
    pub open spec fn spec_abort(self) -> AbortableSleep {
        AbortableSleep { should_abort: true, ..self }
    }

    /// What follows when the interrupter goes away.
    pub open spec fn spec_close(self) -> AbortableSleep {
        AbortableSleep { dropped: true, ..self.spec_abort() }
    }

    /// How the next sleep ends if it does not begin at all.
    pub open spec fn spec_begin_result(self) -> Option<SleepResult> {
        if self.dropped {
            Some(SleepResult::Dropped)
        } else if self.should_abort {
            Some(SleepResult::Interrupted)
        } else {
            None
        }
    }

    pub open spec fn spec_begin(self) -> AbortableSleep {
        if self.dropped {
            self
        } else if self.should_abort {
            AbortableSleep { should_abort: false, ..self }
        } else {
            AbortableSleep { begun: true, ..self }
        }
    }

    /// How a sleep ends that has begun.
    pub open spec fn spec_end_result(self) -> SleepResult {
        if self.dropped {
            SleepResult::Dropped
        } else if self.should_abort {
            SleepResult::Interrupted
        } else {
            SleepResult::Slept
        }
    }

    pub open spec fn spec_end(self) -> AbortableSleep {
        AbortableSleep { begun: false, should_abort: false, ..self }
    }

    pub fn new() -> (res: Self)
        ensures
            res == (AbortableSleep { begun: false, should_abort: false, dropped: false }),
    {
        Self { begun: false, should_abort: false, dropped: false }
    }

    /// Interrupts the sleep that is going on. If there is none, the next one
    /// will end right away. Returns whether there is one to cut short.
    pub fn abort(&mut self) -> (res: bool)
        ensures
            res == old(self).begun,
            *final(self) == old(self).spec_abort(),
    {
        self.should_abort = true;
        self.begun
    }

    /// The interrupter goes away, which ends the sleep as well. Returns whether
    /// there is one to cut short.
    pub fn close(&mut self) -> (res: bool)
        ensures
            res == old(self).begun,
            *final(self) == old(self).spec_close(),
    {
        self.dropped = true;
        self.abort()
    }

    /// Begins a sleep, unless it ends right away.
    pub fn begin_sleep(&mut self) -> (res: Option<SleepResult>)
        ensures
            res == old(self).spec_begin_result(),
            *final(self) == old(self).spec_begin(),
    {
        if self.dropped {
            return Some(SleepResult::Dropped);
        }
        if self.should_abort {
            self.should_abort = false;
            return Some(SleepResult::Interrupted);
        }
        self.begun = true;
        None
    }

    /// Ends a sleep that has begun, and says why it is over. An interruption
    /// that came just when the time was up counts for this sleep.
    pub fn end_sleep(&mut self) -> (res: SleepResult)
        ensures
            res == old(self).spec_end_result(),
            *final(self) == old(self).spec_end(),
    {
        let aborted: bool = self.should_abort;
        self.begun = false;
        self.should_abort = false;
        if self.dropped {
            SleepResult::Dropped
        } else if aborted {
            SleepResult::Interrupted
        } else {
            SleepResult::Slept
        }
    }
}

/// An interruption while nobody sleeps, be it before the first sleep or between
/// two of them, is not lost: the next sleep ends right away. It counts once,
/// however often it came: the sleep after that begins.
pub proof fn law_early_abort_is_kept(state: AbortableSleep)
    requires
        !state.begun,
        !state.dropped,
    ensures
        state.spec_abort().spec_begin_result() == Some(SleepResult::Interrupted),
        state.spec_abort().spec_abort().spec_begin().spec_begin_result() is None,
{
}

/// A sleep leaves nothing behind: afterwards nobody sleeps, whatever happened
/// before, and an interruption from then on is for the next sleep.
pub proof fn law_abort_between_sleeps_is_kept(state: AbortableSleep)
    requires
        !state.dropped,
    ensures
        !state.spec_end().begun,
        state.spec_end().spec_begin_result() is None,
        state.spec_end().spec_abort().spec_begin_result() == Some(SleepResult::Interrupted),
{
}

/// A sleep that is interrupted while it goes on says so, and the sleep after it
/// is not affected. Without an interruption it says that its time was up.
pub proof fn law_abort_ends_sleep(state: AbortableSleep)
    requires
        state.spec_begin_result() is None,
    ensures
        state.spec_begin().spec_abort().spec_end_result() == SleepResult::Interrupted,
        state.spec_begin().spec_abort().spec_end().spec_begin_result() is None,
        state.spec_begin().spec_end_result() == SleepResult::Slept,
{
}

/// Once the interrupter is gone, the sleep that is going on and every later one
/// ends right away and says so.
pub proof fn law_closed_for_good(state: AbortableSleep)
    ensures
        state.spec_close().spec_end_result() == SleepResult::Dropped,
        state.spec_close().spec_begin_result() == Some(SleepResult::Dropped),
        state.dropped ==> {
            &&& state.spec_begin_result() == Some(SleepResult::Dropped)
            &&& state.spec_begin().dropped
            &&& state.spec_end().dropped
            &&& state.spec_abort().dropped
        },
{
}

/// What each step changes: an interruption is noted and nothing else, a sleep
/// that ends right away uses up the interruption and does not begin, any other
/// one begins, and its end leaves neither a sleep nor an interruption.
pub proof fn law_steps_of_a_sleep(state: AbortableSleep)
    ensures
        state.spec_abort().should_abort,
        state.spec_abort().begun == state.begun,
        state.spec_abort().dropped == state.dropped,
        state.spec_close().should_abort,
        state.spec_close().dropped,
        state.spec_close().begun == state.begun,
        state.spec_begin_result() is None <==> !state.dropped && !state.should_abort,
        state.spec_begin_result() == Some(SleepResult::Dropped) <==> state.dropped,
        state.spec_begin_result() != Some(SleepResult::Slept),
        state.spec_begin().dropped == state.dropped,
        state.spec_begin().begun == (state.begun || state.spec_begin_result() is None),
        state.spec_begin().should_abort == (state.should_abort && state.dropped),
        state.spec_end_result() == SleepResult::Dropped <==> state.dropped,
        state.spec_end_result() == SleepResult::Interrupted <==> !state.dropped
            && state.should_abort,
        !state.spec_end().begun,
        !state.spec_end().should_abort,
        state.spec_end().dropped == state.dropped,
{
}

} // verus!
