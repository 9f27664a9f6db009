//! The two-phase lock latch: topics lock on completion, sequences on finalize.
use vstd::prelude::*;

verus! {

/// A lock-state violation, reported to the caller and never retried.
#[derive(Debug, Clone, Copy, PartialEq, Eq, Structural)]
pub enum LockError {
    /// A write was attempted on a topic that is already locked.
    TopicLocked,
    /// A sequence was finalized while some of its topics were still unlocked.
    TopicsNotLocked,
}

/// The lifecycle of one topic.
#[derive(Debug, Clone, Copy, PartialEq, Eq, Structural)]
pub struct TopicLifecycle {
    /// At least one chunk write has succeeded.
    pub has_data: bool,
    /// The topic is locked; it never unlocks.
    pub locked: bool,
}

impl TopicLifecycle {
    /// A fresh topic: no data, unlocked.
    pub fn new() -> (r: Self)
        ensures
            !r.has_data,
            !r.locked,
    {
        TopicLifecycle { has_data: false, locked: false }
    }

    /// Records a successful chunk write; a locked topic rejects it.
    pub fn record_chunk(&mut self) -> (r: Result<(), LockError>)
        ensures
            r is Err <==> old(self).locked,
            r is Err ==> r == Err::<(), LockError>(LockError::TopicLocked) && *final(self)
                == *old(self),
            r is Ok ==> final(self).has_data && !final(self).locked,
    {
        if self.locked {
            Err(LockError::TopicLocked)
        } else {
            self.has_data = true;
            Ok(())
        }
    }

    /// The producing connection closed: the topic locks when the close was graceful and
    /// some data was written; otherwise it stays as it was.
    pub fn close(&mut self, graceful: bool)
        ensures
            final(self).has_data == old(self).has_data,
            final(self).locked == (old(self).locked || (graceful && old(self).has_data)),
    {
        if graceful && self.has_data {
            self.locked = true;
        }
    }
}

/// Every topic of `topics` is locked.
pub open spec fn all_locked(topics: Seq<TopicLifecycle>) -> bool {
    forall|i: int| 0 <= i < topics.len() ==> #[trigger] topics[i].locked
}

/// The lock state of a sequence.
#[derive(Debug, Clone, Copy, PartialEq, Eq, Structural)]
pub enum SequenceState {
    /// Some topic is still open.
    Open,
    /// Every topic is locked; the sequence awaits finalize.
    TopicsComplete,
    /// Finalized: the sequence is locked.
    Finalized,
}

/// Whether every topic of `topics` is locked.
pub fn topics_all_locked(topics: &Vec<TopicLifecycle>) -> (r: bool)
    ensures
        r == all_locked(topics@),
{
    let mut i: usize = 0;
    while i < topics.len()
        invariant
            i <= topics@.len(),
            forall|j: int| 0 <= j < i ==> #[trigger] topics@[j].locked,
        decreases topics@.len() - i,
    {
        if !topics[i].locked {
            return false;
        }
        i = i + 1;
    }
    true
}

impl SequenceState {
    /// The state of a sequence whose topics are `topics`, given whether it was finalized.
    pub fn observe(topics: &Vec<TopicLifecycle>, finalized: bool) -> (r: Self)
        requires
            finalized ==> all_locked(topics@),
        ensures
            r == (if finalized {
                SequenceState::Finalized
            } else if all_locked(topics@) {
                SequenceState::TopicsComplete
            } else {
                SequenceState::Open
            }),
    {
        if finalized {
            SequenceState::Finalized
        } else if topics_all_locked(topics) {
            SequenceState::TopicsComplete
        } else {
            SequenceState::Open
        }
    }

    /// Finalizes the sequence: accepted only when every topic is locked.
    pub fn finalize(self, topics: &Vec<TopicLifecycle>) -> (r: Result<Self, LockError>)
        ensures
            r is Ok <==> all_locked(topics@),
            r is Ok ==> r == Ok::<SequenceState, LockError>(SequenceState::Finalized),
            r is Err ==> r == Err::<SequenceState, LockError>(LockError::TopicsNotLocked),
    {
        if topics_all_locked(topics) {
            Ok(SequenceState::Finalized)
        } else {
            Err(LockError::TopicsNotLocked)
        }
    }

    /// The sequence is locked.
    pub fn is_locked(&self) -> (r: bool)
        ensures
            r == (*self == SequenceState::Finalized),
    {
        match self {
            SequenceState::Finalized => true,
            _ => false,
        }
    }
}

} // verus!
