//! The decisions behind the library's threads: a slot that holds a thread handle, and the
//! routing of answers to the calls that asked for them.

use std::collections::BTreeMap;
use std::sync::Arc;

use vstd::prelude::*;

verus! {

/// An error returned by a [`Static`] slot.
#[derive(Debug, PartialEq, Eq)]
pub enum StaticError<H> {
    /// The slot already holds a handle; the handle that was offered is given back.
    Initialized(H),
    /// The slot holds no handle.
    Uninitialized,
}

/// A slot that holds at most one thread handle.
#[derive(Debug)]
pub struct Static<H> {
    /// The held handle.
    handle: Option<H>,
}

impl<H> View for Static<H> {
    type V = Option<H>;

    closed spec fn view(&self) -> Option<H> {
        self.handle
    }
}

impl<H> Static<H> {
    /// Creates an empty slot.
    pub fn new() -> (r: Static<H>)
        ensures
            r@ is None,
    {
        Static { handle: None }
    }

    /// Returns whether the slot holds a handle.
    pub fn is_initialized(&self) -> (r: bool)
        ensures
            r == (self@ is Some),
    {
        self.handle.is_some()
    }

    /// Returns whether the slot holds no handle.
    pub fn is_uninitialized(&self) -> (r: bool)
        ensures
            r == (self@ is None),
    {
        self.handle.is_none()
    }

    /// Stores the handle in an empty slot.
    ///
    /// # Errors
    ///
    /// This function will return an error holding the given handle if the slot already holds one.
    pub fn initialize(&mut self, handle: H) -> (r: Result<(), StaticError<H>>)
        ensures
            old(self)@ is None ==> r is Ok && final(self)@ == Some(handle),
            old(self)@ is Some ==> r == Err::<(), StaticError<H>>(StaticError::Initialized(handle))
                && final(self)@ == old(self)@,
    {
        if self.handle.is_some() {
            Err(StaticError::Initialized(handle))
        } else {
            self.handle = Some(handle);
            Ok(())
        }
    }

    /// Takes the handle out of the slot, leaving it empty.
    pub fn uninitialize(&mut self) -> (r: Option<H>)
        ensures
            r == old(self)@,
            final(self)@ is None,
    {
        self.handle.take()
    }

    /// Returns the held handle.
    ///
    /// # Errors
    ///
    /// This function will return an error if the slot holds no handle.
    pub fn try_get(&self) -> (r: Result<&H, StaticError<H>>)
        ensures
            match self@ {
                Some(h) => r == Ok::<&H, StaticError<H>>(&h),
                None => r == Err::<&H, StaticError<H>>(StaticError::Uninitialized),
            },
    {
        match &self.handle {
            Some(h) => Ok(h),
            None => Err(StaticError::Uninitialized),
        }
    }
}

impl<H> Static<H> {
    /// Returns the held handle, to be changed in place.
    ///
    /// # Errors
    ///
    /// This function will return an error if the slot holds no handle.
    pub fn try_get_mut(&mut self) -> (r: Result<&mut H, StaticError<H>>)
        ensures
            old(self)@ is None ==> r is Err && final(self)@ is None,
            old(self)@ is None ==> (r matches Err(e) && e == StaticError::<H>::Uninitialized),
            old(self)@ is Some ==> (r matches Ok(h) && *h == old(self)@.unwrap() && final(self)@ == Some(*final(h))),
    {
        match &mut self.handle {
            Some(h) => Ok(h),
            None => Err(StaticError::Uninitialized),
        }
    }
}

/// A value sent to or from an invoker thread, with the sequence number of the call it belongs to.
///
/// A value without a sequence number expects no answer.
#[derive(Clone, Copy, Debug, Default, PartialEq, Eq)]
pub struct TrackedValue<T> {
    /// The sequence number of the call.
    pub nonce: Option<usize>,
    /// The carried value.
    pub value: T,
}

/// A value sent together with shared state.
#[derive(Clone, Debug, Default)]
pub struct Stateful<T, S> {
    /// The shared state.
    pub state: Arc<T>,
    /// The carried value.
    pub value: S,
}

/// What a call does after an answer arrives.
#[derive(Debug, PartialEq, Eq)]
pub enum CallStep<R> {
    /// The call has its answer.
    Done(R),
    /// The answer belonged to another call and was kept; the call waits for the next one.
    Wait,
    /// The invoker's channel closed.
    Closed,
}

/// The bookkeeping of an invoker: the sequence number of its next call and the answers that
/// arrived for calls that were not waiting for them.
#[derive(Debug)]
pub struct CallTracker<R> {
    /// Answers kept for their calls, by sequence number.
    completed: BTreeMap<usize, R>,
    /// The sequence number of the next call.
    sequence: usize,
}

impl<R> CallTracker<R> {
    /// The kept answers, by sequence number.
    pub closed spec fn spec_completed(&self) -> Map<usize, R> {
        self.completed@
    }

    /// The sequence number of the next call.
    pub closed spec fn spec_sequence(&self) -> usize {
        self.sequence
    }

    /// Creates a tracker with no kept answers, whose first call has sequence number 0.
    pub fn new() -> (r: CallTracker<R>)
        ensures
            r.spec_completed() == Map::<usize, R>::empty(),
            r.spec_sequence() == 0,
    {
        CallTracker { completed: BTreeMap::new(), sequence: 0 }
    }

    /// Hands out the sequence number of a new call; numbers wrap around after the largest one.
    pub fn next_nonce(&mut self) -> (r: usize)
        ensures
            r == old(self).spec_sequence(),
            final(self).spec_sequence() == next_sequence(old(self).spec_sequence()),
            final(self).spec_completed() == old(self).spec_completed(),
    {
        let nonce = self.sequence;
        self.sequence = if nonce == usize::MAX {
            0
        } else {
            nonce + 1
        };
        nonce
    }

    /// Returns whether an answer is kept for the call with sequence number `nonce`.
    pub fn has_completed(&self, nonce: usize) -> (r: bool)
        ensures
            r == self.spec_completed().contains_key(nonce),
    {
        broadcast use vstd::laws_cmp::group_laws_cmp;

        self.completed.contains_key(&nonce)
    }

    /// Takes the answer kept for the call with sequence number `nonce`.
    pub fn take_completed(&mut self, nonce: usize) -> (r: Option<R>)
        ensures
            r == old(self).spec_completed().get(nonce),
            final(self).spec_completed() == old(self).spec_completed().remove(nonce),
            final(self).spec_sequence() == old(self).spec_sequence(),
    {
        broadcast use vstd::laws_cmp::group_laws_cmp;

        self.completed.remove(&nonce)
    }

    /// Decides what the call with sequence number `nonce` does with what the channel gave:
    /// its own answer ends the call, another call's answer is kept for it, and a closed channel
    /// ends the call with an error.
    pub fn receive(&mut self, nonce: usize, message: Option<TrackedValue<R>>) -> (r: CallStep<R>)
        requires
            message matches Some(m) ==> m.nonce is Some,
            message matches Some(m) ==> (m.nonce == Some(nonce) || !old(
                self,
            ).spec_completed().contains_key(m.nonce.unwrap())),
        ensures
            final(self).spec_sequence() == old(self).spec_sequence(),
            match message {
                None => r == CallStep::<R>::Closed && final(self).spec_completed() == old(
                    self,
                ).spec_completed(),
                Some(m) => if m.nonce == Some(nonce) {
                    r == CallStep::Done(m.value) && final(self).spec_completed() == old(
                        self,
                    ).spec_completed()
                } else {
                    r == CallStep::<R>::Wait && final(self).spec_completed() == old(
                        self,
                    ).spec_completed().insert(m.nonce.unwrap(), m.value)
                },
            },
    {
        broadcast use vstd::laws_cmp::group_laws_cmp;

        match message {
            None => CallStep::Closed,
            Some(m) => match m.nonce {
                Some(other) => {
                    if other == nonce {
                        CallStep::Done(m.value)
                    } else {
                        self.completed.insert(other, m.value);
                        CallStep::Wait
                    }
                },
                None => CallStep::Closed,
            },
        }
    }
}

/// The sequence number that follows `sequence`: one more, wrapping around after the largest.
pub open spec fn next_sequence(sequence: usize) -> usize {
    if sequence == usize::MAX {
        0
    } else {
        (sequence + 1) as usize
    }
}

/// Two calls made one after the other never share a sequence number.
pub proof fn lemma_next_sequence_differs(sequence: usize)
    ensures
        next_sequence(sequence) != sequence,
{
}

/// An answer kept for a call that is not waiting is handed to that call when it looks for it, and
/// taking it leaves the kept answers as they were before it arrived.
pub proof fn lemma_kept_answer_taken<R>(completed: Map<usize, R>, nonce: usize, value: R)
    requires
        !completed.contains_key(nonce),
    ensures
        completed.insert(nonce, value).get(nonce) == Some(value),
        completed.insert(nonce, value).remove(nonce) == completed,
{
    assert(completed.insert(nonce, value).remove(nonce) =~= completed);
}

} // verus!
