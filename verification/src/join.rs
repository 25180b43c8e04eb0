//! Joining two fallible futures: the decisions of the combinator, apart from
//! the polling itself. The caller polls the futures that are still open,
//! hands each outcome over, and asks whether both results are in. A future is
//! never moved once it is in the join: it is dropped where it lies when its
//! result takes its place.

use vstd::prelude::*;

verus! {

/// One side of the join: a future that is still open, or its result.
pub enum Slot<F, T> {
    Future(F),
    Ready(T),
}

/// Two futures that are to complete together.
pub enum TryJoin<A, B, AR, BR> {
    Polling { a: Slot<A, AR>, b: Slot<B, BR> },
    Done,
}

/// Joins two futures: both are open, and nothing is done yet.
pub fn try_join<A, B, AR, BR>(a: A, b: B) -> (join: TryJoin<A, B, AR, BR>)
    ensures
        join == (TryJoin::Polling { a: Slot::<A, AR>::Future(a), b: Slot::<B, BR>::Future(b) }),
{
    TryJoin::Polling { a: Slot::Future(a), b: Slot::Future(b) }
}

impl<A, B, AR, BR> TryJoin<A, B, AR, BR> {
    /// Whether the first future is still to be polled.
    pub open spec fn first_open(self) -> bool {
        self matches TryJoin::Polling { a: Slot::Future(_), .. }
    }

    /// Whether the second future is still to be polled.
    pub open spec fn second_open(self) -> bool {
        self matches TryJoin::Polling { b: Slot::Future(_), .. }
    }

    /// Whether the first future is still to be polled.
    pub fn wants_first(&self) -> (r: bool)
        ensures
            r == self.first_open(),
    {
        match self {
            TryJoin::Polling { a: Slot::Future(_), .. } => true,
            _ => false,
        }
    }

    /// Whether the second future is still to be polled.
    pub fn wants_second(&self) -> (r: bool)
        ensures
            r == self.second_open(),
    {
        match self {
            TryJoin::Polling { b: Slot::Future(_), .. } => true,
            _ => false,
        }
    }

    /// Takes the outcome of the first future. A result is kept in place of
    /// the future; an error is handed back and ends the join for the caller.
    pub fn settle_first<E>(&mut self, outcome: Result<AR, E>) -> (r: Result<(), E>)
        requires
            old(self).first_open(),
        ensures
            match outcome {
                Ok(value) => r is Ok && *final(self) == (TryJoin::Polling {
                    a: Slot::<A, AR>::Ready(value),
                    b: old(self)->b,
                }),
                Err(e) => r == Err::<(), E>(e) && *final(self) == *old(self),
            },
    {
        match outcome {
            Ok(value) => {
                match self {
                    TryJoin::Polling { a, .. } => {
                        *a = Slot::Ready(value);
                    },
                    TryJoin::Done => {},
                }
                Ok(())
            },
            Err(e) => Err(e),
        }
    }

    /// Takes the outcome of the second future, as `settle_first` does for the
    /// first.
    pub fn settle_second<E>(&mut self, outcome: Result<BR, E>) -> (r: Result<(), E>)
        requires
            old(self).second_open(),
        ensures
            match outcome {
                Ok(value) => r is Ok && *final(self) == (TryJoin::Polling {
                    a: old(self)->a,
                    b: Slot::<B, BR>::Ready(value),
                }),
                Err(e) => r == Err::<(), E>(e) && *final(self) == *old(self),
            },
    {
        match outcome {
            Ok(value) => {
                match self {
                    TryJoin::Polling { b, .. } => {
                        *b = Slot::Ready(value);
                    },
                    TryJoin::Done => {},
                }
                Ok(())
            },
            Err(e) => Err(e),
        }
    }

    /// Hands out both results once both are in, and the join is then done.
    /// While a future is open there is nothing yet, and nothing changes.
    pub fn complete(&mut self) -> (r: Option<(AR, BR)>)
        requires
            *old(self) is Polling,
        ensures
            match *old(self) {
                TryJoin::Polling { a: Slot::Ready(x), b: Slot::Ready(y) } => r == Some((x, y))
                    && *final(self) is Done,
                _ => r is None && *final(self) == *old(self),
            },
    {
        let both_in = match self {
            TryJoin::Polling { a: Slot::Ready(_), b: Slot::Ready(_) } => true,
            _ => false,
        };
        if !both_in {
            return None;
        }
        let mut taken = TryJoin::Done;
        core::mem::swap(self, &mut taken);
        match taken {
            TryJoin::Polling { a: Slot::Ready(x), b: Slot::Ready(y) } => Some((x, y)),
            _ => None,
        }
    }
}

} // verus!
