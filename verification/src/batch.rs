//! The count kept over a batch of photographs. Each photograph is converted
//! on its own: a failure is counted and the batch goes on.

use vstd::prelude::*;

verus! {

/// How many photographs of a batch were attempted and how many succeeded.
#[derive(Clone, Copy, Debug, PartialEq, Eq, Structural)]
pub struct Tally {
    attempted: u64,
    succeeded: u64,
}

/// What a `Tally` holds.
pub struct TallyView {
    pub attempted: nat,
    pub succeeded: nat,
}

impl View for Tally {
    type V = TallyView;

    closed spec fn view(&self) -> TallyView {
        TallyView { attempted: self.attempted as nat, succeeded: self.succeeded as nat }
    }
}

impl TallyView {
    /// The tally after one more photograph.
    pub open spec fn recorded(self, converted: bool) -> TallyView {
        TallyView {
            attempted: self.attempted + 1,
            succeeded: if converted {
                self.succeeded + 1
            } else {
                self.succeeded
            },
        }
    }

    /// The number of photographs that failed.
    pub open spec fn failed(self) -> nat {
        (self.attempted - self.succeeded) as nat
    }
}

impl Tally {
    #[verifier::type_invariant]
    closed spec fn consistent(self) -> bool {
        self.succeeded <= self.attempted
    }

    /// The tally of an empty batch.
    pub fn new() -> (tally: Tally)
        ensures
            tally@.attempted == 0,
            tally@.succeeded == 0,
    {
        Tally { attempted: 0, succeeded: 0 }
    }

    /// Counts one more photograph, converted or failed. A failure leaves the
    /// number of successes as it was.
    pub fn record(&mut self, converted: bool)
        requires
            old(self)@.attempted < u64::MAX,
        ensures
            final(self)@ == old(self)@.recorded(converted),
    {
        proof {
            use_type_invariant(&*self);
        }
        let succeeded = if converted {
            self.succeeded + 1
        } else {
            self.succeeded
        };
        *self = Tally { attempted: self.attempted + 1, succeeded };
    }

    /// The number of photographs attempted.
    pub fn attempted(&self) -> (n: u64)
        ensures
            n == self@.attempted,
            self@.succeeded <= self@.attempted,
    {
        proof {
            use_type_invariant(self);
        }
        self.attempted
    }

    /// The number of photographs converted.
    pub fn succeeded(&self) -> (n: u64)
        ensures
            n == self@.succeeded,
            self@.succeeded <= self@.attempted,
    {
        proof {
            use_type_invariant(self);
        }
        self.succeeded
    }

    /// The number of photographs that failed.
    pub fn failed(&self) -> (n: u64)
        ensures
            n == self@.failed(),
    {
        proof {
            use_type_invariant(self);
        }
        self.attempted - self.succeeded
    }
}

} // verus!
