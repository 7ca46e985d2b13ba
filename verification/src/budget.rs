//! A budget of retries: each retry takes a token, and without a token there is no retry.

use crate::error::{ErrorKind, ErrorView, ResiliencxError};
use vstd::prelude::*;

verus! {

/// What a budget holds.
pub struct BudgetView {
    /// How many tokens a full budget has.
    pub capacity: nat,
    /// How many tokens are left.
    pub remaining: nat,
}

impl BudgetView {
    /// A budget never holds more than its capacity.
    pub open spec fn wf(self) -> bool {
        self.remaining <= self.capacity
    }

    /// A full budget.
    pub open spec fn full(capacity: nat) -> BudgetView {
        BudgetView { capacity, remaining: capacity }
    }

    /// After `count` attempts to take a token.
    pub open spec fn consumed(self, count: nat) -> BudgetView {
        BudgetView {
            remaining: if count <= self.remaining {
                (self.remaining - count) as nat
            } else {
                0
            },
            ..self
        }
    }

    /// After one token was given back.
    pub open spec fn refunded(self) -> BudgetView {
        BudgetView {
            remaining: if self.remaining < self.capacity {
                self.remaining + 1
            } else {
                self.capacity
            },
            ..self
        }
    }
}

/// A budget of retry tokens.
#[derive(Debug)]
pub struct RetryBudget {
    capacity: u32,
    remaining: u32,
}

impl View for RetryBudget {
    type V = BudgetView;

    closed spec fn view(&self) -> BudgetView {
        BudgetView { capacity: self.capacity as nat, remaining: self.remaining as nat }
    }
}

impl RetryBudget {
    #[verifier::type_invariant]
    spec fn within_capacity(self) -> bool {
        self@.wf()
    }

    /// A full budget of `capacity` tokens.
    #[must_use]
    pub fn new(capacity: u32) -> (budget: RetryBudget)
        ensures
            budget@ == BudgetView::full(capacity as nat),
            budget@.capacity == capacity,
            budget@.remaining == capacity,
    {
        RetryBudget { capacity, remaining: capacity }
    }

    /// How many tokens a full budget has.
    #[must_use]
    pub fn capacity(&self) -> (capacity: u32)
        ensures
            capacity == self@.capacity,
    {
        self.capacity
    }

    /// How many tokens are left.
    #[must_use]
    pub fn remaining(&self) -> (remaining: u32)
        ensures
            remaining == self@.remaining,
            remaining <= self@.capacity,
    {
        proof {
            use_type_invariant(self);
        }
        self.remaining
    }

    /// Whether no token is left.
    #[must_use]
    pub fn is_exhausted(&self) -> (exhausted: bool)
        ensures
            exhausted == (self@.remaining == 0),
    {
        self.remaining == 0
    }

    /// Takes a token, if there is one, and says whether it did.
    pub fn try_consume(&mut self) -> (taken: bool)
        ensures
            taken == (old(self)@.remaining > 0),
            final(self)@ == old(self)@.consumed(1),
            final(self)@.capacity == old(self)@.capacity,
            taken ==> final(self)@.remaining + 1 == old(self)@.remaining,
            !taken ==> final(self)@ == old(self)@,
    {
        proof {
            use_type_invariant(&*self);
        }
        if self.remaining == 0 {
            return false;
        }
        self.remaining = self.remaining - 1;
        true
    }

    /// Gives a token back; a full budget stays as it is.
    pub fn refund(&mut self)
        ensures
            final(self)@ == old(self)@.refunded(),
            final(self)@.capacity == old(self)@.capacity,
            old(self)@.remaining < old(self)@.capacity ==> final(self)@.remaining == old(
                self,
            )@.remaining + 1,
            old(self)@.remaining == old(self)@.capacity ==> final(self)@ == old(self)@,
    {
        proof {
            use_type_invariant(&*self);
        }
        if self.remaining < self.capacity {
            self.remaining = self.remaining + 1;
        }
    }

    /// Fills the budget up.
    pub fn reset(&mut self)
        ensures
            final(self)@ == BudgetView::full(old(self)@.capacity),
            final(self)@.capacity == old(self)@.capacity,
            final(self)@.remaining == old(self)@.capacity,
    {
        self.remaining = self.capacity;
    }
}

/// The one error that says a retry was refused for want of a token.
#[must_use]
pub fn budget_exhausted_error() -> (error: ResiliencxError)
    ensures
        error@ == ErrorView::plain(ErrorKind::Unavailable, "重试预算已耗尽"@),
{
    ResiliencxError::unavailable("重试预算已耗尽")
}

/// Giving back a token that was taken restores the budget: a retry that is cancelled while it
/// waits leaves nothing behind.
pub proof fn law_refund_undoes_consume(budget: BudgetView)
    requires
        budget.wf(),
        budget.remaining > 0,
    ensures
        budget.consumed(1).refunded() == budget,
{
}

/// A run that is dropped while it waits for its next retry has cost the budget exactly the retries
/// that had started: the token of the pending one goes back.
pub proof fn law_dropped_run_costs_what_it_started(budget: BudgetView, started: nat)
    requires
        budget.wf(),
        started < budget.remaining,
    ensures
        budget.consumed(started).consumed(1).refunded() == budget.consumed(started),
{
}

/// No operation takes a budget beyond its capacity, and none but the making of it changes the
/// capacity.
pub proof fn law_capacity_bounds_the_budget(budget: BudgetView, count: nat)
    requires
        budget.wf(),
    ensures
        budget.consumed(count).wf(),
        budget.refunded().wf(),
        BudgetView::full(budget.capacity).wf(),
        budget.consumed(count).capacity == budget.capacity,
        budget.refunded().capacity == budget.capacity,
{
}

/// Taking tokens one at a time or all at once comes to the same, so that the runs that share a
/// budget cannot take more tokens together than it held.
pub proof fn law_consumption_adds_up(budget: BudgetView, first: nat, second: nat)
    ensures
        budget.consumed(0) == budget,
        budget.consumed(first).consumed(second) == budget.consumed(first + second),
{
}

/// A budget without capacity has no token, and giving one back makes none.
pub proof fn law_empty_budget_stays_exhausted(budget: BudgetView)
    requires
        budget.wf(),
        budget.capacity == 0,
    ensures
        budget.remaining == 0,
        budget.refunded() == budget,
        budget.consumed(1) == budget,
{
}

/// A budget that is new or was filled up grants exactly as many tokens in a row as its capacity:
/// after `taken` of them there are so many fewer, and another one is to be had exactly as long as
/// fewer were taken than the capacity.
pub proof fn law_full_budget_grants_its_capacity(capacity: nat, taken: nat)
    ensures
        BudgetView::full(capacity).capacity == capacity,
        BudgetView::full(capacity).remaining == capacity,
        taken <= capacity ==> BudgetView::full(capacity).consumed(taken).remaining + taken
            == capacity,
        taken < capacity <==> BudgetView::full(capacity).consumed(taken).remaining > 0,
        BudgetView::full(capacity).consumed(taken).capacity == capacity,
{
}

/// Taking a token from any budget leaves exactly one fewer, and taking one from an empty budget
/// leaves it empty.
pub proof fn law_one_token_at_a_time(budget: BudgetView)
    ensures
        budget.remaining > 0 ==> budget.consumed(1).remaining + 1 == budget.remaining,
        budget.remaining == 0 ==> budget.consumed(1).remaining == 0,
        budget.consumed(1).capacity == budget.capacity,
        forall|count: nat|
            count <= budget.remaining ==> (#[trigger] budget.consumed(count)).remaining + count
                == budget.remaining,
        forall|count: nat|
            count > budget.remaining ==> (#[trigger] budget.consumed(count)).remaining == 0,
{
}

/// Giving a token back to a budget that is not full leaves exactly one more, and to a full one
/// nothing.
pub proof fn law_one_token_comes_back(budget: BudgetView)
    requires
        budget.remaining <= budget.capacity,
    ensures
        budget.remaining < budget.capacity ==> budget.refunded().remaining == budget.remaining + 1,
        budget.remaining == budget.capacity ==> budget.refunded().remaining == budget.remaining,
        budget.refunded().capacity == budget.capacity,
{
}

} // verus!
