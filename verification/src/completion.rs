//! The bookkeeping by which a sender learns what became of its batch.

use std::collections::HashMap;
use vstd::prelude::*;

verus! {

/// How much of a batch is still open, and how the rest ended.
#[derive(Clone, Copy, Debug, PartialEq, Eq, Structural)]
pub struct BatchCompletion {
    pub remaining: usize,
    pub executed: usize,
    pub db_errors: usize,
}

/// How the events of a finished batch ended.
#[derive(Clone, Copy, Debug, PartialEq, Eq, Structural)]
pub struct BatchCompletionSnapshot {
    pub executed: usize,
    pub db_errors: usize,
}

/// The batch after one more of its events has ended.
pub open spec fn finished(batch: BatchCompletion, success: bool) -> BatchCompletion {
    BatchCompletion {
        remaining: if batch.remaining > 0 {
            (batch.remaining - 1) as usize
        } else {
            0
        },
        executed: if success {
            (batch.executed + 1) as usize
        } else {
            batch.executed
        },
        db_errors: if success {
            batch.db_errors
        } else {
            (batch.db_errors + 1) as usize
        },
    }
}

impl BatchCompletion {
    /// One more event that ends like this can be counted.
    pub open spec fn can_count(self, success: bool) -> bool {
        if success {
            self.executed < usize::MAX
        } else {
            self.db_errors < usize::MAX
        }
    }

    /// A batch of `remaining` events, none of which has ended.
    pub fn new(remaining: usize) -> (r: Self)
        ensures
            r == (BatchCompletion { remaining, executed: 0, db_errors: 0 }),
    {
        BatchCompletion { remaining, executed: 0, db_errors: 0 }
    }

    /// Counts the end of one event.
    pub fn finish(&mut self, success: bool)
        requires
            old(self).can_count(success),
        ensures
            *final(self) == finished(*old(self), success),
    {
        self.remaining = self.remaining.saturating_sub(1);
        if success {
            self.executed = self.executed + 1;
        } else {
            self.db_errors = self.db_errors + 1;
        }
    }

    /// How the batch ended, once none of its events is open. While it says
    /// nothing the caller waits.
    pub fn wait(&self) -> (r: Option<BatchCompletionSnapshot>)
        ensures
            r == if self.remaining == 0 {
                Some(
                    BatchCompletionSnapshot { executed: self.executed, db_errors: self.db_errors },
                )
            } else {
                None
            },
    {
        if self.remaining > 0 {
            None
        } else {
            Some(BatchCompletionSnapshot { executed: self.executed, db_errors: self.db_errors })
        }
    }
}

/// The batches whose senders wait, each under the ticket that its events carry.
pub struct Completions {
    batches: HashMap<u64, BatchCompletion>,
    next_ticket: u64,
}

/// The open batches and the ticket that comes next.
#[verifier::ext_equal]
pub struct CompletionsModel {
    pub batches: Map<u64, BatchCompletion>,
    pub next_ticket: u64,
}

impl View for Completions {
    type V = CompletionsModel;

    closed spec fn view(&self) -> CompletionsModel {
        CompletionsModel { batches: self.batches@, next_ticket: self.next_ticket }
    }
}

/// The batches after one event of the batch `ticket` has ended. A ticket that
/// nobody waits with changes nothing.
pub open spec fn ticket_finished(
    m: CompletionsModel,
    ticket: u64,
    success: bool,
) -> CompletionsModel {
    if m.batches.contains_key(ticket) {
        CompletionsModel {
            batches: m.batches.insert(ticket, finished(m.batches[ticket], success)),
            ..m
        }
    } else {
        m
    }
}

impl Completions {
    /// No ticket is in use before it has been handed out.
    #[verifier::type_invariant]
    spec fn consistent(self) -> bool {
        forall|t: u64| #[trigger]
            self.batches@.contains_key(t) ==> t < self.next_ticket
    }

    /// No batches.
    pub fn new() -> (r: Self)
        ensures
            r@ == (CompletionsModel { batches: Map::empty(), next_ticket: 0 }),
    {
        Completions { batches: HashMap::new(), next_ticket: 0 }
    }

    /// The ticket that the next batch gets.
    pub fn next_ticket(&self) -> (r: u64)
        ensures
            r == self@.next_ticket,
    {
        self.next_ticket
    }

    /// How much of the batch `ticket` is open and how the rest ended, where its
    /// sender waits.
    pub fn batch(&self, ticket: u64) -> (r: Option<BatchCompletion>)
        ensures
            r == if self@.batches.contains_key(ticket) {
                Some(self@.batches[ticket])
            } else {
                None
            },
    {
        match self.batches.get(&ticket) {
            Some(batch) => Some(*batch),
            None => None,
        }
    }

    /// Opens a batch of `accepted` events and hands out its ticket.
    pub fn open(&mut self, accepted: usize) -> (ticket: u64)
        requires
            old(self)@.next_ticket < u64::MAX,
        ensures
            ticket == old(self)@.next_ticket,
            !old(self)@.batches.contains_key(ticket),
            final(self)@ == (CompletionsModel {
                batches: old(self)@.batches.insert(
                    ticket,
                    BatchCompletion { remaining: accepted, executed: 0, db_errors: 0 },
                ),
                next_ticket: (ticket + 1) as u64,
            }),
    {
        proof {
            use_type_invariant(&*self);
        }
        let mut taken = Completions::new();
        std::mem::swap(self, &mut taken);
        let Completions { mut batches, next_ticket } = taken;
        batches.insert(next_ticket, BatchCompletion::new(accepted));
        *self = Completions { batches, next_ticket: next_ticket + 1 };
        next_ticket
    }

    /// Counts the end of one event of the batch `ticket`, and says whether the
    /// batch has none left.
    pub fn finish(&mut self, ticket: u64, success: bool) -> (all_done: bool)
        requires
            old(self)@.batches.contains_key(ticket) ==> old(self)@.batches[ticket].can_count(
                success,
            ),
        ensures
            final(self)@ == ticket_finished(old(self)@, ticket, success),
            all_done == (final(self)@.batches.contains_key(ticket)
                && final(self)@.batches[ticket].remaining == 0),
    {
        proof {
            use_type_invariant(&*self);
        }
        match self.batch(ticket) {
            Some(batch) => {
                let mut batch = batch;
                batch.finish(success);
                let mut taken = Completions::new();
                std::mem::swap(self, &mut taken);
                let Completions { mut batches, next_ticket } = taken;
                batches.insert(ticket, batch);
                *self = Completions { batches, next_ticket };
                batch.remaining == 0
            },
            None => false,
        }
    }

    /// How the batch `ticket` ended, once none of its events is open; it is
    /// then forgotten. While it says nothing the sender waits.
    pub fn wait(&mut self, ticket: u64) -> (r: Option<BatchCompletionSnapshot>)
        ensures
            match r {
                Some(snapshot) => {
                    let batch = old(self)@.batches[ticket];
                    &&& old(self)@.batches.contains_key(ticket)
                    &&& batch.remaining == 0
                    &&& snapshot == (BatchCompletionSnapshot {
                        executed: batch.executed,
                        db_errors: batch.db_errors,
                    })
                    &&& final(self)@ == (CompletionsModel {
                        batches: old(self)@.batches.remove(ticket),
                        ..old(self)@
                    })
                },
                None => {
                    &&& !old(self)@.batches.contains_key(ticket)
                        || old(self)@.batches[ticket].remaining > 0
                    &&& final(self)@ == old(self)@
                },
            },
    {
        proof {
            use_type_invariant(&*self);
        }
        let snapshot: Option<BatchCompletionSnapshot> = match self.batches.get(&ticket) {
            Some(batch) => batch.wait(),
            None => None,
        };
        if snapshot.is_some() {
            let mut taken = Completions::new();
            std::mem::swap(self, &mut taken);
            let Completions { mut batches, next_ticket } = taken;
            batches.remove(&ticket);
            *self = Completions { batches, next_ticket };
        }
        snapshot
    }
}

/// A batch after its events have ended as `outcomes` say.
pub open spec fn finished_all(batch: BatchCompletion, outcomes: Seq<bool>) -> BatchCompletion
    decreases outcomes.len(),
{
    if outcomes.len() == 0 {
        batch
    } else {
        finished(finished_all(batch, outcomes.drop_last()), outcomes.last())
    }
}

/// How many of `outcomes` are `value`.
pub open spec fn outcomes_that_are(outcomes: Seq<bool>, value: bool) -> nat
    decreases outcomes.len(),
{
    if outcomes.len() == 0 {
        0
    } else {
        outcomes_that_are(outcomes.drop_last(), value) + if outcomes.last() == value {
            1nat
        } else {
            0nat
        }
    }
}

/// A batch is done exactly when at least as many of its events have ended as it
/// had, and every one that has ended is counted, as executed or as failed.
pub proof fn law_batch_accounts_for_every_event(accepted: usize, outcomes: Seq<bool>)
    requires
        outcomes.len() <= usize::MAX,
    ensures
        ({
            let start = BatchCompletion { remaining: accepted, executed: 0, db_errors: 0 };
            let end = finished_all(start, outcomes);
            &&& end.remaining == if outcomes.len() <= accepted {
                accepted - outcomes.len()
            } else {
                0
            }
            &&& end.executed == outcomes_that_are(outcomes, true)
            &&& end.db_errors == outcomes_that_are(outcomes, false)
            &&& end.executed + end.db_errors == outcomes.len()
        }),
    decreases outcomes.len(),
{
    if outcomes.len() > 0 {
        law_batch_accounts_for_every_event(accepted, outcomes.drop_last());
    }
}

/// The end of an event is counted for its own batch, whose open events become
/// one fewer, and for no other; and no ticket is handed out or taken back.
pub proof fn law_ends_are_counted_for_their_batch(
    m: CompletionsModel,
    ticket: u64,
    other: u64,
    success: bool,
)
    requires
        m.batches.contains_key(ticket) ==> m.batches[ticket].can_count(success),
    ensures
        ({
            let after = ticket_finished(m, ticket, success);
            &&& after.next_ticket == m.next_ticket
            &&& after.batches.contains_key(other) <==> m.batches.contains_key(other)
            &&& m.batches.contains_key(other) && other != ticket ==> after.batches[other]
                == m.batches[other]
            &&& m.batches.contains_key(ticket) ==> {
                let b = m.batches[ticket];
                let a = after.batches[ticket];
                &&& a.remaining == 0 ==> b.remaining <= 1
                &&& a.remaining > 0 ==> a.remaining == b.remaining - 1
                &&& success ==> a.executed == b.executed + 1 && a.db_errors == b.db_errors
                &&& !success ==> a.executed == b.executed && a.db_errors == b.db_errors + 1
            }
        }),
{
}

/// [`Completions::open`] hands out a ticket that nobody waits with, for a batch of
/// which nothing has ended, and changes no other batch.
pub proof fn law_opened_batches_are_new(accepted: usize, other: u64)
    ensures
        forall|c: &mut Completions, ticket: u64|
            #[trigger] call_ensures(Completions::open, (c, accepted), ticket) ==> {
                &&& !(*c)@.batches.contains_key(ticket)
                &&& final(c)@.batches.contains_key(ticket)
                &&& final(c)@.batches[ticket].remaining == accepted
                &&& final(c)@.batches[ticket].executed == 0
                &&& final(c)@.batches[ticket].db_errors == 0
                &&& other != ticket ==> (final(c)@.batches.contains_key(other)
                    <==> (*c)@.batches.contains_key(other))
                &&& other != ticket && (*c)@.batches.contains_key(other)
                    ==> final(c)@.batches[other] == (*c)@.batches[other]
                &&& (*c)@.next_ticket < u64::MAX ==> final(c)@.next_ticket > ticket
            },
{
}

/// [`Completions::wait`] tells how a batch ended exactly once all its events have,
/// with the counts of that batch, and forgets that batch and no other.
pub proof fn law_waiting_ends_with_the_batch(ticket: u64, other: u64)
    ensures
        forall|c: &mut Completions, r: Option<BatchCompletionSnapshot>|
            #[trigger] call_ensures(Completions::wait, (c, ticket), r) ==> {
                let open = (*c)@.batches;
                &&& r is Some <==> open.contains_key(ticket) && open[ticket].remaining == 0
                &&& r matches Some(told) ==> {
                    &&& told.executed == open[ticket].executed
                    &&& told.db_errors == open[ticket].db_errors
                    &&& !final(c)@.batches.contains_key(ticket)
                }
                &&& r is None ==> final(c)@ == (*c)@
                &&& other != ticket ==> (final(c)@.batches.contains_key(other)
                    <==> open.contains_key(other))
                &&& other != ticket && open.contains_key(other) ==> final(c)@.batches[other]
                    == open[other]
                &&& final(c)@.next_ticket == (*c)@.next_ticket
            },
{
}

} // verus!
