//! The protocol that allocates an identifier for a new link: try an insert
//! with a fresh identifier, retry only on a collision, and give up after a
//! bounded number of attempts.

use vstd::prelude::*;
use crate::models::Link;

verus! {

/// The number of insert attempts that creating a link makes at most.
pub const MAX_CREATE_ATTEMPTS: u32 = 3;

/// Why the store could not do what was asked.
#[derive(Clone, Debug)]
pub enum StoreError {
    /// The backend failed (connection, query, a missing row), with its message.
    Backend(String),
    /// Every identifier tried was already taken.
    RetriesExhausted,
}

/// What one insert of a new link came to.
#[derive(Clone, Debug)]
pub enum InsertOutcome {
    /// The row was written.
    Inserted(Link),
    /// The identifier is already taken.
    Collision,
    /// The backend failed for another reason.
    Failed(String),
}

/// What to do after an insert attempt.
#[derive(Debug)]
pub enum CreateStep {
    /// Draw a new identifier and make the attempt with this number.
    Retry(u32),
    /// Stop with this result.
    Done(Result<Link, StoreError>),
}

/// The step after the `made`-th attempt (counting from one) came to `outcome`,
/// with at most `limit` attempts.
pub open spec fn create_step(made: nat, limit: nat, outcome: InsertOutcome) -> CreateStep {
    match outcome {
        InsertOutcome::Inserted(link) => CreateStep::Done(Ok(link)),
        InsertOutcome::Failed(m) => CreateStep::Done(Err(StoreError::Backend(m))),
        InsertOutcome::Collision => if made < limit {
            CreateStep::Retry((made + 1) as u32)
        } else {
            CreateStep::Done(Err(StoreError::RetriesExhausted))
        },
    }
}

/// Decides what follows the `made`-th insert attempt.
pub fn next_create_step(made: u32, limit: u32, outcome: InsertOutcome) -> (r: CreateStep)
    ensures
        r == create_step(made as nat, limit as nat, outcome),
{
    match outcome {
        InsertOutcome::Inserted(link) => CreateStep::Done(Ok(link)),
        InsertOutcome::Failed(m) => CreateStep::Done(Err(StoreError::Backend(m))),
        InsertOutcome::Collision => if made < limit {
            CreateStep::Retry(made + 1)
        } else {
            CreateStep::Done(Err(StoreError::RetriesExhausted))
        },
    }
}

/// The result of the protocol when the inserts, from the `made`-th attempt
/// on, come to `outcomes` in turn, and how many attempts it made; with no
/// outcome left, it stops as if the last one had collided.
pub open spec fn create_run(outcomes: Seq<InsertOutcome>, made: nat, limit: nat) -> (Result<Link, StoreError>, nat)
    decreases outcomes.len(),
{
    if outcomes.len() == 0 {
        (Err(StoreError::RetriesExhausted), (made - 1) as nat)
    } else {
        match create_step(made, limit, outcomes[0]) {
            CreateStep::Done(r) => (r, made),
            CreateStep::Retry(_) => create_run(outcomes.drop_first(), made + 1, limit),
        }
    }
}

/// Runs the protocol with a limit of `limit` attempts, where the inserts
/// come to `outcomes` in turn; returns the result and the attempts made.
pub fn run_create_protocol(outcomes: Vec<InsertOutcome>, limit: u32) -> (r: (Result<Link, StoreError>, u32))
    requires
        limit >= 1,
    ensures
        (r.0, r.1 as nat) == create_run(outcomes@, 1, limit as nat),
{
    let mut made: u32 = 1;
    let mut i: usize = 0;
    let n = outcomes.len();
    let ghost all = outcomes@;
    let mut pending = outcomes;
    assert(all.subrange(0, n as int) =~= all);
    while i < n
        invariant
            n == all.len(),
            all == outcomes@,
            i <= n,
            1 <= made <= limit,
            made == i + 1,
            pending@ == all.subrange(i as int, n as int),
            create_run(all, 1, limit as nat) == create_run(all.subrange(i as int, n as int), made as nat, limit as nat),
        decreases n - i,
    {
        let outcome = pending.remove(0);
        let ghost rest = all.subrange(i as int, n as int);
        assert(rest[0] == outcome);
        assert(rest.drop_first() =~= all.subrange(i + 1, n as int));
        let step = next_create_step(made, limit, outcome);
        assert(create_run(rest, made as nat, limit as nat) == match create_step(made as nat, limit as nat, rest[0]) {
            CreateStep::Done(r) => (r, made as nat),
            CreateStep::Retry(_) => create_run(rest.drop_first(), (made + 1) as nat, limit as nat),
        });
        match step {
            CreateStep::Done(result) => {
                return (result, made);
            },
            CreateStep::Retry(next) => {
                made = next;
                i = i + 1;
            },
        }
    }
    assert(all.subrange(i as int, n as int).len() == 0);
    (Err(StoreError::RetriesExhausted), made - 1)
}

/// Every insert from the `made`-th attempt on collides.
pub open spec fn all_collide(outcomes: Seq<InsertOutcome>, made: nat, limit: nat) -> bool {
    outcomes.len() + made > limit && forall|j: int|
        0 <= j && j + made <= limit ==> #[trigger] outcomes[j] is Collision
}

proof fn lemma_create_run_from(outcomes: Seq<InsertOutcome>, made: nat, limit: nat)
    requires
        1 <= made <= limit,
    ensures
        create_run(outcomes, made, limit).1 <= limit,
        all_collide(outcomes, made, limit) ==> create_run(outcomes, made, limit) == (
        Err::<Link, StoreError>(StoreError::RetriesExhausted), limit),
    decreases outcomes.len(),
{
    if outcomes.len() > 0 && made < limit && outcomes[0] is Collision {
        lemma_create_run_from(outcomes.drop_first(), made + 1, limit);
        if all_collide(outcomes, made, limit) {
            assert forall|j: int| 0 <= j && j + made + 1 <= limit implies #[trigger] outcomes.drop_first()[j] is Collision by {
                assert(outcomes[j + 1] is Collision);
            }
        }
    } else if all_collide(outcomes, made, limit) {
        assert(outcomes[0] is Collision);
    }
}

/// Creating a link makes at most `limit` insert attempts; and when each of
/// them collides, it fails with `RetriesExhausted` after exactly `limit`
/// attempts, so that no further insert is ever tried.
pub proof fn lemma_create_attempts_bounded(outcomes: Seq<InsertOutcome>, limit: nat)
    requires
        limit >= 1,
    ensures
        create_run(outcomes, 1, limit).1 <= limit,
        all_collide(outcomes, 1, limit) ==> create_run(outcomes, 1, limit) == (
        Err::<Link, StoreError>(StoreError::RetriesExhausted), limit),
{
    lemma_create_run_from(outcomes, 1, limit);
}

} // verus!
