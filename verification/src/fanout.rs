//! Fan-out of a command to the agents of several devices, and the
//! aggregation of their outcomes. A single unreachable device never fails
//! the whole request: the command endpoints log per-device failures and
//! carry on, and the task-status endpoint answers with the first device
//! that responded.

use vstd::prelude::*;

verus! {

/// The response envelope the backend answers with.
pub struct ResponseData {
    pub data: String,
}

/// What one device's agent made of a command: its decoded reply, or the
/// error that stands for an unreachable or failing agent.
pub enum AgentOutcome {
    Success(String),
    Failure(String),
}

/// The text an outcome carries.
pub open spec fn outcome_text(o: AgentOutcome) -> String {
    match o {
        AgentOutcome::Success(v) => v,
        AgentOutcome::Failure(v) => v,
    }
}

/// Index of the first successful outcome, or -1 when every device failed.
pub open spec fn first_success_index(outcomes: Seq<AgentOutcome>) -> int
    decreases outcomes.len(),
{
    if outcomes.len() == 0 {
        -1
    } else if outcomes[0] is Success {
        0
    } else {
        let rest = first_success_index(outcomes.drop_first());
        if rest < 0 {
            -1
        } else {
            rest + 1
        }
    }
}

/// The task-status aggregation: the first device that answered wins, an
/// earlier device's failure is never surfaced, and only when every device
/// failed does the endpoint answer with the generic error text.
pub fn task_status_response(outcomes: &Vec<AgentOutcome>) -> (r: ResponseData)
    ensures
        ({
            let i = first_success_index(outcomes@);
            if i >= 0 {
                outcomes@[i] is Success && r.data == outcome_text(outcomes@[i])
            } else {
                r.data@ == "error"@
            }
        }),
{
    let n = outcomes.len();
    let mut i: usize = 0;
    proof {
        assert(outcomes@.skip(0) =~= outcomes@);
    }
    while i < n
        invariant
            n == outcomes@.len(),
            i <= n,
            first_success_index(outcomes@) == {
                let rest = first_success_index(outcomes@.skip(i as int));
                if rest < 0 {
                    -1int
                } else {
                    rest + i
                }
            },
            forall|k: int| 0 <= k < i ==> !(#[trigger] outcomes@[k] is Success),
        decreases n - i,
    {
        proof {
            assert(outcomes@.skip(i as int).drop_first() =~= outcomes@.skip(i as int + 1));
        }
        match &outcomes[i] {
            AgentOutcome::Success(v) => {
                proof {
                    assert(first_success_index(outcomes@) == i);
                }
                return ResponseData { data: v.clone() };
            },
            AgentOutcome::Failure(_) => {},
        }
        i += 1;
    }
    proof {
        assert(outcomes@.skip(n as int) =~= Seq::<AgentOutcome>::empty());
        assert(first_success_index(outcomes@) == -1);
    }
    ResponseData { data: "error".to_owned() }
}

pub open spec fn is_success_fn() -> spec_fn(AgentOutcome) -> bool {
    |o: AgentOutcome| o is Success
}

/// The summary of a command fan-out: how many devices took the command and
/// how many failed. A failure only ever costs its own device's outcome.
pub fn count_successes(outcomes: &Vec<AgentOutcome>) -> (r: (usize, usize))
    ensures
        r.0 == outcomes@.filter(is_success_fn()).len(),
        r.0 + r.1 == outcomes@.len(),
{
    let ghost p = is_success_fn();
    let n = outcomes.len();
    let mut ok: usize = 0;
    let mut i: usize = 0;
    proof {
        assert(outcomes@.take(0) =~= Seq::<AgentOutcome>::empty());
        assert(Seq::<AgentOutcome>::empty().filter(p) =~= Seq::<AgentOutcome>::empty());
    }
    while i < n
        invariant
            n == outcomes@.len(),
            i <= n,
            p == is_success_fn(),
            ok == outcomes@.take(i as int).filter(p).len(),
            ok <= i,
        decreases n - i,
    {
        let hit = match &outcomes[i] {
            AgentOutcome::Success(_) => true,
            AgentOutcome::Failure(_) => false,
        };
        proof {
            let pre = outcomes@.take(i as int);
            let elem = outcomes@[i as int];
            assert(hit == p(elem));
            pre.lemma_filter_push(elem, p);
            assert(pre.push(elem) =~= outcomes@.take(i as int + 1));
        }
        if hit {
            ok += 1;
        }
        i += 1;
    }
    proof {
        assert(outcomes@.take(n as int) =~= outcomes@);
    }
    (ok, n - ok)
}

/// A successful outcome anywhere in the list means the aggregation answers
/// with a device's reply, whatever failures stand before it.
pub proof fn lemma_fanout_success_wins(outcomes: Seq<AgentOutcome>, k: int)
    requires
        0 <= k < outcomes.len(),
        outcomes[k] is Success,
    ensures
        0 <= first_success_index(outcomes) <= k,
        outcomes[first_success_index(outcomes)] is Success,
    decreases outcomes.len(),
{
    if outcomes.len() > 0 && !(outcomes[0] is Success) {
        lemma_fanout_success_wins(outcomes.drop_first(), k - 1);
    }
}

} // verus!
