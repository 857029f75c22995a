//! Carrying a task out against the store in memory.
use vstd::prelude::*;
use crate::models::Row;
use crate::reply::{Reply, ReplyView};
use crate::store::{executed, Store};
use crate::task::{
    lemma_resumed_gets_closer, resume, resumed, start, started, statements_left, Step, StepView,
    Task,
};

verus! {

/// How many statements a step and those after it may ask.
pub open spec fn statements_ahead(step: StepView) -> nat {
    match step {
        StepView::Ask(_, pending) => statements_left(pending.wait) + 1,
        StepView::Done(_) => 0,
    }
}

/// The rows and the answer once a step and all that follow it are taken,
/// each statement being executed as a store executes it.
pub open spec fn settled(rows: Seq<Row>, step: StepView) -> (Seq<Row>, ReplyView)
    decreases statements_ahead(step),
{
    match step {
        StepView::Ask(statement, pending) => {
            let (after, event) = executed(rows, statement);
            settled(after, resumed(pending, event))
        },
        StepView::Done(reply) => (rows, reply),
    }
}

/// The rows and the answer once a task is carried out on some rows.
pub open spec fn completed(rows: Seq<Row>, task: Task) -> (Seq<Row>, ReplyView) {
    settled(rows, started(task))
}

/// Carries a task out against the store.
pub fn run(store: &mut Store, task: Task) -> (reply: Reply)
    requires
        old(store).well_formed(),
    ensures
        final(store).well_formed(),
        (final(store)@, reply@) == completed(old(store)@, task),
{
    let mut step = start(task);
    loop
        invariant
            store.well_formed(),
            settled(store@, step@) == completed(old(store)@, task),
        decreases statements_ahead(step@),
    {
        match step {
            Step::Done(reply) => {
                return reply;
            },
            Step::Ask(statement, pending) => {
                let event = store.execute(statement);
                proof {
                    lemma_resumed_gets_closer(pending@, event@);
                }
                step = resume(pending, event);
            },
        }
    }
}

} // verus!
