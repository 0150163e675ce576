//! Trigger policy and task registrations: when a compiled call may run, and
//! what is handed to the task queue to run it.
use vstd::prelude::*;
use vstd::utf8::encode_utf8;
use crate::address::Address;
use crate::compile::{compile_calls, compiles_to, calls_view, keys_distinct, lemma_single_call_replays_exactly, mentions, replay_calls, CompiledTransaction};
use crate::instruction::{analysis_call, analysis_instruction, AnalysisAccounts, refund_call, refund_instruction, sample_call, sample_instruction, Instruction, InstructionView, RefundAccounts};

verus! {

/// The reward offered to whoever runs a registered task.
pub const CRANK_REWARD: u64 = 1_000_002;

/// How many follow-up tasks a registered task may queue without paying.
pub const FREE_TASKS: u8 = 1;

/// How long an escrow stays open before its refund may run: one hundred days,
/// in seconds.
pub const LOCK_DURATION: i64 = 8_640_000;

/// When the task queue may run a task.
#[derive(Clone, Copy, Debug, PartialEq, Eq, Structural)]
pub enum Trigger {
    /// As soon as someone picks it up.
    Now,
    /// At or after the given wall-clock instant, in seconds.
    Timestamp(i64),
}

/// What is handed to the task queue: the task's number in the caller's
/// namespace, its trigger, the compiled call, the reward for running it, its
/// free-task budget and a description.
#[derive(Clone, Debug)]
pub struct QueueTask {
    pub id: u16,
    pub trigger: Trigger,
    pub transaction: CompiledTransaction,
    pub crank_reward: Option<u64>,
    pub free_tasks: u8,
    pub description: String,
}

/// The instant at which the refund of an escrow created at `created_at` may
/// run.
pub open spec fn refund_deadline(created_at: i64, lock_duration: i64) -> int {
    created_at + lock_duration
}

/// The trigger of the refund of an escrow created at `created_at`, decided at
/// `now`: at its deadline, or none where the deadline is not after `now`.
pub open spec fn refund_trigger_spec(created_at: i64, now: i64, lock_duration: i64) -> Option<Trigger> {
    if refund_deadline(created_at, lock_duration) > now {
        Some(Trigger::Timestamp(refund_deadline(created_at, lock_duration) as i64))
    } else {
        None
    }
}

/// Decides when the refund of an escrow created at `created_at` may run, seen
/// at `now`: at `created_at + lock_duration`, where that is still ahead;
/// otherwise it is not scheduled at all.
pub fn refund_trigger(created_at: i64, now: i64, lock_duration: i64) -> (r: Option<Trigger>)
    requires
        i64::MIN <= refund_deadline(created_at, lock_duration) <= i64::MAX,
    ensures
        r == refund_trigger_spec(created_at, now, lock_duration),
{
    let deadline = created_at + lock_duration;
    if deadline > now {
        Some(Trigger::Timestamp(deadline))
    } else {
        None
    }
}

/// Whether `t` registers the calls `ixs` as task `id`, under `trigger`, with
/// the standard reward and budget.
pub open spec fn registers(t: QueueTask, id: u16, trigger: Trigger, ixs: Seq<InstructionView>) -> bool {
    &&& t.id == id
    &&& t.trigger == trigger
    &&& compiles_to(ixs, Seq::empty(), t.transaction@)
    &&& t.crank_reward == Some(CRANK_REWARD)
    &&& t.free_tasks == FREE_TASKS
}

/// Compiles `instructions` into task `id` to run under `trigger`; nothing where
/// the calls mention more accounts than a compiled call can index.
pub fn queue_task(id: u16, trigger: Trigger, instructions: &Vec<Instruction>, description: String) -> (r: Option<QueueTask>)
    ensures
        r is Some <==> mentions(calls_view(instructions@)) <= 255,
        r is Some ==> registers(r.unwrap(), id, trigger, calls_view(instructions@)),
        r is Some ==> r.unwrap().description@ == description@,
{
    let seeds: Vec<Vec<Vec<u8>>> = Vec::new();
    assert(seeds.deep_view() =~= Seq::<Seq<Seq<u8>>>::empty());
    match compile_calls(instructions, seeds) {
        Some(transaction) => Some(QueueTask {
            id,
            trigger,
            transaction,
            crank_reward: Some(CRANK_REWARD),
            free_tasks: FREE_TASKS,
            description,
        }),
        None => None,
    }
}

/// The registration of the refund of the escrow on `accounts`, created at
/// `created_at` and decided at `now`: task `id`, which runs the refund call of
/// `program_id` at the escrow's deadline, described as `test`; nothing where
/// the deadline has passed.
pub fn schedule_refund(
    program_id: &Address,
    accounts: &RefundAccounts,
    id: u16,
    created_at: i64,
    now: i64,
    lock_duration: i64,
) -> (r: Option<QueueTask>)
    requires
        i64::MIN <= refund_deadline(created_at, lock_duration) <= i64::MAX,
    ensures
        r is Some <==> refund_deadline(created_at, lock_duration) > now,
        r is Some ==> registers(
            r.unwrap(),
            id,
            Trigger::Timestamp(refund_deadline(created_at, lock_duration) as i64),
            seq![refund_call(*program_id, *accounts)],
        ),
        r is Some ==> r.unwrap().description@ == "test"@,
{
    match refund_trigger(created_at, now, lock_duration) {
        Some(trigger) => {
            let call = refund_instruction(program_id, accounts);
            let calls: Vec<Instruction> = vec![call];
            assert(calls_view(calls@) =~= seq![refund_call(*program_id, *accounts)]);
            proof {
                reveal_with_fuel(mentions, 2);
            }
            let description = "test".to_owned();
            proof {
                reveal_strlit("test");
            }
            queue_task(id, trigger, &calls, description)
        },
        None => None,
    }
}


/// The registration of a price-feed sample by `program_id` for `payer` and
/// `price_update`, as task `id` that runs as soon as someone picks it up,
/// described as `test`.
pub fn schedule_sample(program_id: &Address, payer: &Address, price_update: &Address, id: u16) -> (r: QueueTask)
    ensures
        registers(r, id, Trigger::Now, seq![sample_call(*program_id, *payer, *price_update)]),
        r.description@ == "test"@,
{
    let call = sample_instruction(program_id, payer, price_update);
    let calls: Vec<Instruction> = vec![call];
    assert(calls_view(calls@) =~= seq![sample_call(*program_id, *payer, *price_update)]);
    proof {
        reveal_with_fuel(mentions, 2);
    }
    let description = "test".to_owned();
    proof {
        reveal_strlit("test");
    }
    let task = queue_task(id, Trigger::Now, &calls, description);
    task.unwrap()
}


/// The registration of a user analysis by `program_id` on `accounts`, for
/// `user` and `text`, as task `id` that runs as soon as someone picks it up,
/// described as `test`; nothing where the text is too long to encode.
pub fn schedule_analysis(program_id: &Address, accounts: &AnalysisAccounts, user: &Address, text: &String, id: u16) -> (r: Option<QueueTask>)
    ensures
        r is Some <==> encode_utf8(text@).len() <= u32::MAX,
        r is Some ==> registers(r.unwrap(), id, Trigger::Now, seq![analysis_call(*program_id, *accounts, *user, text@)]),
        r is Some ==> r.unwrap().description@ == "test"@,
{
    let call = match analysis_instruction(program_id, accounts, user, text) {
        Some(call) => call,
        None => return None,
    };
    let calls: Vec<Instruction> = vec![call];
    assert(calls_view(calls@) =~= seq![analysis_call(*program_id, *accounts, *user, text@)]);
    proof {
        reveal_with_fuel(mentions, 2);
    }
    let description = "test".to_owned();
    proof {
        reveal_strlit("test");
    }
    queue_task(id, Trigger::Now, &calls, description)
}

/// A registered refund, replayed by the task queue, is exactly the refund call
/// that was built for the escrow's accounts, provided those accounts are
/// distinct.
pub proof fn lemma_refund_task_replays(t: QueueTask, id: u16, trigger: Trigger, program_id: Address, accounts: RefundAccounts)
    requires
        registers(t, id, trigger, seq![refund_call(program_id, accounts)]),
        keys_distinct(refund_call(program_id, accounts).accounts),
    ensures
        replay_calls(t.transaction@) == Some(seq![refund_call(program_id, accounts)]),
{
    lemma_single_call_replays_exactly(refund_call(program_id, accounts), Seq::empty(), t.transaction@);
}


/// The refund's trigger does not depend on when it is decided: decided at any
/// instant before the deadline `created_at + lock_duration`, it is that
/// deadline and never `Now`; decided at or after it, there is none.
pub proof fn lemma_refund_trigger_at_deadline(created_at: i64, lock_duration: i64, decided_at: i64)
    requires
        i64::MIN <= refund_deadline(created_at, lock_duration) <= i64::MAX,
    ensures
        refund_deadline(created_at, lock_duration) > decided_at ==> refund_trigger_spec(created_at, decided_at, lock_duration)
            == Some(Trigger::Timestamp((created_at + lock_duration) as i64)),
        refund_deadline(created_at, lock_duration) <= decided_at ==> refund_trigger_spec(
            created_at,
            decided_at,
            lock_duration,
        ) is None,
        refund_trigger_spec(created_at, decided_at, lock_duration) != Some(Trigger::Now),
{
}

} // verus!
