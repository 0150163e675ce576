//! The escrow program's `make` entry point: open the escrow and plan the
//! refund that the task queue will replay at its deadline.
use vstd::prelude::*;
use crate::address::{same_address, escrow_address, escrow_seeds, program_address_of, token_account_address, token_account_seeds, Address};
use crate::escrow::{make_spec, outcome, refund_spec, EscrowError, Ledger, LedgerView};
use crate::instruction::{refund_call, refund_instruction, same_instruction, Instruction, InstructionView, RefundAccounts};
use crate::schedule::{registers, schedule_refund, QueueTask, Trigger};

verus! {

/// The programs that the escrow works with.
#[derive(Clone, Copy, Debug)]
pub struct Programs {
    /// The escrow program itself.
    pub escrow_program: Address,
    pub token_program: Address,
    pub associated_token_program: Address,
    pub system_program: Address,
}

/// The associated token account of `owner` for `mint`, if one can be derived.
pub open spec fn token_account_of(p: Programs, owner: Address, mint: Address) -> Option<Address> {
    match program_address_of(token_account_seeds(owner, p.token_program, mint), p.associated_token_program) {
        Some((a, _)) => Some(a),
        None => None,
    }
}

/// The bump seed of the escrow of `maker` under `seed`, and the accounts of
/// its refund call, where all of them can be derived.
pub open spec fn refund_plan(p: Programs, maker: Address, mint_a: Address, seed: u64) -> Option<(u8, RefundAccounts)> {
    match program_address_of(escrow_seeds(maker, seed), p.escrow_program) {
        Some((escrow, bump)) => match (token_account_of(p, maker, mint_a), token_account_of(p, escrow, mint_a)) {
            (Some(maker_ata_a), Some(vault)) => Some(
                (
                    bump,
                    RefundAccounts {
                        maker,
                        mint_a,
                        maker_ata_a,
                        escrow,
                        vault,
                        token_program: p.token_program,
                        system_program: p.system_program,
                    },
                ),
            ),
            _ => None,
        },
        None => None,
    }
}

fn derive_token_account(p: &Programs, owner: &Address, mint: &Address) -> (r: Option<Address>)
    ensures
        r == token_account_of(*p, *owner, *mint),
{
    match token_account_address(owner, mint, &p.token_program, &p.associated_token_program) {
        Some((a, _)) => Some(a),
        None => None,
    }
}

/// Derives the escrow of `maker` under `seed` and the accounts of its refund.
pub fn plan_refund(p: &Programs, maker: &Address, mint_a: &Address, seed: u64) -> (r: Option<(u8, RefundAccounts)>)
    ensures
        r == refund_plan(*p, *maker, *mint_a, seed),
{
    let (escrow, bump) = match escrow_address(&p.escrow_program, maker, seed) {
        Some(found) => found,
        None => return None,
    };
    let maker_ata_a = match derive_token_account(p, maker, mint_a) {
        Some(a) => a,
        None => return None,
    };
    let vault = match derive_token_account(p, &escrow, mint_a) {
        Some(a) => a,
        None => return None,
    };
    Some(
        (
            bump,
            RefundAccounts {
                maker: *maker,
                mint_a: *mint_a,
                maker_ata_a,
                escrow,
                vault,
                token_program: p.token_program,
                system_program: p.system_program,
            },
        ),
    )
}

/// Makes the escrow of `maker` under `seed` on `ledger` at `now`, and returns
/// the refund task `task_id` to hand to the task queue: the refund call,
/// triggered at `now` plus the ledger's lock duration. No task comes back
/// where that lock duration is not positive, since the deadline has then
/// already come.
///
/// Refused with `Unauthorized` where the escrow's addresses cannot be derived,
/// with `SchedulingFailed` where its deadline is out of the clock's range, and
/// otherwise as [`Ledger::make`] refuses; a refused call changes nothing.
pub fn make(
    ledger: &mut Ledger,
    programs: &Programs,
    maker: Address,
    mint_a: Address,
    mint_b: Address,
    task_id: u16,
    seed: u64,
    deposit: u64,
    receive: u64,
    now: i64,
) -> (r: Result<Option<QueueTask>, EscrowError>)
    requires
        old(ledger).wf(),
    ensures
        final(ledger).wf(),
        r is Err ==> final(ledger)@ == old(ledger)@,
        refund_plan(*programs, maker, mint_a, seed) is None ==> r == Err::<Option<QueueTask>, EscrowError>(
            EscrowError::Unauthorized,
        ),
        refund_plan(*programs, maker, mint_a, seed) matches Some((bump, accounts)) ==> {
            let deadline = now + old(ledger)@.lock_duration;
            let made = make_spec(old(ledger)@, maker, mint_a, mint_b, seed, deposit, receive, bump, now);
            &&& !(i64::MIN <= deadline <= i64::MAX) ==> r == Err::<Option<QueueTask>, EscrowError>(
                EscrowError::SchedulingFailed,
            )
            &&& i64::MIN <= deadline <= i64::MAX ==> {
                &&& made is Err ==> r == Err::<Option<QueueTask>, EscrowError>(made->Err_0)
                &&& made is Ok ==> r is Ok && final(ledger)@ == made->Ok_0
                &&& r is Ok ==> (r->Ok_0 is Some <==> old(ledger)@.lock_duration > 0)
                &&& r matches Ok(Some(task)) ==> registers(
                    task,
                    task_id,
                    Trigger::Timestamp(deadline as i64),
                    seq![refund_call(programs.escrow_program, accounts)],
                )
                &&& r matches Ok(Some(task)) ==> task.description@ == "test"@
            }
        },
{
    let (bump, accounts) = match plan_refund(programs, &maker, &mint_a, seed) {
        Some(plan) => plan,
        None => return Err(EscrowError::Unauthorized),
    };
    let lock = ledger.lock_duration();
    if (now as i128) + (lock as i128) > i64::MAX as i128 || (now as i128) + (lock as i128) < i64::MIN as i128 {
        return Err(EscrowError::SchedulingFailed);
    }
    match ledger.make(maker, mint_a, mint_b, seed, deposit, receive, bump, now) {
        Ok(()) => {},
        Err(e) => return Err(e),
    }
    Ok(schedule_refund(&programs.escrow_program, &accounts, task_id, now, now, lock))
}


/// What a refund replayed by the task queue does to `l`, the escrow's seed
/// being `seed`. The call must be exactly the refund call derived for its
/// maker (its first account), its asset (its second) and `seed`, and that
/// asset must be the escrow's; otherwise it is refused as `Unauthorized`.
/// Then it is the refund of that escrow at `now`.
pub open spec fn replayed_refund_spec(l: LedgerView, p: Programs, call: InstructionView, seed: u64, now: i64) -> Result<
    LedgerView,
    EscrowError,
> {
    if call.accounts.len() != 7 {
        Err(EscrowError::Unauthorized)
    } else {
        let maker = call.accounts[0].pubkey;
        let mint_a = call.accounts[1].pubkey;
        match refund_plan(p, maker, mint_a, seed) {
            None => Err(EscrowError::Unauthorized),
            Some((_, a)) => if call != refund_call(p.escrow_program, a) {
                Err(EscrowError::Unauthorized)
            } else if l.escrows.contains_key((maker, seed)) && l.escrows[(maker, seed)].escrow.mint_a != mint_a {
                Err(EscrowError::Unauthorized)
            } else {
                refund_spec(l, maker, seed, now)
            },
        }
    }
}

/// Runs the refund call `call` that the task queue replays at `now`, for the
/// escrow whose seed is `seed`: refused with `Unauthorized` unless its
/// accounts are exactly those derived for that escrow, and otherwise as
/// [`Ledger::refund`] refuses; a refused call changes nothing.
pub fn refund_replayed(ledger: &mut Ledger, programs: &Programs, call: &Instruction, seed: u64, now: i64) -> (r: Result<
    (),
    EscrowError,
>)
    requires
        old(ledger).wf(),
    ensures
        final(ledger).wf(),
        replayed_refund_spec(old(ledger)@, *programs, call@, seed, now) == outcome(r, final(ledger)@),
        r is Err ==> final(ledger)@ == old(ledger)@,
{
    if call.accounts.len() != 7 {
        return Err(EscrowError::Unauthorized);
    }
    let maker = call.accounts[0].pubkey;
    let mint_a = call.accounts[1].pubkey;
    let accounts = match plan_refund(programs, &maker, &mint_a, seed) {
        Some((_, accounts)) => accounts,
        None => return Err(EscrowError::Unauthorized),
    };
    let expected = refund_instruction(&programs.escrow_program, &accounts);
    if !same_instruction(call, &expected) {
        return Err(EscrowError::Unauthorized);
    }
    match ledger.escrow(&maker, seed) {
        Some(open) => {
            if !same_address(&open.escrow.mint_a, &mint_a) {
                return Err(EscrowError::Unauthorized);
            }
        },
        None => {},
    }
    ledger.refund(maker, seed, now)
}

/// The refund call that `make` registers is accepted when the queue replays
/// it: replaying it is the refund of that escrow.
pub proof fn lemma_registered_refund_accepted(l: LedgerView, p: Programs, maker: Address, mint_a: Address, seed: u64, now: i64)
    requires
        refund_plan(p, maker, mint_a, seed) is Some,
        l.escrows.contains_key((maker, seed)) ==> l.escrows[(maker, seed)].escrow.mint_a == mint_a,
    ensures
        replayed_refund_spec(l, p, refund_call(p.escrow_program, refund_plan(p, maker, mint_a, seed)->Some_0.1), seed, now)
            == refund_spec(l, maker, seed, now),
{
}

} // verus!
