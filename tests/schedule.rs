use deferred_escrow::address::{derive_address, escrow_address, little_endian, queue_authority, queue_authority_signer_seeds, u64_le_bytes, Address};
use deferred_escrow::compile::{compile_calls, replay, CompiledInstruction, CompiledTransaction};
use deferred_escrow::escrow::{EscrowError, Ledger};
use deferred_escrow::instruction::{analysis_instruction, AnalysisAccounts, refund_instruction, sample_instruction, AccountMeta, Instruction, RefundAccounts};
use deferred_escrow::program::{make, plan_refund, refund_replayed, Programs};
use deferred_escrow::schedule::{queue_task, schedule_analysis, refund_trigger, schedule_refund, schedule_sample, Trigger, CRANK_REWARD, FREE_TASKS, LOCK_DURATION};

const PROGRAM: Address = [7u8; 32];
const DAY: i64 = 86_400;

fn programs() -> Programs {
    Programs {
        escrow_program: PROGRAM,
        token_program: [20u8; 32],
        associated_token_program: [21u8; 32],
        system_program: [0u8; 32],
    }
}

fn accounts() -> RefundAccounts {
    RefundAccounts {
        maker: [1u8; 32],
        mint_a: [10u8; 32],
        maker_ata_a: [30u8; 32],
        escrow: [31u8; 32],
        vault: [32u8; 32],
        token_program: [20u8; 32],
        system_program: [0u8; 32],
    }
}

fn same_call(a: &Instruction, b: &Instruction) -> bool {
    a.program_id == b.program_id
        && a.data == b.data
        && a.accounts.len() == b.accounts.len()
        && a.accounts.iter().zip(b.accounts.iter()).all(|(x, y)| {
            x.pubkey == y.pubkey && x.is_signer == y.is_signer && x.is_writable == y.is_writable
        })
}

#[test]
fn lock_duration_is_one_hundred_days() {
    assert_eq!(LOCK_DURATION, 100 * 24 * 60 * 60);
}

#[test]
fn trigger_is_creation_plus_lock() {
    assert_eq!(refund_trigger(1_000, 1_000, DAY), Some(Trigger::Timestamp(87_400)));
    assert_eq!(refund_trigger(1_000, 50_000, DAY), Some(Trigger::Timestamp(87_400)));
}

#[test]
fn trigger_skipped_once_deadline_passed() {
    assert_eq!(refund_trigger(1_000, 87_400, DAY), None);
    assert_eq!(refund_trigger(1_000, 1_000, 0), None);
    assert_eq!(refund_trigger(1_000, 1_000, -5), None);
}

#[test]
fn le_bytes_of_seed() {
    assert_eq!(u64_le_bytes(0x0102), vec![2u8, 1, 0, 0, 0, 0, 0, 0]);
    assert_eq!(u64_le_bytes(u64::MAX), vec![255u8; 8]);
}

#[test]
fn queue_authority_is_stable_and_off_program() {
    let (a1, b1) = queue_authority(&PROGRAM).unwrap();
    let (a2, b2) = queue_authority(&PROGRAM).unwrap();
    assert_eq!(a1, a2);
    assert_eq!(b1, b2);
    assert_ne!(a1, PROGRAM);
    let (other, _) = queue_authority(&[8u8; 32]).unwrap();
    assert_ne!(a1, other);
}

#[test]
fn escrow_address_depends_on_seed() {
    let maker = [1u8; 32];
    let (e1, _) = escrow_address(&PROGRAM, &maker, 1).unwrap();
    let (e2, _) = escrow_address(&PROGRAM, &maker, 2).unwrap();
    assert_ne!(e1, e2);
    assert_eq!(escrow_address(&PROGRAM, &maker, 1).unwrap().0, e1);
}

#[test]
fn derivation_refuses_too_many_or_long_seeds() {
    let many: Vec<Vec<u8>> = (0..16u8).map(|i| vec![i]).collect();
    assert_eq!(derive_address(&many, &PROGRAM), None);
    let long: Vec<Vec<u8>> = vec![vec![1u8; 33]];
    assert_eq!(derive_address(&long, &PROGRAM), None);
    let fine: Vec<Vec<u8>> = vec![vec![1u8; 32]];
    assert!(derive_address(&fine, &PROGRAM).is_some());
}

#[test]
fn refund_call_layout() {
    let ix = refund_instruction(&PROGRAM, &accounts());
    assert_eq!(ix.program_id, PROGRAM);
    assert_eq!(ix.data, vec![2u8, 96, 183, 251, 63, 208, 46, 46]);
    let flags: Vec<(bool, bool)> = ix.accounts.iter().map(|m| (m.is_signer, m.is_writable)).collect();
    assert_eq!(
        flags,
        vec![(false, true), (false, false), (false, true), (false, true), (false, true), (false, false), (false, false)]
    );
    assert_eq!(ix.accounts[3].pubkey, [31u8; 32]);
}

#[test]
fn compiled_refund_replays_as_built() {
    let ix = refund_instruction(&PROGRAM, &accounts());
    let c = compile_calls(&vec![ix.clone()], vec![]).unwrap();
    assert_eq!(c.accounts.len(), 8);
    assert_eq!(c.num_rw_signers, 0);
    assert_eq!(c.num_ro_signers, 0);
    assert_eq!(c.num_rw, 4);
    let back = replay(&c).unwrap();
    assert_eq!(back.len(), 1);
    assert!(same_call(&back[0], &ix));
}

#[test]
fn compiling_twice_replays_identically() {
    let ix = refund_instruction(&PROGRAM, &accounts());
    let c1 = compile_calls(&vec![ix.clone()], vec![]).unwrap();
    let c2 = compile_calls(&vec![ix.clone()], vec![]).unwrap();
    let r1 = replay(&c1).unwrap();
    let r2 = replay(&c2).unwrap();
    assert!(same_call(&r1[0], &r2[0]));
}

#[test]
fn compiling_merges_flags_of_shared_keys() {
    let k = [5u8; 32];
    let first = Instruction {
        program_id: [9u8; 32],
        accounts: vec![AccountMeta { pubkey: k, is_signer: true, is_writable: false }],
        data: vec![1],
    };
    let second = Instruction {
        program_id: [9u8; 32],
        accounts: vec![
            AccountMeta { pubkey: k, is_signer: false, is_writable: true },
            AccountMeta { pubkey: [6u8; 32], is_signer: false, is_writable: false },
        ],
        data: vec![2, 3],
    };
    let c = compile_calls(&vec![first, second], vec![vec![vec![4u8]]]).unwrap();
    assert_eq!(c.accounts.len(), 3);
    assert_eq!(c.accounts[0], k);
    assert_eq!(c.num_rw_signers, 1);
    assert_eq!(c.num_ro_signers, 0);
    assert_eq!(c.num_rw, 0);
    assert_eq!(c.signer_seeds, vec![vec![vec![4u8]]]);
    let back = replay(&c).unwrap();
    assert_eq!(back.len(), 2);
    assert!(back[0].accounts[0].is_signer && back[0].accounts[0].is_writable);
    assert!(back[1].accounts[0].is_signer && back[1].accounts[0].is_writable);
    assert_eq!(back[1].accounts[1].pubkey, [6u8; 32]);
    assert!(!back[1].accounts[1].is_writable);
    assert_eq!(back[1].data, vec![2u8, 3]);
}

#[test]
fn compiling_too_many_accounts_is_refused() {
    let metas: Vec<AccountMeta> =
        (0..255u8).map(|i| AccountMeta { pubkey: [i; 32], is_signer: false, is_writable: false }).collect();
    let ix = Instruction { program_id: PROGRAM, accounts: metas, data: vec![] };
    assert!(compile_calls(&vec![ix], vec![]).is_none());
}

#[test]
fn replay_refuses_out_of_range_index() {
    let c = CompiledTransaction {
        num_rw_signers: 0,
        num_ro_signers: 0,
        num_rw: 0,
        accounts: vec![PROGRAM],
        instructions: vec![CompiledInstruction { program_id_index: 0, accounts: vec![1], data: vec![] }],
        signer_seeds: vec![],
    };
    assert!(replay(&c).is_none());
}

#[test]
fn refund_task_fields() {
    let t = schedule_refund(&PROGRAM, &accounts(), 3, 1_000, 2_000, DAY).unwrap();
    assert_eq!(t.id, 3);
    assert_eq!(t.trigger, Trigger::Timestamp(87_400));
    assert_eq!(t.crank_reward, Some(CRANK_REWARD));
    assert_eq!(t.crank_reward, Some(1_000_002));
    assert_eq!(t.free_tasks, FREE_TASKS);
    assert_eq!(t.description, "test");
    let back = replay(&t.transaction).unwrap();
    assert!(same_call(&back[0], &refund_instruction(&PROGRAM, &accounts())));
}

#[test]
fn refund_task_skipped_after_deadline() {
    assert!(schedule_refund(&PROGRAM, &accounts(), 3, 1_000, 87_400, DAY).is_none());
}

#[test]
fn sample_task_runs_now() {
    let payer = [40u8; 32];
    let feed = [41u8; 32];
    let t = schedule_sample(&PROGRAM, &payer, &feed, 9);
    assert_eq!(t.trigger, Trigger::Now);
    assert_eq!(t.id, 9);
    assert_eq!(t.description, "test");
    let back = replay(&t.transaction).unwrap();
    assert!(same_call(&back[0], &sample_instruction(&PROGRAM, &payer, &feed)));
    assert_eq!(back[0].data, vec![70u8, 65, 102, 239, 199, 157, 60, 198]);
}

#[test]
fn queue_task_keeps_description() {
    let ix = sample_instruction(&PROGRAM, &[40u8; 32], &[41u8; 32]);
    let t = queue_task(11, Trigger::Now, &vec![ix], "hello".to_string()).unwrap();
    assert_eq!(t.description, "hello");
    assert_eq!(t.transaction.instructions.len(), 1);
}

#[test]
fn make_registers_refund_at_deadline() {
    let mut l = Ledger::new(DAY);
    let maker = [1u8; 32];
    let mint_a = [10u8; 32];
    l.mint_to(maker, mint_a, 100).unwrap();
    let task = make(&mut l, &programs(), maker, mint_a, [11u8; 32], 5, 42, 100, 50, 1_000).unwrap().unwrap();
    assert_eq!(task.id, 5);
    assert_eq!(task.description, "test");
    assert_eq!(task.trigger, Trigger::Timestamp(1_000 + DAY));
    let (bump, accts) = plan_refund(&programs(), &maker, &mint_a, 42).unwrap();
    let (escrow, escrow_bump) = escrow_address(&PROGRAM, &maker, 42).unwrap();
    assert_eq!(accts.escrow, escrow);
    assert_eq!(bump, escrow_bump);
    assert_eq!(l.escrow(&maker, 42).unwrap().escrow.bump, bump);
    let back = replay(&task.transaction).unwrap();
    assert!(same_call(&back[0], &refund_instruction(&PROGRAM, &accts)));
    assert_eq!(l.balance(&maker, &mint_a), 0);
}

#[test]
fn make_with_zero_lock_registers_nothing() {
    let mut l = Ledger::new(0);
    let maker = [1u8; 32];
    l.mint_to(maker, [10u8; 32], 100).unwrap();
    let r = make(&mut l, &programs(), maker, [10u8; 32], [11u8; 32], 5, 42, 100, 50, 1_000).unwrap();
    assert!(r.is_none());
    assert_eq!(l.escrow(&maker, 42).unwrap().vault, 100);
}

#[test]
fn make_twice_same_seed_fails() {
    let mut l = Ledger::new(DAY);
    let maker = [1u8; 32];
    l.mint_to(maker, [10u8; 32], 200).unwrap();
    make(&mut l, &programs(), maker, [10u8; 32], [11u8; 32], 5, 42, 100, 50, 1_000).unwrap();
    let second = make(&mut l, &programs(), maker, [10u8; 32], [11u8; 32], 6, 42, 100, 50, 1_000);
    assert!(matches!(second, Err(EscrowError::AccountInUse)));
    assert_eq!(l.balance(&maker, &[10u8; 32]), 100);
}

#[test]
fn make_with_deadline_out_of_range_fails() {
    let mut l = Ledger::new(DAY);
    let maker = [1u8; 32];
    l.mint_to(maker, [10u8; 32], 100).unwrap();
    let r = make(&mut l, &programs(), maker, [10u8; 32], [11u8; 32], 5, 42, 100, 50, i64::MAX - 10);
    assert!(matches!(r, Err(EscrowError::SchedulingFailed)));
    assert!(l.escrow(&maker, 42).is_none());
}

fn analysis_accounts() -> AnalysisAccounts {
    AnalysisAccounts {
        payer: [50u8; 32],
        interaction: [51u8; 32],
        agent: [52u8; 32],
        context_account: [53u8; 32],
        oracle_program: [54u8; 32],
        analysis_result: [55u8; 32],
        system_program: [0u8; 32],
    }
}

#[test]
fn analysis_payload_encodes_user_and_text() {
    let ix = analysis_instruction(&PROGRAM, &analysis_accounts(), &[3u8; 32], &"hi".to_string()).unwrap();
    let mut expected = vec![59u8, 251, 239, 197, 26, 249, 2, 30];
    expected.extend_from_slice(&[3u8; 32]);
    expected.extend_from_slice(&[2u8, 0, 0, 0, 104, 105]);
    assert_eq!(ix.data, expected);
    let writable: Vec<bool> = ix.accounts.iter().map(|m| m.is_writable).collect();
    assert_eq!(writable, vec![true, true, false, false, false, true, false]);
}

#[test]
fn analysis_payload_counts_utf8_bytes() {
    let ix = analysis_instruction(&PROGRAM, &analysis_accounts(), &[3u8; 32], &"\u{e9}".to_string()).unwrap();
    assert_eq!(ix.data[40..], [2u8, 0, 0, 0, 195, 169]);
}

#[test]
fn analysis_task_runs_now() {
    let text = "wallet summary".to_string();
    let t = schedule_analysis(&PROGRAM, &analysis_accounts(), &[3u8; 32], &text, 12).unwrap();
    assert_eq!(t.trigger, Trigger::Now);
    assert_eq!(t.id, 12);
    assert_eq!(t.description, "test");
    let back = replay(&t.transaction).unwrap();
    let built = analysis_instruction(&PROGRAM, &analysis_accounts(), &[3u8; 32], &text).unwrap();
    assert!(same_call(&back[0], &built));
}

#[test]
fn signer_seeds_are_label_then_bump() {
    let seeds = queue_authority_signer_seeds(253);
    assert_eq!(seeds, vec![b"queue_authority".to_vec(), vec![253u8]]);
    let (_, bump) = queue_authority(&PROGRAM).unwrap();
    let mut with_bump = vec![b"queue_authority".to_vec()];
    with_bump.push(vec![bump]);
    assert_eq!(queue_authority_signer_seeds(bump), with_bump);
}

#[test]
fn little_endian_keeps_low_bytes() {
    assert_eq!(little_endian(0x0102_0304, 4), vec![4u8, 3, 2, 1]);
    assert_eq!(little_endian(0x0102_0304, 2), vec![4u8, 3]);
    assert_eq!(little_endian(77, 0), Vec::<u8>::new());
}

fn made_ledger() -> (Ledger, Instruction) {
    let mut l = Ledger::new(DAY);
    let maker = [1u8; 32];
    l.mint_to(maker, [10u8; 32], 100).unwrap();
    make(&mut l, &programs(), maker, [10u8; 32], [11u8; 32], 5, 42, 100, 50, 1_000).unwrap().unwrap();
    let (_, accts) = plan_refund(&programs(), &maker, &[10u8; 32], 42).unwrap();
    (l, refund_instruction(&PROGRAM, &accts))
}

#[test]
fn replayed_refund_with_registered_accounts_runs() {
    let (mut l, call) = made_ledger();
    assert_eq!(refund_replayed(&mut l, &programs(), &call, 42, 1_000 + DAY), Ok(()));
    assert_eq!(l.balance(&[1u8; 32], &[10u8; 32]), 100);
    assert!(l.escrow(&[1u8; 32], 42).is_none());
    assert_eq!(refund_replayed(&mut l, &programs(), &call, 42, 1_000 + DAY), Err(EscrowError::ResourceAlreadyClosed));
}

#[test]
fn replayed_refund_before_deadline_is_refused() {
    let (mut l, call) = made_ledger();
    assert_eq!(refund_replayed(&mut l, &programs(), &call, 42, 1_000 + DAY - 1), Err(EscrowError::Unauthorized));
    assert_eq!(l.escrow(&[1u8; 32], 42).unwrap().vault, 100);
}

#[test]
fn replayed_refund_with_other_vault_is_refused() {
    let (mut l, mut call) = made_ledger();
    call.accounts[4].pubkey = [99u8; 32];
    assert_eq!(refund_replayed(&mut l, &programs(), &call, 42, 1_000 + DAY), Err(EscrowError::Unauthorized));
    assert_eq!(l.escrow(&[1u8; 32], 42).unwrap().vault, 100);
}

#[test]
fn replayed_refund_with_other_flags_or_seed_is_refused() {
    let (mut l, mut call) = made_ledger();
    assert_eq!(refund_replayed(&mut l, &programs(), &call, 43, 1_000 + DAY), Err(EscrowError::Unauthorized));
    call.accounts[0].is_signer = true;
    assert_eq!(refund_replayed(&mut l, &programs(), &call, 42, 1_000 + DAY), Err(EscrowError::Unauthorized));
    call.accounts.pop();
    assert_eq!(refund_replayed(&mut l, &programs(), &call, 42, 1_000 + DAY), Err(EscrowError::Unauthorized));
    assert_eq!(l.balance(&[1u8; 32], &[10u8; 32]), 0);
}
