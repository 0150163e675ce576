//! Compiled calls: the form in which the task queue stores a call and later
//! replays it. Accounts are listed once, writable signers first, then read-only
//! signers, then writable accounts, then the rest, and each call names its
//! program and accounts by their index in that list.
use vstd::prelude::*;
use crate::address::Address;
use crate::instruction::{AccountMeta, Instruction, InstructionView};
use anchor_lang::prelude::Pubkey;
use anchor_lang::solana_program::instruction::AccountMeta as OutsideMeta;
use anchor_lang::solana_program::instruction::Instruction as OutsideInstruction;
use tuktuk_program::compile_transaction as compile_outside;

verus! {

/// One compiled call: its program and its accounts as indices into the
/// transaction's account list, and its payload.
#[derive(Clone, Debug)]
pub struct CompiledInstruction {
    pub program_id_index: u8,
    pub accounts: Vec<u8>,
    pub data: Vec<u8>,
}

/// What a [`CompiledInstruction`] holds, as mathematical values.
pub struct CompiledInstructionView {
    pub program_id_index: u8,
    pub accounts: Seq<u8>,
    pub data: Seq<u8>,
}

impl View for CompiledInstruction {
    type V = CompiledInstructionView;

    open spec fn view(&self) -> CompiledInstructionView {
        CompiledInstructionView {
            program_id_index: self.program_id_index,
            accounts: self.accounts@,
            data: self.data@,
        }
    }
}

/// A list of calls compiled against one account list.
#[derive(Clone, Debug)]
pub struct CompiledTransaction {
    pub num_rw_signers: u8,
    pub num_ro_signers: u8,
    pub num_rw: u8,
    pub accounts: Vec<Address>,
    pub instructions: Vec<CompiledInstruction>,
    pub signer_seeds: Vec<Vec<Vec<u8>>>,
}

/// What a [`CompiledTransaction`] holds, as mathematical values.
pub struct CompiledTransactionView {
    pub num_rw_signers: u8,
    pub num_ro_signers: u8,
    pub num_rw: u8,
    pub accounts: Seq<Address>,
    pub instructions: Seq<CompiledInstructionView>,
    pub signer_seeds: Seq<Seq<Seq<u8>>>,
}

impl View for CompiledTransaction {
    type V = CompiledTransactionView;

    open spec fn view(&self) -> CompiledTransactionView {
        CompiledTransactionView {
            num_rw_signers: self.num_rw_signers,
            num_ro_signers: self.num_ro_signers,
            num_rw: self.num_rw,
            accounts: self.accounts@,
            instructions: self.instructions@.map_values(|ci: CompiledInstruction| ci@),
            signer_seeds: self.signer_seeds.deep_view(),
        }
    }
}

/// The views of a sequence of calls.
pub open spec fn calls_view(s: Seq<Instruction>) -> Seq<InstructionView> {
    s.map_values(|ix: Instruction| ix@)
}

/// How many account entries, programs included, the calls `ixs` mention.
pub open spec fn mentions(ixs: Seq<InstructionView>) -> nat
    decreases ixs.len(),
{
    if ixs.len() == 0 {
        0
    } else {
        mentions(ixs.drop_last()) + 1 + ixs.last().accounts.len()
    }
}

/// Whether some call of `ixs` wants `key` to sign.
pub open spec fn signs(ixs: Seq<InstructionView>, key: Address) -> bool {
    exists|i: int, j: int|
        0 <= i < ixs.len() && 0 <= j < ixs[i].accounts.len() && #[trigger] ixs[i].accounts[j].pubkey == key
            && ixs[i].accounts[j].is_signer
}

/// Whether some call of `ixs` writes `key`.
pub open spec fn writes(ixs: Seq<InstructionView>, key: Address) -> bool {
    exists|i: int, j: int|
        0 <= i < ixs.len() && 0 <= j < ixs[i].accounts.len() && #[trigger] ixs[i].accounts[j].pubkey == key
            && ixs[i].accounts[j].is_writable
}

/// Whether the entry at position `k` of the account list signs.
pub open spec fn signer_at(c: CompiledTransactionView, k: int) -> bool {
    k < c.num_rw_signers + c.num_ro_signers
}

/// Whether the entry at position `k` of the account list is writable.
pub open spec fn writable_at(c: CompiledTransactionView, k: int) -> bool {
    k < c.num_rw_signers || (c.num_rw_signers + c.num_ro_signers <= k && k < c.num_rw_signers
        + c.num_ro_signers + c.num_rw)
}

/// Whether `ci` names, through the account list of `c`, the program, the
/// accounts and the payload of `ix`.
pub open spec fn compiles_call(c: CompiledTransactionView, ix: InstructionView, ci: CompiledInstructionView) -> bool {
    &&& ci.program_id_index < c.accounts.len()
    &&& c.accounts[ci.program_id_index as int] == ix.program_id
    &&& ci.data == ix.data
    &&& ci.accounts.len() == ix.accounts.len()
    &&& forall|j: int|
        0 <= j < ix.accounts.len() ==> #[trigger] ci.accounts[j] < c.accounts.len()
            && c.accounts[ci.accounts[j] as int] == ix.accounts[j].pubkey
}

/// Whether `c` is a compilation of the calls `ixs` with the extra signer seeds
/// `seeds`: each call in turn, and each entry of the account list flagged as a
/// signer, or as writable, exactly when some call wants it so.
pub open spec fn compiles_to(ixs: Seq<InstructionView>, seeds: Seq<Seq<Seq<u8>>>, c: CompiledTransactionView) -> bool {
    &&& c.signer_seeds == seeds
    &&& c.instructions.len() == ixs.len()
    &&& forall|i: int| 0 <= i < ixs.len() ==> compiles_call(c, ixs[i], #[trigger] c.instructions[i])
    &&& forall|k: int|
        0 <= k < c.accounts.len() ==> signer_at(c, k) == signs(ixs, #[trigger] c.accounts[k])
            && writable_at(c, k) == writes(ixs, c.accounts[k])
}

/// Relies on `tuktuk_program::compile_transaction`: it lists each key once,
/// ordered by its flags, and points each call at that list. It walks a hash
/// map, so keys of one kind may come in any order; it always succeeds.
#[verifier::external_body]
fn compile_transaction(instructions: &Vec<Instruction>, signer_seeds: Vec<Vec<Vec<u8>>>) -> (r: Option<CompiledTransaction>)
    requires
        mentions(calls_view(instructions@)) <= 255,
    ensures
        r is Some,
        r is Some ==> compiles_to(calls_view(instructions@), signer_seeds.deep_view(), r.unwrap()@),
{
    let ixs = instructions.iter().map(|ix| OutsideInstruction {
        program_id: ix.program_id.into(),
        accounts: ix.accounts.iter().map(|m| OutsideMeta { pubkey: m.pubkey.into(), is_signer: m.is_signer, is_writable: m.is_writable }).collect(),
        data: ix.data.clone(),
    }).collect();
    let tx = compile_outside(ixs, signer_seeds).ok()?.0;
    Some(CompiledTransaction {
        num_rw_signers: tx.num_rw_signers,
        num_ro_signers: tx.num_ro_signers,
        num_rw: tx.num_rw,
        accounts: tx.accounts.into_iter().map(Pubkey::to_bytes).collect(),
        instructions: tx.instructions.into_iter().map(|c| CompiledInstruction { program_id_index: c.program_id_index, accounts: c.accounts, data: c.data }).collect(),
        signer_seeds: tx.signer_seeds,
    })
}

/// The entry at index `x` of the account list, with the flags of its position.
pub open spec fn replay_meta(c: CompiledTransactionView, x: u8) -> AccountMeta {
    AccountMeta { pubkey: c.accounts[x as int], is_signer: signer_at(c, x as int), is_writable: writable_at(c, x as int) }
}

/// The call that `ci` stands for, read through the account list of `c`.
pub open spec fn replay_call(c: CompiledTransactionView, ci: CompiledInstructionView) -> InstructionView {
    InstructionView {
        program_id: c.accounts[ci.program_id_index as int],
        accounts: ci.accounts.map_values(|x: u8| replay_meta(c, x)),
        data: ci.data,
    }
}

/// Whether every index in `ci` points into the account list of `c`.
pub open spec fn call_indexed(c: CompiledTransactionView, ci: CompiledInstructionView) -> bool {
    &&& ci.program_id_index < c.accounts.len()
    &&& forall|j: int| 0 <= j < ci.accounts.len() ==> #[trigger] ci.accounts[j] < c.accounts.len()
}

/// The calls that `c` stands for, or nothing where an index points outside its
/// account list.
pub open spec fn replay_calls(c: CompiledTransactionView) -> Option<Seq<InstructionView>> {
    if forall|i: int| 0 <= i < c.instructions.len() ==> call_indexed(c, #[trigger] c.instructions[i]) {
        Some(c.instructions.map_values(|ci: CompiledInstructionView| replay_call(c, ci)))
    } else {
        None
    }
}

/// The account `m` of a call among `ixs`, flagged as a signer, or as writable,
/// where any call of `ixs` wants its key so.
pub open spec fn merged_meta(ixs: Seq<InstructionView>, m: AccountMeta) -> AccountMeta {
    AccountMeta { pubkey: m.pubkey, is_signer: signs(ixs, m.pubkey), is_writable: writes(ixs, m.pubkey) }
}

/// The calls `ixs`, each account flagged as [`merged_meta`] says.
pub open spec fn merged_calls(ixs: Seq<InstructionView>) -> Seq<InstructionView> {
    ixs.map_values(
        |ix: InstructionView|
            InstructionView {
                program_id: ix.program_id,
                accounts: ix.accounts.map_values(|m: AccountMeta| merged_meta(ixs, m)),
                data: ix.data,
            },
    )
}

/// Whether no two accounts of `metas` share a key.
pub open spec fn keys_distinct(metas: Seq<AccountMeta>) -> bool {
    forall|x: int, y: int| 0 <= x < metas.len() && 0 <= y < metas.len() && x != y ==> #[trigger] metas[x].pubkey != #[trigger] metas[y].pubkey
}

/// Replaying a compilation of `ixs` gives back `ixs`, each account carrying
/// the flags that the calls together want for its key.
pub proof fn lemma_replay_of_compilation(ixs: Seq<InstructionView>, seeds: Seq<Seq<Seq<u8>>>, c: CompiledTransactionView)
    requires
        compiles_to(ixs, seeds, c),
    ensures
        replay_calls(c) == Some(merged_calls(ixs)),
{
    assert forall|i: int| 0 <= i < c.instructions.len() implies call_indexed(c, #[trigger] c.instructions[i]) by {
        assert(compiles_call(c, ixs[i], c.instructions[i]));
    }
    let r = c.instructions.map_values(|ci: CompiledInstructionView| replay_call(c, ci));
    let m = merged_calls(ixs);
    assert forall|i: int| 0 <= i < ixs.len() implies #[trigger] r[i] == m[i] by {
        let ci = c.instructions[i];
        assert(compiles_call(c, ixs[i], ci));
        assert forall|j: int| 0 <= j < ci.accounts.len() implies #[trigger] r[i].accounts[j] == m[i].accounts[j] by {
            assert(ci.accounts[j] < c.accounts.len());
            let k = ci.accounts[j] as int;
            assert(signer_at(c, k) == signs(ixs, c.accounts[k]));
        }
        assert(r[i].accounts =~= m[i].accounts);
    }
    assert(r =~= m);
}

/// Compiling the same calls twice, with the same seeds, gives two descriptors
/// that replay as the same calls, whatever order each gave its accounts.
pub proof fn lemma_compilation_deterministic(
    ixs: Seq<InstructionView>,
    seeds: Seq<Seq<Seq<u8>>>,
    c1: CompiledTransactionView,
    c2: CompiledTransactionView,
)
    requires
        compiles_to(ixs, seeds, c1),
        compiles_to(ixs, seeds, c2),
    ensures
        replay_calls(c1) == replay_calls(c2),
        c1.signer_seeds == c2.signer_seeds,
{
    lemma_replay_of_compilation(ixs, seeds, c1);
    lemma_replay_of_compilation(ixs, seeds, c2);
}

/// A single call whose accounts have distinct keys replays, once compiled,
/// exactly as it was built.
pub proof fn lemma_single_call_replays_exactly(ix: InstructionView, seeds: Seq<Seq<Seq<u8>>>, c: CompiledTransactionView)
    requires
        keys_distinct(ix.accounts),
        compiles_to(seq![ix], seeds, c),
    ensures
        replay_calls(c) == Some(seq![ix]),
{
    let ixs = seq![ix];
    lemma_replay_of_compilation(ixs, seeds, c);
    let m = merged_calls(ixs);
    assert forall|j: int| 0 <= j < ix.accounts.len() implies #[trigger] m[0].accounts[j] == ix.accounts[j] by {
        let a = ix.accounts[j];
        assert(ixs[0].accounts[j].pubkey == a.pubkey);
        if a.is_signer {
            assert(signs(ixs, a.pubkey));
        } else {
            assert(!signs(ixs, a.pubkey)) by {
                assert forall|i: int, jj: int|
                    0 <= i < ixs.len() && 0 <= jj < ixs[i].accounts.len() && #[trigger] ixs[i].accounts[jj].pubkey == a.pubkey
                    implies !ixs[i].accounts[jj].is_signer by {
                    assert(i == 0);
                    assert(jj == j);
                }
            }
        }
        if a.is_writable {
            assert(writes(ixs, a.pubkey));
        } else {
            assert(!writes(ixs, a.pubkey)) by {
                assert forall|i: int, jj: int|
                    0 <= i < ixs.len() && 0 <= jj < ixs[i].accounts.len() && #[trigger] ixs[i].accounts[jj].pubkey == a.pubkey
                    implies !ixs[i].accounts[jj].is_writable by {
                    assert(i == 0);
                    assert(jj == j);
                }
            }
        }
    }
    assert(m[0].accounts =~= ix.accounts);
    assert(m =~= seq![ix]);
}

proof fn lemma_mentions_prefix(s: Seq<InstructionView>, i: int)
    requires
        0 <= i <= s.len(),
    ensures
        mentions(s.subrange(0, i)) <= mentions(s),
    decreases s.len() - i,
{
    if i < s.len() {
        lemma_mentions_prefix(s, i + 1);
        assert(s.subrange(0, i + 1).drop_last() =~= s.subrange(0, i));
    } else {
        assert(s.subrange(0, i) =~= s);
    }
}

/// The account-list entry at index `x`, with the flags of its position.
fn meta_at(c: &CompiledTransaction, x: u8) -> (r: AccountMeta)
    requires
        (x as int) < c.accounts.len(),
    ensures
        r == replay_meta(c@, x),
{
    let k = x as usize;
    let signers = c.num_rw_signers as usize + c.num_ro_signers as usize;
    let is_writable = k < c.num_rw_signers as usize || (signers <= k && k < signers + c.num_rw as usize);
    AccountMeta { pubkey: c.accounts[k], is_signer: k < signers, is_writable }
}

/// Reads back the calls that `c` stands for, or nothing where one of its
/// indices points outside its account list.
pub fn replay(c: &CompiledTransaction) -> (r: Option<Vec<Instruction>>)
    ensures
        r is Some <==> replay_calls(c@) is Some,
        r is Some ==> Some(calls_view(r.unwrap()@)) == replay_calls(c@),
{
    let n = c.accounts.len();
    let ghost cv = c@;
    let mut out: Vec<Instruction> = Vec::new();
    let mut i: usize = 0;
    while i < c.instructions.len()
        invariant
            n == c.accounts.len(),
            cv == c@,
            i <= c.instructions.len(),
            forall|k: int| 0 <= k < i ==> call_indexed(cv, #[trigger] cv.instructions[k]),
            calls_view(out@) =~= cv.instructions.subrange(0, i as int).map_values(|ci: CompiledInstructionView| replay_call(cv, ci)),
        decreases c.instructions.len() - i,
    {
        let ci = &c.instructions[i];
        assert(ci@ == cv.instructions[i as int]);
        if ci.program_id_index as usize >= n {
            return None;
        }
        let mut metas: Vec<AccountMeta> = Vec::new();
        let mut j: usize = 0;
        while j < ci.accounts.len()
            invariant
                n == c.accounts.len(),
                cv == c@,
                j <= ci.accounts.len(),
                i < c.instructions.len(),
                ci@ == cv.instructions[i as int],
                forall|k: int| 0 <= k < j ==> #[trigger] ci.accounts@[k] < n,
                metas@ =~= ci.accounts@.subrange(0, j as int).map_values(|x: u8| replay_meta(cv, x)),
            decreases ci.accounts.len() - j,
        {
            let x = ci.accounts[j];
            if x as usize >= n {
                assert(cv.instructions[i as int].accounts[j as int] == x);
                assert(!call_indexed(cv, cv.instructions[i as int]));
                return None;
            }
            metas.push(meta_at(c, x));
            j = j + 1;
        }
        assert(ci.accounts@.subrange(0, j as int) =~= ci.accounts@);
        let ix = Instruction { program_id: c.accounts[ci.program_id_index as usize], accounts: metas, data: ci.data.clone() };
        assert(ix@ == replay_call(cv, cv.instructions[i as int]));
        let ghost before = out@;
        out.push(ix);
        assert(calls_view(out@) =~= calls_view(before).push(ix@));
        assert(cv.instructions.subrange(0, i + 1).map_values(|ci: CompiledInstructionView| replay_call(cv, ci))
            =~= cv.instructions.subrange(0, i as int).map_values(|ci: CompiledInstructionView| replay_call(cv, ci)).push(
            replay_call(cv, cv.instructions[i as int])));
        i = i + 1;
    }
    assert(cv.instructions.subrange(0, i as int) =~= cv.instructions);
    Some(out)
}

/// Compiles `instructions`, with the extra signer seeds `signer_seeds`, into
/// the form that the task queue stores; nothing where the calls mention more
/// accounts than one-byte indices can reach.
pub fn compile_calls(instructions: &Vec<Instruction>, signer_seeds: Vec<Vec<Vec<u8>>>) -> (r: Option<CompiledTransaction>)
    ensures
        r is Some <==> mentions(calls_view(instructions@)) <= 255,
        r is Some ==> compiles_to(calls_view(instructions@), signer_seeds.deep_view(), r.unwrap()@),
{
    let ghost s = calls_view(instructions@);
    let mut total: usize = 0;
    let mut i: usize = 0;
    while i < instructions.len()
        invariant
            s == calls_view(instructions@),
            i <= instructions.len(),
            total == mentions(s.subrange(0, i as int)),
            total <= 255,
        decreases instructions.len() - i,
    {
        let n = instructions[i].accounts.len();
        assert(s.subrange(0, i + 1).drop_last() =~= s.subrange(0, i as int));
        if n >= 255 - total {
            proof {
                lemma_mentions_prefix(s, i + 1);
            }
            return None;
        }
        total = total + 1 + n;
        i = i + 1;
    }
    assert(s.subrange(0, i as int) =~= s);
    compile_transaction(instructions, signer_seeds)
}

} // verus!
