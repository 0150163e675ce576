//! Call descriptors: a target program, the ordered accounts it is handed, and
//! an opaque payload.
use vstd::prelude::*;
use crate::address::{address_bytes, le_bytes, little_endian, same_address, Address};
use vstd::utf8::encode_utf8;

verus! {

/// One account handed to a call, with whether the call may write it and
/// whether it must have signed.
#[derive(Clone, Copy, Debug)]
pub struct AccountMeta {
    pub pubkey: Address,
    pub is_signer: bool,
    pub is_writable: bool,
}

/// A call of `program_id` with `accounts`, in order, and the payload `data`.
#[derive(Clone, Debug)]
pub struct Instruction {
    pub program_id: Address,
    pub accounts: Vec<AccountMeta>,
    pub data: Vec<u8>,
}

/// What an [`Instruction`] holds, as mathematical values.
pub struct InstructionView {
    pub program_id: Address,
    pub accounts: Seq<AccountMeta>,
    pub data: Seq<u8>,
}

impl View for Instruction {
    type V = InstructionView;

    open spec fn view(&self) -> InstructionView {
        InstructionView { program_id: self.program_id, accounts: self.accounts@, data: self.data@ }
    }
}

/// The accounts that the escrow's refund entry point takes, in its order.
#[derive(Clone, Copy, Debug)]
pub struct RefundAccounts {
    pub maker: Address,
    pub mint_a: Address,
    pub maker_ata_a: Address,
    pub escrow: Address,
    pub vault: Address,
    pub token_program: Address,
    pub system_program: Address,
}

/// A read-only account that need not sign.
pub open spec fn readonly(key: Address) -> AccountMeta {
    AccountMeta { pubkey: key, is_signer: false, is_writable: false }
}

/// A writable account that need not sign.
pub open spec fn writable(key: Address) -> AccountMeta {
    AccountMeta { pubkey: key, is_signer: false, is_writable: true }
}

/// The payload that selects the refund entry point: the first eight bytes of
/// the SHA-256 digest of `global:refund`.
pub open spec fn refund_data() -> Seq<u8> {
    seq![2u8, 96, 183, 251, 63, 208, 46, 46]
}

/// The refund call of `program_id` on `a`: the maker, both token accounts and
/// the escrow are written, the mint and the two programs are read, and nobody
/// signs, so that a third party can replay it.
pub open spec fn refund_call(program_id: Address, a: RefundAccounts) -> InstructionView {
    InstructionView {
        program_id,
        accounts: seq![
            writable(a.maker),
            readonly(a.mint_a),
            writable(a.maker_ata_a),
            writable(a.escrow),
            writable(a.vault),
            readonly(a.token_program),
            readonly(a.system_program),
        ],
        data: refund_data(),
    }
}

/// Builds the refund call of `program_id` on `accounts`.
pub fn refund_instruction(program_id: &Address, accounts: &RefundAccounts) -> (r: Instruction)
    ensures
        r@ == refund_call(*program_id, *accounts),
{
    let metas: Vec<AccountMeta> = vec![
        AccountMeta { pubkey: accounts.maker, is_signer: false, is_writable: true },
        AccountMeta { pubkey: accounts.mint_a, is_signer: false, is_writable: false },
        AccountMeta { pubkey: accounts.maker_ata_a, is_signer: false, is_writable: true },
        AccountMeta { pubkey: accounts.escrow, is_signer: false, is_writable: true },
        AccountMeta { pubkey: accounts.vault, is_signer: false, is_writable: true },
        AccountMeta { pubkey: accounts.token_program, is_signer: false, is_writable: false },
        AccountMeta { pubkey: accounts.system_program, is_signer: false, is_writable: false },
    ];
    let data: Vec<u8> = vec![2u8, 96, 183, 251, 63, 208, 46, 46];
    let r = Instruction { program_id: *program_id, accounts: metas, data };
    assert(r@.accounts =~= refund_call(*program_id, *accounts).accounts);
    assert(r@.data =~= refund_data());
    r
}


/// The payload that selects the price-feed sampling entry point: the first
/// eight bytes of the SHA-256 digest of `global:sample`.
pub open spec fn sample_data() -> Seq<u8> {
    seq![70u8, 65, 102, 239, 199, 157, 60, 198]
}

/// The sampling call of `program_id`: it writes `payer` and reads the price
/// update account; nobody signs.
pub open spec fn sample_call(program_id: Address, payer: Address, price_update: Address) -> InstructionView {
    InstructionView {
        program_id,
        accounts: seq![writable(payer), readonly(price_update)],
        data: sample_data(),
    }
}

/// Builds the sampling call of `program_id` for `payer` and `price_update`.
pub fn sample_instruction(program_id: &Address, payer: &Address, price_update: &Address) -> (r: Instruction)
    ensures
        r@ == sample_call(*program_id, *payer, *price_update),
{
    let metas: Vec<AccountMeta> = vec![
        AccountMeta { pubkey: *payer, is_signer: false, is_writable: true },
        AccountMeta { pubkey: *price_update, is_signer: false, is_writable: false },
    ];
    let data: Vec<u8> = vec![70u8, 65, 102, 239, 199, 157, 60, 198];
    let r = Instruction { program_id: *program_id, accounts: metas, data };
    assert(r@.accounts =~= sample_call(*program_id, *payer, *price_update).accounts);
    assert(r@.data =~= sample_data());
    r
}



/// Whether two calls are the same: one program, the same accounts with the
/// same flags in the same order, and one payload.
pub fn same_instruction(a: &Instruction, b: &Instruction) -> (r: bool)
    ensures
        r == (a@ == b@),
{
    if !same_address(&a.program_id, &b.program_id) || a.accounts.len() != b.accounts.len() || a.data.len() != b.data.len() {
        return false;
    }
    let mut i: usize = 0;
    while i < a.accounts.len()
        invariant
            i <= a.accounts.len(),
            a.accounts.len() == b.accounts.len(),
            forall|j: int| 0 <= j < i ==> a.accounts@[j] == b.accounts@[j],
        decreases a.accounts.len() - i,
    {
        let x = a.accounts[i];
        let y = b.accounts[i];
        if !same_address(&x.pubkey, &y.pubkey) || x.is_signer != y.is_signer || x.is_writable != y.is_writable {
            return false;
        }
        i = i + 1;
    }
    let mut k: usize = 0;
    while k < a.data.len()
        invariant
            k <= a.data.len(),
            a.data.len() == b.data.len(),
            forall|j: int| 0 <= j < k ==> a.data@[j] == b.data@[j],
        decreases a.data.len() - k,
    {
        if a.data[k] != b.data[k] {
            return false;
        }
        k = k + 1;
    }
    assert(a.accounts@ =~= b.accounts@);
    assert(a.data@ =~= b.data@);
    true
}

/// The accounts that the user-analysis entry point takes, in its order.
#[derive(Clone, Copy, Debug)]
pub struct AnalysisAccounts {
    pub payer: Address,
    pub interaction: Address,
    pub agent: Address,
    pub context_account: Address,
    pub oracle_program: Address,
    pub analysis_result: Address,
    pub system_program: Address,
}

/// The payload that selects the user-analysis entry point: the first eight
/// bytes of the SHA-256 digest of `global:analyze_user`.
pub open spec fn analysis_selector() -> Seq<u8> {
    seq![59u8, 251, 239, 197, 26, 249, 2, 30]
}

/// The payload of a user analysis of `user` on `text`: the selector, the
/// user's 32 bytes, then the text as four little-endian length bytes followed
/// by its UTF-8 bytes.
pub open spec fn analysis_data(user: Address, text: Seq<char>) -> Seq<u8> {
    analysis_selector() + user@ + le_bytes(encode_utf8(text).len(), 4) + encode_utf8(text)
}

/// The user-analysis call of `program_id` on `a` for `user` and `text`: the
/// payer, the interaction and the result are written, the rest is read, and
/// nobody signs.
pub open spec fn analysis_call(program_id: Address, a: AnalysisAccounts, user: Address, text: Seq<char>) -> InstructionView {
    InstructionView {
        program_id,
        accounts: seq![
            writable(a.payer),
            writable(a.interaction),
            readonly(a.agent),
            readonly(a.context_account),
            readonly(a.oracle_program),
            writable(a.analysis_result),
            readonly(a.system_program),
        ],
        data: analysis_data(user, text),
    }
}

/// Builds the user-analysis call of `program_id` on `accounts` for `user` and
/// `text`; nothing where the text is too long for its four length bytes.
pub fn analysis_instruction(program_id: &Address, accounts: &AnalysisAccounts, user: &Address, text: &String) -> (r: Option<Instruction>)
    ensures
        r is Some <==> encode_utf8(text@).len() <= u32::MAX,
        r is Some ==> r.unwrap()@ == analysis_call(*program_id, *accounts, *user, text@),
{
    let bytes: &[u8] = text.as_str().as_bytes();
    assert(bytes@ == encode_utf8(text@));
    if bytes.len() > 4294967295 {
        return None;
    }
    let mut data: Vec<u8> = vec![59u8, 251, 239, 197, 26, 249, 2, 30];
    let mut key = address_bytes(user);
    data.append(&mut key);
    let mut len = little_endian(bytes.len() as u64, 4);
    data.append(&mut len);
    let ghost head = data@;
    let mut i: usize = 0;
    while i < bytes.len()
        invariant
            i <= bytes@.len(),
            data@ == head + bytes@.subrange(0, i as int),
        decreases bytes.len() - i,
    {
        data.push(bytes[i]);
        i = i + 1;
        assert(data@ =~= head + bytes@.subrange(0, i as int));
    }
    assert(bytes@.subrange(0, i as int) =~= bytes@);
    let metas: Vec<AccountMeta> = vec![
        AccountMeta { pubkey: accounts.payer, is_signer: false, is_writable: true },
        AccountMeta { pubkey: accounts.interaction, is_signer: false, is_writable: true },
        AccountMeta { pubkey: accounts.agent, is_signer: false, is_writable: false },
        AccountMeta { pubkey: accounts.context_account, is_signer: false, is_writable: false },
        AccountMeta { pubkey: accounts.oracle_program, is_signer: false, is_writable: false },
        AccountMeta { pubkey: accounts.analysis_result, is_signer: false, is_writable: true },
        AccountMeta { pubkey: accounts.system_program, is_signer: false, is_writable: false },
    ];
    let r = Instruction { program_id: *program_id, accounts: metas, data };
    assert(r@.accounts =~= analysis_call(*program_id, *accounts, *user, text@).accounts);
    assert(r@.data =~= analysis_data(*user, text@));
    Some(r)
}

} // verus!
