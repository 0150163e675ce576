//! User analysis through an LLM oracle: the request that asks the oracle to
//! call back into this program, and the record that the callback stores.
use vstd::prelude::*;
use crate::address::{derive_address, program_address_of, Address};
use crate::instruction::{readonly, writable, AccountMeta};

verus! {

/// Why the oracle's callback was refused.
#[derive(Clone, Copy, Debug, PartialEq, Eq, Structural)]
pub enum ErrorCode {
    /// The oracle's identity did not sign the callback.
    InvalidOracleCallback,
    /// No analysis is stored for the user.
    AnalysisNotFound,
    /// The user named in the callback is not the one analysed.
    InvalidUserPubkey,
    /// The caller is not the oracle program.
    UnauthorizedOracle,
}

/// The stored analysis of `user`: the oracle's answer and when it came.
#[derive(Clone, Debug)]
pub struct AnalysisResult {
    pub user: Address,
    pub analysis: String,
    pub timestamp: i64,
    pub bump: u8,
}

/// What is handed to the oracle: the text to analyse, and the call it makes
/// back with its answer: the program, the entry point's selector and the
/// accounts, in order.
#[derive(Clone, Debug)]
pub struct LlmRequest {
    pub text: String,
    pub callback_program_id: Address,
    pub callback_discriminator: Vec<u8>,
    pub account_metas: Vec<AccountMeta>,
}

/// The bytes of the label `identity`.
pub open spec fn identity_seed() -> Seq<u8> {
    seq![105u8, 100, 101, 110, 116, 105, 116, 121]
}

/// The selector of the callback entry point: the first eight bytes of the
/// SHA-256 digest of `global:callback_from_agent`.
pub open spec fn callback_selector() -> Seq<u8> {
    seq![152u8, 228, 9, 75, 159, 238, 133, 197]
}

/// The accounts of the callback, in its order: the result is written; the
/// user, the oracle's identity and the oracle program are read.
pub open spec fn callback_accounts(analysis_result: Address, user: Address, identity: Address, oracle_program: Address) -> Seq<AccountMeta> {
    seq![writable(analysis_result), readonly(user), readonly(identity), readonly(oracle_program)]
}

/// Builds the request that asks the oracle `oracle_program` to analyse `text`
/// for `user` and to answer through the callback of `program_id`, which
/// writes `analysis_result`. Nothing where the oracle's identity cannot be
/// derived.
pub fn analysis_request(
    program_id: &Address,
    oracle_program: &Address,
    analysis_result: &Address,
    user: &Address,
    text: String,
) -> (r: Option<LlmRequest>)
    ensures
        program_address_of(seq![identity_seed()], *oracle_program) is None ==> r is None,
        program_address_of(seq![identity_seed()], *oracle_program) matches Some((identity, _)) ==> {
            &&& r is Some
            &&& r.unwrap().text@ == text@
            &&& r.unwrap().callback_program_id == *program_id
            &&& r.unwrap().callback_discriminator@ == callback_selector()
            &&& r.unwrap().account_metas@ == callback_accounts(*analysis_result, *user, identity, *oracle_program)
        },
{
    let seeds: Vec<Vec<u8>> = vec![vec![105u8, 100, 101, 110, 116, 105, 116, 121]];
    assert(seeds.deep_view()[0] =~= identity_seed());
    assert(seeds.deep_view() =~= seq![identity_seed()]);
    let identity = match derive_address(&seeds, oracle_program) {
        Some((identity, _)) => identity,
        None => return None,
    };
    let account_metas: Vec<AccountMeta> = vec![
        AccountMeta { pubkey: *analysis_result, is_signer: false, is_writable: true },
        AccountMeta { pubkey: *user, is_signer: false, is_writable: false },
        AccountMeta { pubkey: identity, is_signer: false, is_writable: false },
        AccountMeta { pubkey: *oracle_program, is_signer: false, is_writable: false },
    ];
    let callback_discriminator: Vec<u8> = vec![152u8, 228, 9, 75, 159, 238, 133, 197];
    assert(account_metas@ =~= callback_accounts(*analysis_result, *user, identity, *oracle_program));
    assert(callback_discriminator@ =~= callback_selector());
    Some(LlmRequest { text, callback_program_id: *program_id, callback_discriminator, account_metas })
}

/// The record of `user` while its analysis is pending: no answer, no time.
pub fn pending_analysis(user: Address, bump: u8) -> (r: AnalysisResult)
    ensures
        r.user == user,
        r.analysis@ == Seq::<char>::empty(),
        r.timestamp == 0,
        r.bump == bump,
{
    AnalysisResult { user, analysis: String::new(), timestamp: 0, bump }
}

/// The record that the oracle's callback stores for `user` at `now`: its
/// answer `response`. Refused with `InvalidOracleCallback` unless the
/// oracle's identity signed the callback.
pub fn record_analysis(identity_signed: bool, user: Address, response: String, now: i64, bump: u8) -> (r: Result<
    AnalysisResult,
    ErrorCode,
>)
    ensures
        !identity_signed ==> r == Err::<AnalysisResult, ErrorCode>(ErrorCode::InvalidOracleCallback),
        identity_signed ==> r is Ok && r->Ok_0.user == user && r->Ok_0.analysis@ == response@
            && r->Ok_0.timestamp == now && r->Ok_0.bump == bump,
{
    if !identity_signed {
        return Err(ErrorCode::InvalidOracleCallback);
    }
    Ok(AnalysisResult { user, analysis: response, timestamp: now, bump })
}

} // verus!
