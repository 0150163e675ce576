use deferred_escrow::address::derive_address;
use deferred_escrow::oracle::{analysis_request, pending_analysis, record_analysis, ErrorCode};

const PROGRAM: [u8; 32] = [7u8; 32];
const ORACLE: [u8; 32] = [60u8; 32];

#[test]
fn request_calls_back_with_identity() {
    let result = [61u8; 32];
    let user = [62u8; 32];
    let r = analysis_request(&PROGRAM, &ORACLE, &result, &user, "wallet".to_string()).unwrap();
    assert_eq!(r.text, "wallet");
    assert_eq!(r.callback_program_id, PROGRAM);
    assert_eq!(r.callback_discriminator, vec![152u8, 228, 9, 75, 159, 238, 133, 197]);
    let (identity, _) = derive_address(&vec![b"identity".to_vec()], &ORACLE).unwrap();
    let keys: Vec<[u8; 32]> = r.account_metas.iter().map(|m| m.pubkey).collect();
    assert_eq!(keys, vec![result, user, identity, ORACLE]);
    assert_ne!(identity, ORACLE);
    let writable: Vec<bool> = r.account_metas.iter().map(|m| m.is_writable).collect();
    assert_eq!(writable, vec![true, false, false, false]);
    assert!(r.account_metas.iter().all(|m| !m.is_signer));
}

#[test]
fn pending_record_is_blank() {
    let r = pending_analysis([62u8; 32], 9);
    assert_eq!(r.user, [62u8; 32]);
    assert_eq!(r.analysis, "");
    assert_eq!(r.timestamp, 0);
    assert_eq!(r.bump, 9);
}

#[test]
fn signed_callback_stores_answer() {
    let r = record_analysis(true, [62u8; 32], "low risk".to_string(), 1_700_000_000, 9).unwrap();
    assert_eq!(r.analysis, "low risk");
    assert_eq!(r.timestamp, 1_700_000_000);
    assert_eq!(r.user, [62u8; 32]);
}

#[test]
fn unsigned_callback_is_refused() {
    let r = record_analysis(false, [62u8; 32], "low risk".to_string(), 1_700_000_000, 9);
    assert!(matches!(r, Err(ErrorCode::InvalidOracleCallback)));
}
