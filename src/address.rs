//! Account addresses and program-derived addresses.
use vstd::prelude::*;

verus! {

/// A ledger address (a public key), as its 32 bytes.
pub type Address = [u8; 32];

/// The most seeds a derivation accepts before its bump seed is added.
pub const MAX_SEEDS: usize = 16;

/// The longest seed a derivation accepts, in bytes.
pub const MAX_SEED_LEN: usize = 32;


/// What a search for a program-derived address returns: the first address
/// found off the curve, with the bump seed that gave it, or nothing.
pub uninterp spec fn program_address_of(seeds: Seq<Seq<u8>>, program: Address) -> Option<(Address, u8)>;

/// Compares two addresses byte by byte.
pub fn same_address(a: &Address, b: &Address) -> (r: bool)
    ensures
        r == (*a == *b),
{
    let mut i: usize = 0;
    while i < 32
        invariant
            i <= 32,
            forall|j: int| 0 <= j < i ==> a@[j] == b@[j],
        decreases 32 - i,
    {
        if a[i] != b[i] {
            return false;
        }
        i = i + 1;
    }
    proof {
        assert(*a =~= *b);
    }
    true
}

/// Relies on `Pubkey::try_find_program_address` (solana-pubkey, reached through
/// anchor-lang): a pure function of the seeds and the program id, which gives
/// nothing when the seeds, with the bump seed added, are too many, or one of
/// them is too long.
#[verifier::external_body]
fn try_find_program_address(seeds: &Vec<Vec<u8>>, program_id: &Address) -> (r: Option<(Address, u8)>)
    ensures
        r == program_address_of(seeds.deep_view(), *program_id),
        seeds.len() >= MAX_SEEDS ==> r is None,
        (exists|i: int| 0 <= i < seeds.len() && seeds[i].len() > MAX_SEED_LEN) ==> r is None,
{
    let refs: Vec<&[u8]> = seeds.iter().map(|s| s.as_slice()).collect();
    let program = anchor_lang::prelude::Pubkey::new_from_array(*program_id);
    anchor_lang::prelude::Pubkey::try_find_program_address(&refs, &program).map(|(k, b)| (k.to_bytes(), b))
}

/// Derives the address that `program_id` controls under `seeds`, with its bump
/// seed, or nothing where no such address exists for these seeds.
pub fn derive_address(seeds: &Vec<Vec<u8>>, program_id: &Address) -> (r: Option<(Address, u8)>)
    ensures
        r == program_address_of(seeds.deep_view(), *program_id),
        seeds.len() >= MAX_SEEDS ==> r is None,
{
    try_find_program_address(seeds, program_id)
}

/// The bytes of the label `queue_authority`.
pub open spec fn queue_authority_seed() -> Seq<u8> {
    seq![113u8, 117, 101, 117, 101, 95, 97, 117, 116, 104, 111, 114, 105, 116, 121]
}

/// The seeds of a program's queue authority: the label alone.
pub open spec fn queue_authority_seeds() -> Seq<Seq<u8>> {
    seq![queue_authority_seed()]
}

/// The little-endian bytes of the `k` low bytes of `n`.
pub open spec fn le_bytes(n: nat, k: nat) -> Seq<u8>
    decreases k,
{
    if k == 0 {
        Seq::empty()
    } else {
        seq![(n % 256) as u8] + le_bytes(n / 256, (k - 1) as nat)
    }
}

/// The bytes of the label `escrow`.
pub open spec fn escrow_seed() -> Seq<u8> {
    seq![101u8, 115, 99, 114, 111, 119]
}

/// The seeds of the escrow that `maker` opened under `seed`.
pub open spec fn escrow_seeds(maker: Address, seed: u64) -> Seq<Seq<u8>> {
    seq![escrow_seed(), maker@, le_bytes(seed as nat, 8)]
}

/// The seeds of the associated token account of `owner` for `mint`.
pub open spec fn token_account_seeds(owner: Address, token_program: Address, mint: Address) -> Seq<Seq<u8>> {
    seq![owner@, token_program@, mint@]
}

/// The `width` low bytes of `n`, least significant first.
pub fn little_endian(n: u64, width: usize) -> (r: Vec<u8>)
    requires
        width <= 8,
    ensures
        r@ == le_bytes(n as nat, width as nat),
{
    let mut out: Vec<u8> = Vec::new();
    let mut v: u64 = n;
    let mut i: usize = 0;
    while i < width
        invariant
            i <= width,
            out@ + le_bytes(v as nat, (width - i) as nat) == le_bytes(n as nat, width as nat),
        decreases width - i,
    {
        proof {
            reveal_with_fuel(le_bytes, 1);
        }
        let ghost before = out@;
        out.push((v % 256) as u8);
        assert(before + le_bytes(v as nat, (width - i) as nat) == out@ + le_bytes((v / 256) as nat, (width - i - 1) as nat));
        v = v / 256;
        i = i + 1;
    }
    assert(le_bytes(v as nat, 0) == Seq::<u8>::empty());
    assert(out@ + Seq::<u8>::empty() =~= out@);
    out
}

/// The eight little-endian bytes of `n`.
pub fn u64_le_bytes(n: u64) -> (r: Vec<u8>)
    ensures
        r@ == le_bytes(n as nat, 8),
{
    little_endian(n, 8)
}

/// The 32 bytes of an address, as a vector.
pub fn address_bytes(a: &Address) -> (r: Vec<u8>)
    ensures
        r@ == a@,
{
    let mut out: Vec<u8> = Vec::new();
    let mut i: usize = 0;
    while i < 32
        invariant
            i <= 32,
            out@ == a@.subrange(0, i as int),
        decreases 32 - i,
    {
        out.push(a[i]);
        i = i + 1;
        assert(out@ =~= a@.subrange(0, i as int));
    }
    assert(out@ =~= a@);
    out
}

/// The signing authority that `program_id` uses to register tasks: the address
/// derived from the label `queue_authority` alone, with its bump seed.
pub fn queue_authority(program_id: &Address) -> (r: Option<(Address, u8)>)
    ensures
        r == program_address_of(queue_authority_seeds(), *program_id),
{
    let label: Vec<u8> = vec![113u8, 117, 101, 117, 101, 95, 97, 117, 116, 104, 111, 114, 105, 116, 121];
    let seeds: Vec<Vec<u8>> = vec![label];
    assert(seeds.deep_view()[0] =~= queue_authority_seed());
    assert(seeds.deep_view() =~= queue_authority_seeds());
    try_find_program_address(&seeds, program_id)
}

/// The address of the escrow that `maker` opens under `seed`, with its bump seed.
pub fn escrow_address(program_id: &Address, maker: &Address, seed: u64) -> (r: Option<(Address, u8)>)
    ensures
        r == program_address_of(escrow_seeds(*maker, seed), *program_id),
{
    let label: Vec<u8> = vec![101u8, 115, 99, 114, 111, 119];
    let owner: Vec<u8> = address_bytes(maker);
    let seeds: Vec<Vec<u8>> = vec![label, owner, u64_le_bytes(seed)];
    assert(seeds.deep_view()[0] =~= escrow_seed());
    assert(seeds.deep_view()[1] =~= maker@);
    assert(seeds.deep_view()[2] =~= le_bytes(seed as nat, 8));
    assert(seeds.deep_view() =~= escrow_seeds(*maker, seed));
    try_find_program_address(&seeds, program_id)
}

/// The associated token account of `owner` for `mint`: the address that the
/// associated-token program derives from the owner, the token program and the
/// mint.
pub fn token_account_address(
    owner: &Address,
    mint: &Address,
    token_program: &Address,
    associated_token_program: &Address,
) -> (r: Option<(Address, u8)>)
    ensures
        r == program_address_of(token_account_seeds(*owner, *token_program, *mint), *associated_token_program),
{
    let seeds: Vec<Vec<u8>> = vec![address_bytes(owner), address_bytes(token_program), address_bytes(mint)];
    assert(seeds.deep_view()[0] =~= owner@);
    assert(seeds.deep_view()[1] =~= token_program@);
    assert(seeds.deep_view()[2] =~= mint@);
    assert(seeds.deep_view() =~= token_account_seeds(*owner, *token_program, *mint));
    try_find_program_address(&seeds, associated_token_program)
}


/// The seeds with which a program signs as its queue authority: the label,
/// then the bump seed that the derivation found.
pub open spec fn queue_authority_signer(bump: u8) -> Seq<Seq<u8>> {
    seq![queue_authority_seed(), seq![bump]]
}

/// Builds the signer seeds of the queue authority whose bump seed is `bump`.
pub fn queue_authority_signer_seeds(bump: u8) -> (r: Vec<Vec<u8>>)
    ensures
        r.deep_view() == queue_authority_signer(bump),
{
    let label: Vec<u8> = vec![113u8, 117, 101, 117, 101, 95, 97, 117, 116, 104, 111, 114, 105, 116, 121];
    let r: Vec<Vec<u8>> = vec![label, vec![bump]];
    assert(r.deep_view()[0] =~= queue_authority_seed());
    assert(r.deep_view()[1] =~= seq![bump]);
    assert(r.deep_view() =~= queue_authority_signer(bump));
    r
}

} // verus!
