//! The time-locked escrow: a maker locks an amount of one asset in a vault and
//! asks an amount of another in return. Anyone holding that other asset may
//! take the trade; once the lock duration has passed the vault may be refunded
//! to the maker instead. Taking and refunding both close the escrow, so at most
//! one of them ever succeeds.
use vstd::prelude::*;
use crate::address::{Address, same_address};
use crate::schedule::{refund_trigger_spec, Trigger};
use crate::keyed::{keyed, unique_keys, lemma_keyed_index, lemma_keyed_absent, lemma_keyed_push, lemma_keyed_update, lemma_keyed_remove};

verus! {

/// The holding of `owner` in the asset `mint`.
#[derive(Clone, Copy, Debug)]
pub struct TokenAccount {
    pub owner: Address,
    pub mint: Address,
    pub amount: u64,
}

/// One pending trade: `maker` offers what lies in the vault, of asset
/// `mint_a`, for `receive` of asset `mint_b`.
#[derive(Clone, Copy, Debug)]
pub struct Escrow {
    pub seed: u64,
    pub maker: Address,
    pub mint_a: Address,
    pub mint_b: Address,
    pub receive: u64,
    pub bump: u8,
    pub created_at: i64,
}

/// An escrow that is open, with the balance of its vault.
#[derive(Clone, Copy, Debug)]
pub struct OpenEscrow {
    pub escrow: Escrow,
    pub vault: u64,
}

/// Why an escrow operation was refused. A refused operation changes nothing.
#[derive(Clone, Copy, Debug, PartialEq, Eq, Structural)]
pub enum EscrowError {
    /// A deposit or a payment exceeds the payer's balance.
    InsufficientFunds,
    /// The caller may not do this, or not yet: a refund before the deadline,
    /// or an escrow whose addresses cannot be derived.
    Unauthorized,
    /// The escrow is not open: never made, taken or refunded.
    ResourceAlreadyClosed,
    /// The maker already has an open escrow under this seed.
    AccountInUse,
    /// A balance would exceed what an account can hold.
    Overflow,
    /// The refund cannot be scheduled: its deadline lies beyond the clock's
    /// range.
    SchedulingFailed,
}

/// The key of a token account: its owner and its asset.
pub open spec fn token_key() -> spec_fn(TokenAccount) -> (Address, Address) {
    |t: TokenAccount| (t.owner, t.mint)
}

/// The key of an escrow: its maker and its seed.
pub open spec fn escrow_key() -> spec_fn(OpenEscrow) -> (Address, u64) {
    |e: OpenEscrow| (e.escrow.maker, e.escrow.seed)
}

/// A ledger, as mathematical values: the token accounts by owner and asset,
/// the open escrows by maker and seed, and the lock duration of every escrow.
pub struct LedgerView {
    pub tokens: Map<(Address, Address), TokenAccount>,
    pub escrows: Map<(Address, u64), OpenEscrow>,
    pub lock_duration: i64,
}

/// The balance of `owner` in `mint`; none is a balance of zero.
pub open spec fn balance_in(l: LedgerView, owner: Address, mint: Address) -> int {
    if l.tokens.contains_key((owner, mint)) {
        l.tokens[(owner, mint)].amount as int
    } else {
        0
    }
}

/// `l` with the balance of `owner` in `mint` set to `amount`.
pub open spec fn with_balance(l: LedgerView, owner: Address, mint: Address, amount: int) -> LedgerView {
    LedgerView {
        tokens: l.tokens.insert((owner, mint), TokenAccount { owner, mint, amount: amount as u64 }),
        ..l
    }
}

/// What making an escrow does to `l`: it opens the escrow of `maker` under
/// `seed`, created at `now`, and moves `deposit` of `mint_a` from the maker
/// into its vault.
pub open spec fn make_spec(
    l: LedgerView,
    maker: Address,
    mint_a: Address,
    mint_b: Address,
    seed: u64,
    deposit: u64,
    receive: u64,
    bump: u8,
    now: i64,
) -> Result<LedgerView, EscrowError> {
    if l.escrows.contains_key((maker, seed)) {
        Err(EscrowError::AccountInUse)
    } else if balance_in(l, maker, mint_a) < deposit {
        Err(EscrowError::InsufficientFunds)
    } else {
        let escrow = Escrow { seed, maker, mint_a, mint_b, receive, bump, created_at: now };
        let l1 = with_balance(l, maker, mint_a, balance_in(l, maker, mint_a) - deposit);
        Ok(LedgerView { escrows: l1.escrows.insert((maker, seed), OpenEscrow { escrow, vault: deposit }), ..l1 })
    }
}

/// What taking the escrow of `maker` under `seed` does to `l`: the taker pays
/// the asked amount of `mint_b` to the maker, receives the whole vault, and
/// the escrow closes.
pub open spec fn take_spec(l: LedgerView, taker: Address, maker: Address, seed: u64) -> Result<LedgerView, EscrowError> {
    if !l.escrows.contains_key((maker, seed)) {
        Err(EscrowError::ResourceAlreadyClosed)
    } else {
        let open = l.escrows[(maker, seed)];
        let e = open.escrow;
        if balance_in(l, taker, e.mint_b) < e.receive {
            Err(EscrowError::InsufficientFunds)
        } else {
            let l1 = with_balance(l, taker, e.mint_b, balance_in(l, taker, e.mint_b) - e.receive);
            let paid = balance_in(l1, maker, e.mint_b) + e.receive;
            if paid > u64::MAX {
                Err(EscrowError::Overflow)
            } else {
                let l2 = with_balance(l1, maker, e.mint_b, paid);
                let got = balance_in(l2, taker, e.mint_a) + open.vault;
                if got > u64::MAX {
                    Err(EscrowError::Overflow)
                } else {
                    let l3 = with_balance(l2, taker, e.mint_a, got);
                    Ok(LedgerView { escrows: l3.escrows.remove((maker, seed)), ..l3 })
                }
            }
        }
    }
}

/// The first instant at which the escrow `e` may be refunded under `l`.
pub open spec fn deadline_of(l: LedgerView, e: Escrow) -> int {
    e.created_at + l.lock_duration
}

/// What refunding the escrow of `maker` under `seed` at `now` does to `l`: once
/// the deadline has come, the whole vault returns to the maker and the escrow
/// closes.
pub open spec fn refund_spec(l: LedgerView, maker: Address, seed: u64, now: i64) -> Result<LedgerView, EscrowError> {
    if !l.escrows.contains_key((maker, seed)) {
        Err(EscrowError::ResourceAlreadyClosed)
    } else {
        let open = l.escrows[(maker, seed)];
        let e = open.escrow;
        if now < deadline_of(l, e) {
            Err(EscrowError::Unauthorized)
        } else {
            let back = balance_in(l, maker, e.mint_a) + open.vault;
            if back > u64::MAX {
                Err(EscrowError::Overflow)
            } else {
                let l1 = with_balance(l, maker, e.mint_a, back);
                Ok(LedgerView { escrows: l1.escrows.remove((maker, seed)), ..l1 })
            }
        }
    }
}

/// What adding `amount` of `mint` to the holding of `owner` does to `l`.
pub open spec fn mint_to_spec(l: LedgerView, owner: Address, mint: Address, amount: u64) -> Result<LedgerView, EscrowError> {
    if balance_in(l, owner, mint) + amount > u64::MAX {
        Err(EscrowError::Overflow)
    } else {
        Ok(with_balance(l, owner, mint, balance_in(l, owner, mint) + amount))
    }
}

/// The state after an operation that returned `r`, seen as the operation's
/// specification states it.
pub open spec fn outcome(r: Result<(), EscrowError>, after: LedgerView) -> Result<LedgerView, EscrowError> {
    match r {
        Ok(_) => Ok(after),
        Err(e) => Err(e),
    }
}

/// Token accounts and open escrows, each kept once under its key.
pub struct Ledger {
    tokens: Vec<TokenAccount>,
    escrows: Vec<OpenEscrow>,
    lock_duration: i64,
}

impl View for Ledger {
    type V = LedgerView;

    closed spec fn view(&self) -> LedgerView {
        LedgerView {
            tokens: keyed(self.tokens@, token_key()),
            escrows: keyed(self.escrows@, escrow_key()),
            lock_duration: self.lock_duration,
        }
    }
}

impl Ledger {
    /// Whether no key is held twice.
    pub closed spec fn wf(&self) -> bool {
        &&& unique_keys(self.tokens@, token_key())
        &&& unique_keys(self.escrows@, escrow_key())
    }

    /// An empty ledger whose escrows stay locked for `lock_duration` seconds.
    pub fn new(lock_duration: i64) -> (r: Ledger)
        ensures
            r.wf(),
            r@.tokens == Map::<(Address, Address), TokenAccount>::empty(),
            r@.escrows == Map::<(Address, u64), OpenEscrow>::empty(),
            r@.lock_duration == lock_duration,
    {
        let r = Ledger { tokens: Vec::new(), escrows: Vec::new(), lock_duration };
        assert(r.tokens@.len() == 0);
        assert(r.escrows@.len() == 0);
        r
    }

    /// How long every escrow of this ledger stays locked.
    pub fn lock_duration(&self) -> (r: i64)
        ensures
            r == self@.lock_duration,
    {
        self.lock_duration
    }

    fn find_token(&self, owner: &Address, mint: &Address) -> (r: Option<usize>)
        requires
            self.wf(),
        ensures
            r matches Some(i) ==> i < self.tokens.len() && self.tokens@[i as int].owner == *owner
                && self.tokens@[i as int].mint == *mint && self@.tokens.contains_key((*owner, *mint))
                && self@.tokens[(*owner, *mint)] == self.tokens@[i as int],
            r is None ==> !self@.tokens.contains_key((*owner, *mint))
                && forall|j: int| 0 <= j < self.tokens.len() ==> (token_key())(#[trigger] self.tokens@[j]) != (*owner, *mint),
    {
        let mut i: usize = 0;
        while i < self.tokens.len()
            invariant
                self.wf(),
                i <= self.tokens.len(),
                forall|j: int| 0 <= j < i ==> (token_key())(#[trigger] self.tokens@[j]) != (*owner, *mint),
            decreases self.tokens.len() - i,
        {
            let t = &self.tokens[i];
            if same_address(&t.owner, owner) && same_address(&t.mint, mint) {
                proof {
                    lemma_keyed_index(self.tokens@, token_key(), i as int);
                }
                return Some(i);
            }
            i = i + 1;
        }
        proof {
            lemma_keyed_absent(self.tokens@, token_key(), (*owner, *mint));
        }
        None
    }

    /// The balance of `owner` in `mint`: zero where it holds none.
    pub fn balance(&self, owner: &Address, mint: &Address) -> (r: u64)
        requires
            self.wf(),
        ensures
            r == balance_in(self@, *owner, *mint),
    {
        match self.find_token(owner, mint) {
            Some(i) => self.tokens[i].amount,
            None => 0,
        }
    }

    fn set_balance(&mut self, owner: Address, mint: Address, amount: u64)
        requires
            old(self).wf(),
        ensures
            final(self).wf(),
            final(self)@ == with_balance(old(self)@, owner, mint, amount as int),
            final(self).escrows@ == old(self).escrows@,
    {
        let account = TokenAccount { owner, mint, amount };
        match self.find_token(&owner, &mint) {
            Some(i) => {
                proof {
                    lemma_keyed_update(self.tokens@, token_key(), i as int, account);
                }
                self.tokens.set(i, account);
                assert(unique_keys(self.tokens@, token_key())) by {
                    assert forall|x: int, y: int|
                        0 <= x < self.tokens@.len() && 0 <= y < self.tokens@.len() && x != y
                        implies (token_key())(self.tokens@[x]) != (token_key())(self.tokens@[y]) by {
                        assert(x != i ==> self.tokens@[x] == old(self).tokens@[x]);
                        assert(y != i ==> self.tokens@[y] == old(self).tokens@[y]);
                    }
                }
            },
            None => {
                proof {
                    lemma_keyed_push(self.tokens@, token_key(), account);
                }
                self.tokens.push(account);
            },
        }
        assert(self@.tokens =~= with_balance(old(self)@, owner, mint, amount as int).tokens);
    }

    fn find_escrow(&self, maker: &Address, seed: u64) -> (r: Option<usize>)
        requires
            self.wf(),
        ensures
            r matches Some(i) ==> i < self.escrows.len() && self.escrows@[i as int].escrow.maker == *maker
                && self.escrows@[i as int].escrow.seed == seed && self@.escrows.contains_key((*maker, seed))
                && self@.escrows[(*maker, seed)] == self.escrows@[i as int],
            r is None ==> !self@.escrows.contains_key((*maker, seed))
                && forall|j: int| 0 <= j < self.escrows.len() ==> (escrow_key())(#[trigger] self.escrows@[j]) != (*maker, seed),
    {
        let mut i: usize = 0;
        while i < self.escrows.len()
            invariant
                self.wf(),
                i <= self.escrows.len(),
                forall|j: int| 0 <= j < i ==> (escrow_key())(#[trigger] self.escrows@[j]) != (*maker, seed),
            decreases self.escrows.len() - i,
        {
            let e = &self.escrows[i];
            if same_address(&e.escrow.maker, maker) && e.escrow.seed == seed {
                proof {
                    lemma_keyed_index(self.escrows@, escrow_key(), i as int);
                }
                return Some(i);
            }
            i = i + 1;
        }
        proof {
            lemma_keyed_absent(self.escrows@, escrow_key(), (*maker, seed));
        }
        None
    }

    /// The open escrow of `maker` under `seed`, if any.
    pub fn escrow(&self, maker: &Address, seed: u64) -> (r: Option<OpenEscrow>)
        requires
            self.wf(),
        ensures
            r == (if self@.escrows.contains_key((*maker, seed)) {
                Some(self@.escrows[(*maker, seed)])
            } else {
                None
            }),
    {
        match self.find_escrow(maker, seed) {
            Some(i) => Some(self.escrows[i]),
            None => None,
        }
    }

    /// Adds `amount` of `mint` to the holding of `owner`, opening the holding
    /// where there is none.
    pub fn mint_to(&mut self, owner: Address, mint: Address, amount: u64) -> (r: Result<(), EscrowError>)
        requires
            old(self).wf(),
        ensures
            final(self).wf(),
            mint_to_spec(old(self)@, owner, mint, amount) == outcome(r, final(self)@),
            r is Err ==> final(self)@ == old(self)@,
    {
        let have = self.balance(&owner, &mint);
        if have > u64::MAX - amount {
            return Err(EscrowError::Overflow);
        }
        self.set_balance(owner, mint, have + amount);
        Ok(())
    }

    /// Opens the escrow of `maker` under `seed` at `now`, moving `deposit` of
    /// `mint_a` from the maker into its vault, for `receive` of `mint_b`.
    /// Refused with `AccountInUse` where that escrow is already open, and with
    /// `InsufficientFunds` where the maker holds less than `deposit`.
    pub fn make(
        &mut self,
        maker: Address,
        mint_a: Address,
        mint_b: Address,
        seed: u64,
        deposit: u64,
        receive: u64,
        bump: u8,
        now: i64,
    ) -> (r: Result<(), EscrowError>)
        requires
            old(self).wf(),
        ensures
            final(self).wf(),
            make_spec(old(self)@, maker, mint_a, mint_b, seed, deposit, receive, bump, now) == outcome(r, final(self)@),
            r is Err ==> final(self)@ == old(self)@,
    {
        let existing = self.find_escrow(&maker, seed);
        if existing.is_some() {
            return Err(EscrowError::AccountInUse);
        }
        let have = self.balance(&maker, &mint_a);
        if have < deposit {
            return Err(EscrowError::InsufficientFunds);
        }
        self.set_balance(maker, mint_a, have - deposit);
        let open = OpenEscrow {
            escrow: Escrow { seed, maker, mint_a, mint_b, receive, bump, created_at: now },
            vault: deposit,
        };
        let ghost before = self.escrows@;
        proof {
            lemma_keyed_push(before, escrow_key(), open);
        }
        self.escrows.push(open);
        assert(unique_keys(self.escrows@, escrow_key())) by {
            assert forall|x: int, y: int|
                0 <= x < self.escrows@.len() && 0 <= y < self.escrows@.len() && x != y
                implies (escrow_key())(self.escrows@[x]) != (escrow_key())(self.escrows@[y]) by {
                if x < before.len() {
                    assert(self.escrows@[x] == before[x]);
                }
                if y < before.len() {
                    assert(self.escrows@[y] == before[y]);
                }
            }
        }
        Ok(())
    }

    fn close_escrow(&mut self, i: usize)
        requires
            old(self).wf(),
            i < old(self).escrows.len(),
        ensures
            final(self).wf(),
            final(self)@ == (LedgerView {
                escrows: old(self)@.escrows.remove((escrow_key())(old(self).escrows@[i as int])),
                ..old(self)@
            }),
    {
        proof {
            lemma_keyed_remove(self.escrows@, escrow_key(), i as int);
        }
        let ghost before = self.escrows@;
        self.escrows.remove(i);
        assert(unique_keys(self.escrows@, escrow_key())) by {
            assert forall|x: int, y: int|
                0 <= x < self.escrows@.len() && 0 <= y < self.escrows@.len() && x != y
                implies (escrow_key())(self.escrows@[x]) != (escrow_key())(self.escrows@[y]) by {
                let bx = if x < i { x } else { x + 1 };
                let by = if y < i { y } else { y + 1 };
                assert(self.escrows@[x] == before[bx]);
                assert(self.escrows@[y] == before[by]);
            }
        }
    }

    /// Takes the escrow of `maker` under `seed`: `taker` pays the asked amount
    /// of the asked asset to the maker and receives the whole vault, and the
    /// escrow closes. Refused with `ResourceAlreadyClosed` where the escrow is
    /// not open, and with `InsufficientFunds` where the taker cannot pay.
    pub fn take(&mut self, taker: Address, maker: Address, seed: u64) -> (r: Result<(), EscrowError>)
        requires
            old(self).wf(),
        ensures
            final(self).wf(),
            take_spec(old(self)@, taker, maker, seed) == outcome(r, final(self)@),
            r is Err ==> final(self)@ == old(self)@,
    {
        let i = match self.find_escrow(&maker, seed) {
            Some(i) => i,
            None => return Err(EscrowError::ResourceAlreadyClosed),
        };
        let open = self.escrows[i];
        let e = open.escrow;
        let pays = self.balance(&taker, &e.mint_b);
        if pays < e.receive {
            return Err(EscrowError::InsufficientFunds);
        }
        // Every check comes before the first write, so a refused take changes
        // nothing. Each balance is read as the earlier transfers leave it: the
        // taker may be the maker, and the two assets may be one.
        let ghost l0 = self@;
        let ghost l1 = with_balance(l0, taker, e.mint_b, pays - e.receive);
        let paid_before = if same_address(&taker, &maker) { pays - e.receive } else { self.balance(&maker, &e.mint_b) };
        assert(paid_before == balance_in(l1, maker, e.mint_b));
        if paid_before > u64::MAX - e.receive {
            return Err(EscrowError::Overflow);
        }
        let paid = paid_before + e.receive;
        let ghost l2 = with_balance(l1, maker, e.mint_b, paid as int);
        let got_before = if same_address(&taker, &maker) && same_address(&e.mint_a, &e.mint_b) {
            paid
        } else if same_address(&e.mint_a, &e.mint_b) {
            pays - e.receive
        } else {
            self.balance(&taker, &e.mint_a)
        };
        assert(got_before == balance_in(l2, taker, e.mint_a));
        if got_before > u64::MAX - open.vault {
            return Err(EscrowError::Overflow);
        }
        self.set_balance(taker, e.mint_b, pays - e.receive);
        self.set_balance(maker, e.mint_b, paid);
        self.set_balance(taker, e.mint_a, got_before + open.vault);
        self.close_escrow(i);
        Ok(())
    }

    /// Refunds the escrow of `maker` under `seed` at `now`: the whole vault
    /// returns to the maker and the escrow closes. Refused with
    /// `ResourceAlreadyClosed` where the escrow is not open, and with
    /// `Unauthorized` before its deadline, `created_at + lock_duration`.
    pub fn refund(&mut self, maker: Address, seed: u64, now: i64) -> (r: Result<(), EscrowError>)
        requires
            old(self).wf(),
        ensures
            final(self).wf(),
            refund_spec(old(self)@, maker, seed, now) == outcome(r, final(self)@),
            r is Err ==> final(self)@ == old(self)@,
    {
        let i = match self.find_escrow(&maker, seed) {
            Some(i) => i,
            None => return Err(EscrowError::ResourceAlreadyClosed),
        };
        let open = self.escrows[i];
        let e = open.escrow;
        if (now as i128) < e.created_at as i128 + self.lock_duration as i128 {
            return Err(EscrowError::Unauthorized);
        }
        let have = self.balance(&maker, &e.mint_a);
        if have > u64::MAX - open.vault {
            return Err(EscrowError::Overflow);
        }
        self.set_balance(maker, e.mint_a, have + open.vault);
        self.close_escrow(i);
        Ok(())
    }

}


/// Setting one balance leaves every other balance as it was.
pub proof fn lemma_with_balance(l: LedgerView, owner: Address, mint: Address, amount: int, o: Address, m: Address)
    requires
        0 <= amount <= u64::MAX,
    ensures
        balance_in(with_balance(l, owner, mint, amount), o, m) == if (o, m) == (owner, mint) {
            amount
        } else {
            balance_in(l, o, m)
        },
{
}

/// Once an escrow has been taken, neither a refund nor a second take of it can
/// succeed: both are refused as closed.
pub proof fn lemma_take_closes(l: LedgerView, taker: Address, maker: Address, seed: u64, after: LedgerView, other: Address, now: i64)
    requires
        take_spec(l, taker, maker, seed) == Ok::<LedgerView, EscrowError>(after),
    ensures
        refund_spec(after, maker, seed, now) == Err::<LedgerView, EscrowError>(EscrowError::ResourceAlreadyClosed),
        take_spec(after, other, maker, seed) == Err::<LedgerView, EscrowError>(EscrowError::ResourceAlreadyClosed),
{
}

/// Once an escrow has been refunded, neither a take nor a second refund of it
/// can succeed: both are refused as closed.
pub proof fn lemma_refund_closes(l: LedgerView, maker: Address, seed: u64, now: i64, after: LedgerView, taker: Address, later: i64)
    requires
        refund_spec(l, maker, seed, now) == Ok::<LedgerView, EscrowError>(after),
    ensures
        take_spec(after, taker, maker, seed) == Err::<LedgerView, EscrowError>(EscrowError::ResourceAlreadyClosed),
        refund_spec(after, maker, seed, later) == Err::<LedgerView, EscrowError>(EscrowError::ResourceAlreadyClosed),
{
}

/// An escrow that nobody took can be refunded at any instant from its deadline
/// on: right after it was made, the refund succeeds.
pub proof fn lemma_refund_available(
    l0: LedgerView,
    maker: Address,
    mint_a: Address,
    mint_b: Address,
    seed: u64,
    deposit: u64,
    receive: u64,
    bump: u8,
    now: i64,
    l1: LedgerView,
    later: i64,
)
    requires
        make_spec(l0, maker, mint_a, mint_b, seed, deposit, receive, bump, now) == Ok::<LedgerView, EscrowError>(l1),
        later >= now + l0.lock_duration,
    ensures
        refund_spec(l1, maker, seed, later) is Ok,
{
    lemma_with_balance(l0, maker, mint_a, balance_in(l0, maker, mint_a) - deposit, maker, mint_a);
}

/// Refunding an escrow right after it was made gives the maker back exactly
/// what went into the vault: every balance, and the set of open escrows, is
/// what it was before the escrow was made.
pub proof fn lemma_make_refund_restores(
    l0: LedgerView,
    maker: Address,
    mint_a: Address,
    mint_b: Address,
    seed: u64,
    deposit: u64,
    receive: u64,
    bump: u8,
    now: i64,
    l1: LedgerView,
    later: i64,
    l2: LedgerView,
)
    requires
        make_spec(l0, maker, mint_a, mint_b, seed, deposit, receive, bump, now) == Ok::<LedgerView, EscrowError>(l1),
        refund_spec(l1, maker, seed, later) == Ok::<LedgerView, EscrowError>(l2),
    ensures
        forall|o: Address, m: Address| #[trigger] balance_in(l2, o, m) == balance_in(l0, o, m),
        l2.escrows == l0.escrows,
        l2.lock_duration == l0.lock_duration,
{
    let have = balance_in(l0, maker, mint_a);
    let la = with_balance(l0, maker, mint_a, have - deposit);
    lemma_with_balance(l0, maker, mint_a, have - deposit, maker, mint_a);
    assert forall|o: Address, m: Address| #[trigger] balance_in(l2, o, m) == balance_in(l0, o, m) by {
        lemma_with_balance(l0, maker, mint_a, have - deposit, o, m);
        lemma_with_balance(la, maker, mint_a, have, o, m);
    }
    assert(l2.escrows =~= l0.escrows);
}

/// Taking an escrow right after it was made moves the deposit from the maker to
/// the taker and the asked amount from the taker to the maker. For each asset
/// the maker's and the taker's balances together are what they were, nobody
/// else's change, and the vault is gone with nothing left in it.
pub proof fn lemma_make_take_conserves(
    l0: LedgerView,
    maker: Address,
    mint_a: Address,
    mint_b: Address,
    seed: u64,
    deposit: u64,
    receive: u64,
    bump: u8,
    now: i64,
    l1: LedgerView,
    taker: Address,
    l2: LedgerView,
)
    requires
        make_spec(l0, maker, mint_a, mint_b, seed, deposit, receive, bump, now) == Ok::<LedgerView, EscrowError>(l1),
        take_spec(l1, taker, maker, seed) == Ok::<LedgerView, EscrowError>(l2),
    ensures
        forall|o: Address, m: Address| o != maker && o != taker ==> #[trigger] balance_in(l2, o, m) == balance_in(l0, o, m),
        forall|m: Address| maker != taker ==> #[trigger] balance_in(l2, maker, m) + balance_in(l2, taker, m) == balance_in(l0, maker, m) + balance_in(l0, taker, m),
        forall|m: Address| maker == taker ==> #[trigger] balance_in(l2, maker, m) == balance_in(l0, maker, m),
        maker != taker && mint_a != mint_b ==> {
            &&& balance_in(l2, maker, mint_a) == balance_in(l0, maker, mint_a) - deposit
            &&& balance_in(l2, taker, mint_a) == balance_in(l0, taker, mint_a) + deposit
            &&& balance_in(l2, maker, mint_b) == balance_in(l0, maker, mint_b) + receive
            &&& balance_in(l2, taker, mint_b) == balance_in(l0, taker, mint_b) - receive
        },
        l2.escrows == l0.escrows,
{
    let have = balance_in(l0, maker, mint_a);
    let la = with_balance(l0, maker, mint_a, have - deposit);
    let lb = l1;
    let pays = balance_in(lb, taker, mint_b);
    let lc = with_balance(lb, taker, mint_b, pays - receive);
    let paid = balance_in(lc, maker, mint_b) + receive;
    let ld = with_balance(lc, maker, mint_b, paid);
    let got = balance_in(ld, taker, mint_a) + deposit;
    assert forall|o: Address, m: Address| true implies {
        &&& balance_in(la, o, m) == if (o, m) == (maker, mint_a) { have - deposit } else { balance_in(l0, o, m) }
        &&& balance_in(lb, o, m) == balance_in(la, o, m)
        &&& balance_in(lc, o, m) == if (o, m) == (taker, mint_b) { pays - receive } else { balance_in(lb, o, m) }
        &&& balance_in(ld, o, m) == if (o, m) == (maker, mint_b) { paid } else { balance_in(lc, o, m) }
        &&& balance_in(l2, o, m) == if (o, m) == (taker, mint_a) { got } else { balance_in(ld, o, m) }
    } by {
        lemma_with_balance(l0, maker, mint_a, have - deposit, o, m);
        lemma_with_balance(lb, taker, mint_b, pays - receive, o, m);
        lemma_with_balance(lc, maker, mint_b, paid, o, m);
        lemma_with_balance(ld, taker, mint_a, got, o, m);
    }
    assert(l2.escrows =~= l0.escrows);
}

/// The refund never runs before its deadline: at any earlier instant it is
/// refused. The trigger under which the refund is registered is that very
/// deadline, and the refund is not registered at all once the deadline has
/// passed.
pub proof fn lemma_refund_never_early(l: LedgerView, maker: Address, seed: u64, decided_at: i64, now: i64)
    requires
        l.escrows.contains_key((maker, seed)),
        i64::MIN <= deadline_of(l, l.escrows[(maker, seed)].escrow) <= i64::MAX,
    ensures
        now < deadline_of(l, l.escrows[(maker, seed)].escrow) ==> refund_spec(l, maker, seed, now)
            == Err::<LedgerView, EscrowError>(EscrowError::Unauthorized),
        ({
            let e = l.escrows[(maker, seed)].escrow;
            match refund_trigger_spec(e.created_at, decided_at, l.lock_duration) {
                Some(Trigger::Timestamp(t)) => t == deadline_of(l, e) && t > decided_at,
                Some(Trigger::Now) => false,
                None => deadline_of(l, e) <= decided_at,
            }
        }),
{
}


/// A terminal operation on one escrow: a take by the given taker, or a refund
/// at the given instant.
pub enum Closing {
    Take(Address),
    Refund(i64),
}

/// What `op` does to the escrow of `maker` under `seed` in `l`.
pub open spec fn closing_step(l: LedgerView, maker: Address, seed: u64, op: Closing) -> Result<LedgerView, EscrowError> {
    match op {
        Closing::Take(taker) => take_spec(l, taker, maker, seed),
        Closing::Refund(now) => refund_spec(l, maker, seed, now),
    }
}

/// The results of running `ops` in turn on the escrow of `maker` under `seed`,
/// from `l`; a refused operation leaves the ledger as it was.
pub open spec fn closing_results(l: LedgerView, maker: Address, seed: u64, ops: Seq<Closing>) -> Seq<
    Result<LedgerView, EscrowError>,
>
    decreases ops.len(),
{
    if ops.len() == 0 {
        Seq::empty()
    } else {
        let r = closing_step(l, maker, seed, ops[0]);
        let next = match r {
            Ok(after) => after,
            Err(_) => l,
        };
        seq![r] + closing_results(next, maker, seed, ops.drop_first())
    }
}

proof fn lemma_closed_stays_closed(l: LedgerView, maker: Address, seed: u64, ops: Seq<Closing>)
    requires
        !l.escrows.contains_key((maker, seed)),
    ensures
        closing_results(l, maker, seed, ops).len() == ops.len(),
        forall|j: int| 0 <= j < ops.len() ==> #[trigger] closing_results(l, maker, seed, ops)[j]
            == Err::<LedgerView, EscrowError>(EscrowError::ResourceAlreadyClosed),
    decreases ops.len(),
{
    if ops.len() > 0 {
        lemma_closed_stays_closed(l, maker, seed, ops.drop_first());
        let rest = closing_results(l, maker, seed, ops.drop_first());
        assert forall|j: int| 0 <= j < ops.len() implies #[trigger] closing_results(l, maker, seed, ops)[j]
            == Err::<LedgerView, EscrowError>(EscrowError::ResourceAlreadyClosed) by {
            if j > 0 {
                assert(closing_results(l, maker, seed, ops)[j] == rest[j - 1]);
            }
        }
    }
}

/// However takes and refunds of one escrow interleave, at most one of them
/// succeeds: every one after a success is refused as closed.
pub proof fn lemma_one_closing_succeeds(l: LedgerView, maker: Address, seed: u64, ops: Seq<Closing>)
    ensures
        closing_results(l, maker, seed, ops).len() == ops.len(),
        forall|i: int, j: int|
            0 <= i < j < ops.len() && (#[trigger] closing_results(l, maker, seed, ops)[i]) is Ok ==> #[trigger] closing_results(
                l,
                maker,
                seed,
                ops,
            )[j] == Err::<LedgerView, EscrowError>(EscrowError::ResourceAlreadyClosed),
    decreases ops.len(),
{
    if ops.len() > 0 {
        let res = closing_results(l, maker, seed, ops);
        let r = closing_step(l, maker, seed, ops[0]);
        let next = match r {
            Ok(after) => after,
            Err(_) => l,
        };
        let rest = closing_results(next, maker, seed, ops.drop_first());
        lemma_one_closing_succeeds(next, maker, seed, ops.drop_first());
        if r is Ok {
            lemma_closed_stays_closed(next, maker, seed, ops.drop_first());
        }
        assert forall|i: int, j: int|
            0 <= i < j < ops.len() && (#[trigger] res[i]) is Ok implies #[trigger] res[j]
            == Err::<LedgerView, EscrowError>(EscrowError::ResourceAlreadyClosed) by {
            assert(res[j] == rest[j - 1]);
            if i > 0 {
                assert(res[i] == rest[i - 1]);
            }
        }
    }
}


/// An escrow made at `now` cannot be refunded before `now` plus the lock
/// duration, the instant at which its refund is registered to run.
pub proof fn lemma_made_escrow_deadline(
    l0: LedgerView,
    maker: Address,
    mint_a: Address,
    mint_b: Address,
    seed: u64,
    deposit: u64,
    receive: u64,
    bump: u8,
    now: i64,
    l1: LedgerView,
    early: i64,
)
    requires
        make_spec(l0, maker, mint_a, mint_b, seed, deposit, receive, bump, now) == Ok::<LedgerView, EscrowError>(l1),
        early < now + l0.lock_duration,
    ensures
        l1.escrows.contains_key((maker, seed)),
        deadline_of(l1, l1.escrows[(maker, seed)].escrow) == now + l0.lock_duration,
        refund_spec(l1, maker, seed, early) == Err::<LedgerView, EscrowError>(EscrowError::Unauthorized),
{
}

} // verus!
