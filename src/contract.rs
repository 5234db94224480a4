//! The coupon ledger: reservation accounting, the coupon lifecycle, redemption
//! and batch requests.
use vstd::prelude::*;
use crate::types::{AccountId, CallEnv, Error, CouponsResult};
use crate::ledger::{
    Coupon, entry_of, open_total, keys_unique, mark_burned, find_coupon, lemma_entry_at,
    lemma_total_push, lemma_total_update, lemma_update_is_mark,
};
use crate::signature::{
    public_key_decodes, signature_decodes, signature_verifies, decode_public_key,
    decode_signature, verify_signature,
};

verus! {

/// Balance that is not reserved for open coupons; zero should the host
/// balance ever fall below the reserved total.
pub open spec fn spare_of(s: Seq<Coupon>, balance: u128) -> nat {
    if balance >= open_total(s) {
        (balance - open_total(s)) as nat
    } else {
        0
    }
}

/// Reserving `amount` for a new coupon `c`.
pub open spec fn insert_spec(s: Seq<Coupon>, c: AccountId, amount: u128) -> (Seq<Coupon>, Result<u128, Error>) {
    if entry_of(s, c@).is_some() {
        (s, Err(Error::CouponAlreadyExists))
    } else {
        (s.push(Coupon { id: c, amount, burned: false }), Ok(amount))
    }
}

/// Burning the open coupon `c`, releasing its reservation.
pub open spec fn burn_spec(s: Seq<Coupon>, c: AccountId) -> (Seq<Coupon>, Result<bool, Error>) {
    match entry_of(s, c@) {
        Some(e) => if e.burned {
            (s, Err(Error::CouponNotFound))
        } else {
            (mark_burned(s, c@), Ok(true))
        },
        None => (s, Err(Error::CouponNotFound)),
    }
}

/// The coupons named by the non-empty slots, in order.
pub open spec fn filled(slots: Seq<Option<AccountId>>) -> Seq<AccountId>
    decreases slots.len(),
{
    if slots.len() == 0 {
        Seq::empty()
    } else {
        match slots.last() {
            Some(c) => filled(slots.drop_last()).push(c),
            None => filled(slots.drop_last()),
        }
    }
}

/// `s` packed into five slots from the front, the rest empty.
pub open spec fn packed(s: Seq<AccountId>) -> Seq<Option<AccountId>> {
    Seq::new(5, |i: int| if i < s.len() { Some(s[i]) } else { None })
}

/// Batch insertion: the records after it, the accepted coupons, the declined
/// ones, and the total newly reserved. Slots are taken left to right; a
/// coupon is inserted while `spare` still covers `amount` on top of what the
/// batch has reserved so far.
pub open spec fn insert_batch(s: Seq<Coupon>, slots: Seq<Option<AccountId>>, spare: nat, amount: u128)
    -> (Seq<Coupon>, Seq<AccountId>, Seq<AccountId>, nat)
    decreases slots.len(),
{
    if slots.len() == 0 {
        (s, Seq::empty(), Seq::empty(), 0)
    } else {
        let p = insert_batch(s, slots.drop_last(), spare, amount);
        match slots.last() {
            None => p,
            Some(c) => if p.3 + amount <= spare && insert_spec(p.0, c, amount).1 is Ok {
                (insert_spec(p.0, c, amount).0, p.1.push(c), p.2, (p.3 + amount) as nat)
            } else {
                (p.0, p.1, p.2.push(c), p.3)
            },
        }
    }
}

/// Batch burning: the records after it, the burned coupons and the declined
/// ones, slots taken left to right.
pub open spec fn burn_batch(s: Seq<Coupon>, slots: Seq<Option<AccountId>>)
    -> (Seq<Coupon>, Seq<AccountId>, Seq<AccountId>)
    decreases slots.len(),
{
    if slots.len() == 0 {
        (s, Seq::empty(), Seq::empty())
    } else {
        let p = burn_batch(s, slots.drop_last());
        match slots.last() {
            None => p,
            Some(c) => if burn_spec(p.0, c).1 is Ok {
                (burn_spec(p.0, c).0, p.1.push(c), p.2)
            } else {
                (p.0, p.1, p.2.push(c))
            },
        }
    }
}

/// The checks of a redemption, in order; on success the amount to pay out.
pub open spec fn activation_check(
    s: Seq<Coupon>,
    env: CallEnv,
    transfer_to: AccountId,
    coupon: AccountId,
    sign: Seq<u8>,
) -> Result<u128, Error> {
    match entry_of(s, coupon@) {
        None => Err(Error::CouponNotFound),
        Some(e) => if e.burned {
            Err(Error::CouponAlreadyBurned)
        } else if !public_key_decodes(coupon@) {
            Err(Error::InvalidParseCoupon)
        } else if !signature_decodes(sign) {
            Err(Error::InvalidParseCouponSignature)
        } else if !signature_verifies(coupon@, env.account_id@, transfer_to@, sign) {
            Err(Error::VerifySignatureFailed)
        } else if e.amount > env.balance {
            Err(Error::ContractBalanceNotEnough)
        } else {
            Ok(e.amount)
        },
    }
}

/// What `check_coupon` reports: whether the coupon can be redeemed now, and
/// its amount.
pub open spec fn coupon_status(s: Seq<Coupon>, balance: u128, coupon: Seq<u8>) -> (bool, u128) {
    match entry_of(s, coupon) {
        Some(e) => (balance >= e.amount && !e.burned, e.amount),
        None => (false, 0),
    }
}

/// The coupon ledger.
///
/// Each issued coupon keeps its record for good: burning it (by redemption
/// or by the owner) sets its burned flag and releases its reservation. So a
/// spent coupon can never pay out again, and its identity cannot be issued
/// anew.
pub struct Ocex {
    coupons: Vec<Coupon>,
    owner: AccountId,
    reserved: u128,
}

impl Ocex {
    /// The coupon records, in order of issue.
    pub closed spec fn records(&self) -> Seq<Coupon> {
        self.coupons@
    }

    /// The account allowed to administer the ledger.
    pub closed spec fn owner_spec(&self) -> AccountId {
        self.owner
    }

    /// The maintained total of reservations.
    pub closed spec fn reserved_spec(&self) -> nat {
        self.reserved as nat
    }

    /// Identities are unique, and the maintained reserved total is the sum
    /// of the amounts of the open coupons.
    pub open spec fn wf(&self) -> bool {
        &&& keys_unique(self.records())
        &&& self.reserved_spec() == open_total(self.records())
    }

    /// Creates an empty ledger administered by `owner`.
    pub fn new(owner: AccountId) -> (r: Self)
        ensures
            r.wf(),
            r.records() == Seq::<Coupon>::empty(),
            r.owner_spec() == owner,
    {
        let r = Ocex { coupons: Vec::new(), owner, reserved: 0 };
        assert(r.records() =~= Seq::<Coupon>::empty());
        r
    }

    /// Creates an empty ledger administered by the caller.
    pub fn default(env: &CallEnv) -> (r: Self)
        ensures
            r.wf(),
            r.records() == Seq::<Coupon>::empty(),
            r.owner_spec() == env.caller,
    {
        Self::new(env.caller)
    }

    /// The account allowed to administer the ledger.
    pub fn owner(&self) -> (r: AccountId)
        ensures
            r == self.owner_spec(),
    {
        self.owner
    }

    fn is_owner(&self, env: &CallEnv) -> (r: bool)
        ensures
            r == (env.caller@ == self.owner_spec()@),
    {
        env.caller.same_as(&self.owner)
    }

    fn rest_balance(&self, balance: u128) -> (r: u128)
        requires
            self.wf(),
        ensures
            r == spare_of(self.records(), balance),
    {
        if balance >= self.reserved {
            balance - self.reserved
        } else {
            0
        }
    }

    fn insert_coupon(&mut self, coupon: AccountId, amount: u128) -> (r: Result<u128, Error>)
        requires
            old(self).wf(),
            open_total(old(self).records()) + amount <= u128::MAX,
        ensures
            final(self).wf(),
            (final(self).records(), r) == insert_spec(old(self).records(), coupon, amount),
            final(self).owner_spec() == old(self).owner_spec(),
    {
        match find_coupon(&self.coupons, &coupon) {
            Some(_) => Err(Error::CouponAlreadyExists),
            None => {
                let c = Coupon { id: coupon, amount, burned: false };
                proof {
                    lemma_total_push(self.coupons@, c);
                    assert forall|i: int, j: int|
                        0 <= i < j < self.coupons@.len() + 1 implies #[trigger] self.coupons@.push(c)[i].id@
                        != #[trigger] self.coupons@.push(c)[j].id@ by {
                        if j == self.coupons@.len() {
                            if self.coupons@[i].id@ == coupon@ {
                                lemma_entry_at(self.coupons@, i);
                            }
                        }
                    }
                }
                self.coupons.push(c);
                self.reserved = self.reserved + amount;
                Ok(amount)
            },
        }
    }

    fn burn_coupon(&mut self, coupon: &AccountId) -> (r: Result<bool, Error>)
        requires
            old(self).wf(),
        ensures
            final(self).wf(),
            (final(self).records(), r) == burn_spec(old(self).records(), *coupon),
            final(self).owner_spec() == old(self).owner_spec(),
    {
        match find_coupon(&self.coupons, coupon) {
            None => Err(Error::CouponNotFound),
            Some(i) => {
                let e = self.coupons[i];
                if e.burned {
                    Err(Error::CouponNotFound)
                } else {
                    let b = Coupon { id: e.id, amount: e.amount, burned: true };
                    proof {
                        let s = self.coupons@;
                        lemma_total_update(s, i as int, b);
                        lemma_update_is_mark(s, i as int);
                        assert(keys_unique(s.update(i as int, b)));
                    }
                    self.coupons.set(i, b);
                    self.reserved = self.reserved - e.amount;
                    Ok(true)
                }
            },
        }
    }

    /// Reserves `amount` for the new coupon `coupon`. Only the owner may do
    /// so, and only while the spare balance covers `amount`.
    pub fn add_coupon(&mut self, env: &CallEnv, coupon: AccountId, amount: u128) -> (r: Result<
        u128,
        Error,
    >)
        requires
            old(self).wf(),
        ensures
            final(self).wf(),
            final(self).owner_spec() == old(self).owner_spec(),
            env.caller@ != old(self).owner_spec()@ ==> r == Err::<u128, Error>(Error::AccessOwner)
                && final(self).records() == old(self).records(),
            env.caller@ == old(self).owner_spec()@ && spare_of(old(self).records(), env.balance)
                < amount ==> r == Err::<u128, Error>(Error::ContractBalanceNotEnough)
                && final(self).records() == old(self).records(),
            env.caller@ == old(self).owner_spec()@ && amount <= spare_of(
                old(self).records(),
                env.balance,
            ) ==> (final(self).records(), r) == insert_spec(old(self).records(), coupon, amount),
            open_total(old(self).records()) <= env.balance ==> open_total(final(self).records())
                <= env.balance,
    {
        if !self.is_owner(env) {
            return Err(Error::AccessOwner);
        }
        if self.rest_balance(env.balance) < amount {
            return Err(Error::ContractBalanceNotEnough);
        }
        let ghost s0 = self.records();
        let r = self.insert_coupon(coupon, amount);
        proof {
            lemma_total_push(s0, Coupon { id: coupon, amount, burned: false });
        }
        r
    }

    /// Reserves `amount` for each coupon of the batch, left to right, while
    /// what is left of the spare balance still covers it; the others are
    /// declined, the batch as a whole is not refused. Only the owner may do so.
    pub fn add_coupons(&mut self, env: &CallEnv, coupons: [Option<AccountId>; 5], amount: u128) -> (r:
        Result<CouponsResult, Error>)
        requires
            old(self).wf(),
        ensures
            final(self).wf(),
            final(self).owner_spec() == old(self).owner_spec(),
            env.caller@ != old(self).owner_spec()@ ==> r == Err::<CouponsResult, Error>(
                Error::AccessOwner,
            ) && final(self).records() == old(self).records(),
            env.caller@ == old(self).owner_spec()@ ==> ({
                let p = insert_batch(
                    old(self).records(),
                    coupons@,
                    spare_of(old(self).records(), env.balance),
                    amount,
                );
                &&& r is Ok
                &&& final(self).records() == p.0
                &&& r.unwrap().accepted@ == packed(p.1)
                &&& r.unwrap().declined@ == packed(p.2)
            }),
            open_total(old(self).records()) <= env.balance ==> open_total(final(self).records())
                <= env.balance,
    {
        if !self.is_owner(env) {
            return Err(Error::AccessOwner);
        }
        let spare = self.rest_balance(env.balance);
        let ghost s0 = self.records();
        let ghost total0 = open_total(s0);
        let mut accepted: [Option<AccountId>; 5] = [None, None, None, None, None];
        let mut declined: [Option<AccountId>; 5] = [None, None, None, None, None];
        let mut rest: u128 = spare;
        let mut la: usize = 0;
        let mut ld: usize = 0;
        let mut i: usize = 0;
        assert(accepted@ =~= packed(Seq::empty()));
        assert(declined@ =~= packed(Seq::empty()));
        assert(coupons@.take(0) =~= Seq::<Option<AccountId>>::empty());
        while i < 5
            invariant
                i <= 5,
                coupons@.len() == 5,
                self.wf(),
                self.owner_spec() == old(self).owner_spec(),
                total0 == open_total(s0),
                spare == spare_of(s0, env.balance),
                ({
                    let p = insert_batch(s0, coupons@.take(i as int), spare as nat, amount);
                    &&& self.records() == p.0
                    &&& la == p.1.len()
                    &&& ld == p.2.len()
                    &&& la + ld <= i
                    &&& accepted@ == packed(p.1)
                    &&& declined@ == packed(p.2)
                    &&& p.3 <= spare
                    &&& rest == spare - p.3
                    &&& open_total(self.records()) == total0 + p.3
                }),
            decreases 5 - i,
        {
            let ghost p = insert_batch(s0, coupons@.take(i as int), spare as nat, amount);
            proof {
                assert(coupons@.take(i + 1).drop_last() =~= coupons@.take(i as int));
                assert(coupons@.take(i + 1).last() == coupons@[i as int]);
            }
            match coupons[i] {
                Some(c) => {
                    if rest >= amount {
                        match self.insert_coupon(c, amount) {
                            Ok(_) => {
                                proof {
                                    lemma_total_push(p.0, Coupon { id: c, amount, burned: false });
                                    assert(packed(p.1.push(c)) =~= accepted@.update(la as int, Some(c)));
                                }
                                accepted[la] = Some(c);
                                la = la + 1;
                                rest = rest - amount;
                            },
                            Err(_) => {
                                proof {
                                    assert(packed(p.2.push(c)) =~= declined@.update(ld as int, Some(c)));
                                }
                                declined[ld] = Some(c);
                                ld = ld + 1;
                            },
                        }
                    } else {
                        proof {
                            assert(packed(p.2.push(c)) =~= declined@.update(ld as int, Some(c)));
                        }
                        declined[ld] = Some(c);
                        ld = ld + 1;
                    }
                },
                None => {},
            }
            i = i + 1;
        }
        assert(coupons@.take(5) =~= coupons@);
        Ok(CouponsResult { accepted, declined })
    }

    /// Burns each open coupon of the batch, releasing its reservation; the
    /// others are declined. Only the owner may do so.
    pub fn burn_coupons(&mut self, env: &CallEnv, coupons: [Option<AccountId>; 5]) -> (r: Result<
        CouponsResult,
        Error,
    >)
        requires
            old(self).wf(),
        ensures
            final(self).wf(),
            final(self).owner_spec() == old(self).owner_spec(),
            env.caller@ != old(self).owner_spec()@ ==> r == Err::<CouponsResult, Error>(
                Error::AccessOwner,
            ) && final(self).records() == old(self).records(),
            env.caller@ == old(self).owner_spec()@ ==> ({
                let p = burn_batch(old(self).records(), coupons@);
                &&& r is Ok
                &&& final(self).records() == p.0
                &&& r.unwrap().accepted@ == packed(p.1)
                &&& r.unwrap().declined@ == packed(p.2)
            }),
    {
        if !self.is_owner(env) {
            return Err(Error::AccessOwner);
        }
        let ghost s0 = self.records();
        let mut accepted: [Option<AccountId>; 5] = [None, None, None, None, None];
        let mut declined: [Option<AccountId>; 5] = [None, None, None, None, None];
        let mut la: usize = 0;
        let mut ld: usize = 0;
        let mut i: usize = 0;
        assert(accepted@ =~= packed(Seq::empty()));
        assert(declined@ =~= packed(Seq::empty()));
        assert(coupons@.take(0) =~= Seq::<Option<AccountId>>::empty());
        while i < 5
            invariant
                i <= 5,
                coupons@.len() == 5,
                self.wf(),
                self.owner_spec() == old(self).owner_spec(),
                ({
                    let p = burn_batch(s0, coupons@.take(i as int));
                    &&& self.records() == p.0
                    &&& la == p.1.len()
                    &&& ld == p.2.len()
                    &&& la + ld <= i
                    &&& accepted@ == packed(p.1)
                    &&& declined@ == packed(p.2)
                }),
            decreases 5 - i,
        {
            let ghost p = burn_batch(s0, coupons@.take(i as int));
            proof {
                assert(coupons@.take(i + 1).drop_last() =~= coupons@.take(i as int));
                assert(coupons@.take(i + 1).last() == coupons@[i as int]);
            }
            match coupons[i] {
                Some(c) => {
                    if self.burn_coupon(&c).is_ok() {
                        proof {
                            assert(packed(p.1.push(c)) =~= accepted@.update(la as int, Some(c)));
                        }
                        accepted[la] = Some(c);
                        la = la + 1;
                    } else {
                        proof {
                            assert(packed(p.2.push(c)) =~= declined@.update(ld as int, Some(c)));
                        }
                        declined[ld] = Some(c);
                        ld = ld + 1;
                    }
                },
                None => {},
            }
            i = i + 1;
        }
        assert(coupons@.take(5) =~= coupons@);
        Ok(CouponsResult { accepted, declined })
    }

    /// Runs the checks of a redemption of `coupon` to `transfer_to` with the
    /// signature `sign`, in order, and on success returns the amount that the
    /// host must transfer. Anyone may redeem.
    pub fn prepare_activation(
        &self,
        env: &CallEnv,
        transfer_to: &AccountId,
        coupon: &AccountId,
        sign: &[u8; 64],
    ) -> (r: Result<u128, Error>)
        requires
            self.wf(),
        ensures
            r == activation_check(self.records(), *env, *transfer_to, *coupon, sign@),
    {
        let e = match find_coupon(&self.coupons, coupon) {
            None => {
                return Err(Error::CouponNotFound);
            },
            Some(i) => self.coupons[i],
        };
        if e.burned {
            return Err(Error::CouponAlreadyBurned);
        }
        if !decode_public_key(coupon.as_bytes()) {
            return Err(Error::InvalidParseCoupon);
        }
        if !decode_signature(sign) {
            return Err(Error::InvalidParseCouponSignature);
        }
        if !verify_signature(coupon.as_bytes(), env.account_id.as_bytes(), transfer_to.as_bytes(), sign) {
            return Err(Error::VerifySignatureFailed);
        }
        if e.amount > env.balance {
            return Err(Error::ContractBalanceNotEnough);
        }
        Ok(e.amount)
    }

    /// Completes a redemption. `transferred` is the host's report on the
    /// transfer of the amount that `prepare_activation` returned for the same
    /// arguments. The coupon is burned only when every check passed and the
    /// transfer succeeded; otherwise nothing changes.
    pub fn activate_coupon(
        &mut self,
        env: &CallEnv,
        transfer_to: &AccountId,
        coupon: &AccountId,
        sign: &[u8; 64],
        transferred: bool,
    ) -> (r: Result<bool, Error>)
        requires
            old(self).wf(),
        ensures
            final(self).wf(),
            final(self).owner_spec() == old(self).owner_spec(),
            match activation_check(old(self).records(), *env, *transfer_to, *coupon, sign@) {
                Err(e) => r == Err::<bool, Error>(e) && final(self).records() == old(self).records(),
                Ok(_) => if transferred {
                    r == Ok::<bool, Error>(true) && final(self).records() == mark_burned(
                        old(self).records(),
                        coupon@,
                    )
                } else {
                    r == Err::<bool, Error>(Error::TransferFailed) && final(self).records() == old(
                        self,
                    ).records()
                },
            },
    {
        match self.prepare_activation(env, transfer_to, coupon, sign) {
            Err(e) => Err(e),
            Ok(_) => {
                if transferred {
                    self.burn_coupon(coupon)
                } else {
                    Err(Error::TransferFailed)
                }
            },
        }
    }

    /// The spare balance that the owner may withdraw.
    pub fn payback_amount(&self, env: &CallEnv) -> (r: Result<u128, Error>)
        requires
            self.wf(),
        ensures
            r == if env.caller@ == self.owner_spec()@ {
                Ok::<u128, Error>(spare_of(self.records(), env.balance) as u128)
            } else {
                Err::<u128, Error>(Error::AccessOwner)
            },
    {
        if !self.is_owner(env) {
            return Err(Error::AccessOwner);
        }
        Ok(self.rest_balance(env.balance))
    }

    /// Reports the withdrawal of the spare balance to the owner. `transferred`
    /// is the host's report on the transfer of what `payback_amount` returned.
    pub fn payback_not_reserved_funds(&self, env: &CallEnv, transferred: bool) -> (r: Result<
        bool,
        Error,
    >)
        ensures
            r == if env.caller@ != self.owner_spec()@ {
                Err::<bool, Error>(Error::AccessOwner)
            } else if transferred {
                Ok::<bool, Error>(true)
            } else {
                Err::<bool, Error>(Error::TransferFailed)
            },
    {
        if !self.is_owner(env) {
            return Err(Error::AccessOwner);
        }
        if transferred {
            Ok(true)
        } else {
            Err(Error::TransferFailed)
        }
    }

    /// Whether `coupon` can be redeemed now (issued, not burned, and covered
    /// by the balance), and its amount; `(false, 0)` for an unknown coupon.
    pub fn check_coupon(&self, env: &CallEnv, coupon: &AccountId) -> (r: (bool, u128))
        requires
            self.wf(),
        ensures
            r == coupon_status(self.records(), env.balance, coupon@),
    {
        match find_coupon(&self.coupons, coupon) {
            Some(i) => {
                let e = self.coupons[i];
                (env.balance >= e.amount && !e.burned, e.amount)
            },
            None => (false, 0),
        }
    }

    /// The spare balance, for the owner; zero for anyone else.
    pub fn available_balance(&self, env: &CallEnv) -> (r: u128)
        requires
            self.wf(),
        ensures
            r == if env.caller@ == self.owner_spec()@ {
                spare_of(self.records(), env.balance)
            } else {
                0
            },
    {
        if self.is_owner(env) {
            self.rest_balance(env.balance)
        } else {
            0
        }
    }

    /// Hands the ledger over to `account`. Only the owner may do so.
    pub fn transfer_ownership(&mut self, env: &CallEnv, account: AccountId) -> (r: Result<bool, Error>)
        requires
            old(self).wf(),
        ensures
            final(self).wf(),
            final(self).records() == old(self).records(),
            env.caller@ == old(self).owner_spec()@ ==> r == Ok::<bool, Error>(true)
                && final(self).owner_spec() == account,
            env.caller@ != old(self).owner_spec()@ ==> r == Err::<bool, Error>(Error::AccessOwner)
                && final(self).owner_spec() == old(self).owner_spec(),
    {
        if !self.is_owner(env) {
            return Err(Error::AccessOwner);
        }
        self.owner = account;
        Ok(true)
    }
}

} // verus!
