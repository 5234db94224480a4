//! Laws that relate the ledger's operations to one another.
use vstd::prelude::*;
use crate::types::{AccountId, CallEnv, Error};
use crate::ledger::{
    Coupon, entry_of, open_total, keys_unique, mark_burned, lemma_entry_push, lemma_total_push,
    lemma_entry_in, lemma_total_update, lemma_update_is_mark,
};
use crate::contract::{insert_spec, spare_of, activation_check, insert_batch, filled};

verus! {

/// Inserting a fresh coupon while the spare balance covers its amount
/// succeeds and lowers the spare balance by exactly that amount; inserting
/// the same coupon again fails with `CouponAlreadyExists`.
pub proof fn insert_reserves_once(s: Seq<Coupon>, balance: u128, coupon: AccountId, amount: u128)
    requires
        keys_unique(s),
        entry_of(s, coupon@).is_none(),
        amount <= spare_of(s, balance),
    ensures
        insert_spec(s, coupon, amount).1 == Ok::<u128, Error>(amount),
        spare_of(insert_spec(s, coupon, amount).0, balance) == spare_of(s, balance) - amount,
        insert_spec(insert_spec(s, coupon, amount).0, coupon, amount).1 == Err::<u128, Error>(
            Error::CouponAlreadyExists,
        ),
{
    let c = Coupon { id: coupon, amount, burned: false };
    lemma_total_push(s, c);
    lemma_entry_push(s, c, coupon@);
}

/// Marking `k` burned burns its entry and changes no other.
pub proof fn lemma_entry_mark(s: Seq<Coupon>, k: Seq<u8>, j: Seq<u8>)
    ensures
        entry_of(mark_burned(s, k), j) == match entry_of(s, j) {
            Some(e) => if j == k {
                Some(Coupon { burned: true, ..e })
            } else {
                Some(e)
            },
            None => None,
        },
    decreases s.len(),
{
    if s.len() > 0 {
        assert(mark_burned(s, k).drop_last() =~= mark_burned(s.drop_last(), k));
        lemma_entry_mark(s.drop_last(), k, j);
    }
}

/// A redemption that passes its checks pays out exactly the amount reserved
/// for the coupon and releases exactly that reservation; once the coupon is
/// burned, every later redemption of it fails with `CouponAlreadyBurned`,
/// whoever asks, for whichever receiver and signature.
pub proof fn redemption_pays_once(
    s: Seq<Coupon>,
    env: CallEnv,
    transfer_to: AccountId,
    coupon: AccountId,
    sign: Seq<u8>,
    env2: CallEnv,
    transfer_to2: AccountId,
    sign2: Seq<u8>,
)
    requires
        keys_unique(s),
        activation_check(s, env, transfer_to, coupon, sign) is Ok,
    ensures
        entry_of(s, coupon@) is Some,
        activation_check(s, env, transfer_to, coupon, sign) == Ok::<u128, Error>(
            entry_of(s, coupon@).unwrap().amount,
        ),
        open_total(mark_burned(s, coupon@)) + entry_of(s, coupon@).unwrap().amount == open_total(s),
        activation_check(mark_burned(s, coupon@), env2, transfer_to2, coupon, sign2) == Err::<
            u128,
            Error,
        >(Error::CouponAlreadyBurned),
{
    let e = entry_of(s, coupon@).unwrap();
    lemma_entry_mark(s, coupon@, coupon@);
    lemma_entry_in(s, coupon@);
    let i = choose|i: int| 0 <= i < s.len() && s[i].id@ == coupon@ && s[i] == e;
    let b = Coupon { burned: true, ..e };
    lemma_update_is_mark(s, i);
    lemma_total_update(s, i, b);
}

/// Batch insertion of fresh, distinct coupons is greedy from the left: the
/// accepted coupons followed by the declined ones are the filled slots in
/// order, the accepted ones fit in the spare balance, and a coupon is
/// declined only once the next one no longer fits.
pub proof fn batch_insert_greedy(
    s: Seq<Coupon>,
    slots: Seq<Option<AccountId>>,
    spare: nat,
    amount: u128,
)
    requires
        keys_unique(s),
        forall|i: int| 0 <= i < filled(slots).len() ==> entry_of(s, #[trigger] filled(slots)[i]@).is_none(),
        forall|i: int, j: int|
            0 <= i < j < filled(slots).len() ==> #[trigger] filled(slots)[i]@ != #[trigger] filled(slots)[j]@,
    ensures
        ({
            let p = insert_batch(s, slots, spare, amount);
            &&& p.1 + p.2 == filled(slots)
            &&& p.3 == p.1.len() * amount
            &&& p.3 <= spare
            &&& p.2.len() > 0 ==> spare < p.3 + amount
            &&& forall|k: Seq<u8>| #[trigger] entry_of(p.0, k) is Some ==> entry_of(s, k) is Some
                || exists|j: int| 0 <= j < p.1.len() && p.1[j]@ == k
        }),
    decreases slots.len(),
{
    if slots.len() > 0 {
        let d = slots.drop_last();
        let fd = filled(d);
        assert forall|i: int| 0 <= i < fd.len() implies entry_of(s, #[trigger] fd[i]@).is_none() by {
            assert(fd[i] == filled(slots)[i]);
        }
        assert forall|i: int, j: int| 0 <= i < j < fd.len() implies #[trigger] fd[i]@ != #[trigger] fd[j]@ by {
            assert(fd[i] == filled(slots)[i]);
            assert(fd[j] == filled(slots)[j]);
        }
        batch_insert_greedy(s, d, spare, amount);
        let p = insert_batch(s, d, spare, amount);
        match slots.last() {
            None => {},
            Some(c) => {
                let n = p.1.len();
                if p.2.len() == 0 && p.3 + amount <= spare {
                    assert(p.1 =~= fd);
                    assert(filled(slots)[fd.len() as int] == c);
                    assert forall|j: int| 0 <= j < n implies p.1[j]@ != c@ by {
                        assert(filled(slots)[j] == fd[j]);
                    }
                    assert(entry_of(s, filled(slots)[fd.len() as int]@).is_none());
                    assert(entry_of(p.0, c@).is_none());
                    let e = Coupon { id: c, amount, burned: false };
                    let q = insert_batch(s, slots, spare, amount);
                    assert(q.1 == p.1.push(c));
                    assert(q.1 + q.2 =~= filled(slots));
                    assert((n + 1) * amount == n * amount + amount) by (nonlinear_arith);
                    assert forall|k: Seq<u8>| #[trigger] entry_of(q.0, k) is Some implies entry_of(s, k) is Some
                        || exists|j: int| 0 <= j < q.1.len() && q.1[j]@ == k by {
                        lemma_entry_push(p.0, e, k);
                        if k == c@ {
                            assert(q.1[n as int]@ == k);
                        } else if entry_of(s, k) is None {
                            let j = choose|j: int| 0 <= j < p.1.len() && p.1[j]@ == k;
                            assert(q.1[j] == p.1[j]);
                        }
                    }
                } else {
                    let q = insert_batch(s, slots, spare, amount);
                    assert(q.1 + q.2 =~= (p.1 + p.2).push(c));
                }
            },
        }
    }
}

} // verus!
