use vstd::prelude::*;
use crate::types::AccountId;

verus! {

/// One issued coupon: its identity, the payout reserved for it, and whether
/// it has been spent (redeemed or burned).
#[derive(Clone, Copy, Debug, PartialEq, Eq)]
pub struct Coupon {
    pub id: AccountId,
    pub amount: u128,
    pub burned: bool,
}

/// The record held for identity `k`, looked up from the most recent end.
pub open spec fn entry_of(s: Seq<Coupon>, k: Seq<u8>) -> Option<Coupon>
    decreases s.len(),
{
    if s.len() == 0 {
        None
    } else if s.last().id@ == k {
        Some(s.last())
    } else {
        entry_of(s.drop_last(), k)
    }
}

/// What a single record contributes to the reserved total.
pub open spec fn open_amount(c: Coupon) -> nat {
    if c.burned {
        0
    } else {
        c.amount as nat
    }
}

/// Sum of the amounts of all records that are not burned.
pub open spec fn open_total(s: Seq<Coupon>) -> nat
    decreases s.len(),
{
    if s.len() == 0 {
        0
    } else {
        open_total(s.drop_last()) + open_amount(s.last())
    }
}

/// No two records share an identity.
pub open spec fn keys_unique(s: Seq<Coupon>) -> bool {
    forall|i: int, j: int| 0 <= i < j < s.len() ==> s[i].id@ != s[j].id@
}

/// The records after every record for `k` is marked burned.
pub open spec fn mark_burned(s: Seq<Coupon>, k: Seq<u8>) -> Seq<Coupon> {
    s.map_values(|c: Coupon| if c.id@ == k { Coupon { burned: true, ..c } } else { c })
}

pub proof fn lemma_entry_push(s: Seq<Coupon>, c: Coupon, k: Seq<u8>)
    ensures
        entry_of(s.push(c), k) == if c.id@ == k {
            Some(c)
        } else {
            entry_of(s, k)
        },
{
    assert(s.push(c).drop_last() =~= s);
}

pub proof fn lemma_total_push(s: Seq<Coupon>, c: Coupon)
    ensures
        open_total(s.push(c)) == open_total(s) + open_amount(c),
{
    assert(s.push(c).drop_last() =~= s);
}

/// With unique identities, the record at `i` is the one found for its key.
pub proof fn lemma_entry_at(s: Seq<Coupon>, i: int)
    requires
        keys_unique(s),
        0 <= i < s.len(),
    ensures
        entry_of(s, s[i].id@) == Some(s[i]),
    decreases s.len(),
{
    if i < s.len() - 1 {
        let t = s.drop_last();
        assert(keys_unique(t));
        lemma_entry_at(t, i);
        assert(t[i] == s[i]);
    }
}

/// A key held by no record has no entry.
pub proof fn lemma_entry_absent(s: Seq<Coupon>, k: Seq<u8>)
    requires
        forall|j: int| 0 <= j < s.len() ==> s[j].id@ != k,
    ensures
        entry_of(s, k).is_none(),
    decreases s.len(),
{
    if s.len() > 0 {
        let t = s.drop_last();
        assert forall|j: int| 0 <= j < t.len() implies t[j].id@ != k by {
            assert(t[j] == s[j]);
        }
        lemma_entry_absent(t, k);
    }
}

/// Any entry found is one of the records.
pub proof fn lemma_entry_in(s: Seq<Coupon>, k: Seq<u8>)
    requires
        entry_of(s, k).is_some(),
    ensures
        exists|j: int| 0 <= j < s.len() && s[j].id@ == k && s[j] == entry_of(s, k).unwrap(),
    decreases s.len(),
{
    if s.last().id@ != k {
        let t = s.drop_last();
        lemma_entry_in(t, k);
        let j = choose|j: int| 0 <= j < t.len() && t[j].id@ == k && t[j] == entry_of(t, k).unwrap();
        assert(s[j] == t[j]);
    }
}

/// With unique identities, burning the record at `i` in place is marking
/// its identity burned.
pub proof fn lemma_update_is_mark(s: Seq<Coupon>, i: int)
    requires
        keys_unique(s),
        0 <= i < s.len(),
    ensures
        s.update(i, Coupon { burned: true, ..s[i] }) =~= mark_burned(s, s[i].id@),
{
    assert forall|j: int| 0 <= j < s.len() && j != i implies s[j].id@ != s[i].id@ by {
        if j < i {
            assert(s[j].id@ != s[i].id@);
        } else {
            assert(s[i].id@ != s[j].id@);
        }
    }
}

/// Replacing one record changes the open total by the difference of the two
/// records' contributions.
pub proof fn lemma_total_update(s: Seq<Coupon>, i: int, c: Coupon)
    requires
        0 <= i < s.len(),
    ensures
        open_total(s.update(i, c)) + open_amount(s[i]) == open_total(s) + open_amount(c),
    decreases s.len(),
{
    let u = s.update(i, c);
    if i == s.len() - 1 {
        assert(u.drop_last() =~= s.drop_last());
    } else {
        let t = s.drop_last();
        lemma_total_update(t, i, c);
        assert(u.drop_last() =~= t.update(i, c));
    }
}

/// Finds the position of the record for `id`, if any.
pub fn find_coupon(records: &Vec<Coupon>, id: &AccountId) -> (r: Option<usize>)
    requires
        keys_unique(records@),
    ensures
        match r {
            Some(i) => i < records@.len() && records@[i as int].id@ == id@
                && entry_of(records@, id@) == Some(records@[i as int]),
            None => entry_of(records@, id@).is_none(),
        },
{
    let mut i: usize = 0;
    while i < records.len()
        invariant
            i <= records@.len(),
            keys_unique(records@),
            forall|j: int| 0 <= j < i ==> records@[j].id@ != id@,
        decreases records@.len() - i,
    {
        if records[i].id.same_as(id) {
            proof {
                lemma_entry_at(records@, i as int);
            }
            return Some(i);
        }
        i = i + 1;
    }
    proof {
        lemma_entry_absent(records@, id@);
    }
    None
}

} // verus!
