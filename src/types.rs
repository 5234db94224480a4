use vstd::prelude::*;

verus! {

/// A 32-byte account identity. A coupon's identity doubles as its public key.
#[derive(Clone, Copy, Debug, PartialEq, Eq)]
pub struct AccountId(pub [u8; 32]);

impl View for AccountId {
    type V = Seq<u8>;

    open spec fn view(&self) -> Seq<u8> {
        self.0@
    }
}

impl AccountId {
    /// The raw bytes of the identity.
    pub fn as_bytes(&self) -> (r: &[u8; 32])
        ensures
            r@ == self@,
    {
        &self.0
    }

    /// Compares two identities byte by byte.
    pub fn same_as(&self, other: &AccountId) -> (r: bool)
        ensures
            r == (self@ == other@),
    {
        let mut i: usize = 0;
        while i < 32
            invariant
                i <= 32,
                self@.len() == 32,
                other@.len() == 32,
                forall|j: int| 0 <= j < i ==> self@[j] == other@[j],
            decreases 32 - i,
        {
            if self.0[i] != other.0[i] {
                return false;
            }
            i = i + 1;
        }
        assert(self@ =~= other@);
        true
    }
}

/// What the host tells the ledger about the call in progress.
#[derive(Clone, Copy, Debug, PartialEq, Eq)]
pub struct CallEnv {
    /// The account that made the call.
    pub caller: AccountId,
    /// The ledger's own on-chain identity, used as signing context.
    pub account_id: AccountId,
    /// The balance the ledger holds right now.
    pub balance: u128,
}

/// Failures of the ledger's operations.
#[derive(Clone, Copy, Debug, PartialEq, Eq)]
pub enum Error {
    /// Caller is not the owner of the contract
    AccessOwner,
    /// Contract balance doesn't have enough liquidity to reserve for a new
    /// coupon or to pay one out
    ContractBalanceNotEnough,
    /// Coupon bytes are not a valid public key
    InvalidParseCoupon,
    /// Signature bytes are not a valid signature
    InvalidParseCouponSignature,
    /// Signature does not verify
    VerifySignatureFailed,
    /// Coupon already exists
    CouponAlreadyExists,
    /// Coupon already burned
    CouponAlreadyBurned,
    /// Coupon not found
    CouponNotFound,
    /// The host could not transfer the funds
    TransferFailed,
}

/// Outcome of a batch request: the coupons it applied to and those it
/// declined, each packed to the front in request order.
#[derive(Clone, Copy, Debug, PartialEq, Eq)]
pub struct CouponsResult {
    pub accepted: [Option<AccountId>; 5],
    pub declined: [Option<AccountId>; 5],
}

} // verus!
