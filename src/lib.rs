//! Ocex: a ledger of bearer coupons backed by reserved funds.
//!
//! Each coupon is a public key that entitles whoever can sign with the
//! matching secret key to a fixed payout. The ledger never reserves more than
//! the balance it holds, and each coupon pays out at most once.

mod types;
mod ledger;
mod signature;
mod contract;
mod laws;

pub use types::{AccountId, CallEnv, Error, CouponsResult};
pub use ledger::{Coupon, entry_of, open_total, keys_unique, mark_burned};
pub use signature::{public_key_decodes, signature_decodes, signature_verifies};
pub use contract::Ocex;
pub use contract::{
    insert_spec, burn_spec, spare_of, filled, packed, insert_batch, burn_batch,
    activation_check, coupon_status,
};
pub use laws::{insert_reserves_once, redemption_pays_once, batch_insert_greedy};
