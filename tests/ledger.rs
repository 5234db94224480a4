use ocex::{AccountId, CallEnv, CouponsResult, Error, Ocex};
use schnorrkel::{signing_context, Keypair, MiniSecretKey};

fn alice() -> AccountId {
    AccountId([1; 32])
}
fn bob() -> AccountId {
    AccountId([2; 32])
}
fn charlie() -> AccountId {
    AccountId([3; 32])
}
fn django() -> AccountId {
    AccountId([4; 32])
}
fn eve() -> AccountId {
    AccountId([5; 32])
}
fn frank() -> AccountId {
    AccountId([6; 32])
}
fn contract_id() -> AccountId {
    AccountId([0xAB; 32])
}

fn env(caller: AccountId, balance: u128) -> CallEnv {
    CallEnv { caller, account_id: contract_id(), balance }
}

fn get_coupon() -> (AccountId, Keypair) {
    let coupon = MiniSecretKey::generate();
    let keypair: Keypair = Keypair::from(coupon.expand(MiniSecretKey::ED25519_MODE));
    let id = AccountId(keypair.public.to_bytes());
    (id, keypair)
}

fn sign_for(keypair: &Keypair, ledger: &AccountId, receiver: &AccountId) -> [u8; 64] {
    let context = signing_context(&ledger.0);
    keypair.sign(context.bytes(&receiver.0)).to_bytes()
}

/// Redeems through both steps, moving the funds between the two balances
/// when the ledger asks for a transfer.
fn redeem(
    contract: &mut Ocex,
    caller: AccountId,
    contract_balance: &mut u128,
    receiver_balance: &mut u128,
    to: &AccountId,
    coupon: &AccountId,
    sign: &[u8; 64],
) -> Result<bool, Error> {
    let e = env(caller, *contract_balance);
    match contract.prepare_activation(&e, to, coupon, sign) {
        Ok(amount) => {
            *contract_balance -= amount;
            *receiver_balance += amount;
            contract.activate_coupon(&e, to, coupon, sign, true)
        }
        Err(err) => {
            assert_eq!(contract.activate_coupon(&e, to, coupon, sign, true), Err(err));
            Err(err)
        }
    }
}

#[test]
fn insert_coupon_activation() {
    let mut balance: u128 = 1000;
    let mut contract = Ocex::default(&env(alice(), balance));
    let (coupon_one, coupon_signer) = get_coupon();
    let coupon_amount: u128 = 500;

    assert_eq!(
        contract.add_coupon(&env(alice(), balance), coupon_one, coupon_amount),
        Ok(coupon_amount)
    );
    assert_eq!(contract.available_balance(&env(alice(), balance)), 500);

    let mut eve_balance: u128 = 0;
    assert_eq!(
        contract.check_coupon(&env(eve(), balance), &coupon_one),
        (true, coupon_amount)
    );

    let signature = sign_for(&coupon_signer, &contract_id(), &eve());
    assert_eq!(
        redeem(&mut contract, eve(), &mut balance, &mut eve_balance, &eve(), &coupon_one, &signature),
        Ok(true)
    );
    assert_eq!(eve_balance, 500);

    assert_eq!(contract.available_balance(&env(alice(), balance)), 500);
    assert_eq!(contract.payback_amount(&env(alice(), balance)), Ok(500));
    assert_eq!(contract.payback_not_reserved_funds(&env(alice(), balance), true), Ok(true));
}

#[test]
fn insert_coupons() {
    let balance: u128 = 1000;
    let mut contract = Ocex::default(&env(alice(), balance));
    let (coupon_one, _) = get_coupon();
    let coupon_amount: u128 = 500;

    let test_coupons = [Some(coupon_one), Some(charlie()), Some(django()), Some(frank()), Some(bob())];
    assert_eq!(
        contract.add_coupons(&env(alice(), balance), test_coupons, coupon_amount),
        Ok(CouponsResult {
            accepted: [Some(coupon_one), Some(charlie()), None, None, None],
            declined: [Some(django()), Some(frank()), Some(bob()), None, None],
        })
    );
    assert_eq!(contract.available_balance(&env(alice(), balance)), 0);

    assert_eq!(
        contract.burn_coupons(&env(alice(), balance), [Some(coupon_one), Some(charlie()), None, None, None]),
        Ok(CouponsResult {
            accepted: [Some(coupon_one), Some(charlie()), None, None, None],
            declined: [None, None, None, None, None],
        })
    );
    assert_eq!(contract.available_balance(&env(alice(), balance)), 1000);
}

#[test]
fn check_transfer_ownership() {
    let mut balance: u128 = 1000;
    let mut contract = Ocex::default(&env(alice(), balance));
    assert_eq!(contract.owner(), alice());

    assert_eq!(contract.transfer_ownership(&env(alice(), balance), bob()), Ok(true));
    assert_eq!(contract.owner(), bob());

    assert_eq!(contract.payback_amount(&env(alice(), balance)), Err(Error::AccessOwner));
    assert_eq!(
        contract.payback_not_reserved_funds(&env(alice(), balance), true),
        Err(Error::AccessOwner)
    );

    let mut bob_balance: u128 = 0;
    let amount = contract.payback_amount(&env(bob(), balance)).unwrap();
    balance -= amount;
    bob_balance += amount;
    assert_eq!(contract.payback_not_reserved_funds(&env(bob(), balance), true), Ok(true));
    assert_eq!(bob_balance, 1000);
    assert_eq!(contract.available_balance(&env(bob(), balance)), 0);
}

#[test]
fn insert_then_repeat_fails() {
    let balance: u128 = 1000;
    let mut contract = Ocex::new(alice());
    let owner = env(alice(), balance);
    assert_eq!(contract.add_coupon(&owner, charlie(), 300), Ok(300));
    assert_eq!(contract.available_balance(&owner), 700);
    assert_eq!(contract.add_coupon(&owner, charlie(), 300), Err(Error::CouponAlreadyExists));
    assert_eq!(contract.available_balance(&owner), 700);
}

#[test]
fn add_coupon_errors() {
    let mut contract = Ocex::new(alice());
    assert_eq!(contract.add_coupon(&env(bob(), 1000), charlie(), 10), Err(Error::AccessOwner));
    assert_eq!(
        contract.add_coupon(&env(alice(), 1000), charlie(), 1001),
        Err(Error::ContractBalanceNotEnough)
    );
    assert_eq!(contract.add_coupon(&env(alice(), 1000), charlie(), 1000), Ok(1000));
    assert_eq!(contract.available_balance(&env(alice(), 1000)), 0);
    assert_eq!(contract.available_balance(&env(bob(), 5000)), 0);
    assert_eq!(contract.available_balance(&env(alice(), 5000)), 4000);
}

#[test]
fn second_redemption_is_refused() {
    let mut balance: u128 = 1000;
    let mut contract = Ocex::new(alice());
    let (coupon, signer) = get_coupon();
    contract.add_coupon(&env(alice(), balance), coupon, 400).unwrap();
    let signature = sign_for(&signer, &contract_id(), &eve());
    let mut eve_balance: u128 = 0;
    assert_eq!(
        redeem(&mut contract, eve(), &mut balance, &mut eve_balance, &eve(), &coupon, &signature),
        Ok(true)
    );
    assert_eq!((balance, eve_balance), (600, 400));
    assert_eq!(
        redeem(&mut contract, eve(), &mut balance, &mut eve_balance, &eve(), &coupon, &signature),
        Err(Error::CouponAlreadyBurned)
    );
    assert_eq!((balance, eve_balance), (600, 400));
    assert_eq!(contract.check_coupon(&env(eve(), balance), &coupon), (false, 400));
    assert_eq!(contract.available_balance(&env(alice(), balance)), 600);
}

#[test]
fn signature_from_other_ledger_fails() {
    let balance: u128 = 1000;
    let mut contract = Ocex::new(alice());
    let (coupon, signer) = get_coupon();
    contract.add_coupon(&env(alice(), balance), coupon, 400).unwrap();
    let other_ledger = AccountId([0xCD; 32]);
    let signature = sign_for(&signer, &other_ledger, &eve());
    let e = env(eve(), balance);
    assert_eq!(
        contract.prepare_activation(&e, &eve(), &coupon, &signature),
        Err(Error::VerifySignatureFailed)
    );
    assert_eq!(
        contract.activate_coupon(&e, &eve(), &coupon, &signature, true),
        Err(Error::VerifySignatureFailed)
    );
    assert_eq!(contract.check_coupon(&e, &coupon), (true, 400));
}

#[test]
fn signature_for_other_receiver_fails() {
    let balance: u128 = 1000;
    let mut contract = Ocex::new(alice());
    let (coupon, signer) = get_coupon();
    contract.add_coupon(&env(alice(), balance), coupon, 400).unwrap();
    let signature = sign_for(&signer, &contract_id(), &eve());
    assert_eq!(
        contract.prepare_activation(&env(eve(), balance), &frank(), &coupon, &signature),
        Err(Error::VerifySignatureFailed)
    );
}

#[test]
fn activation_errors() {
    let balance: u128 = 1000;
    let mut contract = Ocex::new(alice());
    let (coupon, signer) = get_coupon();
    let signature = sign_for(&signer, &contract_id(), &eve());
    let e = env(eve(), balance);
    assert_eq!(
        contract.prepare_activation(&e, &eve(), &coupon, &signature),
        Err(Error::CouponNotFound)
    );
    contract.add_coupon(&env(alice(), balance), coupon, 400).unwrap();

    // A signature whose marker bit is clear does not decode.
    let mut unmarked = signature;
    unmarked[63] &= 0x7f;
    assert_eq!(
        contract.prepare_activation(&e, &eve(), &coupon, &unmarked),
        Err(Error::InvalidParseCouponSignature)
    );

    // The host balance dropped below the coupon's amount.
    assert_eq!(
        contract.prepare_activation(&env(eve(), 399), &eve(), &coupon, &signature),
        Err(Error::ContractBalanceNotEnough)
    );

    // A failed transfer leaves the coupon redeemable.
    assert_eq!(
        contract.activate_coupon(&e, &eve(), &coupon, &signature, false),
        Err(Error::TransferFailed)
    );
    assert_eq!(contract.check_coupon(&e, &coupon), (true, 400));
    assert_eq!(contract.activate_coupon(&e, &eve(), &coupon, &signature, true), Ok(true));
    assert_eq!(contract.check_coupon(&e, &coupon), (false, 400));
}

#[test]
fn coupon_that_is_no_public_key() {
    let balance: u128 = 1000;
    let mut contract = Ocex::new(alice());
    let bad = AccountId([0xFF; 32]);
    contract.add_coupon(&env(alice(), balance), bad, 10).unwrap();
    let (_, signer) = get_coupon();
    let signature = sign_for(&signer, &contract_id(), &eve());
    assert_eq!(
        contract.prepare_activation(&env(eve(), balance), &eve(), &bad, &signature),
        Err(Error::InvalidParseCoupon)
    );
}

#[test]
fn payback_transfer_failure() {
    let contract = Ocex::new(alice());
    assert_eq!(contract.payback_amount(&env(alice(), 250)), Ok(250));
    assert_eq!(
        contract.payback_not_reserved_funds(&env(alice(), 250), false),
        Err(Error::TransferFailed)
    );
}

#[test]
fn batch_insert_five_at_five_hundred() {
    let mut contract = Ocex::new(alice());
    let owner = env(alice(), 1000);
    let slots = [Some(bob()), Some(charlie()), Some(django()), Some(eve()), Some(frank())];
    assert_eq!(
        contract.add_coupons(&owner, slots, 500),
        Ok(CouponsResult {
            accepted: [Some(bob()), Some(charlie()), None, None, None],
            declined: [Some(django()), Some(eve()), Some(frank()), None, None],
        })
    );
    assert_eq!(contract.available_balance(&owner), 0);
}

#[test]
fn batch_insert_skips_empty_and_repeats() {
    let mut contract = Ocex::new(alice());
    let owner = env(alice(), 1000);
    contract.add_coupon(&owner, frank(), 100).unwrap();
    let slots = [None, Some(bob()), Some(frank()), None, Some(bob())];
    assert_eq!(
        contract.add_coupons(&owner, slots, 200),
        Ok(CouponsResult {
            accepted: [Some(bob()), None, None, None, None],
            declined: [Some(frank()), Some(bob()), None, None, None],
        })
    );
    assert_eq!(contract.available_balance(&owner), 700);
    assert_eq!(contract.check_coupon(&owner, &bob()), (true, 200));
    assert_eq!(contract.check_coupon(&owner, &eve()), (false, 0));
}

#[test]
fn batch_errors() {
    let mut contract = Ocex::new(alice());
    let slots = [Some(bob()), None, None, None, None];
    assert_eq!(contract.add_coupons(&env(bob(), 1000), slots, 10), Err(Error::AccessOwner));
    assert_eq!(contract.burn_coupons(&env(bob(), 1000), slots), Err(Error::AccessOwner));
}

#[test]
fn batch_insert_beyond_spare_declines_all() {
    let mut contract = Ocex::new(alice());
    let owner = env(alice(), 1000);
    let slots = [Some(bob()), None, None, None, None];
    assert_eq!(
        contract.add_coupons(&owner, slots, 1001),
        Ok(CouponsResult {
            accepted: [None, None, None, None, None],
            declined: [Some(bob()), None, None, None, None],
        })
    );
    assert_eq!(contract.check_coupon(&owner, &bob()), (false, 0));
    assert_eq!(contract.available_balance(&owner), 1000);
    let slots = [Some(charlie()), None, Some(django()), Some(eve()), None];
    assert_eq!(
        contract.add_coupons(&owner, slots, 2000),
        Ok(CouponsResult {
            accepted: [None, None, None, None, None],
            declined: [Some(charlie()), Some(django()), Some(eve()), None, None],
        })
    );
    assert_eq!(contract.available_balance(&owner), 1000);
}

#[test]
fn batch_burn_declines_unknown_and_spent() {
    let mut contract = Ocex::new(alice());
    let owner = env(alice(), 1000);
    contract.add_coupon(&owner, bob(), 300).unwrap();
    contract.add_coupon(&owner, charlie(), 200).unwrap();
    assert_eq!(contract.available_balance(&owner), 500);
    assert_eq!(
        contract.burn_coupons(&owner, [Some(eve()), Some(bob()), None, Some(bob()), Some(charlie())]),
        Ok(CouponsResult {
            accepted: [Some(bob()), Some(charlie()), None, None, None],
            declined: [Some(eve()), Some(bob()), None, None, None],
        })
    );
    assert_eq!(contract.available_balance(&owner), 1000);
    assert_eq!(contract.check_coupon(&owner, &bob()), (false, 300));
    // A burned coupon keeps its record, so it cannot be issued again.
    assert_eq!(contract.add_coupon(&owner, bob(), 50), Err(Error::CouponAlreadyExists));
}

#[test]
fn reserved_total_follows_operations() {
    let mut balance: u128 = 2000;
    let mut contract = Ocex::new(alice());
    let (c1, s1) = get_coupon();
    contract.add_coupon(&env(alice(), balance), c1, 700).unwrap();
    contract.add_coupons(&env(alice(), balance), [Some(bob()), Some(charlie()), None, None, None], 400).unwrap();
    assert_eq!(contract.available_balance(&env(alice(), balance)), 500);
    contract.burn_coupons(&env(alice(), balance), [Some(bob()), None, None, None, None]).unwrap();
    assert_eq!(contract.available_balance(&env(alice(), balance)), 900);
    let mut eve_balance: u128 = 0;
    let signature = sign_for(&s1, &contract_id(), &eve());
    redeem(&mut contract, eve(), &mut balance, &mut eve_balance, &eve(), &c1, &signature).unwrap();
    assert_eq!(balance, 1300);
    assert_eq!(contract.available_balance(&env(alice(), balance)), 900);
}

#[test]
fn ids_compare_by_bytes() {
    assert!(alice().same_as(&AccountId([1; 32])));
    assert!(!alice().same_as(&bob()));
    assert_eq!(alice().as_bytes(), &[1u8; 32]);
}

#[test]
fn coupon_lifecycle_scenario() {
    let mut balance: u128 = 1000;
    let mut contract = Ocex::default(&env(alice(), balance));
    let (coupon, signer) = get_coupon();
    assert_eq!(contract.add_coupon(&env(alice(), balance), coupon, 500), Ok(500));
    assert_eq!(contract.available_balance(&env(alice(), balance)), 500);
    assert_eq!(contract.check_coupon(&env(bob(), balance), &coupon), (true, 500));

    let mut eve_balance: u128 = 0;
    let signature = sign_for(&signer, &contract_id(), &eve());
    assert_eq!(
        redeem(&mut contract, eve(), &mut balance, &mut eve_balance, &eve(), &coupon, &signature),
        Ok(true)
    );
    assert_eq!(eve_balance, 500);
    assert!(!contract.check_coupon(&env(bob(), balance), &coupon).0);

    let mut alice_balance: u128 = 0;
    let amount = contract.payback_amount(&env(alice(), balance)).unwrap();
    balance -= amount;
    alice_balance += amount;
    assert_eq!(contract.payback_not_reserved_funds(&env(alice(), balance), true), Ok(true));
    assert_eq!((alice_balance, balance), (500, 0));
}

#[test]
fn coupon_not_covered_by_balance() {
    let mut contract = Ocex::new(alice());
    contract.add_coupon(&env(alice(), 1000), bob(), 800).unwrap();
    assert_eq!(contract.check_coupon(&env(eve(), 700), &bob()), (false, 800));
    assert_eq!(contract.available_balance(&env(alice(), 700)), 0);
}
