use token_sale::error::SaleError;
use token_sale::identity::Identity;
use token_sale::ledger::TokenSale;
use token_sale::model::{
    BuyerInfo, InsufficientBalance, Purchase, SalePhase, TokenSaleData, Withdrawal,
};
use token_sale::vesting::SECONDS_PER_MONTH;

fn id(tag: u8) -> Identity {
    Identity::from_bytes([tag; 32])
}

fn admin() -> Identity {
    id(1)
}

fn reserve() -> Identity {
    id(2)
}

fn sale() -> TokenSale {
    TokenSale::new(admin(), reserve(), 10, 1000, 2, 10, 20).unwrap()
}

fn snapshot(sale: &TokenSale) -> Vec<u8> {
    sale.try_to_vec().unwrap()
}

const START: i64 = 1_700_000_000;

#[test]
fn new_sale_has_nothing_sold_and_claiming_disabled() {
    let sale = sale();
    assert_eq!(
        sale.get_token_sale_data(),
        TokenSaleData {
            admin: admin(),
            reserve_account: reserve(),
            unit_price: 10,
            total_supply: 1000,
            sold_amount: 0,
            initial_claimable_percent: 20,
            cliff_months: 2,
            monthly_release_percent: 10,
            vesting_start: 0,
            claiming_enabled: false,
        }
    );
    assert_eq!(sale.buyer_count(), 0);
    assert_eq!(sale.get_total_claimable_tokens(), 0);
}

#[test]
fn new_rejects_a_percentage_above_one_hundred() {
    assert_eq!(
        TokenSale::new(admin(), reserve(), 10, 1000, 2, 101, 20).err(),
        Some(SaleError::InvalidPolicy)
    );
    assert_eq!(
        TokenSale::new(admin(), reserve(), 10, 1000, 2, 10, 101).err(),
        Some(SaleError::InvalidPolicy)
    );
    assert!(TokenSale::new(admin(), reserve(), 10, 1000, 255, 100, 100).is_ok());
}

#[test]
fn purchase_creates_the_buyer_record() {
    let mut sale = sale();
    let receipt = sale.buy_tokens(&id(7), 100, 1000).unwrap();
    assert_eq!(receipt, Purchase { sellable: 100, cost: 1000, refund: 0 });
    assert_eq!(
        sale.get_buyer_info(&id(7)),
        Some(BuyerInfo {
            owner: id(7),
            purchased_amount: 100,
            claimable_total: 20,
            claimed_so_far: 0,
        })
    );
    assert_eq!(sale.get_token_sale_data().sold_amount, 100);
    assert_eq!(sale.buyer_count(), 1);
    assert_eq!(sale.get_tokens_bought(&id(7)), 100);
    assert_eq!(sale.get_tokens_bought(&id(8)), 0);
}

#[test]
fn purchase_is_cut_down_to_what_is_left() {
    let mut sale = sale();
    sale.buy_tokens(&id(7), 990, 9900).unwrap();
    let receipt = sale.buy_tokens(&id(8), 25, 250).unwrap();
    assert_eq!(receipt, Purchase { sellable: 10, cost: 100, refund: 15 });
    assert_eq!(sale.get_token_sale_data().sold_amount, 1000);
    assert_eq!(sale.get_buyer_info(&id(8)).unwrap().purchased_amount, 10);
    assert_eq!(sale.get_buyer_info(&id(8)).unwrap().claimable_total, 2);
}

#[test]
fn purchase_fails_when_sold_out() {
    let mut sale = sale();
    sale.buy_tokens(&id(7), 1000, 10_000).unwrap();
    let before = snapshot(&sale);
    assert_eq!(sale.buy_tokens(&id(8), 1, 10), Err(SaleError::SaleClosed));
    assert_eq!(snapshot(&sale), before);
    // admin operations are still allowed
    assert_eq!(sale.change_token_price(&admin(), 11), Ok(()));
    assert_eq!(sale.enable_claiming(&admin(), START), Ok(()));
}

#[test]
fn purchase_of_nothing_fails() {
    let mut sale = sale();
    let before = snapshot(&sale);
    assert_eq!(sale.buy_tokens(&id(7), 0, 10), Err(SaleError::SaleClosed));
    assert_eq!(snapshot(&sale), before);
}

#[test]
fn purchase_fails_on_cost_overflow() {
    let mut sale = TokenSale::new(admin(), reserve(), u64::MAX, 1000, 2, 10, 20).unwrap();
    let before = snapshot(&sale);
    assert_eq!(sale.buy_tokens(&id(7), 2, u64::MAX), Err(SaleError::Overflow));
    assert_eq!(snapshot(&sale), before);
    assert_eq!(sale.get_buyer_info(&id(7)), None);
    // one unit at that price still fits
    assert_eq!(
        sale.buy_tokens(&id(7), 1, u64::MAX),
        Ok(Purchase { sellable: 1, cost: u64::MAX, refund: 0 })
    );
}

#[test]
fn overflow_is_judged_on_the_units_sold() {
    // two units asked at a price of 2^63, one left: the cost of one fits
    let mut sale = TokenSale::new(admin(), reserve(), 1 << 63, 1, 0, 10, 20).unwrap();
    assert_eq!(
        sale.buy_tokens(&id(7), 2, u64::MAX),
        Ok(Purchase { sellable: 1, cost: 1 << 63, refund: 1 })
    );
}

#[test]
fn purchase_fails_on_insufficient_payment() {
    let mut sale = sale();
    let before = snapshot(&sale);
    assert_eq!(sale.buy_tokens(&id(7), 100, 999), Err(SaleError::InsufficientFunds));
    assert_eq!(snapshot(&sale), before);
    assert!(sale.buy_tokens(&id(7), 100, 1000).is_ok());
}

#[test]
fn purchases_accumulate() {
    let mut two = sale();
    two.buy_tokens(&id(7), 5, 50).unwrap();
    two.buy_tokens(&id(7), 7, 70).unwrap();
    let mut one = sale();
    one.buy_tokens(&id(7), 12, 120).unwrap();
    let split = two.get_buyer_info(&id(7)).unwrap();
    let whole = one.get_buyer_info(&id(7)).unwrap();
    assert_eq!(split.purchased_amount, 12);
    assert_eq!(whole.purchased_amount, 12);
    // 5 * 20 / 100 + 7 * 20 / 100 = 1 + 1; 12 * 20 / 100 = 2
    assert_eq!(split.claimable_total, 2);
    assert_eq!(whole.claimable_total, 2);
    assert_eq!(two.get_token_sale_data().sold_amount, one.get_token_sale_data().sold_amount);
    assert_eq!(two.buyer_count(), 1);
}

#[test]
fn purchases_accumulate_up_to_truncation() {
    let mut two = sale();
    two.buy_tokens(&id(7), 4, 40).unwrap();
    two.buy_tokens(&id(7), 6, 60).unwrap();
    let mut one = sale();
    one.buy_tokens(&id(7), 10, 100).unwrap();
    // 4 * 20 / 100 + 6 * 20 / 100 = 0 + 1; 10 * 20 / 100 = 2
    assert_eq!(two.get_buyer_info(&id(7)).unwrap().claimable_total, 1);
    assert_eq!(one.get_buyer_info(&id(7)).unwrap().claimable_total, 2);
    assert_eq!(two.get_buyer_info(&id(7)).unwrap().purchased_amount, 10);
    assert_eq!(one.get_buyer_info(&id(7)).unwrap().purchased_amount, 10);
}

#[test]
fn buyers_are_kept_apart() {
    let mut sale = sale();
    sale.buy_tokens(&id(7), 100, 1000).unwrap();
    sale.buy_tokens(&id(8), 50, 500).unwrap();
    sale.buy_tokens(&id(7), 10, 100).unwrap();
    assert_eq!(sale.buyer_count(), 2);
    assert_eq!(sale.get_buyer_info(&id(7)).unwrap().purchased_amount, 110);
    assert_eq!(sale.get_buyer_info(&id(8)).unwrap().purchased_amount, 50);
    assert_eq!(sale.buyer_at(0).unwrap().owner, id(7));
    assert_eq!(sale.buyer_at(1).unwrap().owner, id(8));
    assert_eq!(sale.buyer_at(2), None);
    assert_eq!(sale.get_token_sale_data().sold_amount, 160);
    assert_eq!(sale.get_buyer_info(&id(9)), None);
}

#[test]
fn identities_that_differ_in_one_byte_are_different_buyers() {
    let mut sale = sale();
    let mut bytes = [0u8; 32];
    let first = Identity::from_bytes(bytes);
    bytes[31] = 1;
    let second = Identity::from_bytes(bytes);
    bytes[31] = 0;
    bytes[0] = 1;
    let third = Identity::from_bytes(bytes);
    sale.buy_tokens(&first, 1, 10).unwrap();
    sale.buy_tokens(&second, 2, 20).unwrap();
    sale.buy_tokens(&third, 3, 30).unwrap();
    assert_eq!(sale.buyer_count(), 3);
    assert_eq!(sale.get_tokens_bought(&first), 1);
    assert_eq!(sale.get_tokens_bought(&second), 2);
    assert_eq!(sale.get_tokens_bought(&third), 3);
}

#[test]
fn sold_amount_never_exceeds_the_supply() {
    let mut sale = TokenSale::new(admin(), reserve(), 1, 100, 0, 10, 50).unwrap();
    for round in 0..40u8 {
        let _ = sale.buy_tokens(&id(round % 5), 7, 7);
        let data = sale.get_token_sale_data();
        assert!(data.sold_amount <= data.total_supply);
    }
    assert_eq!(sale.get_token_sale_data().sold_amount, 100);
    let mut sum = 0;
    for at in 0..sale.buyer_count() {
        let record = sale.buyer_at(at).unwrap();
        assert!(record.claimed_so_far <= record.claimable_total);
        assert!(record.claimable_total <= record.purchased_amount);
        sum += record.purchased_amount;
    }
    assert_eq!(sum, 100);
}

#[test]
fn enable_claiming_sets_the_baseline() {
    let mut sale = sale();
    assert_eq!(sale.enable_claiming(&admin(), START), Ok(()));
    let data = sale.get_token_sale_data();
    assert!(data.claiming_enabled);
    assert_eq!(data.vesting_start, START);
}

#[test]
fn enable_claiming_is_for_the_admin_only() {
    let mut sale = sale();
    let before = snapshot(&sale);
    assert_eq!(sale.enable_claiming(&id(7), START), Err(SaleError::Unauthorized));
    assert_eq!(snapshot(&sale), before);
    assert!(!sale.get_token_sale_data().claiming_enabled);
}

#[test]
fn enable_claiming_twice_fails_and_keeps_the_baseline() {
    let mut sale = sale();
    sale.enable_claiming(&admin(), START).unwrap();
    let before = snapshot(&sale);
    assert_eq!(
        sale.enable_claiming(&admin(), START + 5 * SECONDS_PER_MONTH),
        Err(SaleError::AlreadyEnabled)
    );
    assert_eq!(snapshot(&sale), before);
    assert_eq!(sale.get_token_sale_data().vesting_start, START);
    assert_eq!(sale.enable_claiming(&id(7), START + 1), Err(SaleError::Unauthorized));
    assert_eq!(sale.get_token_sale_data().vesting_start, START);
}

#[test]
fn claim_before_enabling_fails() {
    let mut sale = sale();
    sale.buy_tokens(&id(7), 100, 1000).unwrap();
    let before = snapshot(&sale);
    assert_eq!(sale.claimable_now(&id(7), START), Err(SaleError::ClaimingNotEnabled));
    assert_eq!(sale.claim_tokens(&id(7), START, Ok(())), Err(SaleError::ClaimingNotEnabled));
    assert_eq!(
        sale.claim_tokens(&id(9), START, Err(InsufficientBalance)),
        Err(SaleError::ClaimingNotEnabled)
    );
    assert_eq!(snapshot(&sale), before);
}

#[test]
fn claim_of_an_unknown_buyer_fails() {
    let mut sale = sale();
    sale.buy_tokens(&id(7), 100, 1000).unwrap();
    sale.enable_claiming(&admin(), START).unwrap();
    let before = snapshot(&sale);
    let now = START + 5 * SECONDS_PER_MONTH;
    assert_eq!(sale.claimable_now(&id(8), now), Err(SaleError::UnknownBuyer));
    assert_eq!(sale.claim_tokens(&id(8), now, Ok(())), Err(SaleError::UnknownBuyer));
    assert_eq!(snapshot(&sale), before);
}

#[test]
fn claim_during_the_cliff_finds_nothing() {
    let mut sale = sale();
    sale.buy_tokens(&id(7), 100, 1000).unwrap();
    sale.enable_claiming(&admin(), START).unwrap();
    let before = snapshot(&sale);
    for now in [START, START + SECONDS_PER_MONTH, START + 2 * SECONDS_PER_MONTH - 1] {
        assert_eq!(sale.claimable_now(&id(7), now), Err(SaleError::NothingToClaim));
        assert_eq!(sale.claim_tokens(&id(7), now, Ok(())), Err(SaleError::NothingToClaim));
    }
    assert_eq!(snapshot(&sale), before);
}

#[test]
fn failed_transfer_leaves_the_claim_open() {
    let mut sale = sale();
    sale.buy_tokens(&id(7), 100, 1000).unwrap();
    sale.enable_claiming(&admin(), START).unwrap();
    let now = START + 3 * SECONDS_PER_MONTH;
    let before = snapshot(&sale);
    assert_eq!(sale.claimable_now(&id(7), now), Ok(6));
    assert_eq!(
        sale.claim_tokens(&id(7), now, Err(InsufficientBalance)),
        Err(SaleError::TransferFailed)
    );
    assert_eq!(snapshot(&sale), before);
    // the same claim can be made again
    assert_eq!(sale.claim_tokens(&id(7), now, Ok(())), Ok(6));
    assert_eq!(sale.get_buyer_info(&id(7)).unwrap().claimed_so_far, 6);
}

#[test]
fn concrete_scenario() {
    let mut sale = TokenSale::new(admin(), reserve(), 10, 1000, 2, 10, 20).unwrap();
    let buyer = id(7);
    sale.buy_tokens(&buyer, 100, 1000).unwrap();
    assert_eq!(sale.get_buyer_info(&buyer).unwrap().claimable_total, 20);

    sale.enable_claiming(&admin(), START).unwrap();
    assert_eq!(
        sale.claim_tokens(&buyer, START + SECONDS_PER_MONTH, Ok(())),
        Err(SaleError::NothingToClaim)
    );

    let now = START + 3 * SECONDS_PER_MONTH;
    assert_eq!(sale.get_total_vested_tokens(&buyer, now), Some(6));
    assert_eq!(sale.claimable_now(&buyer, now), Ok(6));
    assert_eq!(sale.claim_tokens(&buyer, now, Ok(())), Ok(6));
    assert_eq!(sale.get_buyer_info(&buyer).unwrap().claimed_so_far, 6);

    let now = START + 20 * SECONDS_PER_MONTH;
    assert_eq!(sale.get_total_vested_tokens(&buyer, now), Some(20));
    assert_eq!(sale.claimable_now(&buyer, now), Ok(14));
    assert_eq!(sale.claim_tokens(&buyer, now, Ok(())), Ok(14));
    assert_eq!(sale.get_buyer_info(&buyer).unwrap().claimed_so_far, 20);

    assert_eq!(sale.claim_tokens(&buyer, now, Ok(())), Err(SaleError::NothingToClaim));
    assert_eq!(
        sale.claim_tokens(&buyer, now + 100 * SECONDS_PER_MONTH, Ok(())),
        Err(SaleError::NothingToClaim)
    );
    assert_eq!(sale.get_buyer_info(&buyer).unwrap().claimed_so_far, 20);
}

#[test]
fn claimed_amount_only_grows_and_stays_within_the_balance() {
    let mut sale = TokenSale::new(admin(), reserve(), 1, 10_000, 1, 7, 33).unwrap();
    sale.buy_tokens(&id(7), 1000, 1000).unwrap();
    sale.enable_claiming(&admin(), START).unwrap();
    let claimable = sale.get_buyer_info(&id(7)).unwrap().claimable_total;
    assert_eq!(claimable, 330);
    let mut last = 0;
    let mut paid = 0;
    for step in 0..60i64 {
        let now = START + step * SECONDS_PER_MONTH / 2;
        if let Ok(delta) = sale.claim_tokens(&id(7), now, Ok(())) {
            assert!(delta > 0);
            paid += delta;
        }
        let claimed = sale.get_buyer_info(&id(7)).unwrap().claimed_so_far;
        assert!(claimed >= last);
        assert!(claimed <= claimable);
        assert_eq!(claimed, paid);
        last = claimed;
    }
    assert_eq!(last, 330);
    assert_eq!(sale.claim_tokens(&id(7), i64::MAX, Ok(())), Err(SaleError::NothingToClaim));
}

#[test]
fn clock_behind_the_baseline_yields_nothing() {
    let mut sale = TokenSale::new(admin(), reserve(), 1, 1000, 0, 50, 100).unwrap();
    sale.buy_tokens(&id(7), 100, 100).unwrap();
    sale.enable_claiming(&admin(), START).unwrap();
    assert_eq!(sale.claim_tokens(&id(7), START - 1, Ok(())), Err(SaleError::NothingToClaim));
    assert_eq!(sale.claim_tokens(&id(7), i64::MIN, Ok(())), Err(SaleError::NothingToClaim));
    assert_eq!(sale.claim_tokens(&id(7), START + SECONDS_PER_MONTH, Ok(())), Ok(50));
    // a clock that falls back after a claim finds nothing and takes nothing away
    assert_eq!(sale.claim_tokens(&id(7), START, Ok(())), Err(SaleError::NothingToClaim));
    assert_eq!(sale.get_buyer_info(&id(7)).unwrap().claimed_so_far, 50);
}

#[test]
fn purchase_after_a_claim_raises_the_balance() {
    let mut sale = TokenSale::new(admin(), reserve(), 1, 1000, 0, 50, 100).unwrap();
    sale.buy_tokens(&id(7), 100, 100).unwrap();
    sale.enable_claiming(&admin(), START).unwrap();
    assert_eq!(sale.claim_tokens(&id(7), START + 2 * SECONDS_PER_MONTH, Ok(())), Ok(100));
    sale.buy_tokens(&id(7), 100, 100).unwrap();
    let record = sale.get_buyer_info(&id(7)).unwrap();
    assert_eq!(record.claimable_total, 200);
    assert_eq!(record.claimed_so_far, 100);
    assert_eq!(sale.claim_tokens(&id(7), START + 2 * SECONDS_PER_MONTH, Ok(())), Ok(100));
}

#[test]
fn change_token_price_is_for_the_admin_only() {
    let mut sale = sale();
    let before = snapshot(&sale);
    assert_eq!(sale.change_token_price(&id(7), 1), Err(SaleError::Unauthorized));
    assert_eq!(snapshot(&sale), before);
    assert_eq!(sale.change_token_price(&admin(), 25), Ok(()));
    assert_eq!(sale.get_token_sale_data().unit_price, 25);
}

#[test]
fn change_token_price_does_not_touch_past_purchases() {
    let mut sale = sale();
    sale.buy_tokens(&id(7), 100, 1000).unwrap();
    let record = sale.get_buyer_info(&id(7)).unwrap();
    sale.change_token_price(&admin(), 0).unwrap();
    assert_eq!(sale.get_buyer_info(&id(7)).unwrap(), record);
    assert_eq!(sale.get_token_sale_data().sold_amount, 100);
    assert_eq!(
        sale.buy_tokens(&id(7), 10, 0),
        Ok(Purchase { sellable: 10, cost: 0, refund: 0 })
    );
}

#[test]
fn deposit_adds_to_the_reserve() {
    let sale = sale();
    assert_eq!(sale.deposit_tokens(&admin(), 500, 250), Ok(750));
    assert_eq!(sale.deposit_tokens(&admin(), 0, 0), Ok(0));
    assert_eq!(sale.get_token_sale_data().total_supply, 1000);
}

#[test]
fn deposit_is_for_the_admin_only() {
    let sale = sale();
    assert_eq!(sale.deposit_tokens(&id(7), 500, 250), Err(SaleError::Unauthorized));
    assert_eq!(sale.deposit_tokens(&id(7), u64::MAX, 1), Err(SaleError::Unauthorized));
}

#[test]
fn deposit_fails_on_overflow() {
    let sale = sale();
    assert_eq!(sale.deposit_tokens(&admin(), u64::MAX, 1), Err(SaleError::Overflow));
    assert_eq!(sale.deposit_tokens(&admin(), u64::MAX - 1, 1), Ok(u64::MAX));
}

#[test]
fn withdraw_grants_what_is_above_the_minimum() {
    let sale = sale();
    assert_eq!(
        sale.withdraw_funds(&admin(), &id(9), 400, 1000, 600),
        Ok(Withdrawal { recipient: id(9), amount: 400, remaining: 600 })
    );
    assert_eq!(
        sale.withdraw_funds(&admin(), &id(9), 0, 10, 600),
        Ok(Withdrawal { recipient: id(9), amount: 0, remaining: 10 })
    );
}

#[test]
fn withdraw_fails_above_the_withdrawable_balance() {
    let sale = sale();
    assert_eq!(
        sale.withdraw_funds(&admin(), &id(9), 401, 1000, 600),
        Err(SaleError::InsufficientFunds)
    );
    assert_eq!(
        sale.withdraw_funds(&admin(), &id(9), 1, 500, 600),
        Err(SaleError::InsufficientFunds)
    );
}

#[test]
fn withdraw_is_for_the_admin_only() {
    let sale = sale();
    assert_eq!(
        sale.withdraw_funds(&id(7), &id(7), 1, 1000, 0),
        Err(SaleError::Unauthorized)
    );
}

#[test]
fn is_admin_compares_identities() {
    let sale = sale();
    assert!(sale.is_admin(&admin()));
    assert!(!sale.is_admin(&reserve()));
}

#[test]
fn total_claimable_is_what_is_outstanding() {
    let mut sale = sale();
    sale.buy_tokens(&id(7), 100, 1000).unwrap();
    sale.buy_tokens(&id(8), 50, 500).unwrap();
    assert_eq!(sale.get_total_claimable_tokens(), 30);
    sale.enable_claiming(&admin(), START).unwrap();
    sale.claim_tokens(&id(7), START + 3 * SECONDS_PER_MONTH, Ok(())).unwrap();
    assert_eq!(sale.get_total_claimable_tokens(), 24);
}

#[test]
fn vested_tokens_query() {
    let mut sale = sale();
    sale.buy_tokens(&id(7), 100, 1000).unwrap();
    assert_eq!(sale.get_total_vested_tokens(&id(7), START), Some(0));
    assert_eq!(sale.get_total_vested_tokens(&id(8), START), None);
    sale.enable_claiming(&admin(), START).unwrap();
    assert_eq!(sale.get_total_vested_tokens(&id(7), START + 4 * SECONDS_PER_MONTH), Some(8));
    assert_eq!(sale.get_total_vested_tokens(&id(7), i64::MAX), Some(20));
}

#[test]
fn restore_accepts_a_valid_sale() {
    let mut sale = sale();
    sale.buy_tokens(&id(7), 100, 1000).unwrap();
    sale.buy_tokens(&id(8), 50, 500).unwrap();
    let records = vec![sale.buyer_at(0).unwrap(), sale.buyer_at(1).unwrap()];
    let restored = TokenSale::restore(sale.get_token_sale_data(), records).unwrap();
    assert_eq!(snapshot(&restored), snapshot(&sale));
    assert_eq!(restored.get_buyer_info(&id(8)), sale.get_buyer_info(&id(8)));
}

#[test]
fn restore_rejects_what_breaks_the_invariant() {
    let mut sale = sale();
    sale.buy_tokens(&id(7), 100, 1000).unwrap();
    let terms = sale.get_token_sale_data();
    let record = sale.buyer_at(0).unwrap();

    assert!(TokenSale::restore(terms, vec![record]).is_some());
    // sold counter differs from the sum of the purchases
    assert!(TokenSale::restore(terms, vec![]).is_none());
    assert!(TokenSale::restore(TokenSaleData { sold_amount: 99, ..terms }, vec![record]).is_none());
    // a buyer twice
    assert!(TokenSale::restore(
        TokenSaleData { sold_amount: 200, ..terms },
        vec![record, record]
    )
    .is_none());
    // more claimed than claimable
    assert!(TokenSale::restore(terms, vec![BuyerInfo { claimed_so_far: 21, ..record }]).is_none());
    // more claimable than purchased
    assert!(
        TokenSale::restore(terms, vec![BuyerInfo { claimable_total: 101, ..record }]).is_none()
    );
    // more sold than the cap
    assert!(TokenSale::restore(TokenSaleData { total_supply: 99, ..terms }, vec![record]).is_none());
    // a percentage above one hundred
    assert!(TokenSale::restore(
        TokenSaleData { monthly_release_percent: 101, ..terms },
        vec![record]
    )
    .is_none());
    assert!(TokenSale::restore(
        TokenSaleData { initial_claimable_percent: 101, ..terms },
        vec![record]
    )
    .is_none());
    // a baseline without claiming enabled
    assert!(TokenSale::restore(TokenSaleData { vesting_start: 5, ..terms }, vec![record]).is_none());
    // purchases that sum beyond the integer width
    let huge = BuyerInfo { owner: id(8), purchased_amount: u64::MAX, claimable_total: 0, claimed_so_far: 0 };
    assert!(TokenSale::restore(
        TokenSaleData { total_supply: u64::MAX, sold_amount: 99, ..terms },
        vec![record, huge]
    )
    .is_none());
}

#[test]
fn phases_of_a_sale() {
    let mut sale = TokenSale::new(admin(), reserve(), 1, 10, 0, 50, 100).unwrap();
    assert_eq!(sale.phase(), SalePhase::Created);
    assert!(!sale.is_sale_closed());
    assert!(!sale.is_claim_enabled());
    sale.buy_tokens(&id(7), 4, 4).unwrap();
    assert_eq!(sale.phase(), SalePhase::Created);
    assert_eq!(sale.get_total_tokens_sold(), 4);
    assert_eq!(sale.get_total_tokens_remaining(), 6);
    sale.buy_tokens(&id(8), 6, 6).unwrap();
    assert_eq!(sale.phase(), SalePhase::SoldOut);
    assert!(sale.is_sale_closed());
    assert_eq!(sale.get_total_tokens_remaining(), 0);
    assert_eq!(sale.buy_tokens(&id(9), 1, 1), Err(SaleError::SaleClosed));
    sale.enable_claiming(&admin(), START).unwrap();
    assert_eq!(sale.phase(), SalePhase::ClaimingActive);
    assert!(sale.is_claim_enabled());
    assert_eq!(sale.claim_tokens(&id(8), START + 20 * SECONDS_PER_MONTH, Ok(())), Ok(6));
    sale.change_token_price(&admin(), 9).unwrap();
    assert_eq!(sale.phase(), SalePhase::ClaimingActive);
    assert_eq!(sale.get_price(), 9);
}

#[test]
fn claiming_can_be_enabled_before_the_sale_is_sold_out() {
    let mut sale = sale();
    sale.enable_claiming(&admin(), START).unwrap();
    assert_eq!(sale.phase(), SalePhase::ClaimingActive);
    assert!(!sale.is_sale_closed());
    // purchases go on
    sale.buy_tokens(&id(7), 100, 1000).unwrap();
    assert_eq!(sale.claim_tokens(&id(7), START + 2 * SECONDS_PER_MONTH, Ok(())), Ok(4));
}

#[test]
fn a_sale_without_supply_is_sold_out_from_the_start() {
    let mut sale = TokenSale::new(admin(), reserve(), 1, 0, 0, 0, 0).unwrap();
    assert_eq!(sale.phase(), SalePhase::SoldOut);
    assert_eq!(sale.buy_tokens(&id(7), 1, 1), Err(SaleError::SaleClosed));
}

#[test]
fn a_balance_too_small_for_a_monthly_release_never_vests() {
    // claimable 6 * 20 / 100 = 1, monthly release 1 * 10 / 100 = 0
    let mut sale = sale();
    sale.buy_tokens(&id(7), 6, 60).unwrap();
    sale.enable_claiming(&admin(), START).unwrap();
    assert_eq!(sale.get_buyer_info(&id(7)).unwrap().claimable_total, 1);
    assert_eq!(sale.get_total_vested_tokens(&id(7), i64::MAX), Some(0));
    assert_eq!(sale.claim_tokens(&id(7), i64::MAX, Ok(())), Err(SaleError::NothingToClaim));
}
