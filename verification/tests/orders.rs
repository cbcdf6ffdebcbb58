use std::collections::HashMap;

use stellarflow_contracts::errors::ContractError;
use stellarflow_contracts::orders::{AssetPair, FillResult, OrderBook, TokenTransfer, PRICE_SCALE};

const CONTRACT: u64 = 999;
const SELL_ASSET: u64 = 500;
const BUY_ASSET: u64 = 501;
const LEDGER: u32 = 10;

/// Token balances, moved by the transfers that the order book asks for.
struct Tokens {
    balances: HashMap<(u64, u64), i128>,
    applied: usize,
}

impl Tokens {
    fn new() -> Self {
        Tokens { balances: HashMap::new(), applied: 0 }
    }

    fn mint(&mut self, token: u64, to: u64, amount: i128) {
        *self.balances.entry((token, to)).or_insert(0) += amount;
    }

    fn balance(&self, token: u64, who: u64) -> i128 {
        *self.balances.get(&(token, who)).unwrap_or(&0)
    }

    fn settle(&mut self, transfers: &[TokenTransfer]) {
        for t in &transfers[self.applied..] {
            let from = self.balance(t.token, t.from);
            assert!(from >= t.amount, "insufficient balance");
            self.balances.insert((t.token, t.from), from - t.amount);
            *self.balances.entry((t.token, t.to)).or_insert(0) += t.amount;
        }
        self.applied = transfers.len();
    }
}

fn setup() -> (OrderBook, Tokens, Vec<TokenTransfer>, AssetPair) {
    (OrderBook::new(), Tokens::new(), Vec::new(), AssetPair { sell_asset: SELL_ASSET, buy_asset: BUY_ASSET })
}

#[test]
fn place_order_locks_sell_asset() {
    let (mut book, mut tokens, mut transfers, pair) = setup();
    let maker = 1;
    tokens.mint(SELL_ASSET, maker, 1_000);
    let order = book.place_order(maker, pair, 2 * PRICE_SCALE, 1_000, LEDGER, CONTRACT, &mut transfers).unwrap();
    tokens.settle(&transfers);
    assert_eq!(order.remaining_amount, 1_000);
    assert_eq!(tokens.balance(SELL_ASSET, maker), 0);
}

#[test]
fn partial_fill_keeps_order_open_with_reduced_remainder() {
    let (mut book, mut tokens, mut transfers, pair) = setup();
    let maker = 1;
    let filler = 2;
    tokens.mint(SELL_ASSET, maker, 1_000);
    tokens.mint(BUY_ASSET, filler, 10_000);
    let order = book.place_order(maker, pair, 2 * PRICE_SCALE, 1_000, LEDGER, CONTRACT, &mut transfers).unwrap();
    tokens.settle(&transfers);

    let result = book.fill_order(filler, order.id, 400, LEDGER, CONTRACT, &mut transfers).unwrap();
    tokens.settle(&transfers);
    assert_eq!(result.remaining_amount, 600);
    assert!(!result.order_closed);
    assert_eq!(result.paid_amount, 800);

    assert_eq!(tokens.balance(SELL_ASSET, filler), 400);
    assert_eq!(tokens.balance(BUY_ASSET, maker), 800);
}

#[test]
fn full_fill_closes_order_and_clears_book_bucket() {
    let (mut book, mut tokens, mut transfers, pair) = setup();
    let maker = 1;
    let filler = 2;
    tokens.mint(SELL_ASSET, maker, 500);
    tokens.mint(BUY_ASSET, filler, 5_000);
    let order = book.place_order(maker, pair, PRICE_SCALE, 500, LEDGER, CONTRACT, &mut transfers).unwrap();
    tokens.settle(&transfers);

    let result = book.fill_order(filler, order.id, 500, LEDGER, CONTRACT, &mut transfers).unwrap();
    tokens.settle(&transfers);
    assert!(result.order_closed);
    assert_eq!(book.get_orders_at_tick(pair, PRICE_SCALE).len(), 0);
}

#[test]
fn maker_can_cancel_and_recover_locked_assets() {
    let (mut book, mut tokens, mut transfers, pair) = setup();
    let maker = 1;
    tokens.mint(SELL_ASSET, maker, 1_000);
    let order = book.place_order(maker, pair, PRICE_SCALE, 1_000, LEDGER, CONTRACT, &mut transfers).unwrap();
    tokens.settle(&transfers);

    let recovered = book.cancel_order(maker, order.id, CONTRACT, &mut transfers).unwrap();
    tokens.settle(&transfers);
    assert_eq!(recovered, 1_000);
    assert_eq!(tokens.balance(SELL_ASSET, maker), 1_000);
}

#[test]
fn non_maker_cannot_cancel_order() {
    let (mut book, mut tokens, mut transfers, pair) = setup();
    let maker = 1;
    let attacker = 3;
    tokens.mint(SELL_ASSET, maker, 1_000);
    let order = book.place_order(maker, pair, PRICE_SCALE, 1_000, LEDGER, CONTRACT, &mut transfers).unwrap();
    tokens.settle(&transfers);

    let result = book.cancel_order(attacker, order.id, CONTRACT, &mut transfers);
    assert_eq!(result, Err(ContractError::OrderNotMaker));
}

#[test]
fn fill_exceeding_remaining_amount_fails() {
    let (mut book, mut tokens, mut transfers, pair) = setup();
    let maker = 1;
    let filler = 2;
    tokens.mint(SELL_ASSET, maker, 100);
    tokens.mint(BUY_ASSET, filler, 10_000);
    let order = book.place_order(maker, pair, PRICE_SCALE, 100, LEDGER, CONTRACT, &mut transfers).unwrap();
    tokens.settle(&transfers);

    let result = book.fill_order(filler, order.id, 200, LEDGER, CONTRACT, &mut transfers);
    assert_eq!(result, Err(ContractError::OrderInsufficientRemaining));
}

#[test]
fn cancelled_order_cannot_be_filled() {
    let (mut book, mut tokens, mut transfers, pair) = setup();
    let maker = 1;
    let filler = 2;
    tokens.mint(SELL_ASSET, maker, 100);
    tokens.mint(BUY_ASSET, filler, 1_000);
    let order = book.place_order(maker, pair, PRICE_SCALE, 100, LEDGER, CONTRACT, &mut transfers).unwrap();
    tokens.settle(&transfers);
    book.cancel_order(maker, order.id, CONTRACT, &mut transfers).unwrap();
    tokens.settle(&transfers);

    let result = book.fill_order(filler, order.id, 10, LEDGER, CONTRACT, &mut transfers);
    assert_eq!(result, Err(ContractError::OrderAlreadyClosed));
}

#[test]
fn placement_errors_leave_book_unchanged() {
    let (mut book, _tokens, mut transfers, pair) = setup();
    assert_eq!(book.place_order(1, pair, PRICE_SCALE, 0, LEDGER, CONTRACT, &mut transfers), Err(ContractError::OrderZeroAmount));
    assert_eq!(book.place_order(1, pair, 0, 10, LEDGER, CONTRACT, &mut transfers), Err(ContractError::OrderInvalidPrice));
    assert!(transfers.is_empty());
    assert_eq!(book.get_order(0), None);
}

#[test]
fn ticks_list_resting_orders_in_posting_order() {
    let (mut book, _tokens, mut transfers, pair) = setup();
    let a = book.place_order(1, pair, PRICE_SCALE, 10, LEDGER, CONTRACT, &mut transfers).unwrap();
    let b = book.place_order(2, pair, 2 * PRICE_SCALE, 10, LEDGER, CONTRACT, &mut transfers).unwrap();
    let c = book.place_order(3, pair, PRICE_SCALE, 10, LEDGER, CONTRACT, &mut transfers).unwrap();
    assert_eq!((a.id, b.id, c.id), (0, 1, 2));
    assert_eq!(book.get_orders_at_tick(pair, PRICE_SCALE), vec![0, 2]);
    assert_eq!(book.get_orders_at_tick(pair, 2 * PRICE_SCALE), vec![1]);
    book.cancel_order(1, 0, CONTRACT, &mut transfers).unwrap();
    assert_eq!(book.get_orders_at_tick(pair, PRICE_SCALE), vec![2]);
    let other = AssetPair { sell_asset: BUY_ASSET, buy_asset: SELL_ASSET };
    assert!(book.get_orders_at_tick(other, PRICE_SCALE).is_empty());
}

#[test]
fn expired_order_cannot_be_filled() {
    let (mut book, _tokens, mut transfers, pair) = setup();
    let order = book.place_order_with_expiry(1, pair, PRICE_SCALE, 10, 20, LEDGER, CONTRACT, &mut transfers).unwrap();
    assert_eq!(order.expiry, 20);
    assert_eq!(book.fill_order(2, order.id, 5, 21, CONTRACT, &mut transfers), Err(ContractError::OrderAlreadyClosed));
    assert!(book.fill_order(2, order.id, 5, 20, CONTRACT, &mut transfers).is_ok());
}

#[test]
fn fill_error_cases() {
    let (mut book, _tokens, mut transfers, pair) = setup();
    assert_eq!(book.fill_order(2, 0, 0, LEDGER, CONTRACT, &mut transfers), Err(ContractError::OrderZeroAmount));
    assert_eq!(book.fill_order(2, 0, 5, LEDGER, CONTRACT, &mut transfers), Err(ContractError::OrderNotFound));
    book.place_order(1, pair, i128::MAX, 10, LEDGER, CONTRACT, &mut transfers).unwrap();
    assert_eq!(book.fill_order(2, 0, 5, LEDGER, CONTRACT, &mut transfers), Err(ContractError::MathOverflow));
    assert_eq!(book.cancel_order(1, 7, CONTRACT, &mut transfers), Err(ContractError::OrderNotFound));
}

#[test]
fn fill_pays_rounded_down_price_and_reports_transfers() {
    let (mut book, _tokens, mut transfers, pair) = setup();
    book.place_order(1, pair, 15_000_000, 10, LEDGER, CONTRACT, &mut transfers).unwrap();
    let result = book.fill_order(2, 0, 3, LEDGER, CONTRACT, &mut transfers).unwrap();
    assert_eq!(
        result,
        FillResult { order_id: 0, filled_amount: 3, paid_amount: 4, remaining_amount: 7, order_closed: false }
    );
    assert_eq!(transfers[1], TokenTransfer { token: BUY_ASSET, from: 2, to: 1, amount: 4 });
    assert_eq!(transfers[2], TokenTransfer { token: SELL_ASSET, from: CONTRACT, to: 2, amount: 3 });
    let order = book.get_order(0).unwrap();
    assert_eq!((order.filled_amount, order.remaining_amount, order.amount, order.active), (3, 7, 7, true));
}

#[test]
fn book_survives_storing_and_loading() {
    let (mut book, _tokens, mut transfers, pair) = setup();
    book.place_order(1, pair, PRICE_SCALE, 10, LEDGER, CONTRACT, &mut transfers).unwrap();
    book.place_order(2, pair, PRICE_SCALE, 10, LEDGER, CONTRACT, &mut transfers).unwrap();
    book.cancel_order(1, 0, CONTRACT, &mut transfers).unwrap();
    let orders = book.into_orders();
    assert_eq!(orders.len(), 2);
    let mut reloaded = OrderBook::from_orders(orders.clone()).unwrap();
    assert_eq!(reloaded.get_orders_at_tick(pair, PRICE_SCALE), vec![1]);
    let next = reloaded.place_order(3, pair, PRICE_SCALE, 5, LEDGER, CONTRACT, &mut transfers).unwrap();
    assert_eq!(next.id, 2);
    let mut broken = orders;
    broken[1].remaining_amount = 3;
    assert!(OrderBook::from_orders(broken).is_none());
}
