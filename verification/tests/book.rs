use dazzle::book::{
    apply_level, classify_action, Book, BookSide, LevelAction, Price, Quantity, Side, PRICE_SCALE,
    QUANTITY_SCALE,
};
use dazzle::models::{BookLevel, BookUpdateType, OrderBookUpdate};

fn px(units: u64) -> Price {
    Price::from_raw(units * PRICE_SCALE)
}

fn qty(units: u64) -> Quantity {
    Quantity::from_raw(units * QUANTITY_SCALE)
}

fn level(action: &str, price: Price, amount: Quantity) -> BookLevel {
    BookLevel { action: action.to_string(), price, amount }
}

fn snapshot(asks: Vec<(u64, u64)>, bids: Vec<(u64, u64)>, change_id: u64) -> OrderBookUpdate {
    OrderBookUpdate {
        instrument_name: "BTC-PERPETUAL".to_string(),
        timestamp: 0,
        change_id,
        prev_change_id: None,
        update_type: BookUpdateType::Snapshot,
        asks: asks.into_iter().map(|(p, q)| level("new", px(p), qty(q))).collect(),
        bids: bids.into_iter().map(|(p, q)| level("new", px(p), qty(q))).collect(),
    }
}

#[test]
fn new_book_is_empty() {
    let b = Book::new();
    assert!(b.asks.is_empty());
    assert!(b.bids.is_empty());
    assert_eq!(b.change_id, 0);
    assert_eq!(b.best_bid(), None);
    assert_eq!(b.best_ask(), None);
    assert_eq!(b.spread(), None);
    assert_eq!(b.mid_price(), None);
    let d = Book::default();
    assert_eq!(d.change_id, 0);
}

#[test]
fn price_and_quantity_keep_raw_value() {
    assert_eq!(Price::from_raw(6_543_250_000_000).raw(), 6_543_250_000_000);
    assert_eq!(Quantity::from_raw(10_000_000).raw(), 10_000_000);
    assert!(Price::from_raw(1) < Price::from_raw(2));
}

#[test]
fn snapshot_builds_both_sides() {
    let b = Book::from_snapshot(&snapshot(vec![(101, 1), (102, 2)], vec![(100, 3), (99, 4)], 7));
    assert_eq!(b.change_id, 7);
    assert_eq!(b.asks.len(), 2);
    assert_eq!(b.bids.len(), 2);
    assert_eq!(b.asks.get(&px(102)), Some(qty(2)));
    assert_eq!(b.bids.get(&px(99)), Some(qty(4)));
    assert_eq!(b.asks.get(&px(100)), None);
}

#[test]
fn snapshot_later_level_overrides_earlier() {
    let b = Book::from_snapshot(&snapshot(vec![(101, 1), (101, 5)], vec![], 1));
    assert_eq!(b.asks.len(), 1);
    assert_eq!(b.asks.get(&px(101)), Some(qty(5)));
}

#[test]
fn best_prices_spread_and_mid() {
    let b = Book::from_snapshot(&snapshot(vec![(103, 1), (101, 2)], vec![(98, 3), (100, 4)], 1));
    assert_eq!(b.best_ask(), Some((px(101), qty(2))));
    assert_eq!(b.best_bid(), Some((px(100), qty(4))));
    assert_eq!(b.spread(), Some((PRICE_SCALE) as i128));
    assert_eq!(b.mid_price(), Some(Price::from_raw(100 * PRICE_SCALE + PRICE_SCALE / 2)));
}

#[test]
fn crossed_book_has_negative_spread() {
    let b = Book::from_snapshot(&snapshot(vec![(99, 1)], vec![(100, 1)], 1));
    assert_eq!(b.spread(), Some(-(PRICE_SCALE as i128)));
}

#[test]
fn mid_price_rounds_down() {
    let b = Book::from_snapshot(&snapshot(vec![], vec![], 1));
    let mut b = b;
    b.asks.insert(Price::from_raw(4), qty(1));
    b.bids.insert(Price::from_raw(1), qty(1));
    assert_eq!(b.mid_price(), Some(Price::from_raw(2)));
}

#[test]
fn levels_are_ordered_for_display() {
    let b = Book::from_snapshot(&snapshot(vec![(103, 1), (101, 2), (102, 3)], vec![(98, 3), (100, 4), (99, 5)], 1));
    let asks = b.asks.ascending();
    assert_eq!(asks, vec![(px(101), qty(2)), (px(102), qty(3)), (px(103), qty(1))]);
    let bids = b.bids.descending();
    assert_eq!(bids, vec![(px(100), qty(4)), (px(99), qty(5)), (px(98), qty(3))]);
    assert_eq!(b.bids.lowest(), Some((px(98), qty(3))));
    assert_eq!(b.asks.highest(), Some((px(103), qty(1))));
}

#[test]
fn classify_actions() {
    assert_eq!(classify_action("new"), LevelAction::Put);
    assert_eq!(classify_action("change"), LevelAction::Put);
    assert_eq!(classify_action("delete"), LevelAction::Remove);
    assert_eq!(classify_action("remove"), LevelAction::Ignore);
    assert_eq!(classify_action(""), LevelAction::Ignore);
}

#[test]
fn apply_level_new_change_delete_unknown() {
    let mut side = BookSide::new();
    apply_level(&mut side, &level("new", px(100), qty(1)));
    assert_eq!(side.get(&px(100)), Some(qty(1)));
    apply_level(&mut side, &level("change", px(100), qty(3)));
    assert_eq!(side.get(&px(100)), Some(qty(3)));
    apply_level(&mut side, &level("bogus", px(100), qty(9)));
    assert_eq!(side.get(&px(100)), Some(qty(3)));
    apply_level(&mut side, &level("delete", px(100), qty(0)));
    assert_eq!(side.get(&px(100)), None);
    apply_level(&mut side, &level("delete", px(55), qty(0)));
    assert!(side.is_empty());
}

#[test]
fn apply_change_sets_change_id_and_levels() {
    let mut b = Book::from_snapshot(&snapshot(vec![(101, 1)], vec![(100, 1)], 10));
    let change = OrderBookUpdate {
        instrument_name: "BTC-PERPETUAL".to_string(),
        timestamp: 1,
        change_id: 11,
        prev_change_id: Some(10),
        update_type: BookUpdateType::Change,
        asks: vec![level("delete", px(101), qty(0)), level("new", px(102), qty(2))],
        bids: vec![level("change", px(100), qty(5))],
    };
    b.apply_change(&change);
    assert_eq!(b.change_id, 11);
    assert_eq!(b.asks.ascending(), vec![(px(102), qty(2))]);
    assert_eq!(b.bids.descending(), vec![(px(100), qty(5))]);
}

#[test]
fn walk_buy_sweeps_asks_lowest_first() {
    let b = Book::from_snapshot(&snapshot(vec![(100, 1), (101, 1), (102, 1)], vec![(99, 1)], 1));
    let r = b.walk_book(Side::Buy, qty(2));
    assert_eq!(r.filled, qty(2));
    assert_eq!(r.unfilled, qty(0));
    let expected_notional = (100 * PRICE_SCALE as u128) * (QUANTITY_SCALE as u128)
        + (101 * PRICE_SCALE as u128) * (QUANTITY_SCALE as u128);
    assert_eq!(r.notional, expected_notional);
    assert_eq!(r.average_price, Some(Price::from_raw(100 * PRICE_SCALE + PRICE_SCALE / 2)));
}

#[test]
fn walk_sell_sweeps_bids_highest_first() {
    let b = Book::from_snapshot(&snapshot(vec![(101, 1)], vec![(98, 2), (99, 1)], 1));
    let r = b.walk_book(Side::Sell, qty(2));
    assert_eq!(r.filled, qty(2));
    assert_eq!(r.unfilled, qty(0));
    // one at 99, one at 98: average 98.5
    assert_eq!(r.average_price, Some(Price::from_raw(98 * PRICE_SCALE + PRICE_SCALE / 2)));
}

#[test]
fn walk_partial_fill_leaves_unfilled() {
    let b = Book::from_snapshot(&snapshot(vec![(100, 1), (101, 2)], vec![], 1));
    let r = b.walk_book(Side::Buy, qty(5));
    assert_eq!(r.filled, qty(3));
    assert_eq!(r.unfilled, qty(2));
    let r = b.walk_book(Side::Sell, qty(5));
    assert_eq!(r.filled, qty(0));
    assert_eq!(r.unfilled, qty(5));
    assert_eq!(r.average_price, None);
    assert_eq!(r.notional, 0);
}

#[test]
fn walk_fractional_quantity() {
    let b = Book::from_snapshot(&snapshot(vec![(100, 1)], vec![], 1));
    let r = b.walk_book(Side::Buy, Quantity::from_raw(QUANTITY_SCALE / 10));
    assert_eq!(r.filled, Quantity::from_raw(QUANTITY_SCALE / 10));
    assert_eq!(r.average_price, Some(px(100)));
}

#[test]
fn walk_large_position_does_not_overflow() {
    let mut b = Book::new();
    b.asks.insert(Price::from_raw(u64::MAX), Quantity::from_raw(u64::MAX));
    let r = b.walk_book(Side::Buy, Quantity::from_raw(u64::MAX));
    assert_eq!(r.filled, Quantity::from_raw(u64::MAX));
    assert_eq!(r.notional, (u64::MAX as u128) * (u64::MAX as u128));
    assert_eq!(r.average_price, Some(Price::from_raw(u64::MAX)));
}

#[test]
fn walk_average_never_better_than_top_of_book() {
    let b = Book::from_snapshot(&snapshot(vec![(100, 1), (110, 1)], vec![(90, 1), (80, 1)], 1));
    let buy = b.walk_book(Side::Buy, qty(2)).average_price.unwrap();
    assert!(buy >= b.best_ask().unwrap().0);
    let sell = b.walk_book(Side::Sell, qty(2)).average_price.unwrap();
    assert!(sell <= b.best_bid().unwrap().0);
}

#[test]
fn side_remove_and_insert() {
    let mut s = BookSide::new();
    s.insert(px(1), qty(1));
    s.insert(px(2), qty(2));
    s.remove(&px(1));
    assert_eq!(s.len(), 1);
    assert_eq!(s.ascending_raw(), vec![(2 * PRICE_SCALE, 2 * QUANTITY_SCALE)]);
    assert_eq!(s.descending_raw(), vec![(2 * PRICE_SCALE, 2 * QUANTITY_SCALE)]);
}

#[test]
fn price_order_follows_raw_values() {
    let pairs = [(1u64, 2u64), (2, 2), (3, 2), (0, u64::MAX), (PRICE_SCALE, PRICE_SCALE + 1)];
    for (a, b) in pairs {
        let (pa, pb) = (Price::from_raw(a), Price::from_raw(b));
        assert_eq!(pa.cmp(&pb), a.cmp(&b));
        assert_eq!(pa.partial_cmp(&pb), Some(a.cmp(&b)));
        assert_eq!(pa == pb, a == b);
        assert_eq!(pa < pb, a < b);
        let (qa, qb) = (Quantity::from_raw(a), Quantity::from_raw(b));
        assert_eq!(qa.cmp(&qb), a.cmp(&b));
        assert_eq!(qa.partial_cmp(&qb), Some(a.cmp(&b)));
        assert_eq!(qa == qb, a == b);
    }
    assert!(px(100) < px(101));
    assert!(qty(2) > qty(1));
}
