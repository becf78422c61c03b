use dazzle::book::{Book, Price, Quantity};
use dazzle::book_manager::{
    handle_book_event, next_loop_action, BookLoopAction, BookRunOutcome, BookStep, BookStreamEvent,
    BookStreamReason,
};
use dazzle::models::{BookLevel, BookUpdateType, OrderBookUpdate, OrderBookUpdateMessage};

fn lvl(action: &str, p: u64, q: u64) -> BookLevel {
    BookLevel { action: action.to_string(), price: Price::from_raw(p), amount: Quantity::from_raw(q) }
}

fn update(kind: BookUpdateType, change_id: u64, prev: Option<u64>, asks: Vec<BookLevel>, bids: Vec<BookLevel>) -> BookStreamEvent {
    BookStreamEvent::Message(OrderBookUpdateMessage::Data(OrderBookUpdate {
        instrument_name: "BTC-PERPETUAL".to_string(),
        timestamp: 0,
        change_id,
        prev_change_id: prev,
        update_type: kind,
        bids,
        asks,
    }))
}

#[test]
fn snapshot_then_chain_of_changes() {
    let mut book = Book::new();
    let s = handle_book_event(&mut book, &update(BookUpdateType::Snapshot, 10, None, vec![lvl("new", 101, 1)], vec![lvl("new", 100, 1)]), false);
    assert_eq!(s, BookStep::SnapshotLoaded);
    assert_eq!(book.change_id, 10);
    let s = handle_book_event(&mut book, &update(BookUpdateType::Change, 11, Some(10), vec![lvl("change", 101, 5)], vec![]), true);
    assert_eq!(s, BookStep::ChangeApplied { publish: true });
    let s = handle_book_event(&mut book, &update(BookUpdateType::Change, 12, Some(11), vec![], vec![lvl("delete", 100, 0)]), false);
    assert_eq!(s, BookStep::ChangeApplied { publish: false });
    assert_eq!(book.change_id, 12);
    assert_eq!(book.asks.get(&Price::from_raw(101)), Some(Quantity::from_raw(5)));
    assert!(book.bids.is_empty());
}

#[test]
fn gap_leaves_book_and_resubscribes() {
    let mut book = Book::new();
    handle_book_event(&mut book, &update(BookUpdateType::Snapshot, 10, None, vec![lvl("new", 101, 1)], vec![]), false);
    let s = handle_book_event(&mut book, &update(BookUpdateType::Change, 13, Some(12), vec![lvl("delete", 101, 0)], vec![]), true);
    assert_eq!(s, BookStep::Finish(BookStreamReason::StreamEnded));
    assert_eq!(book.change_id, 10);
    assert_eq!(book.asks.get(&Price::from_raw(101)), Some(Quantity::from_raw(1)));
}

#[test]
fn change_without_prev_id_is_applied() {
    let mut book = Book::new();
    let s = handle_book_event(&mut book, &update(BookUpdateType::Change, 5, None, vec![lvl("new", 1, 1)], vec![]), false);
    assert_eq!(s, BookStep::ChangeApplied { publish: false });
    assert_eq!(book.change_id, 5);
}

#[test]
fn other_events() {
    let mut book = Book::new();
    assert_eq!(handle_book_event(&mut book, &BookStreamEvent::Message(OrderBookUpdateMessage::ConnectionLost), true), BookStep::Finish(BookStreamReason::StreamEnded));
    assert_eq!(handle_book_event(&mut book, &BookStreamEvent::Failed(dazzle::error::AppError::InternalError("lag".to_string())), true), BookStep::Finish(BookStreamReason::StreamEnded));
    assert_eq!(handle_book_event(&mut book, &BookStreamEvent::TimedOut, true), BookStep::Finish(BookStreamReason::StreamEnded));
    assert_eq!(handle_book_event(&mut book, &BookStreamEvent::Closed, true), BookStep::Finish(BookStreamReason::Shutdown));
    assert_eq!(book.change_id, 0);
}

#[test]
fn loop_actions() {
    assert_eq!(next_loop_action(BookRunOutcome::SubscribeFailed), BookLoopAction::RetryAfterBackoff);
    assert_eq!(next_loop_action(BookRunOutcome::Ended(BookStreamReason::StreamEnded)), BookLoopAction::RetryAfterBackoff);
    assert_eq!(next_loop_action(BookRunOutcome::Ended(BookStreamReason::Shutdown)), BookLoopAction::Stop);
}

#[test]
fn chain_of_three_changes_is_applied() {
    let mut book = Book::new();
    handle_book_event(&mut book, &update(BookUpdateType::Snapshot, 1, None, vec![lvl("new", 10, 1)], vec![]), false);
    for (id, prev, q) in [(2u64, 1u64, 2u64), (3, 2, 3), (4, 3, 4)] {
        let s = handle_book_event(&mut book, &update(BookUpdateType::Change, id, Some(prev), vec![lvl("change", 10, q)], vec![lvl("new", q, q)]), false);
        assert_eq!(s, BookStep::ChangeApplied { publish: false });
    }
    assert_eq!(book.change_id, 4);
    assert_eq!(book.asks.get(&Price::from_raw(10)), Some(Quantity::from_raw(4)));
    assert_eq!(book.bids.len(), 3);
}
