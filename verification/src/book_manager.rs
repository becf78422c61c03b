//! The decisions of an instrument's book maintenance: how each event of the
//! book subscription changes the book and what is done next.
//!
//! The task that owns the subscription, the lock around the book, the
//! broadcast to subscribers and the backoff timer live outside the library;
//! they hand each event to `handle_book_event` and carry out the step it
//! returns.

use vstd::prelude::*;

use crate::book::{
    apply_levels_spec, is_last_at_price, lemma_snapshot_side_holds_every_level, snapshot_side_spec,
    Book,
};
use crate::error::AppError;
use crate::models::{BookUpdateType, OrderBookUpdate, OrderBookUpdateMessage};

verus! {

/// Why a run over one book subscription ended.
#[derive(Debug, Clone, Copy, PartialEq, Eq, Structural)]
pub enum BookStreamReason {
    /// The stream broke (gap, lag, lost connection, silence): resubscribe.
    StreamEnded,
    /// The feed itself is gone: stop maintaining the book.
    Shutdown,
}

/// What happened on the book subscription.
#[derive(Debug, Clone)]
pub enum BookStreamEvent {
    /// A message arrived.
    Message(OrderBookUpdateMessage),
    /// The subscription yielded an error (it fell behind and messages were
    /// dropped).
    Failed(AppError),
    /// No message arrived within the read timeout.
    TimedOut,
    /// The stream ended: its sender was dropped.
    Closed,
}

/// What the maintenance task does after an event.
#[derive(Debug, Clone, Copy, PartialEq, Eq, Structural)]
pub enum BookStep {
    /// The book was replaced by a snapshot: reset the backoff and mark the
    /// book ready.
    SnapshotLoaded,
    /// A change was applied; when `publish` holds, send the new book to the
    /// subscribers.
    ChangeApplied { publish: bool },
    /// End this subscription run.
    Finish(BookStreamReason),
}

/// The book's abstract state: asks, bids and change id.
pub open spec fn book_state(b: Book) -> (Map<u64, u64>, Map<u64, u64>, u64) {
    (b.asks@, b.bids@, b.change_id)
}

/// A change is out of sequence when it names a previous change id other than
/// the book's own.
pub open spec fn is_gap(change_id: u64, update: OrderBookUpdate) -> bool {
    match update.prev_change_id {
        Some(prev) => prev != change_id,
        None => false,
    }
}

/// The book state after an event.
pub open spec fn next_book_state(
    s: (Map<u64, u64>, Map<u64, u64>, u64),
    event: BookStreamEvent,
) -> (Map<u64, u64>, Map<u64, u64>, u64) {
    match event {
        BookStreamEvent::Message(OrderBookUpdateMessage::Data(u)) => match u.update_type {
            BookUpdateType::Snapshot => (
                snapshot_side_spec(u.asks@),
                snapshot_side_spec(u.bids@),
                u.change_id,
            ),
            BookUpdateType::Change => if is_gap(s.2, u) {
                s
            } else {
                (apply_levels_spec(s.0, u.asks@), apply_levels_spec(s.1, u.bids@), u.change_id)
            },
        },
        _ => s,
    }
}

/// The step taken after an event, given the book's change id before it and
/// whether the book has subscribers.
pub open spec fn book_step_spec(change_id: u64, event: BookStreamEvent, has_subscribers: bool) -> BookStep {
    match event {
        BookStreamEvent::Message(OrderBookUpdateMessage::Data(u)) => match u.update_type {
            BookUpdateType::Snapshot => BookStep::SnapshotLoaded,
            BookUpdateType::Change => if is_gap(change_id, u) {
                BookStep::Finish(BookStreamReason::StreamEnded)
            } else {
                BookStep::ChangeApplied { publish: has_subscribers }
            },
        },
        BookStreamEvent::Message(OrderBookUpdateMessage::ConnectionLost) => BookStep::Finish(
            BookStreamReason::StreamEnded,
        ),
        BookStreamEvent::Failed(_) => BookStep::Finish(BookStreamReason::StreamEnded),
        BookStreamEvent::TimedOut => BookStep::Finish(BookStreamReason::StreamEnded),
        BookStreamEvent::Closed => BookStep::Finish(BookStreamReason::Shutdown),
    }
}

/// Handles one event of the book subscription: a snapshot replaces the book;
/// a change in sequence is applied (change id, then asks, then bids), one out
/// of sequence leaves the book as it is and ends the run for a resubscribe;
/// a lost connection, a lag or a read timeout end the run for a resubscribe;
/// the end of the stream shuts the book down.
pub fn handle_book_event(book: &mut Book, event: &BookStreamEvent, has_subscribers: bool) -> (step:
    BookStep)
    ensures
        book_state(*final(book)) == next_book_state(book_state(*old(book)), *event),
        step == book_step_spec(old(book).change_id, *event, has_subscribers),
        !(*event matches BookStreamEvent::Message(OrderBookUpdateMessage::Data(_)))
            ==> book_state(*final(book)) == book_state(*old(book)),
{
    match event {
        BookStreamEvent::Message(OrderBookUpdateMessage::Data(update)) => match update.update_type {
            BookUpdateType::Snapshot => {
                *book = Book::from_snapshot(update);
                BookStep::SnapshotLoaded
            },
            BookUpdateType::Change => {
                let gap = match update.prev_change_id {
                    Some(prev) => prev != book.change_id,
                    None => false,
                };
                if gap {
                    BookStep::Finish(BookStreamReason::StreamEnded)
                } else {
                    book.apply_change(update);
                    BookStep::ChangeApplied { publish: has_subscribers }
                }
            },
        },
        BookStreamEvent::Message(OrderBookUpdateMessage::ConnectionLost) => BookStep::Finish(
            BookStreamReason::StreamEnded,
        ),
        BookStreamEvent::Failed(_) => BookStep::Finish(BookStreamReason::StreamEnded),
        BookStreamEvent::TimedOut => BookStep::Finish(BookStreamReason::StreamEnded),
        BookStreamEvent::Closed => BookStep::Finish(BookStreamReason::Shutdown),
    }
}

/// The book changes only on a book message: a lost connection, a lag, a
/// read timeout or the end of the stream leave its asks, bids and change id
/// as they were, and each of them ends the run (for a resubscribe, or for
/// good when the stream is gone).
pub proof fn lemma_only_book_messages_change_the_book(
    s: (Map<u64, u64>, Map<u64, u64>, u64),
    event: BookStreamEvent,
    has_subscribers: bool,
)
    requires
        !(event matches BookStreamEvent::Message(OrderBookUpdateMessage::Data(_))),
    ensures
        next_book_state(s, event) == s,
        book_step_spec(s.2, event, has_subscribers) is Finish,
        book_step_spec(s.2, event, has_subscribers) == BookStep::Finish(BookStreamReason::Shutdown)
            <==> event is Closed,
{
}

/// A snapshot loads every level it lists, on both sides, whatever the book
/// held before: each listed price is in the book with the amount of the
/// last level listed at it, no other price is, and the book takes the
/// snapshot's change id.
pub proof fn lemma_snapshot_loads_every_level(
    s: (Map<u64, u64>, Map<u64, u64>, u64),
    snap: OrderBookUpdate,
    has_subscribers: bool,
)
    requires
        snap.update_type == BookUpdateType::Snapshot,
    ensures
        ({
            let e = BookStreamEvent::Message(OrderBookUpdateMessage::Data(snap));
            let t = next_book_state(s, e);
            &&& book_step_spec(s.2, e, has_subscribers) == BookStep::SnapshotLoaded
            &&& t.2 == snap.change_id
            &&& forall|i: int|
                0 <= i < snap.asks@.len() ==> #[trigger] t.0.contains_key(snap.asks@[i].price@)
            &&& forall|i: int|
                0 <= i < snap.bids@.len() ==> #[trigger] t.1.contains_key(snap.bids@[i].price@)
            &&& forall|i: int|
                #[trigger] is_last_at_price(snap.asks@, i) ==> t.0[snap.asks@[i].price@]
                    == snap.asks@[i].amount@
            &&& forall|i: int|
                #[trigger] is_last_at_price(snap.bids@, i) ==> t.1[snap.bids@[i].price@]
                    == snap.bids@[i].amount@
            &&& forall|k: u64|
                #[trigger] t.0.contains_key(k) ==> exists|i: int|
                    0 <= i < snap.asks@.len() && #[trigger] snap.asks@[i].price@ == k
            &&& forall|k: u64|
                #[trigger] t.1.contains_key(k) ==> exists|i: int|
                    0 <= i < snap.bids@.len() && #[trigger] snap.bids@[i].price@ == k
        }),
{
    lemma_snapshot_side_holds_every_level(snap.asks@);
    lemma_snapshot_side_holds_every_level(snap.bids@);
}

/// A change that names the book's change id is applied: the run goes on,
/// the book takes the change's id, and each side is the old side with the
/// change's levels applied in order (see `lemma_change_decided_by_last_level`
/// for what that leaves at each price).
pub proof fn lemma_in_sequence_change_applied(
    s: (Map<u64, u64>, Map<u64, u64>, u64),
    update: OrderBookUpdate,
    has_subscribers: bool,
)
    requires
        update.update_type == BookUpdateType::Change,
        update.prev_change_id is None || update.prev_change_id == Some(s.2),
    ensures
        ({
            let e = BookStreamEvent::Message(OrderBookUpdateMessage::Data(update));
            let t = next_book_state(s, e);
            &&& book_step_spec(s.2, e, has_subscribers) == (BookStep::ChangeApplied {
                publish: has_subscribers,
            })
            &&& t.0 == apply_levels_spec(s.0, update.asks@)
            &&& t.1 == apply_levels_spec(s.1, update.bids@)
            &&& t.2 == update.change_id
        }),
{
}

/// A change out of sequence never alters the book and always ends the run
/// so that the book is rebuilt from a fresh snapshot.
pub proof fn lemma_gap_forces_resubscribe(
    s: (Map<u64, u64>, Map<u64, u64>, u64),
    update: OrderBookUpdate,
    has_subscribers: bool,
)
    requires
        update.update_type == BookUpdateType::Change,
        update.prev_change_id matches Some(prev) && prev != s.2,
    ensures
        next_book_state(s, BookStreamEvent::Message(OrderBookUpdateMessage::Data(update))) == s,
        book_step_spec(s.2, BookStreamEvent::Message(OrderBookUpdateMessage::Data(update)), has_subscribers)
            == BookStep::Finish(BookStreamReason::StreamEnded),
{
}

/// After a snapshot, a chain of two changes each naming its predecessor's
/// change id is applied in full, and the book ends at the last change id.
pub proof fn lemma_chained_changes_apply(
    s: (Map<u64, u64>, Map<u64, u64>, u64),
    snap: OrderBookUpdate,
    first: OrderBookUpdate,
    second: OrderBookUpdate,
    has_subscribers: bool,
)
    requires
        snap.update_type == BookUpdateType::Snapshot,
        first.update_type == BookUpdateType::Change,
        second.update_type == BookUpdateType::Change,
        first.prev_change_id == Some(snap.change_id),
        second.prev_change_id == Some(first.change_id),
    ensures
        ({
            let e0 = BookStreamEvent::Message(OrderBookUpdateMessage::Data(snap));
            let e1 = BookStreamEvent::Message(OrderBookUpdateMessage::Data(first));
            let e2 = BookStreamEvent::Message(OrderBookUpdateMessage::Data(second));
            let s0 = next_book_state(s, e0);
            let s1 = next_book_state(s0, e1);
            let s2 = next_book_state(s1, e2);
            &&& book_step_spec(s0.2, e1, has_subscribers) == BookStep::ChangeApplied {
                publish: has_subscribers,
            }
            &&& book_step_spec(s1.2, e2, has_subscribers) == BookStep::ChangeApplied {
                publish: has_subscribers,
            }
            &&& s2 == (
                apply_levels_spec(
                    apply_levels_spec(snapshot_side_spec(snap.asks@), first.asks@),
                    second.asks@,
                ),
                apply_levels_spec(
                    apply_levels_spec(snapshot_side_spec(snap.bids@), first.bids@),
                    second.bids@,
                ),
                second.change_id,
            )
        }),
{
}

/// `b` is a change that follows `a`: it names `a`'s change id.
pub open spec fn follows(a: OrderBookUpdate, b: OrderBookUpdate) -> bool {
    b.update_type == BookUpdateType::Change && b.prev_change_id == Some(a.change_id)
}

/// Each of `changes` is a change naming its predecessor's change id, the
/// first naming `start`.
pub open spec fn is_chain(start: u64, changes: Seq<OrderBookUpdate>) -> bool {
    &&& changes.len() > 0 ==> changes[0].update_type == BookUpdateType::Change
        && changes[0].prev_change_id == Some(start)
    &&& forall|i: int, j: int|
        0 <= i && j == i + 1 && j < changes.len() ==> follows(
            #[trigger] changes[i],
            #[trigger] changes[j],
        )
}

/// The book state after feeding each update to the maintenance, in order.
pub open spec fn run_updates(
    s: (Map<u64, u64>, Map<u64, u64>, u64),
    updates: Seq<OrderBookUpdate>,
) -> (Map<u64, u64>, Map<u64, u64>, u64)
    decreases updates.len(),
{
    if updates.len() == 0 {
        s
    } else {
        next_book_state(
            run_updates(s, updates.drop_last()),
            BookStreamEvent::Message(OrderBookUpdateMessage::Data(updates.last())),
        )
    }
}

/// The book state after applying each change's levels, in order.
pub open spec fn apply_all(
    s: (Map<u64, u64>, Map<u64, u64>, u64),
    changes: Seq<OrderBookUpdate>,
) -> (Map<u64, u64>, Map<u64, u64>, u64)
    decreases changes.len(),
{
    if changes.len() == 0 {
        s
    } else {
        let p = apply_all(s, changes.drop_last());
        (
            apply_levels_spec(p.0, changes.last().asks@),
            apply_levels_spec(p.1, changes.last().bids@),
            changes.last().change_id,
        )
    }
}

/// A prefix of a chain is a chain.
pub proof fn lemma_chain_prefix(start: u64, changes: Seq<OrderBookUpdate>, k: int)
    requires
        is_chain(start, changes),
        0 <= k <= changes.len(),
    ensures
        is_chain(start, changes.take(k)),
{
    let t = changes.take(k);
    assert forall|i: int, j: int| 0 <= i && j == i + 1 && j < t.len() implies follows(
        #[trigger] t[i],
        #[trigger] t[j],
    ) by {
        assert(t[i] == changes[i] && t[j] == changes[j]);
    }
    if k > 0 {
        assert(t[0] == changes[0]);
    }
}

/// Feeding a chain applies every change, and leaves the book at the last
/// change id (or where it was, for an empty chain).
pub proof fn lemma_chain_state(s: (Map<u64, u64>, Map<u64, u64>, u64), changes: Seq<OrderBookUpdate>)
    requires
        is_chain(s.2, changes),
    ensures
        run_updates(s, changes) == apply_all(s, changes),
        run_updates(s, changes).2 == (if changes.len() == 0 {
            s.2
        } else {
            changes.last().change_id
        }),
    decreases changes.len(),
{
    if changes.len() > 0 {
        let n = changes.len() - 1;
        let init = changes.drop_last();
        assert(init =~= changes.take(n));
        lemma_chain_prefix(s.2, changes, n);
        lemma_chain_state(s, init);
        let last = changes[n];
        assert(last == changes.last());
        assert(last.update_type == BookUpdateType::Change);
        if n > 0 {
            assert(init.last() == changes[n - 1]);
            assert(follows(changes[n - 1], changes[n]));
        }
        assert(!is_gap(run_updates(s, init).2, last));
    }
}

/// A chain of changes that starts at the book's change id is applied in
/// full, change after change, and never ends the run: every one of its
/// steps applies the change.
pub proof fn lemma_chain_applies(
    s: (Map<u64, u64>, Map<u64, u64>, u64),
    changes: Seq<OrderBookUpdate>,
    has_subscribers: bool,
)
    requires
        is_chain(s.2, changes),
    ensures
        run_updates(s, changes) == apply_all(s, changes),
        forall|i: int|
            0 <= i < changes.len() ==> #[trigger] book_step_spec(
                run_updates(s, changes.take(i)).2,
                BookStreamEvent::Message(OrderBookUpdateMessage::Data(changes[i])),
                has_subscribers,
            ) == (BookStep::ChangeApplied { publish: has_subscribers }),
{
    lemma_chain_state(s, changes);
    assert forall|i: int| 0 <= i < changes.len() implies #[trigger] book_step_spec(
        run_updates(s, changes.take(i)).2,
        BookStreamEvent::Message(OrderBookUpdateMessage::Data(changes[i])),
        has_subscribers,
    ) == (BookStep::ChangeApplied { publish: has_subscribers }) by {
        lemma_chain_prefix(s.2, changes, i);
        lemma_chain_state(s, changes.take(i));
        if i > 0 {
            assert(changes.take(i).last() == changes[i - 1]);
            assert(follows(changes[i - 1], changes[i]));
        }
    }
}

/// A snapshot replaces the whole book, whatever it held before.
pub proof fn lemma_snapshot_resets(
    s1: (Map<u64, u64>, Map<u64, u64>, u64),
    s2: (Map<u64, u64>, Map<u64, u64>, u64),
    snap: OrderBookUpdate,
)
    requires
        snap.update_type == BookUpdateType::Snapshot,
    ensures
        next_book_state(s1, BookStreamEvent::Message(OrderBookUpdateMessage::Data(snap)))
            == next_book_state(s2, BookStreamEvent::Message(OrderBookUpdateMessage::Data(snap))),
{
}

/// What the maintenance loop learns when a subscription run is over.
#[derive(Debug, Clone, Copy, PartialEq, Eq, Structural)]
pub enum BookRunOutcome {
    /// The subscribe request failed.
    SubscribeFailed,
    /// The run over the subscription ended for this reason.
    Ended(BookStreamReason),
}

/// What the maintenance loop does next.
#[derive(Debug, Clone, Copy, PartialEq, Eq, Structural)]
pub enum BookLoopAction {
    /// Wait for the next backoff interval, then subscribe again.
    RetryAfterBackoff,
    /// Stop maintaining the book.
    Stop,
}

/// The maintenance loop retries after a backoff unless the feed shut down.
pub fn next_loop_action(outcome: BookRunOutcome) -> (a: BookLoopAction)
    ensures
        a == (if outcome == BookRunOutcome::Ended(BookStreamReason::Shutdown) {
            BookLoopAction::Stop
        } else {
            BookLoopAction::RetryAfterBackoff
        }),
{
    match outcome {
        BookRunOutcome::Ended(BookStreamReason::Shutdown) => BookLoopAction::Stop,
        _ => BookLoopAction::RetryAfterBackoff,
    }
}

} // verus!
