//! Reference counts of channel subscriptions.
//!
//! Many consumers may stream one channel, but the exchange is asked to
//! subscribe only when the first consumer arrives and to unsubscribe only
//! when the last one leaves. Counts are 32-bit and wrap as atomic counters
//! do.

use vstd::prelude::*;

use dashmap::DashMap;

verus! {

/// The count after one more consumer (wrapping at `u32::MAX`).
pub open spec fn inc_count(c: u32) -> u32 {
    if c == u32::MAX {
        0
    } else {
        (c + 1) as u32
    }
}

/// The count after one consumer fewer (wrapping at 0).
pub open spec fn dec_count(c: u32) -> u32 {
    if c == 0 {
        u32::MAX
    } else {
        (c - 1) as u32
    }
}

/// The count of `k` in `m`, an absent channel counting 0.
pub open spec fn count_in(m: Map<Seq<char>, u32>, k: Seq<char>) -> u32 {
    if m.contains_key(k) {
        m[k]
    } else {
        0
    }
}

/// Counts after a consumer arrives, and whether the exchange must be asked to
/// subscribe (no consumer before).
pub open spec fn acquire_spec(m: Map<Seq<char>, u32>, k: Seq<char>) -> (Map<Seq<char>, u32>, bool) {
    (m.insert(k, inc_count(count_in(m, k))), count_in(m, k) == 0)
}

/// Counts after a subscribe request failed: the consumer that asked is taken
/// back off a present entry (the entry stays, even at 0).
pub open spec fn undo_acquire_spec(m: Map<Seq<char>, u32>, k: Seq<char>) -> Map<Seq<char>, u32> {
    if m.contains_key(k) {
        m.insert(k, dec_count(m[k]))
    } else {
        m
    }
}

/// Counts after a consumer leaves, and whether the exchange must be asked to
/// unsubscribe (it was the last one; its entry is then dropped).
pub open spec fn release_spec(m: Map<Seq<char>, u32>, k: Seq<char>) -> (Map<Seq<char>, u32>, bool) {
    if !m.contains_key(k) {
        (m, false)
    } else if m[k] == 1 {
        (m.remove(k), true)
    } else {
        (m.insert(k, dec_count(m[k])), false)
    }
}

/// The `dashmap` map type, so that a count table can hold one.
#[verifier::external_type_specification]
#[verifier::external_body]
#[verifier::reject_recursive_types(K)]
#[verifier::reject_recursive_types(V)]
#[verifier::reject_recursive_types(S)]
pub struct ExDashMap<K, V, S>(DashMap<K, V, S>);

/// What a `DashMap` from channel names to counts holds, each name taken by
/// its text.
pub uninterp spec fn dashmap_counts(m: DashMap<String, u32>) -> Map<Seq<char>, u32>;

/// `DashMap::new`: a map with no entry.
#[verifier::external_body]
fn counts_new() -> (fresh: DashMap<String, u32>)
    ensures
        dashmap_counts(fresh).dom() == Set::<Seq<char>>::empty(),
{
    DashMap::new()
}

/// `DashMap::get`, the value copied out of the guard it returns: the count
/// held for `key`, or `None` where the map has no entry for it.
#[verifier::external_body]
fn counts_get(m: &DashMap<String, u32>, key: &str) -> (r: Option<u32>)
    ensures
        r == (if dashmap_counts(*m).contains_key(key@) {
            Some(dashmap_counts(*m)[key@])
        } else {
            None::<u32>
        }),
{
    m.get(key).map(|entry| *entry)
}

/// `DashMap::insert`: the entry for `key` holds `value` afterwards (a new
/// entry, or the old one overwritten); the other entries stay.
#[verifier::external_body]
fn counts_insert(m: &mut DashMap<String, u32>, key: &str, value: u32)
    ensures
        dashmap_counts(*final(m)) == dashmap_counts(*old(m)).insert(key@, value),
{
    m.insert(key.to_owned(), value);
}

/// `DashMap::remove`: the entry for `key`, if any, is gone; the other
/// entries stay.
#[verifier::external_body]
fn counts_remove(m: &mut DashMap<String, u32>, key: &str)
    ensures
        dashmap_counts(*final(m)) == dashmap_counts(*old(m)).remove(key@),
{
    m.remove(key);
}

/// Consumers per channel name.
pub struct SubscriptionCounts {
    counts: DashMap<String, u32>,
}

impl View for SubscriptionCounts {
    type V = Map<Seq<char>, u32>;

    closed spec fn view(&self) -> Map<Seq<char>, u32> {
        dashmap_counts(self.counts)
    }
}

impl SubscriptionCounts {
    /// No channel has a consumer.
    pub fn new() -> (s: SubscriptionCounts)
        ensures
            s@ == Map::<Seq<char>, u32>::empty(),
    {
        let s = SubscriptionCounts { counts: counts_new() };
        assert(s@ =~= Map::<Seq<char>, u32>::empty());
        s
    }

    /// The number of consumers of `channel`, when it is listed.
    pub fn count(&self, channel: &str) -> (r: Option<u32>)
        ensures
            match r {
                Some(c) => self@.contains_key(channel@) && self@[channel@] == c,
                None => !self@.contains_key(channel@),
            },
    {
        counts_get(&self.counts, channel)
    }

    /// A consumer arrives on `channel`. Returns whether it is the first, in
    /// which case the exchange must be asked to subscribe.
    pub fn acquire(&mut self, channel: &str) -> (first: bool)
        ensures
            (final(self)@, first) == acquire_spec(old(self)@, channel@),
    {
        let prev = match counts_get(&self.counts, channel) {
            Some(c) => c,
            None => 0,
        };
        let next = if prev == u32::MAX {
            0
        } else {
            prev + 1
        };
        counts_insert(&mut self.counts, channel, next);
        prev == 0
    }

    /// The subscribe request for `channel` failed: takes the consumer back.
    pub fn undo_acquire(&mut self, channel: &str)
        ensures
            final(self)@ == undo_acquire_spec(old(self)@, channel@),
    {
        match counts_get(&self.counts, channel) {
            Some(prev) => {
                let next = if prev == 0 {
                    u32::MAX
                } else {
                    prev - 1
                };
                counts_insert(&mut self.counts, channel, next);
            },
            None => {},
        }
    }

    /// A consumer leaves `channel`. Returns whether it was the last, in which
    /// case the entry is dropped and the exchange must be asked to
    /// unsubscribe.
    pub fn release(&mut self, channel: &str) -> (last: bool)
        ensures
            (final(self)@, last) == release_spec(old(self)@, channel@),
    {
        match counts_get(&self.counts, channel) {
            Some(prev) => {
                if prev == 1 {
                    counts_remove(&mut self.counts, channel);
                    true
                } else {
                    let next = if prev == 0 {
                        u32::MAX
                    } else {
                        prev - 1
                    };
                    counts_insert(&mut self.counts, channel, next);
                    false
                }
            },
            None => false,
        }
    }
}

/// A consumer that arrives and then leaves puts the counts back as they
/// were, for a channel that was unlisted or had between 1 and `u32::MAX - 1`
/// consumers; the exchange is asked to subscribe and to unsubscribe exactly
/// when the channel was unlisted.
pub proof fn lemma_acquire_release_restores(m: Map<Seq<char>, u32>, k: Seq<char>)
    requires
        !m.contains_key(k) || (1 <= m[k] < u32::MAX),
    ensures
        release_spec(acquire_spec(m, k).0, k).0 == m,
        acquire_spec(m, k).1 == !m.contains_key(k),
        release_spec(acquire_spec(m, k).0, k).1 == !m.contains_key(k),
{
    let a = acquire_spec(m, k).0;
    if m.contains_key(k) {
        assert(a.insert(k, dec_count(a[k])) =~= m);
    } else {
        assert(a.remove(k) =~= m);
    }
}

/// A consumer whose subscribe request fails leaves the channel's count as it
/// was (an unlisted channel is then listed at 0), and every other channel
/// untouched.
pub proof fn lemma_failed_subscribe_keeps_count(m: Map<Seq<char>, u32>, k: Seq<char>)
    requires
        count_in(m, k) < u32::MAX,
    ensures
        count_in(undo_acquire_spec(acquire_spec(m, k).0, k), k) == count_in(m, k),
        forall|q: Seq<char>|
            q != k ==> #[trigger] undo_acquire_spec(acquire_spec(m, k).0, k).contains_key(q)
                == m.contains_key(q) && count_in(undo_acquire_spec(acquire_spec(m, k).0, k), q)
                == count_in(m, q),
{
}

/// With a channel's subscribes served one after the other, a consumer that
/// comes after a first consumer whose subscribe request failed is itself
/// the first: it asks the exchange again.
pub proof fn lemma_retry_after_failed_subscribe(m: Map<Seq<char>, u32>, k: Seq<char>)
    requires
        count_in(m, k) == 0,
    ensures
        acquire_spec(m, k).1,
        acquire_spec(undo_acquire_spec(acquire_spec(m, k).0, k), k).1,
{
}

/// Among consumers that each arrived and left once, only the first arrival
/// subscribes: a second consumer of a channel never triggers a request.
pub proof fn lemma_second_consumer_shares(m: Map<Seq<char>, u32>, k: Seq<char>)
    requires
        count_in(m, k) < u32::MAX - 1,
    ensures
        !acquire_spec(acquire_spec(m, k).0, k).1,
        !release_spec(acquire_spec(acquire_spec(m, k).0, k).0, k).1,
{
}

/// Counts after `n` consumers arrive on `k`.
pub open spec fn acquire_many(m: Map<Seq<char>, u32>, k: Seq<char>, n: nat) -> Map<Seq<char>, u32>
    decreases n,
{
    if n == 0 {
        m
    } else {
        acquire_spec(acquire_many(m, k, (n - 1) as nat), k).0
    }
}

/// Counts after `n` consumers leave `k`.
pub open spec fn release_many(m: Map<Seq<char>, u32>, k: Seq<char>, n: nat) -> Map<Seq<char>, u32>
    decreases n,
{
    if n == 0 {
        m
    } else {
        release_spec(release_many(m, k, (n - 1) as nat), k).0
    }
}

/// From an unlisted channel, `n` arrivals list it with count `n`, and only
/// the first of them asks to subscribe.
pub proof fn lemma_acquire_many(m: Map<Seq<char>, u32>, k: Seq<char>, n: nat)
    requires
        !m.contains_key(k),
        1 <= n <= u32::MAX,
    ensures
        acquire_many(m, k, n) == m.insert(k, n as u32),
        forall|j: nat| 1 <= j < n ==> !(#[trigger] acquire_spec(acquire_many(m, k, j), k)).1,
    decreases n,
{
    if n == 1 {
        assert(acquire_many(m, k, 0) == m);
        assert(acquire_many(m, k, 1) =~= m.insert(k, 1));
    } else {
        lemma_acquire_many(m, k, (n - 1) as nat);
        assert(acquire_many(m, k, n) =~= m.insert(k, n as u32));
        assert forall|j: nat| 1 <= j < n implies !(#[trigger] acquire_spec(acquire_many(m, k, j), k)).1 by {
            lemma_acquire_many(m, k, j);
        }
    }
}

/// From `c` consumers, `j < c` departures leave `c - j` and ask nothing of
/// the exchange.
pub proof fn lemma_release_some(m: Map<Seq<char>, u32>, k: Seq<char>, c: nat, j: nat)
    requires
        !m.contains_key(k),
        1 <= c <= u32::MAX,
        j < c,
    ensures
        release_many(m.insert(k, c as u32), k, j) == m.insert(k, (c - j) as u32),
    decreases j,
{
    if j > 0 {
        lemma_release_some(m, k, c, (j - 1) as nat);
        assert(release_many(m.insert(k, c as u32), k, j) =~= m.insert(k, (c - j) as u32));
    }
}

/// Any number of consumers that arrive on an unlisted channel and then all
/// leave put the counts back as they were; the exchange is asked to
/// subscribe once (by the first arrival) and to unsubscribe once (by the
/// last departure).
pub proof fn lemma_balanced_consumers(m: Map<Seq<char>, u32>, k: Seq<char>, n: nat)
    requires
        !m.contains_key(k),
        1 <= n <= u32::MAX,
    ensures
        release_many(acquire_many(m, k, n), k, n) == m,
        acquire_spec(m, k).1,
        forall|j: nat| 1 <= j < n ==> !(#[trigger] acquire_spec(acquire_many(m, k, j), k)).1,
        forall|j: nat|
            j < n - 1 ==> !(#[trigger] release_spec(release_many(acquire_many(m, k, n), k, j), k)).1,
        release_spec(release_many(acquire_many(m, k, n), k, (n - 1) as nat), k).1,
{
    lemma_acquire_many(m, k, n);
    let full = m.insert(k, n as u32);
    assert forall|j: nat| j < n - 1 implies !(#[trigger] release_spec(
        release_many(acquire_many(m, k, n), k, j),
        k,
    )).1 by {
        lemma_release_some(m, k, n, j);
    }
    lemma_release_some(m, k, n, (n - 1) as nat);
    assert(release_many(full, k, (n - 1) as nat) == m.insert(k, 1));
    assert(release_many(full, k, n) =~= m);
}

} // verus!
