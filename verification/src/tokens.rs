//! The store of pending authorizations: one secret per sign-in that has
//! started and not yet come back, each kept for a bounded time.

use vstd::prelude::*;
use crate::error::Error;

verus! {

/// How long a pending authorization can be redeemed, in seconds.
pub const TTL_SECONDS: u64 = 600;

/// What the store keeps for one correlation key.
pub struct Pending {
    pub secret: Seq<char>,
    pub expires_at: nat,
}

/// The moment an authorization that starts at `now` stops being redeemable.
pub open spec fn deadline(now: u64) -> nat {
    if now + TTL_SECONDS <= u64::MAX {
        (now + TTL_SECONDS) as nat
    } else {
        u64::MAX as nat
    }
}

/// The store after a sign-in with `key` and `secret` started at `now`. An
/// entry that `key` already named is replaced.
pub open spec fn after_begin(
    store: Map<Seq<char>, Pending>,
    key: Seq<char>,
    secret: Seq<char>,
    now: u64,
) -> Map<Seq<char>, Pending> {
    store.insert(key, Pending { secret, expires_at: deadline(now) })
}

/// Whether `key` names an entry that can still be redeemed at `now`.
pub open spec fn redeemable(store: Map<Seq<char>, Pending>, key: Seq<char>, now: u64) -> bool {
    store.contains_key(key) && now < store[key].expires_at
}

/// What redeeming `key` at `now` yields: the secret of a redeemable entry.
pub open spec fn redeemed(store: Map<Seq<char>, Pending>, key: Seq<char>, now: u64) -> Option<
    Seq<char>,
> {
    if redeemable(store, key, now) {
        Some(store[key].secret)
    } else {
        None
    }
}

/// The store after `key` was redeemed, or was tried: its entry is gone.
pub open spec fn after_consume(store: Map<Seq<char>, Pending>, key: Seq<char>) -> Map<
    Seq<char>,
    Pending,
> {
    store.remove(key)
}

/// The store after the timer of `key` fired at `now`: the entry is gone if
/// its time is up, and stays if a later sign-in put it there.
pub open spec fn after_evict(store: Map<Seq<char>, Pending>, key: Seq<char>, now: u64) -> Map<
    Seq<char>,
    Pending,
> {
    if store.contains_key(key) && store[key].expires_at <= now {
        store.remove(key)
    } else {
        store
    }
}

/// One entry of the store.
pub struct PendingAuthorization {
    pub correlation_key: String,
    pub verifier_secret: String,
    pub expires_at: u64,
}

impl PendingAuthorization {
    pub open spec fn pending(self) -> Pending {
        Pending { secret: self.verifier_secret@, expires_at: self.expires_at as nat }
    }
}

/// The pending authorizations, by correlation key.
pub struct Tokens {
    entries: Vec<PendingAuthorization>,
}

/// Whether no two entries share a correlation key.
spec fn distinct_keys(entries: Seq<PendingAuthorization>) -> bool {
    forall|i: int, j: int|
        0 <= i < entries.len() && 0 <= j < entries.len() && i != j ==> (
        #[trigger] entries[i]).correlation_key@ != (#[trigger] entries[j]).correlation_key@
}

spec fn holds_key(entries: Seq<PendingAuthorization>, key: Seq<char>) -> bool {
    exists|i: int| 0 <= i < entries.len() && (#[trigger] entries[i]).correlation_key@ == key
}

spec fn index_of(entries: Seq<PendingAuthorization>, key: Seq<char>) -> int {
    choose|i: int| 0 <= i < entries.len() && (#[trigger] entries[i]).correlation_key@ == key
}

spec fn ledger(entries: Seq<PendingAuthorization>) -> Map<Seq<char>, Pending> {
    Map::new(
        |key: Seq<char>| holds_key(entries, key),
        |key: Seq<char>| entries[index_of(entries, key)].pending(),
    )
}

/// With distinct keys, the ledger maps each entry's key to that entry.
proof fn lemma_ledger(entries: Seq<PendingAuthorization>)
    requires
        distinct_keys(entries),
    ensures
        forall|i: int|
            0 <= i < entries.len() ==> ledger(entries).contains_key(
                (#[trigger] entries[i]).correlation_key@,
            ) && ledger(entries)[entries[i].correlation_key@] == entries[i].pending(),
        forall|key: Seq<char>| #[trigger]
            ledger(entries).contains_key(key) ==> 0 <= index_of(entries, key) < entries.len()
                && entries[index_of(entries, key)].correlation_key@ == key,
{
    assert forall|i: int| 0 <= i < entries.len() implies ledger(entries).contains_key(
        (#[trigger] entries[i]).correlation_key@,
    ) && ledger(entries)[entries[i].correlation_key@] == entries[i].pending() by {
        let key = entries[i].correlation_key@;
        assert(holds_key(entries, key));
        let at = index_of(entries, key);
        assert(at == i);
    }
}

impl View for Tokens {
    type V = Map<Seq<char>, Pending>;

    closed spec fn view(&self) -> Map<Seq<char>, Pending> {
        ledger(self.entries@)
    }
}

impl Tokens {
    #[verifier::type_invariant]
    spec fn well_formed(&self) -> bool {
        distinct_keys(self.entries@)
    }

    /// An empty store.
    pub fn new() -> (store: Tokens)
        ensures
            store@ == Map::<Seq<char>, Pending>::empty(),
    {
        let store = Tokens { entries: Vec::new() };
        assert(store@ =~= Map::<Seq<char>, Pending>::empty());
        store
    }

    /// Where the entry of `key` stands, or the number of entries if there is
    /// none.
    fn position(&self, key: &String) -> (at: usize)
        ensures
            at <= self.entries@.len(),
            at < self.entries@.len() ==> self.entries@[at as int].correlation_key@ == key@,
            at == self.entries@.len() ==> !holds_key(self.entries@, key@),
    {
        let mut at: usize = 0;
        while at < self.entries.len()
            invariant
                at <= self.entries@.len(),
                forall|k: int| 0 <= k < at ==> (#[trigger] self.entries@[k]).correlation_key@ != key@,
            decreases self.entries@.len() - at,
        {
            if self.entries[at].correlation_key == *key {
                return at;
            }
            at += 1;
        }
        at
    }

    /// Drops the entry at `at` and hands it out.
    fn take(&mut self, at: usize) -> (entry: PendingAuthorization)
        requires
            at < old(self).entries@.len(),
        ensures
            entry == old(self).entries@[at as int],
            final(self)@ == old(self)@.remove(entry.correlation_key@),
            old(self)@.contains_key(entry.correlation_key@),
            old(self)@[entry.correlation_key@] == entry.pending(),
    {
        proof {
            use_type_invariant(&*self);
            lemma_ledger(self.entries@);
        }
        let ghost before = self.entries@;
        let mut entries: Vec<PendingAuthorization> = Vec::new();
        core::mem::swap(&mut self.entries, &mut entries);
        let entry = entries.remove(at);
        proof {
            let after = entries@;
            assert(distinct_keys(after)) by {
                assert forall|i: int, j: int|
                    0 <= i < after.len() && 0 <= j < after.len() && i != j implies (
                #[trigger] after[i]).correlation_key@ != (#[trigger] after[j]).correlation_key@ by {
                    let oi = if i < at { i } else { i + 1 };
                    let oj = if j < at { j } else { j + 1 };
                    assert(after[i] == before[oi] && after[j] == before[oj]);
                }
            }
            lemma_ledger(after);
            let key = entry.correlation_key@;
            assert forall|k: Seq<char>| ledger(after).contains_key(k) <==> ledger(before).remove(
                key,
            ).contains_key(k) by {
                if ledger(after).contains_key(k) {
                    let i = index_of(after, k);
                    let oi = if i < at { i } else { i + 1 };
                    assert(after[i] == before[oi]);
                    assert(before[oi].correlation_key@ == k);
                }
                if ledger(before).remove(key).contains_key(k) {
                    let oi = index_of(before, k);
                    assert(oi != at);
                    let i = if oi < at { oi } else { oi - 1 };
                    assert(after[i] == before[oi]);
                    assert(after[i].correlation_key@ == k);
                }
            }
            assert forall|k: Seq<char>| ledger(after).contains_key(k) implies ledger(after)[k]
                == ledger(before).remove(key)[k] by {
                let i = index_of(after, k);
                let oi = if i < at { i } else { i + 1 };
                assert(after[i] == before[oi]);
                assert(before[oi].correlation_key@ == k);
            }
            assert(ledger(after) =~= ledger(before).remove(key));
        }
        core::mem::swap(&mut self.entries, &mut entries);
        entry
    }

    /// Records that a sign-in with `correlation_key` started at `now`, the
    /// clock's reading in seconds. The entry can be redeemed for
    /// [`TTL_SECONDS`] from then on. A key that is already pending starts
    /// anew with the new secret.
    pub fn begin(&mut self, correlation_key: String, verifier_secret: String, now: u64)
        ensures
            final(self)@ == after_begin(old(self)@, correlation_key@, verifier_secret@, now),
    {
        let at = self.position(&correlation_key);
        let ghost start = self@;
        if at < self.entries.len() {
            let _ = self.take(at);
        }
        proof {
            use_type_invariant(&*self);
            lemma_ledger(self.entries@);
            assert(!holds_key(self.entries@, correlation_key@)) by {
                if holds_key(self.entries@, correlation_key@) {
                    assert(self@.contains_key(correlation_key@));
                }
            }
        }
        let ghost before = self.entries@;
        let expires_at = now.saturating_add(TTL_SECONDS);
        let entry = PendingAuthorization { correlation_key, verifier_secret, expires_at };
        let mut entries: Vec<PendingAuthorization> = Vec::new();
        core::mem::swap(&mut self.entries, &mut entries);
        entries.push(entry);
        proof {
            let after = entries@;
            let key = correlation_key@;
            assert(distinct_keys(after)) by {
                assert forall|i: int, j: int|
                    0 <= i < after.len() && 0 <= j < after.len() && i != j implies (
                #[trigger] after[i]).correlation_key@ != (#[trigger] after[j]).correlation_key@ by {
                    if i < before.len() {
                        assert(after[i] == before[i]);
                    }
                    if j < before.len() {
                        assert(after[j] == before[j]);
                    }
                }
            }
            lemma_ledger(after);
            lemma_ledger(before);
            assert(after[before.len() as int] == entry);
            let target = ledger(before).insert(key, entry.pending());
            assert forall|k: Seq<char>| ledger(after).contains_key(k) <==> target.contains_key(
                k,
            ) by {
                if ledger(after).contains_key(k) {
                    let i = index_of(after, k);
                    if i < before.len() {
                        assert(after[i] == before[i]);
                    }
                }
                if target.contains_key(k) && k != key {
                    let i = index_of(before, k);
                    assert(after[i] == before[i]);
                }
            }
            assert forall|k: Seq<char>| ledger(after).contains_key(k) implies ledger(after)[k]
                == target[k] by {
                let i = index_of(after, k);
                if i < before.len() {
                    assert(after[i] == before[i]);
                }
            }
            assert(ledger(after) =~= target);
            assert(ledger(before) == start.remove(key) || ledger(before) == start);
            assert(start.remove(key).insert(key, entry.pending()) =~= start.insert(
                key,
                entry.pending(),
            ));
        }
        core::mem::swap(&mut self.entries, &mut entries);
    }

    /// Redeems `correlation_key` at `now`: hands out the secret that the
    /// sign-in with that key left, once, and only within its time.
    ///
    /// The key's entry is gone afterwards, whatever the outcome. A key that
    /// names no entry, or one whose time is up, is `InvalidState`.
    pub fn consume(&mut self, correlation_key: &String, now: u64) -> (secret: Result<
        String,
        Error,
    >)
        ensures
            final(self)@ == after_consume(old(self)@, correlation_key@),
            match secret {
                Ok(text) => redeemed(old(self)@, correlation_key@, now) == Some(text@),
                Err(e) => e == Error::InvalidState && redeemed(old(self)@, correlation_key@, now)
                    is None,
            },
    {
        let at = self.position(correlation_key);
        if at < self.entries.len() {
            let entry = self.take(at);
            if now < entry.expires_at {
                Ok(entry.verifier_secret)
            } else {
                Err(Error::InvalidState)
            }
        } else {
            proof {
                assert(!self@.contains_key(correlation_key@));
                assert(self@.remove(correlation_key@) =~= self@);
            }
            Err(Error::InvalidState)
        }
    }

    /// The timer of `correlation_key` fired at `now`: drops the key's entry
    /// if its time is up. An entry that a later sign-in put under the same
    /// key stays until its own time is up.
    pub fn evict(&mut self, correlation_key: &String, now: u64)
        ensures
            final(self)@ == after_evict(old(self)@, correlation_key@, now),
    {
        let at = self.position(correlation_key);
        if at < self.entries.len() {
            proof {
                use_type_invariant(&*self);
                lemma_ledger(self.entries@);
            }
            if self.entries[at].expires_at <= now {
                let _ = self.take(at);
            }
        } else {
            assert(!self@.contains_key(correlation_key@));
        }
    }

    /// How many authorizations are pending.
    pub fn len(&self) -> (count: usize)
        ensures
            count == self@.dom().len(),
            self@.dom().finite(),
    {
        proof {
            use_type_invariant(self);
            lemma_ledger_size(self.entries@);
        }
        self.entries.len()
    }
}

/// With distinct keys, the ledger holds as many keys as there are entries.
proof fn lemma_ledger_size(entries: Seq<PendingAuthorization>)
    requires
        distinct_keys(entries),
    ensures
        ledger(entries).dom().finite(),
        ledger(entries).dom().len() == entries.len(),
    decreases entries.len(),
{
    lemma_ledger(entries);
    if entries.len() == 0 {
        assert(ledger(entries).dom() =~= Set::<Seq<char>>::empty());
    } else {
        let head = entries.drop_last();
        let key = entries.last().correlation_key@;
        assert(distinct_keys(head)) by {
            assert forall|i: int, j: int|
                0 <= i < head.len() && 0 <= j < head.len() && i != j implies (
            #[trigger] head[i]).correlation_key@ != (#[trigger] head[j]).correlation_key@ by {
                assert(head[i] == entries[i] && head[j] == entries[j]);
            }
        }
        lemma_ledger(head);
        lemma_ledger_size(head);
        assert(!ledger(head).dom().contains(key)) by {
            if ledger(head).contains_key(key) {
                let i = index_of(head, key);
                assert(head[i] == entries[i]);
            }
        }
        assert(ledger(entries).dom() =~= ledger(head).dom().insert(key)) by {
            assert forall|k: Seq<char>| ledger(entries).dom().contains(k) <==> ledger(
                head,
            ).dom().insert(key).contains(k) by {
                if ledger(entries).contains_key(k) {
                    let i = index_of(entries, k);
                    if i < head.len() {
                        assert(head[i] == entries[i]);
                    }
                }
                if ledger(head).contains_key(k) {
                    let i = index_of(head, k);
                    assert(head[i] == entries[i]);
                }
            }
        }
    }
}

/// A secret that a sign-in left is handed out by the first redemption within
/// its time, and by none after that.
pub proof fn lemma_consume_once(
    store: Map<Seq<char>, Pending>,
    key: Seq<char>,
    secret: Seq<char>,
    begun_at: u64,
    first: u64,
    second: u64,
)
    requires
        first < deadline(begun_at),
    ensures
        redeemed(after_begin(store, key, secret, begun_at), key, first) == Some(secret),
        redeemed(after_consume(after_begin(store, key, secret, begun_at), key), key, second)
            is None,
{
}

/// A secret that is not redeemed within its time can no longer be reached,
/// whether or not its timer has fired, and the timer removes its entry.
pub proof fn lemma_expired_is_unreachable(
    store: Map<Seq<char>, Pending>,
    key: Seq<char>,
    secret: Seq<char>,
    begun_at: u64,
    now: u64,
)
    requires
        now >= deadline(begun_at),
    ensures
        redeemed(after_begin(store, key, secret, begun_at), key, now) is None,
        !after_evict(after_begin(store, key, secret, begun_at), key, now).contains_key(key),
        redeemed(after_evict(after_begin(store, key, secret, begun_at), key, now), key, now)
            is None,
{
}

/// A timer that fires before its entry's time is up removes nothing.
pub proof fn lemma_early_timer_keeps_entry(
    store: Map<Seq<char>, Pending>,
    key: Seq<char>,
    secret: Seq<char>,
    begun_at: u64,
    now: u64,
)
    requires
        now < deadline(begun_at),
    ensures
        after_evict(after_begin(store, key, secret, begun_at), key, now) == after_begin(
            store,
            key,
            secret,
            begun_at,
        ),
{
}

/// What happens to one key leaves every other key as it was.
pub proof fn lemma_keys_are_independent(
    store: Map<Seq<char>, Pending>,
    key: Seq<char>,
    other: Seq<char>,
    secret: Seq<char>,
    begun_at: u64,
    now: u64,
)
    requires
        key != other,
    ensures
        redeemed(after_begin(store, key, secret, begun_at), other, now) == redeemed(
            store,
            other,
            now,
        ),
        redeemed(after_consume(store, key), other, now) == redeemed(store, other, now),
        redeemed(after_evict(store, key, begun_at), other, now) == redeemed(store, other, now),
{
}

} // verus!
