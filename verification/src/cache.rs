//! The handshake cache: every handshake message received or sent so far, and
//! the one query that reads it.
//!
//! Messages arrive out of order and more than once. The cache keeps one entry
//! for each sequence number and direction, and answers a pull set, an ordered
//! list of rules, all or nothing: each rule binds the matching entry with the
//! highest sequence number, and the pull fails as long as a rule that is not
//! optional binds none.

use vstd::prelude::*;
use crate::error::Error;
use crate::handshake::{HandshakeMessage, HandshakeMessageView, HandshakeType};
use crate::pull::{
    accepts, after_push, binds, has_match, holds_slot, lemma_binding_unique, next_sequence, pull,
    pulled_messages, push_outcome, satisfiable, slots_distinct,
};

verus! {

/// A query predicate: the kind, epoch and direction of an expected message,
/// and whether the pull may go on without it.
#[derive(Clone, Copy, Debug, PartialEq, Eq, Structural)]
pub struct HandshakeCachePullRule {
    pub typ: HandshakeType,
    pub epoch: u16,
    pub is_client: bool,
    pub optional: bool,
}

/// A stored message with the sequence number and epoch it came under, and
/// whether the client sent it.
#[derive(Debug)]
pub struct CacheEntry {
    pub message: HandshakeMessage,
    pub sequence: u16,
    pub epoch: u16,
    pub is_client: bool,
}

/// What a `CacheEntry` holds, as mathematical values.
pub struct CacheEntryView {
    pub message: HandshakeMessageView,
    pub sequence: u16,
    pub epoch: u16,
    pub is_client: bool,
}

impl View for CacheEntry {
    type V = CacheEntryView;

    open spec fn view(&self) -> CacheEntryView {
        CacheEntryView {
            message: self.message@,
            sequence: self.sequence,
            epoch: self.epoch,
            is_client: self.is_client,
        }
    }
}

/// The messages that one pull hands out, addressed by kind.
#[derive(Debug)]
pub struct MessageMap {
    slots: Vec<Option<HandshakeMessage>>,
}

/// What a row of slots, one for each kind, holds by kind.
spec fn slots_view(slots: Seq<Option<HandshakeMessage>>) -> Map<
    HandshakeType,
    HandshakeMessageView,
> {
    Map::new(
        |typ: HandshakeType| slots[typ.index_spec()] is Some,
        |typ: HandshakeType| slots[typ.index_spec()]->0@,
    )
}

impl View for MessageMap {
    type V = Map<HandshakeType, HandshakeMessageView>;

    closed spec fn view(&self) -> Map<HandshakeType, HandshakeMessageView> {
        slots_view(self.slots@)
    }
}

impl MessageMap {
    #[verifier::type_invariant]
    spec fn one_slot_per_kind(self) -> bool {
        self.slots@.len() == HandshakeType::COUNT
    }

    /// One empty slot for each kind.
    fn empty_slots() -> (slots: Vec<Option<HandshakeMessage>>)
        ensures
            slots@.len() == HandshakeType::COUNT,
            slots_view(slots@) == Map::<HandshakeType, HandshakeMessageView>::empty(),
    {
        let mut slots: Vec<Option<HandshakeMessage>> = Vec::new();
        let mut n: usize = 0;
        while n < HandshakeType::COUNT
            invariant
                n <= HandshakeType::COUNT,
                slots@.len() == n,
                forall|k: int| 0 <= k < n ==> slots@[k] is None,
            decreases HandshakeType::COUNT - n,
        {
            slots.push(None);
            n += 1;
        }
        assert(slots_view(slots@) =~= Map::<HandshakeType, HandshakeMessageView>::empty());
        slots
    }

    /// The message of kind `typ`, if the pull bound one.
    pub fn get(&self, typ: HandshakeType) -> (found: Option<&HandshakeMessage>)
        ensures
            match found {
                Some(message) => self@.contains_key(typ) && self@[typ] == message@,
                None => !self@.contains_key(typ),
            },
    {
        proof {
            use_type_invariant(self);
        }
        self.slots[typ.index()].as_ref()
    }
}

/// The store of handshake messages of one handshake attempt.
#[derive(Debug)]
pub struct HandshakeCache {
    entries: Vec<CacheEntry>,
    limit: usize,
}

impl View for HandshakeCache {
    type V = Seq<CacheEntryView>;

    closed spec fn view(&self) -> Seq<CacheEntryView> {
        self.entries@.map_values(|entry: CacheEntry| entry@)
    }
}

impl HandshakeCache {
    /// The number of entries that this cache was made for.
    pub closed spec fn limit(&self) -> int {
        self.limit as int
    }

    /// Whether this cache is in order: no two entries share a sequence number
    /// and a direction, and there are no more entries than the cache was made
    /// for.
    pub open spec fn wf(&self) -> bool {
        &&& slots_distinct(self@)
        &&& self@.len() <= self.limit()
    }

    /// An empty cache that takes up to `limit` entries.
    pub fn new(limit: usize) -> (cache: HandshakeCache)
        ensures
            cache.wf(),
            cache@ == Seq::<CacheEntryView>::empty(),
            cache.limit() == limit,
    {
        let cache = HandshakeCache { entries: Vec::new(), limit };
        assert(cache@ =~= Seq::<CacheEntryView>::empty());
        cache
    }

    /// The number of entries.
    pub fn len(&self) -> (n: usize)
        ensures
            n == self@.len(),
    {
        self.entries.len()
    }

    /// Whether an entry has this sequence number and direction.
    fn has_slot(&self, sequence: u16, is_client: bool) -> (held: bool)
        ensures
            held == holds_slot(self@, sequence, is_client),
    {
        let mut k: usize = 0;
        while k < self.entries.len()
            invariant
                k <= self.entries.len(),
                self@.len() == self.entries.len(),
                forall|m: int|
                    0 <= m < k ==> !((#[trigger] self@[m]).sequence == sequence && self@[m].is_client
                        == is_client),
            decreases self.entries.len() - k,
        {
            let entry = &self.entries[k];
            assert(self@[k as int] == entry@);
            if entry.sequence == sequence && entry.is_client == is_client {
                return true;
            }
            k += 1;
        }
        false
    }

    /// Stores `message` as sent under `sequence` and `epoch`, by the client
    /// or by the server. A message whose sequence number and direction the
    /// cache already holds is a retransmission: the cache stays as it is and
    /// `Ok(false)` comes back. A new message is appended, with `Ok(true)`,
    /// unless the cache is full: then it stays as it is and the push fails
    /// with `Error::CacheExhausted`.
    pub fn push(&mut self, message: HandshakeMessage, sequence: u16, epoch: u16, is_client: bool) -> (res:
        Result<bool, Error>)
        requires
            old(self).wf(),
        ensures
            final(self).wf(),
            final(self).limit() == old(self).limit(),
            res == push_outcome(
                old(self)@,
                old(self).limit(),
                (CacheEntryView { message: message@, sequence, epoch, is_client }),
            ),
            final(self)@ == after_push(
                old(self)@,
                old(self).limit(),
                (CacheEntryView { message: message@, sequence, epoch, is_client }),
            ),
    {
        if self.has_slot(sequence, is_client) {
            return Ok(false);
        }
        if self.entries.len() >= self.limit {
            return Err(Error::CacheExhausted);
        }
        let entry = CacheEntry { message, sequence, epoch, is_client };
        self.entries.push(entry);
        assert(self@ =~= old(self)@.push(entry@));
        Ok(true)
    }

    /// The index of the entry that `rule` binds, if it accepts any.
    fn find(&self, start_seq: isize, rule: &HandshakeCachePullRule) -> (found: Option<usize>)
        ensures
            match found {
                Some(j) => binds(self@, start_seq as int, *rule, j as int),
                None => !has_match(self@, start_seq as int, *rule),
            },
    {
        let mut best: Option<usize> = None;
        let mut k: usize = 0;
        while k < self.entries.len()
            invariant
                k <= self.entries.len(),
                self@.len() == self.entries.len(),
                match best {
                    Some(j) => {
                        &&& j < k
                        &&& accepts(*rule, self@[j as int], start_seq as int)
                        &&& forall|m: int|
                            0 <= m < k && accepts(*rule, #[trigger] self@[m], start_seq as int)
                                ==> self@[m].sequence <= self@[j as int].sequence
                    },
                    None => forall|m: int|
                        0 <= m < k ==> !accepts(*rule, #[trigger] self@[m], start_seq as int),
                },
            decreases self.entries.len() - k,
        {
            let entry = &self.entries[k];
            assert(self@[k as int] == entry@);
            if entry.message.handshake_type() == rule.typ && entry.epoch == rule.epoch
                && entry.is_client == rule.is_client && entry.sequence as isize >= start_seq {
                match best {
                    Some(j) => {
                        assert(self@[j as int] == self.entries[j as int]@);
                        if self.entries[j].sequence < entry.sequence {
                            best = Some(k);
                        }
                    },
                    None => {
                        best = Some(k);
                    },
                }
            }
            k += 1;
        }
        best
    }

    /// Answers the pull set `rules`, all or nothing. Each rule binds the entry
    /// of its kind, epoch and direction, not older than `start_seq`, that has
    /// the highest sequence number. While a rule that is not optional binds
    /// none the pull fails and hands out nothing. Otherwise it returns the
    /// next sequence number to expect, one past the highest that was bound
    /// and `start_seq` itself where nothing was, with a copy of each bound
    /// message under its kind.
    pub fn full_pull_map(&self, start_seq: isize, rules: &[HandshakeCachePullRule]) -> (res: Result<
        (isize, MessageMap),
        Error,
    >)
        requires
            self.wf(),
        ensures
            match res {
                Ok((seq, messages)) => pull(self@, start_seq as int, rules@) == Some(
                    (seq as int, messages@),
                ),
                Err(e) => e == Error::MissingMandatoryMessage && pull(
                    self@,
                    start_seq as int,
                    rules@,
                ) is None,
            },
    {
        let mut slots = MessageMap::empty_slots();
        let mut seq = start_seq;
        let mut i: usize = 0;
        while i < rules.len()
            invariant
                i <= rules.len(),
                self.wf(),
                self@.len() == self.entries.len(),
                slots@.len() == HandshakeType::COUNT,
                satisfiable(self@, start_seq as int, rules@.take(i as int)),
                seq == next_sequence(self@, start_seq as int, rules@.take(i as int)),
                slots_view(slots@) == pulled_messages(self@, start_seq as int, rules@.take(i as int)),
            decreases rules.len() - i,
        {
            let rule = &rules[i];
            let found = self.find(start_seq, rule);
            proof {
                assert(rules@.take(i + 1).drop_last() =~= rules@.take(i as int));
                assert(rules@.take(i + 1).last() == *rule);
            }
            match found {
                Some(j) => {
                    proof {
                        lemma_binding_unique(self@, start_seq as int, *rule, j as int);
                    }
                    let entry = &self.entries[j];
                    assert(self@[j as int] == entry@);
                    if entry.sequence as isize + 1 > seq {
                        seq = entry.sequence as isize + 1;
                    }
                    let ghost before = slots@;
                    slots.set(rule.typ.index(), Some(entry.message.clone()));
                    assert(slots_view(slots@) =~= slots_view(before).insert(
                        rule.typ,
                        entry@.message,
                    ));
                },
                None => {
                    if !rule.optional {
                        assert(!satisfiable(self@, start_seq as int, rules@)) by {
                            assert(rules@[i as int] == *rule);
                        }
                        return Err(Error::MissingMandatoryMessage);
                    }
                },
            }
            assert(satisfiable(self@, start_seq as int, rules@.take(i + 1))) by {
                assert forall|m: int|
                    0 <= m < rules@.take(i + 1).len() && !(#[trigger] rules@.take(
                        i + 1,
                    )[m]).optional implies has_match(
                    self@,
                    start_seq as int,
                    rules@.take(i + 1)[m],
                ) by {
                    if m < i {
                        assert(rules@.take(i as int)[m] == rules@.take(i + 1)[m]);
                    }
                }
            }
            i += 1;
        }
        assert(rules@.take(i as int) =~= rules@);
        Ok((seq, MessageMap { slots }))
    }
}

} // verus!
