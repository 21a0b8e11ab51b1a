//! What a pull and a push mean, stated over the entries of a cache as a
//! sequence of mathematical values, and what follows from it.

use vstd::prelude::*;
use crate::cache::{CacheEntryView, HandshakeCachePullRule};
use crate::error::Error;
use crate::handshake::{HandshakeMessageView, HandshakeType};

verus! {

/// Whether `entry` is of the kind, epoch and direction that `rule` names and
/// is not older than `start_seq`.
pub open spec fn accepts(rule: HandshakeCachePullRule, entry: CacheEntryView, start_seq: int) -> bool {
    &&& entry.message.handshake_type() == rule.typ
    &&& entry.epoch == rule.epoch
    &&& entry.is_client == rule.is_client
    &&& entry.sequence >= start_seq
}

/// Whether some entry is accepted by `rule`.
pub open spec fn has_match(
    entries: Seq<CacheEntryView>,
    start_seq: int,
    rule: HandshakeCachePullRule,
) -> bool {
    exists|j: int| 0 <= j < entries.len() && accepts(rule, #[trigger] entries[j], start_seq)
}

/// Whether `rule` binds the entry at `j`: the rule accepts it, and accepts no
/// entry with a higher sequence number.
pub open spec fn binds(
    entries: Seq<CacheEntryView>,
    start_seq: int,
    rule: HandshakeCachePullRule,
    j: int,
) -> bool {
    &&& 0 <= j < entries.len()
    &&& accepts(rule, entries[j], start_seq)
    &&& forall|k: int|
        0 <= k < entries.len() && accepts(rule, #[trigger] entries[k], start_seq)
            ==> entries[k].sequence <= entries[j].sequence
}

/// The entry that `rule` binds, if it accepts any.
pub open spec fn bound_entry(
    entries: Seq<CacheEntryView>,
    start_seq: int,
    rule: HandshakeCachePullRule,
) -> Option<CacheEntryView> {
    if has_match(entries, start_seq, rule) {
        Some(entries[choose|j: int| binds(entries, start_seq, rule, j)])
    } else {
        None
    }
}

/// Whether every rule that is not optional accepts some entry.
pub open spec fn satisfiable(
    entries: Seq<CacheEntryView>,
    start_seq: int,
    rules: Seq<HandshakeCachePullRule>,
) -> bool {
    forall|i: int|
        0 <= i < rules.len() && !(#[trigger] rules[i]).optional ==> has_match(
            entries,
            start_seq,
            rules[i],
        )
}

/// One past the highest sequence number among the entries that `rules` bind,
/// and `start_seq` where they bind none.
pub open spec fn next_sequence(
    entries: Seq<CacheEntryView>,
    start_seq: int,
    rules: Seq<HandshakeCachePullRule>,
) -> int
    decreases rules.len(),
{
    if rules.len() == 0 {
        start_seq
    } else {
        let before = next_sequence(entries, start_seq, rules.drop_last());
        match bound_entry(entries, start_seq, rules.last()) {
            Some(entry) => if entry.sequence + 1 > before {
                entry.sequence + 1
            } else {
                before
            },
            None => before,
        }
    }
}

/// The bound messages by kind. Where two rules name one kind, the later rule
/// that binds an entry decides.
pub open spec fn pulled_messages(
    entries: Seq<CacheEntryView>,
    start_seq: int,
    rules: Seq<HandshakeCachePullRule>,
) -> Map<HandshakeType, HandshakeMessageView>
    decreases rules.len(),
{
    if rules.len() == 0 {
        Map::empty()
    } else {
        let before = pulled_messages(entries, start_seq, rules.drop_last());
        match bound_entry(entries, start_seq, rules.last()) {
            Some(entry) => before.insert(rules.last().typ, entry.message),
            None => before,
        }
    }
}

/// What a pull of `rules` yields: nothing while a mandatory message is
/// missing, else the next sequence number to expect and the bound messages.
pub open spec fn pull(
    entries: Seq<CacheEntryView>,
    start_seq: int,
    rules: Seq<HandshakeCachePullRule>,
) -> Option<(int, Map<HandshakeType, HandshakeMessageView>)> {
    if satisfiable(entries, start_seq, rules) {
        Some((next_sequence(entries, start_seq, rules), pulled_messages(entries, start_seq, rules)))
    } else {
        None
    }
}

/// Whether some entry has this sequence number and direction.
pub open spec fn holds_slot(entries: Seq<CacheEntryView>, sequence: u16, is_client: bool) -> bool {
    exists|j: int|
        0 <= j < entries.len() && (#[trigger] entries[j]).sequence == sequence
            && entries[j].is_client == is_client
}

/// The entries after a push of `entry` into a cache made for `limit` entries:
/// the entry is appended unless its slot is taken or the cache is full.
pub open spec fn after_push(entries: Seq<CacheEntryView>, limit: int, entry: CacheEntryView) -> Seq<
    CacheEntryView,
> {
    if holds_slot(entries, entry.sequence, entry.is_client) || entries.len() >= limit {
        entries
    } else {
        entries.push(entry)
    }
}

/// What a push of `entry` reports: whether it stored the entry, or that the
/// cache is full.
pub open spec fn push_outcome(entries: Seq<CacheEntryView>, limit: int, entry: CacheEntryView) -> Result<
    bool,
    Error,
> {
    if holds_slot(entries, entry.sequence, entry.is_client) {
        Ok(false)
    } else if entries.len() >= limit {
        Err(Error::CacheExhausted)
    } else {
        Ok(true)
    }
}

/// Whether no two entries share a sequence number and a direction.
pub open spec fn slots_distinct(entries: Seq<CacheEntryView>) -> bool {
    forall|i: int, j: int|
        0 <= i < j < entries.len() ==> !((#[trigger] entries[i]).sequence
            == (#[trigger] entries[j]).sequence && entries[i].is_client == entries[j].is_client)
}

/// Among the first `n` entries, one that `rule` accepts has the highest
/// sequence number of those that it accepts.
proof fn lemma_newest_in_prefix(
    entries: Seq<CacheEntryView>,
    start_seq: int,
    rule: HandshakeCachePullRule,
    n: int,
) -> (j: int)
    requires
        0 <= n <= entries.len(),
        exists|k: int| 0 <= k < n && accepts(rule, #[trigger] entries[k], start_seq),
    ensures
        0 <= j < n,
        accepts(rule, entries[j], start_seq),
        forall|k: int|
            0 <= k < n && accepts(rule, #[trigger] entries[k], start_seq) ==> entries[k].sequence
                <= entries[j].sequence,
    decreases n,
{
    if exists|k: int| 0 <= k < n - 1 && accepts(rule, #[trigger] entries[k], start_seq) {
        let j = lemma_newest_in_prefix(entries, start_seq, rule, n - 1);
        if accepts(rule, entries[n - 1], start_seq) && entries[n - 1].sequence
            > entries[j].sequence {
            n - 1
        } else {
            j
        }
    } else {
        n - 1
    }
}

/// The entry that a rule binds is an entry of the cache that the rule
/// accepts, and the rule accepts none with a higher sequence number. A rule
/// binds nothing only where it accepts nothing.
pub proof fn lemma_bound_entry_is_newest(
    entries: Seq<CacheEntryView>,
    start_seq: int,
    rule: HandshakeCachePullRule,
)
    ensures
        match bound_entry(entries, start_seq, rule) {
            Some(entry) => {
                &&& entries.contains(entry)
                &&& accepts(rule, entry, start_seq)
                &&& forall|k: int|
                    0 <= k < entries.len() && accepts(rule, #[trigger] entries[k], start_seq)
                        ==> entries[k].sequence <= entry.sequence
            },
            None => forall|k: int|
                0 <= k < entries.len() ==> !accepts(rule, #[trigger] entries[k], start_seq),
        },
{
    if has_match(entries, start_seq, rule) {
        let j = lemma_newest_in_prefix(entries, start_seq, rule, entries.len() as int);
        assert(binds(entries, start_seq, rule, j));
        let chosen = choose|j: int| binds(entries, start_seq, rule, j);
        assert(binds(entries, start_seq, rule, chosen));
    }
}

/// A rule binds at most one entry of a cache whose slots are distinct.
pub proof fn lemma_binding_unique(
    entries: Seq<CacheEntryView>,
    start_seq: int,
    rule: HandshakeCachePullRule,
    j: int,
)
    requires
        slots_distinct(entries),
        binds(entries, start_seq, rule, j),
    ensures
        has_match(entries, start_seq, rule),
        bound_entry(entries, start_seq, rule) == Some(entries[j]),
{
    let k = choose|k: int| binds(entries, start_seq, rule, k);
    assert(binds(entries, start_seq, rule, k));
    assert(entries[k].sequence == entries[j].sequence);
    if k < j {
        assert(!(entries[k].sequence == entries[j].sequence && entries[k].is_client
            == entries[j].is_client));
    } else if j < k {
        assert(!(entries[j].sequence == entries[k].sequence && entries[j].is_client
            == entries[k].is_client));
    }
}

/// A pull of one rule: it fails exactly where the rule is mandatory and
/// accepts nothing; else it yields the bound message under the rule's kind
/// and the sequence number after it, or `start_seq` and no message.
pub proof fn lemma_pull_single(
    entries: Seq<CacheEntryView>,
    start_seq: int,
    rule: HandshakeCachePullRule,
)
    ensures
        pull(entries, start_seq, seq![rule]) == match bound_entry(entries, start_seq, rule) {
            Some(entry) => Some(
                (
                    if entry.sequence + 1 > start_seq {
                        entry.sequence + 1
                    } else {
                        start_seq
                    },
                    Map::<HandshakeType, HandshakeMessageView>::empty().insert(
                        rule.typ,
                        entry.message,
                    ),
                ),
            ),
            None => if rule.optional {
                Some((start_seq, Map::<HandshakeType, HandshakeMessageView>::empty()))
            } else {
                None
            },
        },
{
    let rules = seq![rule];
    assert(rules.drop_last() =~= Seq::<HandshakeCachePullRule>::empty());
    assert(rules.last() == rule);
    reveal_with_fuel(next_sequence, 2);
    reveal_with_fuel(pulled_messages, 2);
    if satisfiable(entries, start_seq, rules) {
        assert(rules[0] == rule);
    }
}

/// Whether the rule at `i` is the last rule of its kind that accepts an
/// entry: the one whose message the pull hands out under that kind.
pub open spec fn decides(
    entries: Seq<CacheEntryView>,
    start_seq: int,
    rules: Seq<HandshakeCachePullRule>,
    i: int,
) -> bool {
    &&& 0 <= i < rules.len()
    &&& has_match(entries, start_seq, rules[i])
    &&& forall|later: int|
        i < later < rules.len() && (#[trigger] rules[later]).typ == rules[i].typ ==> !has_match(
            entries,
            start_seq,
            rules[later],
        )
}

/// The messages that a pull hands out are exactly the bound ones: a kind is
/// present where a rule of that kind accepts an entry, and what stands under
/// it is the message that the deciding rule of that kind binds.
pub proof fn lemma_pulled_messages(
    entries: Seq<CacheEntryView>,
    start_seq: int,
    rules: Seq<HandshakeCachePullRule>,
)
    ensures
        forall|i: int|
            0 <= i < rules.len() && has_match(entries, start_seq, #[trigger] rules[i])
                ==> pulled_messages(entries, start_seq, rules).contains_key(rules[i].typ),
        forall|i: int| #[trigger]
            decides(entries, start_seq, rules, i) ==> pulled_messages(
                entries,
                start_seq,
                rules,
            )[rules[i].typ] == bound_entry(entries, start_seq, rules[i])->0.message,
        forall|typ: HandshakeType| #[trigger]
            pulled_messages(entries, start_seq, rules).contains_key(typ) ==> exists|i: int|
                #[trigger] decides(entries, start_seq, rules, i) && rules[i].typ == typ,
    decreases rules.len(),
{
    if rules.len() > 0 {
        let n = rules.len() as int;
        let earlier = rules.drop_last();
        let last = rules.last();
        let before = pulled_messages(entries, start_seq, earlier);
        let after = pulled_messages(entries, start_seq, rules);
        lemma_pulled_messages(entries, start_seq, earlier);
        assert forall|i: int|
            0 <= i < rules.len() && has_match(
                entries,
                start_seq,
                #[trigger] rules[i],
            ) implies after.contains_key(rules[i].typ) by {
            if i < n - 1 {
                assert(earlier[i] == rules[i]);
            }
        }
        assert forall|i: int| #[trigger] decides(entries, start_seq, rules, i) implies after[rules[i].typ]
            == bound_entry(entries, start_seq, rules[i])->0.message by {
            if i < n - 1 {
                assert(earlier[i] == rules[i]);
                assert(decides(entries, start_seq, earlier, i)) by {
                    assert forall|later: int|
                        i < later < earlier.len() && (#[trigger] earlier[later]).typ
                            == earlier[i].typ implies !has_match(
                        entries,
                        start_seq,
                        earlier[later],
                    ) by {
                        assert(rules[later] == earlier[later]);
                    }
                }
                if last.typ == rules[i].typ {
                    assert(rules[n - 1] == last);
                    assert(!has_match(entries, start_seq, last));
                }
            }
        }
        assert forall|typ: HandshakeType| #[trigger] after.contains_key(typ) implies exists|i: int|
            #[trigger] decides(entries, start_seq, rules, i) && rules[i].typ == typ by {
            if last.typ == typ && has_match(entries, start_seq, last) {
                assert(decides(entries, start_seq, rules, n - 1));
            } else {
                assert(before.contains_key(typ));
                let i = choose|i: int| #[trigger]
                    decides(entries, start_seq, earlier, i) && earlier[i].typ == typ;
                assert(earlier[i] == rules[i]);
                assert(decides(entries, start_seq, rules, i)) by {
                    assert forall|later: int|
                        i < later < rules.len() && (#[trigger] rules[later]).typ
                            == rules[i].typ implies !has_match(
                        entries,
                        start_seq,
                        rules[later],
                    ) by {
                        if later < n - 1 {
                            assert(earlier[later] == rules[later]);
                        }
                    }
                }
            }
        }
    }
}

/// The sequence number that a pull returns is one past the highest that it
/// bound, and `start_seq` where it bound nothing.
pub proof fn lemma_next_sequence(
    entries: Seq<CacheEntryView>,
    start_seq: int,
    rules: Seq<HandshakeCachePullRule>,
)
    ensures
        start_seq <= next_sequence(entries, start_seq, rules),
        forall|i: int|
            0 <= i < rules.len() && has_match(entries, start_seq, #[trigger] rules[i])
                ==> bound_entry(entries, start_seq, rules[i])->0.sequence < next_sequence(
                entries,
                start_seq,
                rules,
            ),
        next_sequence(entries, start_seq, rules) == start_seq || exists|i: int|
            0 <= i < rules.len() && has_match(entries, start_seq, #[trigger] rules[i])
                && next_sequence(entries, start_seq, rules) == bound_entry(
                entries,
                start_seq,
                rules[i],
            )->0.sequence + 1,
    decreases rules.len(),
{
    if rules.len() > 0 {
        let n = rules.len() as int;
        let earlier = rules.drop_last();
        lemma_next_sequence(entries, start_seq, earlier);
        let before = next_sequence(entries, start_seq, earlier);
        let after = next_sequence(entries, start_seq, rules);
        assert forall|i: int|
            0 <= i < rules.len() && has_match(
                entries,
                start_seq,
                #[trigger] rules[i],
            ) implies bound_entry(entries, start_seq, rules[i])->0.sequence < after by {
            if i < n - 1 {
                assert(earlier[i] == rules[i]);
            }
        }
        if after != start_seq {
            if after == before {
                let i = choose|i: int|
                    0 <= i < earlier.len() && has_match(entries, start_seq, #[trigger] earlier[i])
                        && before == bound_entry(entries, start_seq, earlier[i])->0.sequence + 1;
                assert(earlier[i] == rules[i]);
            } else {
                assert(has_match(entries, start_seq, rules[n - 1]));
            }
        }
    }
}

/// A pull is all or nothing: it succeeds with a message for every rule that
/// is not optional, and for every other rule that accepts one, or it fails,
/// because a rule that is not optional accepts none, and hands out nothing.
pub proof fn lemma_pull_all_or_nothing(
    entries: Seq<CacheEntryView>,
    start_seq: int,
    rules: Seq<HandshakeCachePullRule>,
)
    ensures
        match pull(entries, start_seq, rules) {
            Some((seq, messages)) => {
                &&& forall|i: int|
                    0 <= i < rules.len() && !(#[trigger] rules[i]).optional
                        ==> messages.contains_key(rules[i].typ)
                &&& forall|i: int|
                    0 <= i < rules.len() && has_match(entries, start_seq, #[trigger] rules[i])
                        ==> messages.contains_key(rules[i].typ)
            },
            None => exists|i: int|
                0 <= i < rules.len() && !(#[trigger] rules[i]).optional && !has_match(
                    entries,
                    start_seq,
                    rules[i],
                ),
        },
{
    lemma_pulled_messages(entries, start_seq, rules);
}

/// No entry serves two rules: rules that differ in kind, epoch or direction
/// bind different entries.
pub proof fn lemma_rules_share_no_entry(
    entries: Seq<CacheEntryView>,
    start_seq: int,
    first: HandshakeCachePullRule,
    second: HandshakeCachePullRule,
)
    requires
        first.typ != second.typ || first.epoch != second.epoch || first.is_client
            != second.is_client,
        has_match(entries, start_seq, first),
        has_match(entries, start_seq, second),
    ensures
        bound_entry(entries, start_seq, first) != bound_entry(entries, start_seq, second),
{
    lemma_bound_entry_is_newest(entries, start_seq, first);
    lemma_bound_entry_is_newest(entries, start_seq, second);
}

/// A new entry supersedes the older ones of its kind, epoch and direction:
/// once it is stored, a rule that accepts it and accepted nothing as new
/// binds it. The older entries stay where they were.
pub proof fn lemma_push_supersedes(
    entries: Seq<CacheEntryView>,
    limit: int,
    entry: CacheEntryView,
    start_seq: int,
    rule: HandshakeCachePullRule,
)
    requires
        slots_distinct(entries),
        push_outcome(entries, limit, entry) == Ok::<bool, Error>(true),
        accepts(rule, entry, start_seq),
        forall|k: int|
            0 <= k < entries.len() && accepts(rule, #[trigger] entries[k], start_seq)
                ==> entries[k].sequence < entry.sequence,
    ensures
        slots_distinct(after_push(entries, limit, entry)),
        bound_entry(after_push(entries, limit, entry), start_seq, rule) == Some(entry),
        forall|k: int|
            0 <= k < entries.len() ==> after_push(entries, limit, entry)[k] == entries[k],
{
    let after = after_push(entries, limit, entry);
    let n = entries.len() as int;
    assert(after[n] == entry);
    assert(binds(after, start_seq, rule, n));
    lemma_binding_unique(after, start_seq, rule, n);
}

} // verus!
