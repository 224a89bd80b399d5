//! The entries of one partition of the semantic cache.

use crate::json::Json;
use vstd::prelude::*;

verus! {

/// A similarity, as the bits of an IEEE 754 single-precision number.
#[derive(Clone, Copy, PartialEq, Eq, Structural, Debug)]
pub struct Similarity {
    pub bits: u32,
}

/// The bit that makes a number negative.
pub const SIGN: u32 = 0x8000_0000;

/// The bits of infinity. What lies above them, the sign apart, is not a number.
pub const INFINITY: u32 = 0x7f80_0000;

impl Similarity {
    /// The bits without the sign.
    pub open spec fn magnitude(self) -> int {
        if self.bits < SIGN {
            self.bits as int
        } else {
            self.bits - SIGN
        }
    }

    /// An integer that orders the numbers as they are; none for what is not a number.
    pub open spec fn rank(self) -> Option<int> {
        if self.magnitude() > INFINITY {
            None
        } else if self.bits < SIGN {
            Some(self.magnitude())
        } else {
            Some(-self.magnitude())
        }
    }

    /// Whether this is at least `bound`. What is not a number is in no such relation.
    pub open spec fn reaches(self, bound: Similarity) -> bool {
        self.rank() is Some && bound.rank() is Some && self.rank()->0 >= bound.rank()->0
    }

    fn get_rank(self) -> (rank: Option<i64>)
        ensures
            match rank {
                Some(r) => self.rank() == Some(r as int),
                None => self.rank() is None,
            },
    {
        let negative = self.bits >= SIGN;
        let magnitude: u32 = if negative {
            self.bits - SIGN
        } else {
            self.bits
        };
        if magnitude > INFINITY {
            None
        } else if negative {
            Some(-(magnitude as i64))
        } else {
            Some(magnitude as i64)
        }
    }
}

/// A stored response. Times and durations are in nanoseconds.
pub struct SemanticEntry {
    /// The components of the query's embedding, as the bits of single-precision numbers.
    pub embedding: Vec<u32>,
    pub response: Json,
    pub created_at: u128,
    pub ttl: u128,
    pub access_count: u64,
}

impl SemanticEntry {
    /// How long the entry has been there; not at all where the clock stands before it.
    pub open spec fn age(self, now: u128) -> int {
        if now >= self.created_at {
            now - self.created_at
        } else {
            0
        }
    }

    /// Whether the entry may be served: it is no older than its time to live.
    pub open spec fn servable(self, now: u128) -> bool {
        self.age(now) <= self.ttl
    }

    /// Whether a sweep keeps the entry: it is younger than its time to live.
    pub open spec fn fresh(self, now: u128) -> bool {
        self.age(now) < self.ttl
    }

    fn get_age(&self, now: u128) -> (age: u128)
        ensures
            age == self.age(now),
    {
        if now >= self.created_at {
            now - self.created_at
        } else {
            0
        }
    }
}

/// Entries in order of age, with one more put behind all that are no younger.
pub open spec fn placed_by_age(sorted: Seq<SemanticEntry>, entry: SemanticEntry) -> Seq<
    SemanticEntry,
>
    decreases sorted.len(),
{
    if sorted.len() == 0 || sorted.last().created_at <= entry.created_at {
        sorted.push(entry)
    } else {
        placed_by_age(sorted.drop_last(), entry).push(sorted.last())
    }
}

/// Entries sorted by age, the oldest first; entries of one age keep their order.
pub open spec fn by_age(entries: Seq<SemanticEntry>) -> Seq<SemanticEntry>
    decreases entries.len(),
{
    if entries.len() == 0 {
        entries
    } else {
        placed_by_age(by_age(entries.drop_last()), entries.last())
    }
}

/// What a sweep leaves.
pub open spec fn swept(entries: Seq<SemanticEntry>, now: u128) -> Seq<SemanticEntry> {
    entries.filter(|e: SemanticEntry| e.fresh(now))
}

/// What is left when room is made for one more entry: where there are `max_entries` or more,
/// the oldest goes; then the rest is swept.
pub open spec fn with_room(entries: Seq<SemanticEntry>, max_entries: int, now: u128) -> Seq<
    SemanticEntry,
> {
    if entries.len() >= max_entries {
        swept(by_age(entries).drop_first(), now)
    } else {
        swept(entries, now)
    }
}

/// Whether entry `i` may answer a query that has the given similarities to the entries.
pub open spec fn eligible(
    entries: Seq<SemanticEntry>,
    scores: Seq<Similarity>,
    threshold: Similarity,
    now: u128,
    i: int,
) -> bool {
    0 <= i < entries.len() && entries[i].servable(now) && scores[i].reaches(threshold)
}

/// Whether entry `i` is the one that answers: the first of the most similar.
pub open spec fn is_best(
    entries: Seq<SemanticEntry>,
    scores: Seq<Similarity>,
    threshold: Similarity,
    now: u128,
    i: int,
) -> bool {
    &&& eligible(entries, scores, threshold, now, i)
    &&& forall|j: int| #[trigger]
        eligible(entries, scores, threshold, now, j) ==> scores[j].rank()->0 <= scores[i].rank()->0 && (j
            < i ==> scores[j].rank()->0 < scores[i].rank()->0)
}

proof fn lemma_placed_at(sorted: Seq<SemanticEntry>, entry: SemanticEntry, at: int)
    requires
        0 <= at <= sorted.len(),
        forall|j: int| at <= j < sorted.len() ==> (#[trigger] sorted[j]).created_at > entry.created_at,
        at > 0 ==> sorted[at - 1].created_at <= entry.created_at,
    ensures
        placed_by_age(sorted, entry) == sorted.insert(at, entry),
    decreases sorted.len(),
{
    if at == sorted.len() {
        assert(sorted.insert(at, entry) =~= sorted.push(entry));
    } else {
        lemma_placed_at(sorted.drop_last(), entry, at);
        assert(sorted.insert(at, entry) =~= sorted.drop_last().insert(at, entry).push(sorted.last()));
    }
}

/// Sorts entries by age, the oldest first.
pub fn sort_by_age(entries: Vec<SemanticEntry>) -> (sorted: Vec<SemanticEntry>)
    ensures
        sorted@ == by_age(entries@),
{
    let mut rest = entries;
    let mut sorted: Vec<SemanticEntry> = Vec::new();
    let ghost mut taken: int = 0;
    proof {
        assert(entries@.take(0) =~= Seq::<SemanticEntry>::empty());
        assert(entries@.skip(0) =~= entries@);
    }
    while rest.len() > 0
        invariant
            0 <= taken <= entries@.len(),
            rest@ == entries@.skip(taken),
            sorted@ == by_age(entries@.take(taken)),
        decreases rest@.len(),
    {
        let entry = rest.remove(0);
        let mut at: usize = sorted.len();
        while at > 0 && sorted[at - 1].created_at > entry.created_at
            invariant
                at <= sorted@.len(),
                forall|j: int| at <= j < sorted@.len() ==> (#[trigger] sorted@[j]).created_at > entry.created_at,
            decreases at,
        {
            at = at - 1;
        }
        proof {
            lemma_placed_at(sorted@, entry, at as int);
            assert(entries@.take(taken + 1).drop_last() =~= entries@.take(taken));
            assert(entries@.take(taken + 1).last() == entry);
            assert(rest@ =~= entries@.skip(taken + 1));
            taken = taken + 1;
        }
        sorted.insert(at, entry);
    }
    assert(entries@.take(taken) =~= entries@);
    sorted
}

/// Drops the entries that have outlived their time.
pub fn sweep(entries: Vec<SemanticEntry>, now: u128) -> (kept: Vec<SemanticEntry>)
    ensures
        kept@ == swept(entries@, now),
{
    let mut rest = entries;
    let mut kept: Vec<SemanticEntry> = Vec::new();
    let ghost pred = |e: SemanticEntry| e.fresh(now);
    let ghost mut taken: int = 0;
    proof {
        reveal(Seq::filter);
        assert(entries@.take(0) =~= Seq::<SemanticEntry>::empty());
        assert(entries@.skip(0) =~= entries@);
    }
    while rest.len() > 0
        invariant
            0 <= taken <= entries@.len(),
            rest@ == entries@.skip(taken),
            pred == (|e: SemanticEntry| e.fresh(now)),
            kept@ == entries@.take(taken).filter(pred),
        decreases rest@.len(),
    {
        let entry = rest.remove(0);
        proof {
            reveal(Seq::filter);
            assert(entries@.take(taken + 1).drop_last() =~= entries@.take(taken));
            assert(entries@.take(taken + 1).last() == entry);
            assert(rest@ =~= entries@.skip(taken + 1));
            taken = taken + 1;
        }
        if entry.get_age(now) < entry.ttl {
            kept.push(entry);
        }
    }
    assert(entries@.take(taken) =~= entries@);
    kept
}

/// Makes room for one more entry.
pub fn make_room(entries: Vec<SemanticEntry>, max_entries: usize, now: u128) -> (kept: Vec<
    SemanticEntry,
>)
    requires
        entries@.len() > 0 || max_entries > 0,
    ensures
        kept@ == with_room(entries@, max_entries as int, now),
{
    if entries.len() >= max_entries {
        let mut sorted = sort_by_age(entries);
        proof {
            lemma_by_age_len(entries@);
        }
        let _oldest = sorted.remove(0);
        assert(sorted@ =~= by_age(entries@).drop_first());
        sweep(sorted, now)
    } else {
        sweep(entries, now)
    }
}

proof fn lemma_placed_len(sorted: Seq<SemanticEntry>, entry: SemanticEntry)
    ensures
        placed_by_age(sorted, entry).len() == sorted.len() + 1,
    decreases sorted.len(),
{
    if sorted.len() > 0 && sorted.last().created_at > entry.created_at {
        lemma_placed_len(sorted.drop_last(), entry);
    }
}

proof fn lemma_by_age_len(entries: Seq<SemanticEntry>)
    ensures
        by_age(entries).len() == entries.len(),
    decreases entries.len(),
{
    if entries.len() > 0 {
        lemma_by_age_len(entries.drop_last());
        lemma_placed_len(by_age(entries.drop_last()), entries.last());
    }
}

/// The entry that answers a query that has the given similarities to the entries.
pub fn best_match(
    entries: &Vec<SemanticEntry>,
    scores: &Vec<Similarity>,
    threshold: Similarity,
    now: u128,
) -> (best: Option<usize>)
    requires
        scores@.len() == entries@.len(),
    ensures
        match best {
            Some(i) => is_best(entries@, scores@, threshold, now, i as int),
            None => forall|i: int| !#[trigger] eligible(entries@, scores@, threshold, now, i),
        },
{
    let bound = match threshold.get_rank() {
        Some(bound) => bound,
        None => return None,
    };
    let mut best: Option<(usize, i64)> = None;
    for i in 0..entries.len()
        invariant
            scores@.len() == entries@.len(),
            threshold.rank() == Some(bound as int),
            match best {
                Some((at, rank)) => at < i && scores@[at as int].rank() == Some(rank as int)
                    && eligible(entries@, scores@, threshold, now, at as int) && forall|j: int|
                    j < i && #[trigger] eligible(entries@, scores@, threshold, now, j)
                        ==> scores@[j].rank()->0 <= rank && (j < at ==> scores@[j].rank()->0 < rank),
                None => forall|j: int|
                    j < i ==> !#[trigger] eligible(entries@, scores@, threshold, now, j),
            },
    {
        if entries[i].get_age(now) <= entries[i].ttl {
            if let Some(rank) = scores[i].get_rank() {
                if rank >= bound {
                    assert(eligible(entries@, scores@, threshold, now, i as int));
                    let better = match best {
                        Some((_, best_rank)) => rank > best_rank,
                        None => true,
                    };
                    if better {
                        best = Some((i, rank));
                    }
                }
            }
        }
    }
    match best {
        Some((at, _)) => Some(at),
        None => None,
    }
}

/// Whether entries stand in order of age, the oldest first.
pub open spec fn is_by_age(entries: Seq<SemanticEntry>) -> bool {
    forall|i: int, j: int|
        0 <= i < j < entries.len() ==> (#[trigger] entries[i]).created_at <= (
        #[trigger] entries[j]).created_at
}

/// The entries made at one moment, in their order.
pub open spec fn made_at(entries: Seq<SemanticEntry>, moment: u128) -> Seq<SemanticEntry> {
    entries.filter(|e: SemanticEntry| e.created_at == moment)
}

proof fn lemma_filter_push(
    entries: Seq<SemanticEntry>,
    entry: SemanticEntry,
    pred: spec_fn(SemanticEntry) -> bool,
)
    ensures
        entries.push(entry).filter(pred) == if pred(entry) {
            entries.filter(pred).push(entry)
        } else {
            entries.filter(pred)
        },
{
    reveal(Seq::filter);
    assert(entries.push(entry).drop_last() =~= entries);
}

proof fn lemma_placed(sorted: Seq<SemanticEntry>, entry: SemanticEntry, moment: u128)
    requires
        is_by_age(sorted),
    ensures
        is_by_age(placed_by_age(sorted, entry)),
        placed_by_age(sorted, entry).to_multiset() == sorted.to_multiset().insert(entry),
        made_at(placed_by_age(sorted, entry), moment) == made_at(sorted.push(entry), moment),
        sorted.len() > 0 && sorted.last().created_at > entry.created_at ==> placed_by_age(
            sorted,
            entry,
        ).last() == sorted.last(),
        forall|i: int|
            0 <= i < placed_by_age(sorted, entry).len() ==> (#[trigger] placed_by_age(
                sorted,
                entry,
            )[i]).created_at <= entry.created_at || sorted.contains(placed_by_age(sorted, entry)[i]),
    decreases sorted.len(),
{
    broadcast use vstd::seq_lib::group_to_multiset_ensures;

    let pred = |e: SemanticEntry| e.created_at == moment;
    if sorted.len() > 0 && sorted.last().created_at > entry.created_at {
        let init = sorted.drop_last();
        let last = sorted.last();
        let inner = placed_by_age(init, entry);
        lemma_placed(init, entry, moment);
        assert(sorted =~= init.push(last));
        assert(placed_by_age(sorted, entry) == inner.push(last));
        assert forall|i: int| 0 <= i < inner.len() implies (#[trigger] inner[i]).created_at
            <= last.created_at by {
            if inner[i].created_at > entry.created_at {
                let k = choose|k: int| 0 <= k < init.len() && init[k] == inner[i];
                assert(sorted[k].created_at <= sorted[sorted.len() - 1].created_at);
            }
        }
        assert forall|i: int| 0 <= i < inner.push(last).len() implies (#[trigger] inner.push(
            last,
        )[i]).created_at <= entry.created_at || sorted.contains(inner.push(last)[i]) by {
            if i < inner.len() {
                if init.contains(inner[i]) {
                    let k = choose|k: int| 0 <= k < init.len() && init[k] == inner[i];
                    assert(sorted[k] == inner[i]);
                }
            } else {
                assert(sorted[sorted.len() - 1] == last);
            }
        }
        lemma_filter_push(inner, last, pred);
        lemma_filter_push(init, entry, pred);
        lemma_filter_push(init, last, pred);
        lemma_filter_push(sorted, entry, pred);
        assert(init.to_multiset().insert(entry).insert(last) =~= init.to_multiset().insert(
            last,
        ).insert(entry));
    } else {
        assert forall|i: int| 0 <= i < sorted.push(entry).len() implies (#[trigger] sorted.push(
            entry,
        )[i]).created_at <= entry.created_at by {
            if i < sorted.len() - 1 {
                assert(sorted[i].created_at <= sorted[sorted.len() - 1].created_at);
            }
        }
    }
}

/// Sorting by age puts the oldest first, loses and adds nothing, and keeps the order of entries
/// of one age.
pub proof fn law_sorted_by_age(entries: Seq<SemanticEntry>, moment: u128)
    ensures
        is_by_age(by_age(entries)),
        by_age(entries).to_multiset() == entries.to_multiset(),
        made_at(by_age(entries), moment) == made_at(entries, moment),
    decreases entries.len(),
{
    broadcast use vstd::seq_lib::group_to_multiset_ensures;

    if entries.len() > 0 {
        let init = entries.drop_last();
        let pred = |e: SemanticEntry| e.created_at == moment;
        law_sorted_by_age(init, moment);
        lemma_placed(by_age(init), entries.last(), moment);
        assert(entries =~= init.push(entries.last()));
        lemma_filter_push(by_age(init), entries.last(), pred);
        lemma_filter_push(init, entries.last(), pred);
    }
}

/// Where room is made in a full partition, the entry that leaves is as old as any, and only
/// expired ones leave with it.
pub proof fn law_oldest_leaves(entries: Seq<SemanticEntry>, max_entries: int, now: u128)
    requires
        entries.len() >= max_entries,
        entries.len() > 0,
    ensures
        ({
            let oldest = by_age(entries)[0];
            let others = by_age(entries).drop_first();
            &&& entries.contains(oldest)
            &&& others.to_multiset() == entries.to_multiset().remove(oldest)
            &&& with_room(entries, max_entries, now) == swept(others, now)
            &&& forall|i: int|
                0 <= i < entries.len() ==> oldest.created_at <= (#[trigger] entries[i]).created_at
        }),
{
    broadcast use vstd::seq_lib::group_to_multiset_ensures;

    law_sorted_by_age(entries, now);
    lemma_by_age_len(entries);
    let sorted = by_age(entries);
    assert(sorted.contains(sorted[0]));
    assert(sorted.to_multiset().count(sorted[0]) > 0);
    assert(entries.contains(sorted[0]));
    assert(sorted.remove(0) =~= sorted.drop_first());
    assert forall|i: int| 0 <= i < entries.len() implies sorted[0].created_at <= (
    #[trigger] entries[i]).created_at by {
        assert(entries.contains(entries[i]));
        assert(entries.to_multiset().count(entries[i]) > 0);
        assert(sorted.contains(entries[i]));
        let k = choose|k: int| 0 <= k < sorted.len() && sorted[k] == entries[i];
        assert(sorted[0].created_at <= sorted[k].created_at);
    }
}

/// A partition that holds no more than `max_entries` entries holds no more after one is added;
/// one that holds more does not grow.
pub proof fn law_bounded(
    entries: Seq<SemanticEntry>,
    max_entries: int,
    now: u128,
    entry: SemanticEntry,
)
    requires
        max_entries > 0 || entries.len() > 0,
    ensures
        entries.len() <= max_entries ==> with_room(entries, max_entries, now).push(entry).len()
            <= max_entries,
        entries.len() > max_entries ==> with_room(entries, max_entries, now).push(entry).len()
            <= entries.len(),
{
    let pred = |e: SemanticEntry| e.fresh(now);
    lemma_by_age_len(entries);
    entries.lemma_filter_len(pred);
    by_age(entries).drop_first().lemma_filter_len(pred);
}

/// A sweep keeps what is younger than its time to live and nothing else, and sweeping again at
/// that time changes nothing.
pub proof fn law_sweep(entries: Seq<SemanticEntry>, now: u128)
    ensures
        forall|e: SemanticEntry| #[trigger]
            swept(entries, now).contains(e) <==> entries.contains(e) && e.fresh(now),
        swept(swept(entries, now), now) == swept(entries, now),
{
    let pred = |e: SemanticEntry| e.fresh(now);
    let kept = entries.filter(pred);
    assert forall|e: SemanticEntry| #[trigger] swept(entries, now).contains(e) implies entries.contains(
        e,
    ) && e.fresh(now) by {
        let k = choose|k: int| 0 <= k < kept.len() && kept[k] == e;
        entries.lemma_filter_pred(pred, k);
        entries.lemma_filter_contains_rev(pred, e);
    }
    assert forall|e: SemanticEntry| entries.contains(e) && e.fresh(now) implies #[trigger] swept(
        entries,
        now,
    ).contains(e) by {
        let k = choose|k: int| 0 <= k < entries.len() && entries[k] == e;
        entries.lemma_filter_contains(pred, k);
    }
    assert forall|i: int| 0 <= i < kept.len() implies pred(#[trigger] kept[i]) by {
        entries.lemma_filter_pred(pred, i);
    }
    lemma_filter_all(kept, pred);
}

proof fn lemma_filter_all(entries: Seq<SemanticEntry>, pred: spec_fn(SemanticEntry) -> bool)
    requires
        forall|i: int| 0 <= i < entries.len() ==> pred(#[trigger] entries[i]),
    ensures
        entries.filter(pred) == entries,
    decreases entries.len(),
{
    reveal(Seq::filter);
    if entries.len() > 0 {
        assert forall|i: int| 0 <= i < entries.drop_last().len() implies pred(
            #[trigger] entries.drop_last()[i],
        ) by {
            assert(entries.drop_last()[i] == entries[i]);
        }
        lemma_filter_all(entries.drop_last(), pred);
        assert(entries.drop_last().push(entries.last()) =~= entries);
    }
}

/// At most one entry answers a query.
pub proof fn law_one_best(
    entries: Seq<SemanticEntry>,
    scores: Seq<Similarity>,
    threshold: Similarity,
    now: u128,
    i: int,
    j: int,
)
    requires
        is_best(entries, scores, threshold, now, i),
        is_best(entries, scores, threshold, now, j),
    ensures
        i == j,
{
}

/// What was stored last answers a query that is more similar to it than to any other entry
/// that may answer, and similar enough, as long as its time to live lasts.
pub proof fn law_newest_found(
    before: Seq<SemanticEntry>,
    entry: SemanticEntry,
    scores: Seq<Similarity>,
    threshold: Similarity,
    now: u128,
)
    requires
        entry.servable(now),
        scores.len() == before.len() + 1,
        scores.last().reaches(threshold),
        forall|j: int|
            0 <= j < before.len() && #[trigger] eligible(
                before.push(entry),
                scores,
                threshold,
                now,
                j,
            ) ==> scores[j].rank()->0 < scores.last().rank()->0,
    ensures
        is_best(before.push(entry), scores, threshold, now, before.len() as int),
        forall|i: int| #[trigger]
            is_best(before.push(entry), scores, threshold, now, i) ==> i == before.len(),
{
    let all = before.push(entry);
    let at = before.len() as int;
    assert(eligible(all, scores, threshold, now, at));
    assert forall|i: int| #[trigger] is_best(all, scores, threshold, now, i) implies i == at by {
        law_one_best(all, scores, threshold, now, at, i);
    }
}

/// Whether bits stand for what is not a number.
pub open spec fn is_nan(bits: u32) -> bool {
    bits % 0x8000_0000 > 0x7f80_0000
}

/// Similarities compare as the numbers that their bits stand for: of two positive ones that with
/// the larger bits is larger, of two negative ones that with the smaller bits, the two zeros are
/// equal, and what is not a number compares with nothing.
pub proof fn law_similarities_compare_like_numbers(a: Similarity, b: Similarity)
    ensures
        a.reaches(b) <==> {
            &&& !is_nan(a.bits)
            &&& !is_nan(b.bits)
            &&& if a.bits < 0x8000_0000 && b.bits < 0x8000_0000 {
                a.bits >= b.bits
            } else if a.bits < 0x8000_0000 {
                true
            } else if b.bits < 0x8000_0000 {
                a.bits == 0x8000_0000 && b.bits == 0
            } else {
                a.bits <= b.bits
            }
        },
        a.rank() is Some <==> !is_nan(a.bits),
        !is_nan(a.bits) && !is_nan(b.bits) ==> (a.rank()->0 >= b.rank()->0 <==> a.reaches(b)),
{
    assert(a.bits < 0x8000_0000 ==> a.bits % 0x8000_0000 == a.bits);
    assert(b.bits < 0x8000_0000 ==> b.bits % 0x8000_0000 == b.bits);
    assert(a.bits >= 0x8000_0000 ==> a.bits % 0x8000_0000 == a.bits - 0x8000_0000);
    assert(b.bits >= 0x8000_0000 ==> b.bits % 0x8000_0000 == b.bits - 0x8000_0000);
}

/// An entry is served until its time to live has passed since it was made, and swept from that
/// moment on.
pub proof fn law_time_to_live(entry: SemanticEntry, now: u128)
    ensures
        entry.servable(now) <==> now <= entry.created_at + entry.ttl,
        entry.fresh(now) <==> entry.ttl > 0 && now < entry.created_at + entry.ttl,
{
}

/// A sweep looks at each entry for itself, and keeps the order of those that it keeps.
pub proof fn law_sweep_one_by_one(entries: Seq<SemanticEntry>, entry: SemanticEntry, now: u128)
    ensures
        swept(Seq::empty(), now) == Seq::<SemanticEntry>::empty(),
        entry.ttl > 0 && now < entry.created_at + entry.ttl ==> swept(entries.push(entry), now)
            == swept(entries, now).push(entry),
        entry.ttl == 0 || now >= entry.created_at + entry.ttl ==> swept(entries.push(entry), now)
            == swept(entries, now),
{
    reveal(Seq::filter);
    lemma_filter_push(entries, entry, |e: SemanticEntry| e.fresh(now));
    law_time_to_live(entry, now);
}

/// As long as there are fewer entries than there may be, only those leave whose time is over. Once
/// there are as many, one entry leaves that is as old as any, and those whose time is over.
pub proof fn law_who_leaves(entries: Seq<SemanticEntry>, max_entries: int, now: u128)
    ensures
        entries.len() < max_entries ==> with_room(entries, max_entries, now) == swept(entries, now),
        entries.len() >= max_entries && entries.len() > 0 ==> exists|k: int|
            0 <= k < entries.len() && (forall|i: int|
                0 <= i < entries.len() ==> (#[trigger] entries[k]).created_at <= (
                #[trigger] entries[i]).created_at) && with_room(
                entries,
                max_entries,
                now,
            ).to_multiset() =~= swept(entries.remove(k), now).to_multiset(),
{
    broadcast use vstd::seq_lib::group_to_multiset_ensures;

    if entries.len() >= max_entries && entries.len() > 0 {
        law_oldest_leaves(entries, max_entries, now);
        let oldest = by_age(entries)[0];
        let others = by_age(entries).drop_first();
        let k = choose|k: int| 0 <= k < entries.len() && entries[k] == oldest;
        assert(entries.remove(k).to_multiset() =~= entries.to_multiset().remove(oldest));
        lemma_swept_multiset(others, entries.remove(k), now);
        assert(entries[k].created_at == oldest.created_at);
    }
}

proof fn lemma_swept_count(entries: Seq<SemanticEntry>, now: u128, e: SemanticEntry)
    ensures
        swept(entries, now).to_multiset().count(e) == if e.fresh(now) {
            entries.to_multiset().count(e)
        } else {
            0
        },
    decreases entries.len(),
{
    broadcast use vstd::seq_lib::group_to_multiset_ensures;

    if entries.len() > 0 {
        let init = entries.drop_last();
        let last = entries.last();
        lemma_swept_count(init, now, e);
        lemma_filter_push(init, last, |x: SemanticEntry| x.fresh(now));
        assert(init.push(last) =~= entries);
        assert(entries.to_multiset() =~= init.to_multiset().insert(last));
    } else {
        reveal(Seq::filter);
        assert(entries =~= Seq::<SemanticEntry>::empty());
        assert(swept(entries, now) =~= Seq::<SemanticEntry>::empty());
    }
}

proof fn lemma_swept_multiset(a: Seq<SemanticEntry>, b: Seq<SemanticEntry>, now: u128)
    requires
        a.to_multiset() == b.to_multiset(),
    ensures
        swept(a, now).to_multiset() == swept(b, now).to_multiset(),
{
    assert forall|e: SemanticEntry| #[trigger] swept(a, now).to_multiset().count(e) == swept(
        b,
        now,
    ).to_multiset().count(e) by {
        lemma_swept_count(a, now, e);
        lemma_swept_count(b, now, e);
    }
    assert(swept(a, now).to_multiset() =~= swept(b, now).to_multiset());
}

/// The entry that answers is one whose time is not over and that is similar enough. No such entry
/// is more similar, and none that stands before it is as similar.
pub proof fn law_best_entry(
    entries: Seq<SemanticEntry>,
    scores: Seq<Similarity>,
    threshold: Similarity,
    now: u128,
    i: int,
    j: int,
)
    ensures
        eligible(entries, scores, threshold, now, i) <==> 0 <= i < entries.len() && now
            <= entries[i].created_at + entries[i].ttl && scores[i].reaches(threshold),
        is_best(entries, scores, threshold, now, i) ==> {
            &&& 0 <= i < entries.len()
            &&& now <= entries[i].created_at + entries[i].ttl
            &&& scores[i].reaches(threshold)
            &&& 0 <= j < entries.len() && now <= entries[j].created_at + entries[j].ttl
                && scores[j].reaches(threshold) ==> scores[i].reaches(scores[j]) && (j < i
                ==> !scores[j].reaches(scores[i]))
        },
{
    if is_best(entries, scores, threshold, now, i) && 0 <= j < entries.len() && now
        <= entries[j].created_at + entries[j].ttl && scores[j].reaches(threshold) {
        assert(eligible(entries, scores, threshold, now, j));
    }
}

} // verus!
