//! The in-memory store: the two record tables in insertion order, with
//! store-assigned identifiers. The durable layer around the library mirrors
//! this state; the engine's decisions are made against it.

use vstd::prelude::*;
use vstd::std_specs::vec::vec_index_mut;

use crate::errors::StorageError;
use crate::record::{CountModel, CountRecord, PatternModel, PatternRecord};
use crate::text::{contains_text, text_contains};
use vstd::string::StrSliceExecFns;

verus! {

/// Mathematical view of the whole store.
pub ghost struct StoreModel {
    pub patterns: Seq<PatternModel>,
    pub counts: Seq<CountModel>,
    pub next_pattern_id: int,
    pub next_count_id: int,
}

/// The pattern applies to the channel and its non-empty text is a literal
/// substring of the message. Patterns with empty text never match.
pub open spec fn pattern_matches(p: PatternModel, channel_id: Seq<char>, message: Seq<char>) -> bool {
    &&& p.channel_id == channel_id
    &&& p.pattern.len() > 0
    &&& text_contains(message, p.pattern)
}

/// The first matching pattern in store order, at or after index `from`.
pub open spec fn find_pattern_from(
    ps: Seq<PatternModel>,
    channel_id: Seq<char>,
    message: Seq<char>,
    from: int,
) -> Option<PatternModel>
    decreases ps.len() - from,
{
    if from < 0 || from >= ps.len() {
        None
    } else if pattern_matches(ps[from], channel_id, message) {
        Some(ps[from])
    } else {
        find_pattern_from(ps, channel_id, message, from + 1)
    }
}

/// The first matching pattern in store order.
pub open spec fn find_pattern_model(
    ps: Seq<PatternModel>,
    channel_id: Seq<char>,
    message: Seq<char>,
) -> Option<PatternModel> {
    find_pattern_from(ps, channel_id, message, 0)
}

/// No pattern matches if and only if the scan comes back empty.
pub proof fn lemma_find_pattern_from_none(
    ps: Seq<PatternModel>,
    channel_id: Seq<char>,
    message: Seq<char>,
    from: int,
)
    requires
        0 <= from,
    ensures
        find_pattern_from(ps, channel_id, message, from) is None <==> (forall|i: int|
            from <= i < ps.len() ==> !pattern_matches(ps[i], channel_id, message)),
    decreases ps.len() - from,
{
    if from < ps.len() {
        lemma_find_pattern_from_none(ps, channel_id, message, from + 1);
    }
}

/// What a successful scan yields: a matching element of the table, the first
/// one in store order.
pub proof fn lemma_find_pattern_from_some(
    ps: Seq<PatternModel>,
    channel_id: Seq<char>,
    message: Seq<char>,
    from: int,
)
    requires
        0 <= from,
        find_pattern_from(ps, channel_id, message, from) is Some,
    ensures
        ({
            let p = find_pattern_from(ps, channel_id, message, from)->Some_0;
            &&& pattern_matches(p, channel_id, message)
            &&& exists|i: int|
                {
                    &&& from <= i < ps.len()
                    &&& ps[i] == p
                    &&& forall|j: int|
                        from <= j < i ==> !pattern_matches(#[trigger] ps[j], channel_id, message)
                }
        }),
    decreases ps.len() - from,
{
    if from < ps.len() {
        if pattern_matches(ps[from], channel_id, message) {
            assert(from <= from < ps.len() && ps[from] == find_pattern_from(
                ps,
                channel_id,
                message,
                from,
            )->Some_0);
        } else {
            lemma_find_pattern_from_some(ps, channel_id, message, from + 1);
        }
    }
}

/// The count row of a `(pattern, user)` pair, the first in store order; a
/// well-formed store holds at most one.
pub open spec fn find_count_from(
    cs: Seq<CountModel>,
    pattern_id: int,
    user_id: Seq<char>,
    from: int,
) -> Option<CountModel>
    decreases cs.len() - from,
{
    if from < 0 || from >= cs.len() {
        None
    } else if cs[from].pattern_id == pattern_id && cs[from].user_id == user_id {
        Some(cs[from])
    } else {
        find_count_from(cs, pattern_id, user_id, from + 1)
    }
}

/// The count row of a `(pattern, user)` pair.
pub open spec fn find_count_model(
    cs: Seq<CountModel>,
    pattern_id: int,
    user_id: Seq<char>,
) -> Option<CountModel> {
    find_count_from(cs, pattern_id, user_id, 0)
}

/// No row holds the pair if and only if the scan comes back empty.
pub proof fn lemma_find_count_from_none(
    cs: Seq<CountModel>,
    pattern_id: int,
    user_id: Seq<char>,
    from: int,
)
    requires
        0 <= from,
    ensures
        find_count_from(cs, pattern_id, user_id, from) is None <==> (forall|i: int|
            from <= i < cs.len() ==> !((#[trigger] cs[i]).pattern_id == pattern_id && cs[i].user_id
                == user_id)),
    decreases cs.len() - from,
{
    if from < cs.len() {
        lemma_find_count_from_none(cs, pattern_id, user_id, from + 1);
    }
}

/// The first index holding a pattern row with the given id.
pub open spec fn pattern_index_from(ps: Seq<PatternModel>, id: int, from: int) -> Option<int>
    decreases ps.len() - from,
{
    if from < 0 || from >= ps.len() {
        None
    } else if ps[from].id == id {
        Some(from)
    } else {
        pattern_index_from(ps, id, from + 1)
    }
}

/// The index holding the pattern row with the given id, if any.
pub open spec fn pattern_index(ps: Seq<PatternModel>, id: int) -> Option<int> {
    pattern_index_from(ps, id, 0)
}

pub proof fn lemma_pattern_index_from(ps: Seq<PatternModel>, id: int, from: int)
    requires
        0 <= from,
    ensures
        match pattern_index_from(ps, id, from) {
            Some(idx) => from <= idx < ps.len() && ps[idx].id == id && (forall|j: int|
                from <= j < idx ==> (#[trigger] ps[j]).id != id),
            None => forall|j: int| from <= j < ps.len() ==> (#[trigger] ps[j]).id != id,
        },
    decreases ps.len() - from,
{
    if from < ps.len() && ps[from].id != id {
        lemma_pattern_index_from(ps, id, from + 1);
    }
}

/// The model `c` with its count overwritten.
pub open spec fn count_with(c: CountModel, v: int) -> CountModel {
    CountModel { id: c.id, pattern_id: c.pattern_id, user_id: c.user_id, count: v }
}

/// The count table with the row of id `id`, if any, overwritten to `v`.
pub open spec fn counts_updated(cs: Seq<CountModel>, id: int, v: int) -> Seq<CountModel> {
    cs.map(
        |i: int, c: CountModel|
            if c.id == id {
                count_with(c, v)
            } else {
                c
            },
    )
}

/// Overwriting one row's count leaves length, identifiers and pairs as they
/// were.
pub proof fn lemma_counts_updated_wf_parts(cs: Seq<CountModel>, id: int, v: int)
    ensures
        counts_updated(cs, id, v).len() == cs.len(),
        forall|a: int|
            0 <= a < cs.len() ==> {
                &&& (#[trigger] counts_updated(cs, id, v)[a]).id == cs[a].id
                &&& counts_updated(cs, id, v)[a].pattern_id == cs[a].pattern_id
                &&& counts_updated(cs, id, v)[a].user_id == cs[a].user_id
            },
{
    assert forall|a: int| 0 <= a < cs.len() implies {
        &&& (#[trigger] counts_updated(cs, id, v)[a]).id == cs[a].id
        &&& counts_updated(cs, id, v)[a].pattern_id == cs[a].pattern_id
        &&& counts_updated(cs, id, v)[a].user_id == cs[a].user_id
    } by {
        assert(counts_updated(cs, id, v)[a] == if cs[a].id == id {
            count_with(cs[a], v)
        } else {
            cs[a]
        });
    }
}

/// Well-formedness of the store: identifiers are positive, below their
/// next-identifier counters and unique, and at most one count row exists per
/// `(pattern, user)` pair.
pub open spec fn store_wf(m: StoreModel) -> bool {
    &&& 1 <= m.next_pattern_id <= i32::MAX
    &&& 1 <= m.next_count_id <= i32::MAX
    &&& forall|i: int|
        0 <= i < m.patterns.len() ==> 1 <= (#[trigger] m.patterns[i]).id < m.next_pattern_id
    &&& forall|i: int, j: int|
        0 <= i < j < m.patterns.len() ==> (#[trigger] m.patterns[i]).id != (
        #[trigger] m.patterns[j]).id
    &&& forall|i: int|
        0 <= i < m.counts.len() ==> 1 <= (#[trigger] m.counts[i]).id < m.next_count_id
    &&& forall|i: int, j: int|
        0 <= i < j < m.counts.len() ==> (#[trigger] m.counts[i]).id != (#[trigger] m.counts[j]).id
    &&& forall|i: int, j: int|
        0 <= i < j < m.counts.len() ==> !((#[trigger] m.counts[i]).pattern_id == (
        #[trigger] m.counts[j]).pattern_id && m.counts[i].user_id == m.counts[j].user_id)
}

/// The two tables, in insertion order, and the identifier counters.
pub struct Store {
    patterns: Vec<PatternRecord>,
    counts: Vec<CountRecord>,
    next_pattern_id: i32,
    next_count_id: i32,
}

impl View for Store {
    type V = StoreModel;

    closed spec fn view(&self) -> StoreModel {
        StoreModel {
            patterns: self.patterns@.map(|i: int, r: PatternRecord| r@),
            counts: self.counts@.map(|i: int, r: CountRecord| r@),
            next_pattern_id: self.next_pattern_id as int,
            next_count_id: self.next_count_id as int,
        }
    }
}

impl Store {
    pub open spec fn wf(&self) -> bool {
        store_wf(self@)
    }

    /// An empty store; the tables a fresh durable layer would create.
    pub fn new() -> (s: Store)
        ensures
            s.wf(),
            s@.patterns.len() == 0,
            s@.counts.len() == 0,
            s@.next_pattern_id == 1,
            s@.next_count_id == 1,
    {
        Store { patterns: Vec::new(), counts: Vec::new(), next_pattern_id: 1, next_count_id: 1 }
    }

    /// How many pattern rows the store holds.
    pub fn num_patterns(&self) -> (r: usize)
        ensures
            r == self@.patterns.len(),
    {
        self.patterns.len()
    }

    /// How many count rows the store holds.
    pub fn num_counts(&self) -> (r: usize)
        ensures
            r == self@.counts.len(),
    {
        self.counts.len()
    }

    /// A copy of the pattern row at the given position in store order.
    pub fn pattern_at(&self, i: usize) -> (r: PatternRecord)
        requires
            i < self@.patterns.len(),
        ensures
            r@ == self@.patterns[i as int],
    {
        let rec = &self.patterns[i];
        PatternRecord {
            id: rec.id,
            channel_id: rec.channel_id.clone(),
            pattern: rec.pattern.clone(),
        }
    }

    /// A copy of the count row at the given position in store order.
    pub fn count_at(&self, i: usize) -> (r: CountRecord)
        requires
            i < self@.counts.len(),
        ensures
            r@ == self@.counts[i as int],
    {
        let rec = &self.counts[i];
        CountRecord {
            id: rec.id,
            pattern_id: rec.pattern_id,
            user_id: rec.user_id.clone(),
            count: rec.count,
        }
    }

    /// Inserts a new pattern row for the channel; duplicate pattern text is
    /// never refused. Fails only when the identifier space is exhausted, and
    /// mutates nothing then.
    pub fn register_pattern(&mut self, channel_id: &String, pattern: &String) -> (r: Result<
        PatternRecord,
        StorageError,
    >)
        requires
            old(self).wf(),
        ensures
            final(self).wf(),
            match r {
                Ok(rec) => {
                    &&& old(self)@.next_pattern_id < i32::MAX
                    &&& rec@ == (PatternModel {
                        id: old(self)@.next_pattern_id,
                        channel_id: channel_id@,
                        pattern: pattern@,
                    })
                    &&& final(self)@.patterns == old(self)@.patterns.push(rec@)
                    &&& final(self)@.counts == old(self)@.counts
                    &&& final(self)@.next_pattern_id == old(self)@.next_pattern_id + 1
                    &&& final(self)@.next_count_id == old(self)@.next_count_id
                },
                Err(_) => {
                    &&& old(self)@.next_pattern_id == i32::MAX
                    &&& final(self)@ == old(self)@
                },
            },
    {
        if self.next_pattern_id == i32::MAX {
            return Err(StorageError);
        }
        let id = self.next_pattern_id;
        let rec = PatternRecord {
            id,
            channel_id: channel_id.clone(),
            pattern: pattern.clone(),
        };
        let out = PatternRecord {
            id,
            channel_id: channel_id.clone(),
            pattern: pattern.clone(),
        };
        self.patterns.push(rec);
        self.next_pattern_id = id + 1;
        proof {
            assert(self@.patterns =~= old(self)@.patterns.push(out@));
            assert(self@.counts =~= old(self)@.counts);
        }
        Ok(out)
    }

    /// Scans the channel's patterns in insertion order and yields a copy of
    /// the first whose non-empty text is a literal substring of the message.
    pub fn find_pattern(&self, channel_id: &String, message: &String) -> (r: Option<PatternRecord>)
        ensures
            match r {
                Some(rec) => find_pattern_model(self@.patterns, channel_id@, message@) == Some(
                    rec@,
                ),
                None => find_pattern_model(self@.patterns, channel_id@, message@) is None,
            },
    {
        let mut i: usize = 0;
        while i < self.patterns.len()
            invariant
                i <= self.patterns@.len(),
                find_pattern_model(self@.patterns, channel_id@, message@) == find_pattern_from(
                    self@.patterns,
                    channel_id@,
                    message@,
                    i as int,
                ),
            decreases self.patterns@.len() - i,
        {
            let rec = &self.patterns[i];
            proof {
                assert(self@.patterns[i as int] == rec@);
            }
            let applies = rec.channel_id == *channel_id && rec.pattern.as_str().unicode_len() > 0
                && contains_text(message.as_str(), rec.pattern.as_str());
            if applies {
                proof {
                    assert(pattern_matches(self@.patterns[i as int], channel_id@, message@));
                }
                return Some(
                    PatternRecord {
                        id: rec.id,
                        channel_id: rec.channel_id.clone(),
                        pattern: rec.pattern.clone(),
                    },
                );
            }
            proof {
                assert(!pattern_matches(self@.patterns[i as int], channel_id@, message@));
            }
            i += 1;
        }
        None
    }

    /// Yields a copy of the count row of the `(pattern, user)` pair, if one
    /// exists.
    pub fn find_count(&self, pattern_id: i32, user_id: &String) -> (r: Option<CountRecord>)
        ensures
            match r {
                Some(rec) => find_count_model(self@.counts, pattern_id as int, user_id@) == Some(
                    rec@,
                ),
                None => find_count_model(self@.counts, pattern_id as int, user_id@) is None,
            },
    {
        let mut i: usize = 0;
        while i < self.counts.len()
            invariant
                i <= self.counts@.len(),
                find_count_model(self@.counts, pattern_id as int, user_id@) == find_count_from(
                    self@.counts,
                    pattern_id as int,
                    user_id@,
                    i as int,
                ),
            decreases self.counts@.len() - i,
        {
            let rec = &self.counts[i];
            proof {
                assert(self@.counts[i as int] == rec@);
            }
            if rec.pattern_id == pattern_id && rec.user_id == *user_id {
                return Some(
                    CountRecord {
                        id: rec.id,
                        pattern_id: rec.pattern_id,
                        user_id: rec.user_id.clone(),
                        count: rec.count,
                    },
                );
            }
            i += 1;
        }
        None
    }

    /// Removes the pattern row with the given id; a no-op when no row holds
    /// it. Count rows tied to the id are left in place.
    pub fn delete_pattern(&mut self, pattern_id: i32)
        requires
            old(self).wf(),
        ensures
            final(self).wf(),
            final(self)@.counts == old(self)@.counts,
            final(self)@.next_pattern_id == old(self)@.next_pattern_id,
            final(self)@.next_count_id == old(self)@.next_count_id,
            match pattern_index(old(self)@.patterns, pattern_id as int) {
                Some(idx) => final(self)@.patterns == old(self)@.patterns.remove(idx),
                None => final(self)@.patterns == old(self)@.patterns,
            },
    {
        let mut i: usize = 0;
        while i < self.patterns.len()
            invariant
                old(self).wf(),
                i <= self.patterns@.len(),
                self == old(self),
                pattern_index(self@.patterns, pattern_id as int) == pattern_index_from(
                    self@.patterns,
                    pattern_id as int,
                    i as int,
                ),
            decreases self.patterns@.len() - i,
        {
            proof {
                assert(self@.patterns[i as int] == self.patterns@[i as int]@);
            }
            if self.patterns[i].id == pattern_id {
                self.patterns.remove(i);
                proof {
                    assert(self@.patterns =~= old(self)@.patterns.remove(i as int));
                    assert(self@.counts =~= old(self)@.counts);
                    let np = self@.patterns;
                    let op = old(self)@.patterns;
                    op.remove_ensures(i as int);
                    assert forall|a: int| 0 <= a < np.len() implies 1 <= (#[trigger] np[a]).id
                        < self@.next_pattern_id by {
                        if a < i as int {
                            assert(np[a] == op[a]);
                        } else {
                            assert(np[a] == op[a + 1]);
                        }
                    }
                    assert forall|a: int, b: int| 0 <= a < b < np.len() implies (
                    #[trigger] np[a]).id != (#[trigger] np[b]).id by {
                        let a0 = if a < i as int { a } else { a + 1 };
                        let b0 = if b < i as int { b } else { b + 1 };
                        assert(np[a] == op[a0]);
                        assert(np[b] == op[b0]);
                        assert(op[a0].id != op[b0].id);
                    }
                }
                return ;
            }
            i += 1;
        }
        proof {
            assert(self@.patterns =~= old(self)@.patterns);
            assert(self@.counts =~= old(self)@.counts);
        }
    }

    /// Inserts a new count row for a pair that has none. Fails only when the
    /// identifier space is exhausted, and mutates nothing then.
    pub fn register_new_count(&mut self, pattern_id: i32, user_id: &String, count: i32) -> (r:
        Result<CountRecord, StorageError>)
        requires
            old(self).wf(),
            find_count_model(old(self)@.counts, pattern_id as int, user_id@) is None,
        ensures
            final(self).wf(),
            match r {
                Ok(rec) => {
                    &&& old(self)@.next_count_id < i32::MAX
                    &&& rec@ == (CountModel {
                        id: old(self)@.next_count_id,
                        pattern_id: pattern_id as int,
                        user_id: user_id@,
                        count: count as int,
                    })
                    &&& final(self)@.counts == old(self)@.counts.push(rec@)
                    &&& final(self)@.patterns == old(self)@.patterns
                    &&& final(self)@.next_count_id == old(self)@.next_count_id + 1
                    &&& final(self)@.next_pattern_id == old(self)@.next_pattern_id
                },
                Err(_) => {
                    &&& old(self)@.next_count_id == i32::MAX
                    &&& final(self)@ == old(self)@
                },
            },
    {
        if self.next_count_id == i32::MAX {
            return Err(StorageError);
        }
        let id = self.next_count_id;
        let rec = CountRecord { id, pattern_id, user_id: user_id.clone(), count };
        let out = CountRecord { id, pattern_id, user_id: user_id.clone(), count };
        self.counts.push(rec);
        self.next_count_id = id + 1;
        proof {
            assert(self@.counts =~= old(self)@.counts.push(out@));
            assert(self@.patterns =~= old(self)@.patterns);
            lemma_find_count_from_none(old(self)@.counts, pattern_id as int, user_id@, 0);
        }
        Ok(out)
    }

    /// Overwrites the stored count of the row whose id is `record.id`; the
    /// other fields of `record` play no part. A no-op when no row holds the
    /// id.
    pub fn update_count(&mut self, record: &CountRecord)
        requires
            old(self).wf(),
        ensures
            final(self).wf(),
            final(self)@.patterns == old(self)@.patterns,
            final(self)@.next_pattern_id == old(self)@.next_pattern_id,
            final(self)@.next_count_id == old(self)@.next_count_id,
            final(self)@.counts == counts_updated(
                old(self)@.counts,
                record@.id,
                record@.count,
            ),
    {
        let mut i: usize = 0;
        while i < self.counts.len()
            invariant
                old(self).wf(),
                i <= self.counts@.len(),
                self == old(self),
                forall|j: int| 0 <= j < i ==> (#[trigger] old(self)@.counts[j]).id != record@.id,
            decreases self.counts@.len() - i,
        {
            proof {
                assert(self@.counts[i as int] == self.counts@[i as int]@);
            }
            if self.counts[i].id == record.id {
                proof {
                    assert(old(self)@.counts[i as int].id == record@.id);
                }
                let elem = vec_index_mut(&mut self.counts, i);
                elem.count = record.count;
                proof {
                    assert forall|j: int| 0 <= j < self@.counts.len() implies self@.counts[j]
                        == counts_updated(old(self)@.counts, record@.id, record@.count)[j] by {
                        assert(self.counts@[j]@ == self@.counts[j]);
                        if j != i as int {
                            if j < i as int {
                                assert(old(self)@.counts[j].id != record@.id);
                            } else {
                                assert(old(self)@.counts[i as int].id != old(self)@.counts[j].id);
                            }
                        }
                    }
                    assert(self@.counts =~= counts_updated(
                        old(self)@.counts,
                        record@.id,
                        record@.count,
                    ));
                    assert(self@.patterns =~= old(self)@.patterns);
                    lemma_counts_updated_wf_parts(old(self)@.counts, record@.id, record@.count);
                }
                return ;
            }
            i += 1;
        }
        proof {
            assert forall|j: int| 0 <= j < self@.counts.len() implies self@.counts[j]
                == counts_updated(old(self)@.counts, record@.id, record@.count)[j] by {
                assert(old(self)@.counts[j].id != record@.id);
            }
            assert(self@.counts =~= counts_updated(old(self)@.counts, record@.id, record@.count));
            assert(self@.patterns =~= old(self)@.patterns);
        }
    }
}

} // verus!
