//! Engine-wide laws: what holds of every store and every message, proved
//! over the outcome functions that the engine's contracts are stated with.

use vstd::prelude::*;

use crate::engine::{
    count_outcome, inc_amount, inc_amount_ok, milestone, overwrite_outcome, register_outcome,
    remove_outcome,
};
use crate::errors::EngineError;
use crate::matcher::{ow_amount_digits, reg_extract};
use crate::praise::{praise_usable, PraiseModel};
use crate::record::CountModel;
use crate::reply::ReplyModel;
use crate::store::{
    count_with, counts_updated, find_count_from, find_count_model, find_pattern_model,
    lemma_find_count_from_none, lemma_find_pattern_from_none,
    lemma_find_pattern_from_some, lemma_pattern_index_from, pattern_index, pattern_matches,
    store_wf, StoreModel,
};
use crate::text::digits_value;

verus! {

/// Looking a pair up after one row's count was overwritten finds what it
/// found before, with that row's count replaced where it was the one found.
pub proof fn lemma_find_count_updated(
    cs: Seq<CountModel>,
    id: int,
    v: int,
    pattern_id: int,
    user_id: Seq<char>,
    from: int,
)
    requires
        0 <= from,
    ensures
        find_count_from(counts_updated(cs, id, v), pattern_id, user_id, from) == match
            find_count_from(cs, pattern_id, user_id, from) {
            None => None::<CountModel>,
            Some(c) => Some(
                if c.id == id {
                    count_with(c, v)
                } else {
                    c
                },
            ),
        },
    decreases cs.len() - from,
{
    let cs2 = counts_updated(cs, id, v);
    assert(cs2.len() == cs.len());
    if from < cs.len() {
        assert(cs2[from] == if cs[from].id == id {
            count_with(cs[from], v)
        } else {
            cs[from]
        });
        if !(cs[from].pattern_id == pattern_id && cs[from].user_id == user_id) {
            lemma_find_count_updated(cs, id, v, pattern_id, user_id, from + 1);
        }
    }
}

/// A message that matches a registered pattern, from a user with no count
/// row for it yet, creates exactly one row for the pair, holding the
/// extracted amount — 1 when the message carries no digits — and that
/// amount is announced.
pub proof fn lemma_first_count_creates_record(
    m: StoreModel,
    channel_id: Seq<char>,
    author_id: Seq<char>,
    content: Seq<char>,
    pr: PraiseModel,
)
    requires
        store_wf(m),
        find_pattern_model(m.patterns, channel_id, content) is Some,
        ({
            let p = find_pattern_model(m.patterns, channel_id, content)->Some_0;
            &&& find_count_model(m.counts, p.id, author_id) is None
            &&& inc_amount_ok(content, p.pattern)
        }),
        m.next_count_id < i32::MAX,
    ensures
        ({
            let p = find_pattern_model(m.patterns, channel_id, content)->Some_0;
            let a = inc_amount(content, p.pattern);
            let o = count_outcome(m, channel_id, author_id, content, pr);
            &&& o.1 == Ok::<ReplyModel, EngineError>(ReplyModel::CountValue(a))
            &&& o.0.counts.len() == m.counts.len() + 1
            &&& o.0.counts.last().pattern_id == p.id
            &&& o.0.counts.last().user_id == author_id
            &&& o.0.counts.last().count == a
            &&& o.0.patterns == m.patterns
            &&& forall|i: int| 0 <= i < m.counts.len() ==> o.0.counts[i] == m.counts[i]
            &&& forall|i: int|
                0 <= i < o.0.counts.len() && (#[trigger] o.0.counts[i]).pattern_id == p.id
                    && o.0.counts[i].user_id == author_id ==> i == o.0.counts.len() - 1
        }),
{
    let p = find_pattern_model(m.patterns, channel_id, content)->Some_0;
    lemma_find_count_from_none(m.counts, p.id, author_id, 0);
}

/// Registering the same pattern text twice for one channel yields two
/// independent rows: the same text and channel, but distinct identifiers,
/// and both rows present.
pub proof fn lemma_reregistration_independent(
    m: StoreModel,
    channel_id: Seq<char>,
    content: Seq<char>,
)
    requires
        store_wf(m),
        reg_extract(content) is Some,
        m.next_pattern_id + 1 < i32::MAX,
    ensures
        ({
            let p = reg_extract(content)->Some_0;
            let o1 = register_outcome(m, channel_id, content);
            let o2 = register_outcome(o1.0, channel_id, content);
            let n = m.patterns.len() as int;
            &&& o1.1 == Ok::<ReplyModel, EngineError>(ReplyModel::Registered)
            &&& o2.1 == Ok::<ReplyModel, EngineError>(ReplyModel::Registered)
            &&& o2.0.patterns.len() == n + 2
            &&& o2.0.patterns[n].pattern == p
            &&& o2.0.patterns[n + 1].pattern == p
            &&& o2.0.patterns[n].channel_id == channel_id
            &&& o2.0.patterns[n + 1].channel_id == channel_id
            &&& o2.0.patterns[n].id != o2.0.patterns[n + 1].id
            &&& forall|i: int| 0 <= i < n ==> o2.0.patterns[i] == m.patterns[i]
        }),
{
}

/// The overwrite command replaces the stored count with exactly the
/// extracted amount; the prior value plays no part in the result.
pub proof fn lemma_overwrite_replaces(
    m: StoreModel,
    channel_id: Seq<char>,
    author_id: Seq<char>,
    content: Seq<char>,
)
    requires
        store_wf(m),
        find_pattern_model(m.patterns, channel_id, content) is Some,
        ({
            let p = find_pattern_model(m.patterns, channel_id, content)->Some_0;
            &&& ow_amount_digits(content, p.pattern) is Some
            &&& digits_value(ow_amount_digits(content, p.pattern)->Some_0) <= i32::MAX
            &&& find_count_model(m.counts, p.id, author_id) is Some
        }),
    ensures
        ({
            let p = find_pattern_model(m.patterns, channel_id, content)->Some_0;
            let v = digits_value(ow_amount_digits(content, p.pattern)->Some_0);
            let c = find_count_model(m.counts, p.id, author_id)->Some_0;
            let o = overwrite_outcome(m, channel_id, author_id, content);
            &&& o.1 == Ok::<ReplyModel, EngineError>(ReplyModel::CountValue(v))
            &&& o.0.counts == counts_updated(m.counts, c.id, v)
            &&& find_count_model(o.0.counts, p.id, author_id) == Some(count_with(c, v))
            &&& count_with(c, v).count == v
        }),
{
    let p = find_pattern_model(m.patterns, channel_id, content)->Some_0;
    let v = digits_value(ow_amount_digits(content, p.pattern)->Some_0);
    let c = find_count_model(m.counts, p.id, author_id)->Some_0;
    lemma_find_count_updated(m.counts, c.id, v, p.id, author_id, 0);
}

/// Exactly at the milestone total the reply is a celebration; any other new
/// total is announced as a plain number. Either way the count row holds the
/// new total.
pub proof fn lemma_milestone_only_at_milestone(
    m: StoreModel,
    channel_id: Seq<char>,
    author_id: Seq<char>,
    content: Seq<char>,
    pr: PraiseModel,
)
    requires
        store_wf(m),
        praise_usable(pr),
        find_pattern_model(m.patterns, channel_id, content) is Some,
        ({
            let p = find_pattern_model(m.patterns, channel_id, content)->Some_0;
            &&& inc_amount_ok(content, p.pattern)
            &&& find_count_model(m.counts, p.id, author_id) is Some
            &&& find_count_model(m.counts, p.id, author_id)->Some_0.count + inc_amount(
                content,
                p.pattern,
            ) <= i32::MAX
        }),
    ensures
        ({
            let p = find_pattern_model(m.patterns, channel_id, content)->Some_0;
            let c = find_count_model(m.counts, p.id, author_id)->Some_0;
            let t = c.count + inc_amount(content, p.pattern);
            let o = count_outcome(m, channel_id, author_id, content, pr);
            &&& o.0.counts == counts_updated(m.counts, c.id, t)
            &&& t == milestone() ==> o.1 == Ok::<ReplyModel, EngineError>(ReplyModel::Praise)
            &&& t != milestone() ==> o.1 == Ok::<ReplyModel, EngineError>(
                ReplyModel::CountValue(t),
            )
        }),
{
}

/// After deleting the pattern a message matched, a later message that no
/// other pattern of the store matches produces no reply and no mutation;
/// the count rows that referred to the deleted pattern all stay in place.
pub proof fn lemma_deletion_removes_matching(
    m: StoreModel,
    channel_id: Seq<char>,
    author_id: Seq<char>,
    del_content: Seq<char>,
    content: Seq<char>,
    pr: PraiseModel,
)
    requires
        store_wf(m),
        find_pattern_model(m.patterns, channel_id, del_content) is Some,
        ({
            let p = find_pattern_model(m.patterns, channel_id, del_content)->Some_0;
            forall|i: int|
                0 <= i < m.patterns.len() && (#[trigger] m.patterns[i]).id != p.id
                    ==> !pattern_matches(m.patterns[i], channel_id, content)
        }),
    ensures
        ({
            let p = find_pattern_model(m.patterns, channel_id, del_content)->Some_0;
            let o = remove_outcome(m, channel_id, del_content);
            &&& o.1 == ReplyModel::Deleted(p.pattern)
            &&& o.0.counts == m.counts
            &&& count_outcome(o.0, channel_id, author_id, content, pr) == (
                o.0,
                Ok::<ReplyModel, EngineError>(ReplyModel::NoReply),
            )
        }),
{
    let p = find_pattern_model(m.patterns, channel_id, del_content)->Some_0;
    lemma_find_pattern_from_some(m.patterns, channel_id, del_content, 0);
    lemma_pattern_index_from(m.patterns, p.id, 0);
    let i_p = choose|i: int|
        0 <= i < m.patterns.len() && m.patterns[i] == p && (forall|j: int|
            0 <= j < i ==> !pattern_matches(#[trigger] m.patterns[j], channel_id, del_content));
    assert(m.patterns[i_p].id == p.id);
    let idx = pattern_index(m.patterns, p.id)->Some_0;
    let o = remove_outcome(m, channel_id, del_content);
    let np = o.0.patterns;
    m.patterns.remove_ensures(idx);
    assert forall|a: int| 0 <= a < np.len() implies !pattern_matches(
        #[trigger] np[a],
        channel_id,
        content,
    ) by {
        let a0 = if a < idx {
            a
        } else {
            a + 1
        };
        assert(np[a] == m.patterns[a0]);
        if m.patterns[a0].id == p.id {
            assert(a0 != idx);
            assert(m.patterns[idx].id == p.id);
            assert(false);
        }
    }
    lemma_find_pattern_from_none(np, channel_id, content, 0);
}

/// A registration command whose trigger word no pattern follows asks for
/// correct usage and mutates nothing.
pub proof fn lemma_usage_error_mutates_nothing(
    m: StoreModel,
    channel_id: Seq<char>,
    content: Seq<char>,
)
    requires
        reg_extract(content) is None,
    ensures
        register_outcome(m, channel_id, content) == (
            m,
            Ok::<ReplyModel, EngineError>(ReplyModel::RegisterUsage),
        ),
{
}

} // verus!
