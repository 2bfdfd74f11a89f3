//! The counting engine and the command router: how one inbound message
//! changes the store and what is answered.

use vstd::prelude::*;

use crate::errors::EngineError;
use crate::matcher::{
    delete_keyword, delete_keyword_str, extract_increment, extract_overwrite,
    extract_registration, inc_amount_digits, lemma_inc_digits_facts, lemma_ow_digits_facts,
    ow_amount_digits, overwrite_keyword, overwrite_keyword_str, reg_extract, register_keyword,
    register_keyword_str,
};
use crate::praise::{composed_praise, generate_praise, praise_usable, PraiseMessages, PraiseModel};
use crate::record::{CountModel, PatternModel};
use crate::reply::{reply_model, Reply, ReplyModel};
use crate::store::{
    counts_updated, find_count_model, find_pattern_model, pattern_index, Store, StoreModel,
};
use crate::text::{contains_text, digits_value, text_contains};

verus! {

/// One inbound message, as the transport hands it over: plain values only.
pub struct MessageEvent {
    /// The author is an automated account; such messages are ignored.
    pub author_is_bot: bool,
    /// The message author's identity.
    pub author_id: String,
    /// The channel the message arrived in.
    pub channel_id: String,
    /// The raw message text.
    pub content: String,
    /// The identities the message mentions.
    pub mentions: Vec<String>,
}

/// Mathematical view of a [`MessageEvent`].
pub ghost struct MessageModel {
    pub author_is_bot: bool,
    pub author_id: Seq<char>,
    pub channel_id: Seq<char>,
    pub content: Seq<char>,
    pub mentions: Seq<Seq<char>>,
}

impl View for MessageEvent {
    type V = MessageModel;

    open spec fn view(&self) -> MessageModel {
        MessageModel {
            author_is_bot: self.author_is_bot,
            author_id: self.author_id@,
            channel_id: self.channel_id@,
            content: self.content@,
            mentions: self.mentions.deep_view(),
        }
    }
}

/// The bot's identity appears among the mentioned identities.
pub open spec fn mentions_bot(mentions: Seq<Seq<char>>, bot_id: Seq<char>) -> bool {
    exists|i: int| 0 <= i < mentions.len() && mentions[i] == bot_id
}

/// The model of an engine result: the reply's shape, or the error unchanged.
pub open spec fn result_model(r: Result<Reply, EngineError>) -> Result<ReplyModel, EngineError> {
    match r {
        Ok(rep) => Ok(reply_model(rep)),
        Err(e) => Err(e),
    }
}

/// The increment amount a message carries against a pattern: the captured
/// digit run's value, or the default of exactly 1.
pub open spec fn inc_amount(content: Seq<char>, pat: Seq<char>) -> int {
    match inc_amount_digits(content, pat) {
        None => 1,
        Some(d) => digits_value(d),
    }
}

/// The captured increment amount, if any, fits a 32-bit signed integer.
pub open spec fn inc_amount_ok(content: Seq<char>, pat: Seq<char>) -> bool {
    match inc_amount_digits(content, pat) {
        None => true,
        Some(d) => digits_value(d) <= i32::MAX,
    }
}

/// The count at which a celebration replaces the numeric reply. The check is
/// an equality: totals past it are announced as plain numbers again.
pub open spec fn milestone() -> int {
    3
}

/// The registration command's outcome: the store after it, and the reply's
/// shape or the error that stopped the message. A failed extraction asks for
/// correct usage and mutates nothing.
pub open spec fn register_outcome(
    m: StoreModel,
    channel_id: Seq<char>,
    content: Seq<char>,
) -> (StoreModel, Result<ReplyModel, EngineError>) {
    match reg_extract(content) {
        None => (m, Ok(ReplyModel::RegisterUsage)),
        Some(p) => {
            if m.next_pattern_id < i32::MAX {
                let rec = PatternModel { id: m.next_pattern_id, channel_id: channel_id, pattern: p };
                (
                    StoreModel {
                        patterns: m.patterns.push(rec),
                        counts: m.counts,
                        next_pattern_id: m.next_pattern_id + 1,
                        next_count_id: m.next_count_id,
                    },
                    Ok(ReplyModel::Registered),
                )
            } else {
                (m, Err(EngineError::Storage))
            }
        },
    }
}

/// The passive-counting outcome of a message that is no command: no matching
/// pattern means silence; a first match from a user creates the count row
/// with the extracted amount; a later match adds to it, the new total being
/// announced — except exactly at the milestone, where a celebration is
/// composed instead, which fails only the reply when the templates are
/// unusable, the count update standing.
pub open spec fn count_outcome(
    m: StoreModel,
    channel_id: Seq<char>,
    author_id: Seq<char>,
    content: Seq<char>,
    pr: PraiseModel,
) -> (StoreModel, Result<ReplyModel, EngineError>) {
    match find_pattern_model(m.patterns, channel_id, content) {
        None => (m, Ok(ReplyModel::NoReply)),
        Some(p) => {
            if !inc_amount_ok(content, p.pattern) {
                (m, Err(EngineError::Format))
            } else {
                let a = inc_amount(content, p.pattern);
                match find_count_model(m.counts, p.id, author_id) {
                    None => {
                        if m.next_count_id < i32::MAX {
                            let rec = CountModel {
                                id: m.next_count_id,
                                pattern_id: p.id,
                                user_id: author_id,
                                count: a,
                            };
                            (
                                StoreModel {
                                    patterns: m.patterns,
                                    counts: m.counts.push(rec),
                                    next_pattern_id: m.next_pattern_id,
                                    next_count_id: m.next_count_id + 1,
                                },
                                Ok(ReplyModel::CountValue(a)),
                            )
                        } else {
                            (m, Err(EngineError::Storage))
                        }
                    },
                    Some(c) => {
                        let t = c.count + a;
                        if t > i32::MAX {
                            (m, Err(EngineError::Format))
                        } else {
                            let m2 = StoreModel {
                                patterns: m.patterns,
                                counts: counts_updated(m.counts, c.id, t),
                                next_pattern_id: m.next_pattern_id,
                                next_count_id: m.next_count_id,
                            };
                            if t == milestone() {
                                if praise_usable(pr) {
                                    (m2, Ok(ReplyModel::Praise))
                                } else {
                                    (m2, Err(EngineError::Config))
                                }
                            } else {
                                (m2, Ok(ReplyModel::CountValue(t)))
                            }
                        }
                    },
                }
            }
        },
    }
}

/// The overwrite command's outcome: no matching pattern is a silent no-op;
/// missing amount syntax asks for correct usage; otherwise the author's
/// count row is set to exactly the extracted amount — created if absent —
/// and the resulting count is announced.
pub open spec fn overwrite_outcome(
    m: StoreModel,
    channel_id: Seq<char>,
    author_id: Seq<char>,
    content: Seq<char>,
) -> (StoreModel, Result<ReplyModel, EngineError>) {
    match find_pattern_model(m.patterns, channel_id, content) {
        None => (m, Ok(ReplyModel::NoReply)),
        Some(p) => match ow_amount_digits(content, p.pattern) {
            None => (m, Ok(ReplyModel::OverwriteUsage)),
            Some(d) => {
                if digits_value(d) > i32::MAX {
                    (m, Err(EngineError::Format))
                } else {
                    let v = digits_value(d);
                    match find_count_model(m.counts, p.id, author_id) {
                        Some(c) => (
                            StoreModel {
                                patterns: m.patterns,
                                counts: counts_updated(m.counts, c.id, v),
                                next_pattern_id: m.next_pattern_id,
                                next_count_id: m.next_count_id,
                            },
                            Ok(ReplyModel::CountValue(v)),
                        ),
                        None => {
                            if m.next_count_id < i32::MAX {
                                let rec = CountModel {
                                    id: m.next_count_id,
                                    pattern_id: p.id,
                                    user_id: author_id,
                                    count: v,
                                };
                                (
                                    StoreModel {
                                        patterns: m.patterns,
                                        counts: m.counts.push(rec),
                                        next_pattern_id: m.next_pattern_id,
                                        next_count_id: m.next_count_id + 1,
                                    },
                                    Ok(ReplyModel::CountValue(v)),
                                )
                            } else {
                                (m, Err(EngineError::Storage))
                            }
                        },
                    }
                }
            },
        },
    }
}

/// The deletion command's outcome: no matching pattern is a silent no-op;
/// otherwise the found pattern's row is removed and the deletion confirmed
/// with its text. Count rows tied to it stay behind.
pub open spec fn remove_outcome(m: StoreModel, channel_id: Seq<char>, content: Seq<char>) -> (
    StoreModel,
    ReplyModel,
) {
    match find_pattern_model(m.patterns, channel_id, content) {
        None => (m, ReplyModel::NoReply),
        Some(p) => {
            let m2 = match pattern_index(m.patterns, p.id) {
                Some(idx) => StoreModel {
                    patterns: m.patterns.remove(idx),
                    counts: m.counts,
                    next_pattern_id: m.next_pattern_id,
                    next_count_id: m.next_count_id,
                },
                None => m,
            };
            (m2, ReplyModel::Deleted(p.pattern))
        },
    }
}

/// The router's outcome for one message: automated authors are ignored; a
/// message mentioning the bot is checked for the registration, overwrite and
/// deletion trigger words in that fixed order, the first one present
/// choosing the command, none of them meaning silence; any other message
/// goes to passive counting.
pub open spec fn message_outcome(
    m: StoreModel,
    bot_id: Seq<char>,
    msg: MessageModel,
    pr: PraiseModel,
) -> (StoreModel, Result<ReplyModel, EngineError>) {
    if msg.author_is_bot {
        (m, Ok(ReplyModel::NoReply))
    } else if mentions_bot(msg.mentions, bot_id) {
        if text_contains(msg.content, register_keyword()) {
            register_outcome(m, msg.channel_id, msg.content)
        } else if text_contains(msg.content, overwrite_keyword()) {
            overwrite_outcome(m, msg.channel_id, msg.author_id, msg.content)
        } else if text_contains(msg.content, delete_keyword()) {
            let o = remove_outcome(m, msg.channel_id, msg.content);
            (o.0, Ok(o.1))
        } else {
            (m, Ok(ReplyModel::NoReply))
        }
    } else {
        count_outcome(m, msg.channel_id, msg.author_id, msg.content, pr)
    }
}

/// Handles the registration command, as [`register_outcome`] states it.
pub fn register_new_pattern(store: &mut Store, channel_id: &String, content: &String) -> (r:
    Result<Reply, EngineError>)
    requires
        old(store).wf(),
    ensures
        final(store).wf(),
        (final(store)@, result_model(r)) == register_outcome(old(store)@, channel_id@, content@),
{
    match extract_registration(content.as_str()) {
        None => Ok(Reply::RegisterUsage),
        Some(p) => {
            match store.register_pattern(channel_id, &p) {
                Ok(_) => Ok(Reply::Registered),
                Err(_) => Err(EngineError::Storage),
            }
        },
    }
}

/// Passive counting of one non-command message, as [`count_outcome`] states
/// it; a composed celebration is built from one fragment of each template
/// set.
pub fn try_count_new_message(
    store: &mut Store,
    channel_id: &String,
    author_id: &String,
    content: &String,
    praise: &PraiseMessages,
) -> (r: Result<Reply, EngineError>)
    requires
        old(store).wf(),
    ensures
        final(store).wf(),
        (final(store)@, result_model(r)) == count_outcome(
            old(store)@,
            channel_id@,
            author_id@,
            content@,
            praise@,
        ),
        r matches Ok(Reply::Praise(s)) ==> exists|i: int, j: int, k: int|
            0 <= i < praise@.start.len() && 0 <= j < praise@.count.len() && 0 <= k
                < praise@.end.len() && s@ == composed_praise(praise@, i, j, k),
{
    let found = store.find_pattern(channel_id, content);
    match found {
        None => Ok(Reply::NoReply),
        Some(pattern_record) => {
            proof {
                lemma_inc_digits_facts(content@, pattern_record.pattern@);
            }
            let amount = match extract_increment(content.as_str(), pattern_record.pattern.as_str()) {
                Ok(a) => a,
                Err(_) => {
                    return Err(EngineError::Format);
                },
            };
            let count = store.find_count(pattern_record.id, author_id);
            match count {
                Some(count_record) => {
                    let total64: i64 = count_record.count as i64 + amount as i64;
                    if total64 > i32::MAX as i64 {
                        return Err(EngineError::Format);
                    }
                    let total: i32 = total64 as i32;
                    let mut count_record = count_record;
                    count_record.count = total;
                    store.update_count(&count_record);
                    if total == 3 {
                        match generate_praise(praise) {
                            Ok(s) => Ok(Reply::Praise(s)),
                            Err(_) => Err(EngineError::Config),
                        }
                    } else {
                        Ok(Reply::CountValue(total))
                    }
                },
                None => {
                    match store.register_new_count(pattern_record.id, author_id, amount) {
                        Ok(_) => Ok(Reply::CountValue(amount)),
                        Err(_) => Err(EngineError::Storage),
                    }
                },
            }
        },
    }
}

/// Handles the overwrite command, as [`overwrite_outcome`] states it.
pub fn try_set_count(
    store: &mut Store,
    channel_id: &String,
    author_id: &String,
    content: &String,
) -> (r: Result<Reply, EngineError>)
    requires
        old(store).wf(),
    ensures
        final(store).wf(),
        (final(store)@, result_model(r)) == overwrite_outcome(
            old(store)@,
            channel_id@,
            author_id@,
            content@,
        ),
{
    match store.find_pattern(channel_id, content) {
        None => Ok(Reply::NoReply),
        Some(pattern_record) => {
            proof {
                lemma_ow_digits_facts(content@, pattern_record.pattern@);
            }
            match extract_overwrite(content.as_str(), pattern_record.pattern.as_str()) {
                Err(_) => Err(EngineError::Format),
                Ok(None) => Ok(Reply::OverwriteUsage),
                Ok(Some(amount)) => {
                    match store.find_count(pattern_record.id, author_id) {
                        Some(count_record) => {
                            let mut count_record = count_record;
                            count_record.count = amount;
                            store.update_count(&count_record);
                            Ok(Reply::CountValue(amount))
                        },
                        None => {
                            match store.register_new_count(pattern_record.id, author_id, amount) {
                                Ok(_) => Ok(Reply::CountValue(amount)),
                                Err(_) => Err(EngineError::Storage),
                            }
                        },
                    }
                },
            }
        },
    }
}

/// Handles the deletion command, as [`remove_outcome`] states it.
pub fn try_remove_pattern(store: &mut Store, channel_id: &String, content: &String) -> (r: Reply)
    requires
        old(store).wf(),
    ensures
        final(store).wf(),
        (final(store)@, reply_model(r)) == remove_outcome(old(store)@, channel_id@, content@),
{
    match store.find_pattern(channel_id, content) {
        None => Reply::NoReply,
        Some(pattern_record) => {
            store.delete_pattern(pattern_record.id);
            Reply::Deleted(pattern_record.pattern)
        },
    }
}

/// The bot's identity appears in the message's mention list.
pub fn is_mention_to_bot(bot_id: &String, mentions: &Vec<String>) -> (r: bool)
    ensures
        r == mentions_bot(mentions.deep_view(), bot_id@),
{
    let mut i: usize = 0;
    while i < mentions.len()
        invariant
            i <= mentions@.len(),
            forall|j: int| 0 <= j < i ==> mentions.deep_view()[j] != bot_id@,
        decreases mentions@.len() - i,
    {
        let m = &mentions[i];
        if *m == *bot_id {
            proof {
                assert(mentions.deep_view()[i as int] == bot_id@);
            }
            return true;
        }
        proof {
            assert(mentions.deep_view()[i as int] == mentions@[i as int]@);
        }
        i += 1;
    }
    false
}

/// The command router: one inbound message, one outcome, as
/// [`message_outcome`] states it.
pub fn handle_message(
    store: &mut Store,
    bot_id: &String,
    msg: &MessageEvent,
    praise: &PraiseMessages,
) -> (r: Result<Reply, EngineError>)
    requires
        old(store).wf(),
    ensures
        final(store).wf(),
        (final(store)@, result_model(r)) == message_outcome(old(store)@, bot_id@, msg@, praise@),
        r matches Ok(Reply::Praise(s)) ==> exists|i: int, j: int, k: int|
            0 <= i < praise@.start.len() && 0 <= j < praise@.count.len() && 0 <= k
                < praise@.end.len() && s@ == composed_praise(praise@, i, j, k),
{
    if msg.author_is_bot {
        return Ok(Reply::NoReply);
    }
    if is_mention_to_bot(bot_id, &msg.mentions) {
        if contains_text(msg.content.as_str(), register_keyword_str()) {
            register_new_pattern(store, &msg.channel_id, &msg.content)
        } else if contains_text(msg.content.as_str(), overwrite_keyword_str()) {
            try_set_count(store, &msg.channel_id, &msg.author_id, &msg.content)
        } else if contains_text(msg.content.as_str(), delete_keyword_str()) {
            Ok(try_remove_pattern(store, &msg.channel_id, &msg.content))
        } else {
            Ok(Reply::NoReply)
        }
    } else {
        try_count_new_message(store, &msg.channel_id, &msg.author_id, &msg.content, praise)
    }
}

} // verus!
