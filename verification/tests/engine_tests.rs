use umakazoe::engine::{handle_message, MessageEvent};
use umakazoe::errors::EngineError;
use umakazoe::praise::PraiseMessages;
use umakazoe::reply::{render_reply, Reply};
use umakazoe::store::Store;

fn bot() -> String {
    "BOT#1".to_string()
}

fn praise_fixed() -> PraiseMessages {
    PraiseMessages {
        start: vec!["わーい".to_string()],
        count: vec!["3かいめ".to_string()],
        end: vec!["すごい！".to_string()],
    }
}

fn event(channel: &str, author: &str, content: &str, mentions: Vec<String>) -> MessageEvent {
    MessageEvent {
        author_is_bot: false,
        author_id: author.to_string(),
        channel_id: channel.to_string(),
        content: content.to_string(),
        mentions,
    }
}

fn passive(channel: &str, author: &str, content: &str) -> MessageEvent {
    event(channel, author, content, vec![])
}

fn mention(channel: &str, author: &str, content: &str) -> MessageEvent {
    event(channel, author, content, vec![bot()])
}

fn text_of(r: Result<Reply, EngineError>) -> Option<String> {
    render_reply(&r.unwrap())
}

fn send(store: &mut Store, msg: &MessageEvent) -> Option<String> {
    text_of(handle_message(store, &bot(), msg, &praise_fixed()))
}

#[test]
fn register_then_first_match_creates_one_count() {
    let mut store = Store::new();
    let reply = send(&mut store, &mention("ch", "alice", "かぞえて ぽ"));
    assert_eq!(reply, Some("ヒヒーン！".to_string()));
    assert_eq!(store.num_patterns(), 1);

    let reply = send(&mut store, &passive("ch", "bob", "きょうも ぽ です"));
    assert_eq!(reply, Some("1".to_string()));
    assert_eq!(store.num_counts(), 1);

    let pat = store
        .find_pattern(&"ch".to_string(), &"ぽ".to_string())
        .unwrap();
    let count = store.find_count(pat.id, &"bob".to_string()).unwrap();
    assert_eq!(count.count, 1);
}

#[test]
fn reregistration_yields_two_independent_records() {
    let mut store = Store::new();
    let first = store
        .register_pattern(&"ch".to_string(), &"ぽ".to_string())
        .unwrap();
    let second = store
        .register_pattern(&"ch".to_string(), &"ぽ".to_string())
        .unwrap();
    assert_eq!(store.num_patterns(), 2);
    assert_eq!(first.pattern, second.pattern);
    assert_ne!(first.id, second.id);
}

#[test]
fn overwrite_replaces_rather_than_adds() {
    let mut store = Store::new();
    send(&mut store, &mention("ch", "alice", "かぞえて P"));
    send(&mut store, &passive("ch", "u", "10 P"));
    let pat = store
        .find_pattern(&"ch".to_string(), &"P".to_string())
        .unwrap();
    assert_eq!(store.find_count(pat.id, &"u".to_string()).unwrap().count, 10);

    let reply = send(&mut store, &mention("ch", "u", "うわがき P 4"));
    assert_eq!(reply, Some("4".to_string()));
    assert_eq!(store.find_count(pat.id, &"u".to_string()).unwrap().count, 4);
    assert_eq!(store.num_counts(), 1);
}

#[test]
fn milestone_at_exactly_three() {
    let mut store = Store::new();
    send(&mut store, &mention("ch", "alice", "かぞえて ぽ"));
    assert_eq!(send(&mut store, &passive("ch", "u", "ぽ")), Some("1".to_string()));
    assert_eq!(send(&mut store, &passive("ch", "u", "ぽ")), Some("2".to_string()));
    assert_eq!(
        send(&mut store, &passive("ch", "u", "ぽ")),
        Some("わーい3かいめすごい！".to_string())
    );
    assert_eq!(send(&mut store, &passive("ch", "u", "ぽ")), Some("4".to_string()));
}

#[test]
fn creation_at_three_is_a_plain_number() {
    let mut store = Store::new();
    send(&mut store, &mention("ch", "alice", "かぞえて ぽ"));
    // The very first message already carries 3: the row is created, and the
    // celebration fires only on an update that lands exactly on 3.
    assert_eq!(send(&mut store, &passive("ch", "u", "3 ぽ")), Some("3".to_string()));
}

#[test]
fn milestone_fires_again_when_reached_again() {
    let mut store = Store::new();
    send(&mut store, &mention("ch", "alice", "かぞえて ぽ"));
    send(&mut store, &passive("ch", "u", "3 ぽ"));
    // Overwrite below the milestone, then step back onto it: the check is an
    // equality on the new total, not a high-water mark.
    send(&mut store, &mention("ch", "u", "うわがき ぽ 2"));
    assert_eq!(
        send(&mut store, &passive("ch", "u", "ぽ")),
        Some("わーい3かいめすごい！".to_string())
    );
}

#[test]
fn negative_stored_counts_are_rendered_with_a_sign() {
    let mut store = Store::new();
    send(&mut store, &mention("ch", "alice", "かぞえて ぽ"));
    let pat = store
        .find_pattern(&"ch".to_string(), &"ぽ".to_string())
        .unwrap();
    store.register_new_count(pat.id, &"u".to_string(), -5).unwrap();
    assert_eq!(send(&mut store, &passive("ch", "u", "ぽ")), Some("-4".to_string()));
}

#[test]
fn deletion_removes_matching_and_leaves_counts() {
    let mut store = Store::new();
    send(&mut store, &mention("ch", "alice", "かぞえて ぽ"));
    send(&mut store, &passive("ch", "u", "ぽ"));
    let pat = store
        .find_pattern(&"ch".to_string(), &"ぽ".to_string())
        .unwrap();

    let reply = send(&mut store, &mention("ch", "alice", "けして ぽ"));
    assert_eq!(reply, Some("削除しました: ぽ".to_string()));
    assert_eq!(store.num_patterns(), 0);

    // A later matching message is silent and mutates nothing.
    assert_eq!(send(&mut store, &passive("ch", "u", "ぽ")), None);
    assert_eq!(store.num_counts(), 1);

    // The orphaned count row stays queryable under the deleted pattern's id.
    let orphan = store.find_count(pat.id, &"u".to_string()).unwrap();
    assert_eq!(orphan.count, 1);
}

#[test]
fn default_amount_is_one_and_digits_are_taken() {
    let mut store = Store::new();
    send(&mut store, &mention("ch", "alice", "かぞえて P"));
    assert_eq!(send(&mut store, &passive("ch", "u", "3 P")), Some("3".to_string()));
    assert_eq!(send(&mut store, &passive("ch", "v", "P")), Some("1".to_string()));
}

#[test]
fn usage_error_mutates_nothing() {
    let mut store = Store::new();
    let reply = send(&mut store, &mention("ch", "alice", "かぞえて"));
    assert_eq!(
        reply,
        Some("\"かぞえて [pattern]\" のようにお願いしてくださいヒン".to_string())
    );
    assert_eq!(store.num_patterns(), 0);
    assert_eq!(store.num_counts(), 0);
}

#[test]
fn overwrite_usage_hint_without_amount() {
    let mut store = Store::new();
    send(&mut store, &mention("ch", "alice", "かぞえて P"));
    let reply = send(&mut store, &mention("ch", "u", "うわがき P"));
    assert_eq!(
        reply,
        Some("\"うわがき [パターン] [量]\" のようにお願いしてくださいヒン".to_string())
    );
    assert_eq!(store.num_counts(), 0);
}

#[test]
fn overwrite_without_matching_pattern_is_silent() {
    let mut store = Store::new();
    let reply = send(&mut store, &mention("ch", "u", "うわがき zzz 4"));
    assert_eq!(reply, None);
    assert_eq!(store.num_counts(), 0);
}

#[test]
fn overwrite_creates_row_when_absent() {
    let mut store = Store::new();
    send(&mut store, &mention("ch", "alice", "かぞえて P"));
    let reply = send(&mut store, &mention("ch", "u", "うわがき P 7"));
    assert_eq!(reply, Some("7".to_string()));
    let pat = store
        .find_pattern(&"ch".to_string(), &"P".to_string())
        .unwrap();
    assert_eq!(store.find_count(pat.id, &"u".to_string()).unwrap().count, 7);
}

#[test]
fn amount_overflow_is_a_format_error() {
    let mut store = Store::new();
    send(&mut store, &mention("ch", "alice", "かぞえて P"));
    let r = handle_message(
        &mut store,
        &bot(),
        &passive("ch", "u", "99999999999 P"),
        &praise_fixed(),
    );
    assert_eq!(r.unwrap_err(), EngineError::Format);
    assert_eq!(store.num_counts(), 0);
}

#[test]
fn bot_authors_are_ignored() {
    let mut store = Store::new();
    let mut msg = mention("ch", "alice", "かぞえて P");
    msg.author_is_bot = true;
    assert_eq!(send(&mut store, &msg), None);
    assert_eq!(store.num_patterns(), 0);
}

#[test]
fn mention_without_trigger_word_is_silent() {
    let mut store = Store::new();
    send(&mut store, &mention("ch", "alice", "かぞえて P"));
    // Mentioning the bot without any trigger word does not count either.
    assert_eq!(send(&mut store, &mention("ch", "u", "P")), None);
    assert_eq!(store.num_counts(), 0);
}

#[test]
fn registration_keyword_wins_over_other_triggers() {
    let mut store = Store::new();
    // Both trigger words present: the fixed priority order checks the
    // registration keyword first, so this registers the pattern "うわがき".
    let reply = send(&mut store, &mention("ch", "alice", "かぞえて うわがき"));
    assert_eq!(reply, Some("ヒヒーン！".to_string()));
    assert_eq!(store.num_patterns(), 1);
    let pat = store
        .find_pattern(&"ch".to_string(), &"うわがき".to_string())
        .unwrap();
    assert_eq!(pat.pattern, "うわがき");
}

#[test]
fn patterns_are_matched_literally_not_as_syntax() {
    let mut store = Store::new();
    send(&mut store, &mention("ch", "alice", "かぞえて a+b"));
    // "a+b" is a literal substring, never a quantifier expression.
    assert_eq!(send(&mut store, &passive("ch", "u", "xa+by")), Some("1".to_string()));
    assert_eq!(send(&mut store, &passive("ch", "u", "aab")), None);
}

#[test]
fn counting_is_per_channel() {
    let mut store = Store::new();
    send(&mut store, &mention("ch1", "alice", "かぞえて ぽ"));
    assert_eq!(send(&mut store, &passive("ch2", "u", "ぽ")), None);
    assert_eq!(send(&mut store, &passive("ch1", "u", "ぽ")), Some("1".to_string()));
}

#[test]
fn counting_is_per_user() {
    let mut store = Store::new();
    send(&mut store, &mention("ch", "alice", "かぞえて ぽ"));
    assert_eq!(send(&mut store, &passive("ch", "u", "ぽ")), Some("1".to_string()));
    assert_eq!(send(&mut store, &passive("ch", "v", "ぽ")), Some("1".to_string()));
    assert_eq!(send(&mut store, &passive("ch", "u", "ぽ")), Some("2".to_string()));
    assert_eq!(store.num_counts(), 2);
}

#[test]
fn zero_amount_is_kept() {
    let mut store = Store::new();
    send(&mut store, &mention("ch", "alice", "かぞえて P"));
    assert_eq!(send(&mut store, &passive("ch", "u", "0 P")), Some("0".to_string()));
    assert_eq!(send(&mut store, &passive("ch", "u", "P")), Some("1".to_string()));
}

#[test]
fn fullwidth_space_separates_keyword_and_pattern() {
    let mut store = Store::new();
    // U+3000 ideographic space counts as whitespace after the trigger word.
    let reply = send(&mut store, &mention("ch", "alice", "かぞえて　パターン"));
    assert_eq!(reply, Some("ヒヒーン！".to_string()));
    assert_eq!(
        send(&mut store, &passive("ch", "u", "パターン です")),
        Some("1".to_string())
    );
}

#[test]
fn whitespace_inside_pattern_is_preserved() {
    let mut store = Store::new();
    send(&mut store, &mention("ch", "alice", "かぞえて ぽ ぽ"));
    let pat = store
        .find_pattern(&"ch".to_string(), &"あ ぽ ぽ い".to_string())
        .unwrap();
    assert_eq!(pat.pattern, "ぽ ぽ");
    assert_eq!(send(&mut store, &passive("ch", "u", "ぽ")), None);
    assert_eq!(send(&mut store, &passive("ch", "u", "ぽ ぽ")), Some("1".to_string()));
}
