use umakazoe::errors::ConfigError;
use umakazoe::praise::{compose_praise, generate_praise, PraiseMessages};
use umakazoe::record::CountRecord;
use umakazoe::reply::{render_count, render_reply, Reply};
use umakazoe::store::Store;

#[test]
fn find_pattern_returns_the_first_match_in_store_order() {
    let mut store = Store::new();
    store
        .register_pattern(&"ch".to_string(), &"ab".to_string())
        .unwrap();
    store
        .register_pattern(&"ch".to_string(), &"b".to_string())
        .unwrap();
    let hit = store
        .find_pattern(&"ch".to_string(), &"zab".to_string())
        .unwrap();
    assert_eq!(hit.pattern, "ab");
    let hit = store
        .find_pattern(&"ch".to_string(), &"xb".to_string())
        .unwrap();
    assert_eq!(hit.pattern, "b");
}

#[test]
fn find_pattern_skips_empty_patterns() {
    let mut store = Store::new();
    store
        .register_pattern(&"ch".to_string(), &"".to_string())
        .unwrap();
    assert!(store
        .find_pattern(&"ch".to_string(), &"anything".to_string())
        .is_none());
}

#[test]
fn find_pattern_honours_the_channel() {
    let mut store = Store::new();
    store
        .register_pattern(&"ch1".to_string(), &"P".to_string())
        .unwrap();
    assert!(store
        .find_pattern(&"ch2".to_string(), &"P".to_string())
        .is_none());
}

#[test]
fn delete_pattern_is_a_noop_for_an_unknown_id() {
    let mut store = Store::new();
    store
        .register_pattern(&"ch".to_string(), &"P".to_string())
        .unwrap();
    store.delete_pattern(999);
    assert_eq!(store.num_patterns(), 1);
}

#[test]
fn update_count_is_a_noop_for_an_unknown_id() {
    let mut store = Store::new();
    let rec = store
        .register_new_count(1, &"u".to_string(), 5)
        .unwrap();
    let ghostless = CountRecord {
        id: rec.id + 100,
        pattern_id: 1,
        user_id: "u".to_string(),
        count: 9,
    };
    store.update_count(&ghostless);
    assert_eq!(store.find_count(1, &"u".to_string()).unwrap().count, 5);
}

#[test]
fn update_count_goes_by_the_id_alone() {
    let mut store = Store::new();
    let rec = store
        .register_new_count(1, &"u".to_string(), 5)
        .unwrap();
    let renamed = CountRecord {
        id: rec.id,
        pattern_id: 777,
        user_id: "someone else".to_string(),
        count: 42,
    };
    store.update_count(&renamed);
    // Only the count changes; the row keeps its pair.
    let row = store.find_count(1, &"u".to_string()).unwrap();
    assert_eq!(row.count, 42);
}

#[test]
fn render_count_writes_plain_decimals() {
    assert_eq!(render_count(0), "0");
    assert_eq!(render_count(7), "7");
    assert_eq!(render_count(42), "42");
    assert_eq!(render_count(2147483647), "2147483647");
    assert_eq!(render_count(-5), "-5");
    assert_eq!(render_count(-2147483648), "-2147483648");
}

#[test]
fn render_reply_gives_the_literal_texts() {
    assert_eq!(render_reply(&Reply::NoReply), None);
    assert_eq!(render_reply(&Reply::Registered), Some("ヒヒーン！".to_string()));
    assert_eq!(
        render_reply(&Reply::RegisterUsage),
        Some("\"かぞえて [pattern]\" のようにお願いしてくださいヒン".to_string())
    );
    assert_eq!(
        render_reply(&Reply::OverwriteUsage),
        Some("\"うわがき [パターン] [量]\" のようにお願いしてくださいヒン".to_string())
    );
    assert_eq!(render_reply(&Reply::CountValue(12)), Some("12".to_string()));
    assert_eq!(
        render_reply(&Reply::Deleted("ぽ".to_string())),
        Some("削除しました: ぽ".to_string())
    );
    assert_eq!(
        render_reply(&Reply::Praise("やったね".to_string())),
        Some("やったね".to_string())
    );
}

#[test]
fn compose_praise_concatenates_in_order() {
    let p = PraiseMessages {
        start: vec!["A".to_string(), "B".to_string()],
        count: vec!["-".to_string()],
        end: vec!["Z".to_string()],
    };
    assert_eq!(compose_praise(&p, 1, 0, 0), "B-Z");
}

#[test]
fn generate_praise_uses_the_supplied_fragments() {
    let p = PraiseMessages {
        start: vec!["わーい".to_string()],
        count: vec!["3かいめ".to_string()],
        end: vec!["すごい！".to_string()],
    };
    assert_eq!(generate_praise(&p).unwrap(), "わーい3かいめすごい！");
}

#[test]
fn generate_praise_picks_from_each_set() {
    let p = PraiseMessages {
        start: vec!["a".to_string(), "b".to_string()],
        count: vec!["1".to_string(), "2".to_string()],
        end: vec!["x".to_string(), "y".to_string()],
    };
    for _ in 0..20 {
        let s = generate_praise(&p).unwrap();
        let mut chars = s.chars();
        let first = chars.next().unwrap();
        let second = chars.next().unwrap();
        let third = chars.next().unwrap();
        assert!(chars.next().is_none());
        assert!(first == 'a' || first == 'b');
        assert!(second == '1' || second == '2');
        assert!(third == 'x' || third == 'y');
    }
}

#[test]
fn generate_praise_refuses_an_empty_fragment_set() {
    let p = PraiseMessages {
        start: vec![],
        count: vec!["1".to_string()],
        end: vec!["x".to_string()],
    };
    assert_eq!(generate_praise(&p).unwrap_err(), ConfigError);
}
