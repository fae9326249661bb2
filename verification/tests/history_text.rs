use dictation_core::history::{HistoryDb, TranscriptionRecord};
use dictation_core::text::{find_char, is_blank, str_eq, strip_end, to_ascii_lower, trim};

fn record(id: &str, ts: u64) -> TranscriptionRecord {
    TranscriptionRecord {
        id: id.to_string(),
        raw_text: format!("raw {}", id),
        cleaned_text: format!("clean {}", id),
        created_at_millis: ts,
        duration_millis: 5,
        model_used: "base".to_string(),
    }
}

#[test]
fn pruning_keeps_most_recent_records() {
    let mut db = HistoryDb::new();
    for (id, ts) in [("a", 10), ("b", 20), ("c", 30), ("d", 40), ("e", 50)] {
        db.insert(&record(id, ts)).unwrap();
    }
    db.prune(3).unwrap();
    let listed = db.list().unwrap();
    assert_eq!(listed.len(), 3);
    let ids: Vec<&str> = listed.iter().map(|r| r.id.as_str()).collect();
    assert_eq!(ids, vec!["e", "d", "c"]);
}

#[test]
fn prune_with_room_to_spare_keeps_everything() {
    let mut db = HistoryDb::new();
    db.insert(&record("a", 1)).unwrap();
    db.prune(100).unwrap();
    assert_eq!(db.list().unwrap().len(), 1);
}

#[test]
fn list_is_newest_first_whatever_the_insertion_order() {
    let mut db = HistoryDb::new();
    db.insert(&record("mid", 10)).unwrap();
    db.insert(&record("old", 5)).unwrap();
    db.insert(&record("new", 20)).unwrap();
    let ids: Vec<String> = db.list().unwrap().into_iter().map(|r| r.id).collect();
    assert_eq!(ids, vec!["new", "mid", "old"]);
}

#[test]
fn delete_removes_only_the_named_record() {
    let mut db = HistoryDb::new();
    db.insert(&record("a", 1)).unwrap();
    db.insert(&record("b", 2)).unwrap();
    db.delete("a").unwrap();
    let listed = db.list().unwrap();
    assert_eq!(listed.len(), 1);
    assert_eq!(listed[0].id, "b");
}

#[test]
fn clear_all_empties_the_store() {
    let mut db = HistoryDb::new();
    db.insert(&record("a", 1)).unwrap();
    db.insert(&record("b", 2)).unwrap();
    db.clear_all().unwrap();
    assert!(db.list().unwrap().is_empty());
}

#[test]
fn listed_records_carry_all_fields() {
    let mut db = HistoryDb::new();
    db.insert(&record("a", 7)).unwrap();
    let r = &db.list().unwrap()[0];
    assert_eq!(r.raw_text, "raw a");
    assert_eq!(r.cleaned_text, "clean a");
    assert_eq!(r.created_at_millis, 7);
    assert_eq!(r.duration_millis, 5);
    assert_eq!(r.model_used, "base");
}

#[test]
fn trim_strips_surrounding_whitespace() {
    assert_eq!(trim(" hello "), "hello");
    assert_eq!(trim("\t\n hello world \r\n"), "hello world");
    assert_eq!(trim("no-space"), "no-space");
    assert_eq!(trim("   "), "");
    assert_eq!(trim(""), "");
    assert_eq!(trim("a"), "a");
}

#[test]
fn blank_detection() {
    assert!(is_blank(""));
    assert!(is_blank("  \t\r\n "));
    assert!(!is_blank(" a "));
    assert!(!is_blank("x"));
}

#[test]
fn string_equality_by_characters() {
    assert!(str_eq("abc", "abc"));
    assert!(!str_eq("abc", "abd"));
    assert!(!str_eq("abc", "abcd"));
    assert!(str_eq("", ""));
}

#[test]
fn strip_end_removes_trailing_run() {
    assert_eq!(strip_end("http://x///", '/'), "http://x");
    assert_eq!(strip_end("http://x", '/'), "http://x");
    assert_eq!(strip_end("///", '/'), "");
    assert_eq!(strip_end("", '/'), "");
}

#[test]
fn ascii_lowercasing() {
    assert_eq!(to_ascii_lower("AbC:0"), "abc:0");
    assert_eq!(to_ascii_lower("already"), "already");
    assert_eq!(to_ascii_lower("HW"), "hw");
}

#[test]
fn find_char_reports_first_occurrence() {
    assert_eq!(find_char("a+b+c", '+', 0), Some(1));
    assert_eq!(find_char("a+b+c", '+', 2), Some(3));
    assert_eq!(find_char("a+b+c", '+', 4), None);
    assert_eq!(find_char("abc", '+', 0), None);
}
