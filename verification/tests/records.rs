use todo_storage::error::StorageError;
use todo_storage::log::{delete, load, update};
use todo_storage::record::Record;

fn record(text: &str) -> Record {
    Record::decode(text).ok().unwrap()
}

fn strings(lines: &[&str]) -> Vec<String> {
    lines.iter().map(|line| line.to_string()).collect()
}

#[test]
fn decode_then_encode_writes_compactly() {
    assert_eq!(
        record(" { \"b\" : [ 1 , 2.5 , \"x\" ] , \"a\" : null } ").encode().ok().unwrap(),
        "{\"a\":null,\"b\":[1,2.5,\"x\"]}"
    );
}

#[test]
fn decode_takes_any_json_document() {
    assert_eq!(record("17").encode().ok().unwrap(), "17");
    assert_eq!(record("\"a\\nb\"").encode().ok().unwrap(), "\"a\\nb\"");
    assert_eq!(record("[]").encode().ok().unwrap(), "[]");
    assert_eq!(record("null").encode().ok().unwrap(), "null");
}

#[test]
fn decode_gives_the_message_of_the_parser() {
    assert_eq!(
        Record::decode("{\"a\":1,}").err().unwrap(),
        "trailing comma at line 1 column 8"
    );
    assert_eq!(
        Record::decode("").err().unwrap(),
        "EOF while parsing a value at line 1 column 0"
    );
    assert_eq!(
        Record::decode("{} {}").err().unwrap(),
        "trailing characters at line 1 column 4"
    );
}

#[test]
fn encode_escapes_line_breaks_in_texts() {
    assert_eq!(
        record("{\"text\":\"two\\nlines\\r\"}").encode().ok().unwrap(),
        "{\"text\":\"two\\nlines\\r\"}"
    );
}

#[test]
fn has_id_compares_the_text_of_the_id() {
    assert!(record("{\"id\":\"1\"}").has_id("1"));
    assert!(record("{\"text\":\"a\",\"id\":\"abc\"}").has_id("abc"));
    assert!(!record("{\"id\":\"1\"}").has_id("2"));
    assert!(!record("{\"id\":\"1\"}").has_id(""));
    assert!(record("{\"id\":\"\"}").has_id(""));
}

#[test]
fn has_id_is_false_without_a_text_under_id() {
    assert!(!record("{\"id\":1}").has_id("1"));
    assert!(!record("{\"id\":null}").has_id("null"));
    assert!(!record("{\"text\":\"1\"}").has_id("1"));
    assert!(!record("{}").has_id(""));
    assert!(!record("\"1\"").has_id("1"));
    assert!(!record("[\"id\"]").has_id("id"));
    assert!(!record("null").has_id(""));
}

#[test]
fn merge_overwrites_adds_and_removes() {
    let merged = record("{\"id\":\"1\",\"text\":\"a\",\"reminderAt\":\"t1\"}")
        .merge(record("{\"text\":\"b\",\"reminderAt\":null,\"completedAt\":\"t2\"}"))
        .ok()
        .unwrap();
    assert_eq!(
        merged.encode().ok().unwrap(),
        "{\"completedAt\":\"t2\",\"id\":\"1\",\"text\":\"b\"}"
    );
}

#[test]
fn merge_with_null_for_a_missing_key_changes_nothing() {
    let merged = record("{\"id\":\"1\"}").merge(record("{\"gone\":null}")).ok().unwrap();
    assert_eq!(merged.encode().ok().unwrap(), "{\"id\":\"1\"}");
}

#[test]
fn merge_keeps_false_zero_and_empty_values() {
    let merged = record("{\"a\":1,\"b\":2,\"c\":3,\"d\":4}")
        .merge(record("{\"a\":false,\"b\":0,\"c\":\"\",\"d\":[]}"))
        .ok()
        .unwrap();
    assert_eq!(merged.encode().ok().unwrap(), "{\"a\":false,\"b\":0,\"c\":\"\",\"d\":[]}");
}

#[test]
fn merge_can_remove_every_member() {
    let merged = record("{\"a\":1,\"b\":2}").merge(record("{\"a\":null,\"b\":null}")).ok().unwrap();
    assert_eq!(merged.encode().ok().unwrap(), "{}");
}

#[test]
fn merge_leaves_a_record_that_is_no_object() {
    let merged = record("[1,2]").merge(record("{\"a\":1}")).ok().unwrap();
    assert_eq!(merged.encode().ok().unwrap(), "[1,2]");
}

#[test]
fn merge_refuses_a_patch_that_is_no_object() {
    match record("{\"id\":\"1\"}").merge(record("[{\"id\":\"2\"}]")) {
        Err(StorageError::PatchNotObject) => {}
        _ => panic!("the patch is no object"),
    }
}

#[test]
fn encode_list_writes_the_records_in_order() {
    let records = vec![record("{\"id\":\"2\"}"), record("1"), record("{\"id\":\"1\"}")];
    assert_eq!(
        Record::encode_list(records).ok().unwrap(),
        "[{\"id\":\"2\"},1,{\"id\":\"1\"}]"
    );
    assert_eq!(Record::encode_list(Vec::new()).ok().unwrap(), "[]");
}

#[test]
fn update_of_lines_rewrites_every_line() {
    let lines = strings(&["{ \"id\": \"1\" }", "{ \"id\": \"2\", \"n\": 1 }", "[ ]"]);
    assert_eq!(
        update(&lines, "2", "{\"n\":2}").ok().unwrap(),
        strings(&["{\"id\":\"1\"}", "{\"id\":\"2\",\"n\":2}", "[]"])
    );
}

#[test]
fn delete_of_lines_keeps_the_text_of_the_others() {
    let lines = strings(&["{ \"id\": \"1\" }", "{\"id\":\"2\"}", "3 "]);
    assert_eq!(delete(&lines, "2").ok().unwrap(), strings(&["{ \"id\": \"1\" }", "3 "]));
}

#[test]
fn load_of_lines_lists_the_records() {
    let lines = strings(&["{\"id\":\"1\"}", " 2", "\"three\""]);
    assert_eq!(load(&lines).ok().unwrap(), "[{\"id\":\"1\"},2,\"three\"]");
}

#[test]
fn failure_names_the_line() {
    let lines = strings(&["1", "2", "{", "}"]);
    match load(&lines) {
        Err(StorageError::Decode { line, .. }) => assert_eq!(line, 2),
        _ => panic!("the third line is not JSON"),
    }
    match delete(&lines, "1") {
        Err(StorageError::Decode { line, .. }) => assert_eq!(line, 2),
        _ => panic!("the third line is not JSON"),
    }
    match update(&lines, "1", "{}") {
        Err(StorageError::Decode { line, .. }) => assert_eq!(line, 2),
        _ => panic!("the third line is not JSON"),
    }
}
