use std::io::BufRead;
use todo_storage::error::{ErrorKind, StorageError};
use todo_storage::framing::{is_on_one_line, join_lines, split_lines};
use todo_storage::path::{resolve, DataPath};
use todo_storage::storage::{Change, DataStorage, FileSystemStorage};

fn strings(lines: &[&str]) -> Vec<String> {
    lines.iter().map(|line| line.to_string()).collect()
}

/// The lines that the standard library reads from the text.
fn std_lines(text: &str) -> Vec<String> {
    std::io::Cursor::new(text.as_bytes()).lines().map(|line| line.unwrap()).collect()
}

#[test]
fn split_of_nothing_is_no_line() {
    assert_eq!(split_lines(""), Vec::<String>::new());
}

#[test]
fn split_cuts_at_line_feeds() {
    assert_eq!(split_lines("a\nbc\n"), strings(&["a", "bc"]));
}

#[test]
fn split_keeps_an_unended_last_line() {
    assert_eq!(split_lines("a\nbc"), strings(&["a", "bc"]));
    assert_eq!(split_lines("a"), strings(&["a"]));
}

#[test]
fn split_keeps_empty_lines() {
    assert_eq!(split_lines("\n"), strings(&[""]));
    assert_eq!(split_lines("a\n\nb\n"), strings(&["a", "", "b"]));
    assert_eq!(split_lines("\n\n"), strings(&["", ""]));
}

#[test]
fn split_takes_one_carriage_return_with_the_line_feed() {
    assert_eq!(split_lines("a\r\nb\r\n"), strings(&["a", "b"]));
    assert_eq!(split_lines("a\r\r\n"), strings(&["a\r"]));
    assert_eq!(split_lines("\r\n"), strings(&[""]));
}

#[test]
fn split_keeps_other_carriage_returns() {
    assert_eq!(split_lines("a\rb\n"), strings(&["a\rb"]));
    assert_eq!(split_lines("a\r"), strings(&["a\r"]));
    assert_eq!(split_lines("\r"), strings(&["\r"]));
    assert_eq!(split_lines("\ra\n\r"), strings(&["\ra", "\r"]));
}

#[test]
fn split_reads_as_the_standard_library_does() {
    for text in [
        "", "\n", "\r", "\r\n", "\n\r", "a", "a\n", "a\r\n", "a\r\r\n", "a\n\nb", "a\rb\r\nc\r",
        "{\"id\":\"1\"}\n{\"id\":\"2\"}\n", "日本語\r\nテキスト", "\r\r", "\n\n\n", "x\r\n\r\ny",
    ] {
        assert_eq!(split_lines(text), std_lines(text), "on {:?}", text);
    }
}

#[test]
fn join_ends_each_line_with_a_line_feed() {
    assert_eq!(join_lines(&strings(&[])), "");
    assert_eq!(join_lines(&strings(&["a"])), "a\n");
    assert_eq!(join_lines(&strings(&["a", "", "bc"])), "a\n\nbc\n");
}

#[test]
fn joined_lines_are_split_into_the_same_lines() {
    let lines = strings(&["{\"id\":\"1\"}", "", "a\rb", "日本語"]);
    assert_eq!(split_lines(&join_lines(&lines)), lines);
}

#[test]
fn line_that_ends_in_a_carriage_return_does_not_read_back() {
    let lines = strings(&["1\r"]);
    assert_eq!(split_lines(&join_lines(&lines)), strings(&["1"]));
}

#[test]
fn appending_to_a_closed_text_appends_lines() {
    let stored = "a\nb\n";
    let more = "c\nd";
    let mut expected = split_lines(stored);
    expected.extend(split_lines(more));
    assert_eq!(split_lines(&format!("{}{}", stored, more)), expected);
}

#[test]
fn appending_to_an_open_text_joins_lines() {
    assert_eq!(split_lines("a\nb{\"id\":\"1\"}\n"), strings(&["a", "b{\"id\":\"1\"}"]));
}

#[test]
fn one_line_has_no_line_feed_and_no_carriage_return() {
    assert!(is_on_one_line(""));
    assert!(is_on_one_line("{\"id\":\"1\"}"));
    assert!(is_on_one_line("a\\nb"));
    assert!(!is_on_one_line("a\nb"));
    assert!(!is_on_one_line("a\r"));
    assert!(!is_on_one_line("\n"));
}

#[test]
fn store_with_carriage_returns_is_read() {
    let storage = FileSystemStorage::new(true, None);
    let stored = "{\"id\":\"1\"}\r\n{\"id\":\"2\"}\r\n";
    assert_eq!(storage.load_data(stored).unwrap(), "[{\"id\":\"1\"},{\"id\":\"2\"}]");
    match storage.delete_data(stored, "1").unwrap() {
        Change::Rewrite(text) => assert_eq!(text, "{\"id\":\"2\"}\n"),
        _ => panic!("a delete rewrites"),
    }
}

#[test]
fn store_without_a_last_line_feed_is_read_and_closed_on_rewrite() {
    let storage = FileSystemStorage::new(true, None);
    let stored = "{\"id\":\"1\"}\n{\"id\":\"2\"}";
    assert_eq!(storage.load_data(stored).unwrap(), "[{\"id\":\"1\"},{\"id\":\"2\"}]");
    match storage.delete_data(stored, "1").unwrap() {
        Change::Rewrite(text) => assert_eq!(text, "{\"id\":\"2\"}\n"),
        _ => panic!("a delete rewrites"),
    }
}

#[test]
fn delete_rewrites_a_line_that_ended_in_two_carriage_returns() {
    let storage = FileSystemStorage::new(true, None);
    let stored = "1\r\r\n";
    let once = match storage.delete_data(stored, "x").unwrap() {
        Change::Rewrite(text) => text,
        _ => panic!("a delete rewrites"),
    };
    assert_eq!(once, "1\r\n");
    let twice = match storage.delete_data(&once, "x").unwrap() {
        Change::Rewrite(text) => text,
        _ => panic!("a delete rewrites"),
    };
    assert_eq!(twice, "1\n");
}

#[test]
fn development_path_is_fixed() {
    match resolve(true, None).unwrap() {
        DataPath::Fixed(path) => assert_eq!(path, "../data/data.jsonl"),
        _ => panic!("the development path is fixed"),
    }
    match resolve(true, Some("/var/data")).unwrap() {
        DataPath::Fixed(path) => assert_eq!(path, "../data/data.jsonl"),
        _ => panic!("the development path is fixed"),
    }
}

#[test]
fn packaged_path_is_in_the_data_directory() {
    match resolve(false, Some("/home/u/.local/share/app")).unwrap() {
        DataPath::InDirectory { directory, file } => {
            assert_eq!(directory, "/home/u/.local/share/app");
            assert_eq!(file, "data.jsonl");
        }
        _ => panic!("the packaged path is in the data directory"),
    }
}

#[test]
fn packaged_path_needs_a_data_directory() {
    match resolve(false, None) {
        Err(error) => {
            assert_eq!(error.kind(), ErrorKind::PathResolution);
            assert_eq!(
                error.message(),
                "アプリケーションデータディレクトリの取得に失敗しました"
            );
        }
        Ok(_) => panic!("there is no data directory"),
    }
}

#[test]
fn storage_resolves_its_own_path() {
    let storage = FileSystemStorage::new(false, Some("data dir".to_string()));
    match storage.get_data_path().unwrap() {
        DataPath::InDirectory { directory, file } => {
            assert_eq!(directory, "data dir");
            assert_eq!(file, "data.jsonl");
        }
        _ => panic!("the packaged path is in the data directory"),
    }
    match FileSystemStorage::new(false, None).get_data_path() {
        Err(StorageError::PathResolution) => {}
        _ => panic!("there is no data directory"),
    }
    match FileSystemStorage::new(true, None).get_data_path().unwrap() {
        DataPath::Fixed(path) => assert_eq!(path, "../data/data.jsonl"),
        _ => panic!("the development path is fixed"),
    }
}
