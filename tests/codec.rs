use willdo::codec::{decode, encode, FormatError, FORMAT_VERSION};
use willdo::todo::{ListError, Todo, MAX_ITEMS};

fn todo(title: &str, items: &[&str]) -> Todo {
    Todo {
        title: title.to_string(),
        content: items.iter().map(|s| s.to_string()).collect(),
    }
}

#[test]
fn round_trip_empty_content() {
    let t = todo("Groceries", &[]);
    assert_eq!(decode(&encode(&t)), Ok(todo("Groceries", &[])));
}

#[test]
fn round_trip_with_entries_and_unicode() {
    let t = todo("Wochenmarkt ü", &["buy milk", "", "café ☕", "a b  c"]);
    let back = decode(&encode(&t)).unwrap();
    assert_eq!(back, t);
}

#[test]
fn round_trip_full_list() {
    let items: Vec<String> = (0..MAX_ITEMS).map(|i| format!("item {}", i)).collect();
    let t = Todo { title: String::new(), content: items };
    assert_eq!(decode(&encode(&t)).unwrap(), t);
}

#[test]
fn encode_exact_bytes() {
    let t = todo("ab", &["c"]);
    let expected: Vec<u8> = vec![
        FORMAT_VERSION, 0, 0, 0, 0, 0, 0, 0, 2, b'a', b'b', 0, 0, 0, 0, 0, 0, 0, 1, 0, 0, 0, 0, 0,
        0, 0, 1, b'c',
    ];
    assert_eq!(encode(&t), expected);
}

#[test]
fn decode_rejects_empty_and_unknown_version() {
    assert_eq!(decode(&[]), Err(FormatError::UnknownVersion));
    let mut b = encode(&todo("x", &[]));
    b[0] = 2;
    assert_eq!(decode(&b), Err(FormatError::UnknownVersion));
}

#[test]
fn decode_rejects_truncated_and_trailing() {
    let b = encode(&todo("title", &["one", "two"]));
    for cut in 1..b.len() {
        assert_eq!(decode(&b[..cut]), Err(FormatError::Truncated), "cut at {}", cut);
    }
    let mut longer = b.clone();
    longer.push(0);
    assert_eq!(decode(&longer), Err(FormatError::Truncated));
}

#[test]
fn decode_rejects_bad_utf8() {
    let mut b = encode(&todo("ab", &[]));
    b[9] = 0xff;
    assert_eq!(decode(&b), Err(FormatError::BadText));
}

#[test]
fn decode_rejects_too_many_items() {
    let mut b = vec![FORMAT_VERSION, 0, 0, 0, 0, 0, 0, 0, 0];
    b.extend_from_slice(&[0, 0, 0, 0, 0, 0, 0, 50]);
    assert_eq!(decode(&b), Err(FormatError::TooManyItems));
}

#[test]
fn json_payload_is_not_a_list() {
    let b = br#"{"title":"x","content":[]}"#;
    assert_eq!(decode(b), Err(FormatError::UnknownVersion));
}

#[test]
fn append_and_remove_at() {
    let mut t = Todo::new("T".to_string());
    assert_eq!(t.append("a".to_string()), Ok(()));
    assert_eq!(t.append("b".to_string()), Ok(()));
    assert_eq!(t.remove_at(0), Err(ListError::IndexError));
    assert_eq!(t.remove_at(3), Err(ListError::IndexError));
    assert_eq!(t.remove_at(1), Ok("a".to_string()));
    assert_eq!(t.content, vec!["b".to_string()]);
}

#[test]
fn append_refused_when_full() {
    let mut t = Todo::new("T".to_string());
    for i in 0..MAX_ITEMS {
        assert_eq!(t.append(i.to_string()), Ok(()));
    }
    assert_eq!(t.append("one more".to_string()), Err(ListError::Full));
    assert_eq!(t.content.len(), MAX_ITEMS);
}

#[test]
fn render_numbers_entries_from_one() {
    let t = todo("Groceries", &["buy milk", "eggs"]);
    assert_eq!(t.render(), vec!["Groceries", "1. buy milk", "2. eggs"]);
}

#[test]
fn render_two_digit_numbers() {
    let items: Vec<String> = (1..=12).map(|i| format!("e{}", i)).collect();
    let t = Todo { title: "T".to_string(), content: items };
    let lines = t.render();
    assert_eq!(lines[10], "10. e10");
    assert_eq!(lines[12], "12. e12");
}
