use process_pool::error::PoolError;
use process_pool::json::{array, Fields, Json, JsonNumber};
use process_pool::lines::{LineReader, Source, LINE_LIMIT};
use process_pool::reading::{from_value, read_json};
use process_pool::table::{comes_before, TextMap};
use process_pool::text::{
    clip, decimal, has_prefix, is_blank, is_white_space, same_text, trim, trim_end,
};

/// The document in the outside crate's own form.
fn value(v: &Json) -> serde_json::Value {
    match v {
        Json::Null => serde_json::Value::Null,
        Json::Bool(b) => serde_json::Value::from(*b),
        Json::Number(JsonNumber::Unsigned(n)) => serde_json::Value::from(*n),
        Json::Number(JsonNumber::Negative(n)) => serde_json::Value::from(*n),
        Json::Number(JsonNumber::Float(s)) => serde_json::from_str(s).unwrap(),
        Json::Text(s) => serde_json::Value::from(s.as_str()),
        Json::Array(items) => serde_json::Value::Array(items.iter().map(value).collect()),
        Json::Object(members) => serde_json::Value::Object(
            members.iter().map(|m| (m.key.clone(), value(&m.value))).collect(),
        ),
    }
}

fn sample() -> Json {
    Fields::new()
        .with("a", Json::Null)
        .with("b \"quoted\"\n\u{1}", Json::Bool(true))
        .with(
            "c",
            array(vec![
                Json::unsigned(u64::MAX),
                Json::Number(JsonNumber::Negative(i64::MIN)),
                Json::Number(JsonNumber::Float("1.5".into())),
                Json::text("进程\t/\\ \u{7f}\u{1f600}"),
            ]),
        )
        .with("d", Fields::new().object())
        .with("e", array(vec![]))
        .object()
}

#[test]
fn compact_text_is_what_the_json_crate_writes() {
    let v = sample();
    assert_eq!(v.to_text(), value(&v).to_string());
    assert_eq!(serde_json::from_str::<serde_json::Value>(&v.to_text()).unwrap(), value(&v));
}

#[test]
fn written_documents_are_read_back() {
    let v = sample();
    assert_eq!(read_json(&v.to_text()), Ok(v.clone()));
    assert_eq!(from_value(value(&v)), v);
    assert_eq!(read_json(" [ -0.5e3 , {} ] ").unwrap().to_text(), "[-500.0,{}]");
    assert_eq!(read_json("{\"b\":1,\"a\":2}").unwrap().to_text(), "{\"a\":2,\"b\":1}");
    assert_eq!(read_json("[1").unwrap_err(), "EOF while parsing a list at line 1 column 2");
}

#[test]
fn developer_text_is_what_the_json_crate_prints() {
    let v = sample();
    assert_eq!(v.to_debug(), format!("{:?}", value(&v)));
    let error = PoolError::WorkerReturned {
        code: "E".into(),
        message: "m".into(),
        details: Some(Json::text("d")),
    };
    assert_eq!(
        error.kind_text(),
        "WorkerReturned { code: \"E\", message: \"m\", details: Some(String(\"d\")) }"
    );
}

#[test]
fn every_control_character_is_escaped() {
    for code in 0u32..0x90 {
        let c = char::from_u32(code).unwrap();
        let text = format!("x{c}y");
        assert_eq!(Json::text(&text).to_text(), serde_json::Value::from(text.as_str()).to_string());
    }
}

#[test]
fn members_are_found_by_name() {
    let v = sample();
    assert_eq!(v.get("a"), Some(&Json::Null));
    assert!(v.get("z").is_none());
    assert!(Json::text("a").get("a").is_none());
    assert_eq!(Json::text("a").as_str(), Some("a"));
    assert_eq!(Json::unsigned(7).as_u64(), Some(7));
    assert_eq!(Json::text("7").as_u64(), None);
    assert!(Json::text("x").is_text("x"));
    assert!(!Json::text("x").is_text("y"));
    assert_eq!(v.clone(), v);
}

#[test]
fn numbers_are_written_in_decimal() {
    assert_eq!(decimal(0), "0");
    assert_eq!(decimal(9), "9");
    assert_eq!(decimal(10), "10");
    assert_eq!(decimal(u64::MAX), "18446744073709551615");
}

#[test]
fn clipping_respects_characters() {
    assert_eq!(clip("abc", 2), "ab");
    assert_eq!(clip("abc", 3), "abc");
    assert_eq!(clip("abc", 9), "abc");
    assert_eq!(clip("进程", 5), "进");
    assert_eq!(clip("进程", 2), "");
    assert_eq!(clip(&clip("a进程", 5), 5), clip("a进程", 5));
}

#[test]
fn white_space_is_trimmed_as_std_does() {
    for text in ["", " ", "\u{3000}\u{a0}x y\u{2003}\r\n", "\t\u{85}", "x", "\u{200b} "] {
        assert_eq!(trim(text), text.trim());
        assert_eq!(trim_end(text), text.trim_end());
        assert_eq!(is_blank(text), text.trim().is_empty());
    }
    for c in '\0'..=char::MAX {
        assert_eq!(is_white_space(c), c.is_whitespace(), "{c:?}");
    }
}

#[test]
fn texts_are_compared_by_content() {
    assert!(same_text("进程", "进程"));
    assert!(!same_text("进程", "进"));
    assert!(has_prefix("cc.status", "cc."));
    assert!(!has_prefix("cc", "cc."));
    for a in ["", "a", "ab", "b", "进", "Z", "a_b", "ab_"] {
        for b in ["", "a", "ab", "b", "进", "Z", "a_b", "ab_"] {
            assert_eq!(comes_before(a, b), a < b);
        }
    }
}

#[test]
fn a_text_map_is_walked_in_order() {
    let mut map: TextMap<u32> = TextMap::new();
    for (i, key) in ["m", "a", "z", "b", "a"].iter().enumerate() {
        map.insert(key.to_string(), i as u32);
    }
    let keys: Vec<&str> = (0..map.len()).map(|i| map.key_at(i)).collect();
    assert_eq!(keys, vec!["a", "b", "m", "z"]);
    assert_eq!(map.get("a"), Some(&4));
    assert_eq!(map.get("c"), None);
    assert_eq!(map.remove("b"), Some(3));
    assert_eq!(map.remove("b"), None);
    assert_eq!(map.len(), 3);
    *map.value_at_mut(0) = 9;
    assert_eq!(*map.value_at(0), 9);
    assert_eq!(map.index_of("m"), Some(1));
    map.clear();
    assert_eq!(map.len(), 0);
}

#[test]
fn chunking_does_not_change_the_lines() {
    let output = "first \r\n第二\nlast".as_bytes();
    let mut whole = LineReader::new(Source::Stdout);
    let expected = whole.read_output(output);
    assert_eq!(expected, vec![Ok("first".to_string()), Ok("第二".to_string())]);
    assert_eq!(whole.finish(), Some("last".to_string()));
    for size in 1..output.len() {
        let mut reader = LineReader::new(Source::Stdout);
        let mut lines = vec![];
        for chunk in output.chunks(size) {
            lines.extend(reader.read_output(chunk));
        }
        assert_eq!(lines, expected);
        assert_eq!(reader.finish(), Some("last".to_string()));
    }
}

#[test]
fn malformed_bytes_are_replaced() {
    let mut reader = LineReader::new(Source::Stderr);
    assert_eq!(reader.read_output(b"a\xffb\n"), vec![Ok("a\u{fffd}b".to_string())]);
    assert_eq!(reader.finish(), None);
}

#[test]
fn an_overlong_line_stops_the_reader() {
    let mut reader = LineReader::new(Source::Stderr);
    let mut exact = vec![b'x'; LINE_LIMIT - 1];
    exact.push(b'\n');
    assert_eq!(reader.read_output(&exact).len(), 1);
    assert!(reader.is_active());
    let lines = reader.read_output(&vec![b'x'; LINE_LIMIT + 1]);
    assert_eq!(lines, vec![Err("stderr 单行超过 1 MiB，已停止进程".to_string())]);
    assert!(!reader.is_active());
    assert!(reader.read_output(b"more\n").is_empty());
    assert_eq!(reader.finish(), None);
}
