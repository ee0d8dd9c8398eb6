//! Text, JSON, bytes, paths, identifiers and time.

use b3_cli::bytes::{array32, bytes_of, push_le16, push_le32, read_le16, read_le32, same_bytes};
use b3_cli::clock::{can_expire, parse_span, span_after, SpanError, Timestamp, Unit};
use b3_cli::ids::IdMap;
use b3_cli::json::{self, Json};
use b3_cli::paths;
use b3_cli::text;

#[test]
fn text_is_cut_like_std() {
    for s in ["", "a", " a b ", "x=1=2", "  \t\n", "ä ö", "a/b//c"] {
        assert_eq!(text::trim(s), s.trim());
        assert_eq!(text::trim_start(s), s.trim_start());
        assert_eq!(text::trim_end_matches(s, '/'), s.trim_end_matches('/'));
        assert_eq!(text::trim_start_matches(s, "a"), s.trim_start_matches("a"));
        assert_eq!(text::first_word(s), s.split_whitespace().next().unwrap_or(""));
        assert_eq!(text::before_first(s, '/'), s.split('/').next().unwrap());
        assert_eq!(text::after_last(s, '/'), s.rsplit('/').next().unwrap());
        assert_eq!(text::split(s, '/'), s.split('/').map(|x| x.to_string()).collect::<Vec<_>>());
        assert_eq!(
            text::split_once(s, '='),
            s.split_once('=').map(|(a, b)| (a.to_string(), b.to_string()))
        );
        assert_eq!(text::replace(s, "/", "--"), s.replace("/", "--"));
        assert_eq!(text::replace(s, " a", ""), s.replace(" a", ""));
        assert_eq!(text::contains(s, "b"), s.contains("b"));
        assert_eq!(text::ends_with(s, "c"), s.ends_with("c"));
        assert_eq!(text::le(s, "a"), s <= "a");
    }
    assert_eq!(text::find("äxb", "x"), Some(1));
    assert_eq!(text::find_at("abab", "ab", 1), Some(2));
    assert_eq!(text::take("äöü", 2), "äö");
    assert_eq!(text::skip("äöü", 2), "ü");
    assert_eq!(text::replace_char("a.b.", '.', '_'), "a_b_");
}

#[test]
fn numbers_are_read_and_written_like_std() {
    for s in ["0", "7", "65535", "65536", "+5", "-5", "", "1x", "007", "99999999999999999999"] {
        assert_eq!(text::parse_number(s, 65535), s.parse::<u16>().ok().map(|n| n as u64));
        assert_eq!(text::parse_i64(s), s.parse::<i64>().ok());
    }
    assert_eq!(text::parse_i64("-9223372036854775808"), Some(i64::MIN));
    for n in [0, 9, 10, 255, 4096, u64::MAX] {
        assert_eq!(text::to_decimal(n), n.to_string());
        assert_eq!(text::to_hex(n), format!("{n:x}"));
    }
    assert_eq!(text::to_signed_decimal(-42), "-42");
    assert_eq!(text::to_hex_bytes(&[0, 0x1f, 0xff]), "001fff");
}

#[test]
fn bytes_and_paths() {
    assert_eq!(bytes_of("hé"), "hé".as_bytes());
    assert!(array32(&[0; 31]).is_none());
    assert_eq!(array32(&[9; 32]), Some([9; 32]));
    assert!(same_bytes(b"ab", b"ab") && !same_bytes(b"ab", b"abc"));
    let mut v: Vec<u8> = Vec::new();
    push_le16(&mut v, 0x1234);
    push_le32(&mut v, 0x89abcdef);
    assert_eq!(v, vec![0x34, 0x12, 0xef, 0xcd, 0xab, 0x89]);
    assert_eq!(read_le16(&v, 0), 0x1234);
    assert_eq!(read_le32(&v, 2), 0x89abcdef);
    for (a, b) in [("/x", "y"), ("/x/", "y"), ("/x", "/y"), ("", "y"), ("/", "y"), ("/x", "")] {
        assert_eq!(paths::join(a, b), std::path::Path::new(a).join(b).to_string_lossy());
    }
}

#[test]
fn json_is_read_and_written_like_serde() {
    for s in [
        "null", "true", "7", "-7", "\"a\\n\\u00e9\"", "[1,[],{}]",
        r#"{"b":1,"a":{"c":[true,null]}}"#, "18446744073709551615", "-9223372036854775808",
    ] {
        let v: serde_json::Value = serde_json::from_str(s).unwrap();
        let j = json::parse(s).unwrap();
        assert_eq!(j.to_text(), serde_json::to_string(&v).unwrap());
        assert_eq!(j.to_pretty_text(), serde_json::to_string_pretty(&v).unwrap());
        assert_eq!(json::parse(&j.to_text()).unwrap().to_text(), j.to_text());
    }
    let e = json::parse("{x").unwrap_err();
    assert_eq!(e, serde_json::from_str::<serde_json::Value>("{x").unwrap_err().to_string());
}

#[test]
fn members_read_back_what_was_put() {
    let j = Json::object()
        .put_text("b", "x")
        .put_uint("a", 3)
        .put_bool("c", true)
        .put("n", Json::Null)
        .put_text("b", "y");
    assert_eq!(j.to_text(), r#"{"a":3,"b":"y","c":true,"n":null}"#);
    assert_eq!(j.text("b").unwrap(), "y");
    assert!(j.is("b", "y") && !j.is("b", "x"));
    assert_eq!(j.uint("a"), Some(3));
    assert_eq!(j.truth("c"), Some(true));
    assert_eq!(j.text_or("zz", "none"), "none");
    assert_eq!(j.uint_or("zz", 5), 5);
    assert!(j.truth_or("zz", true));
    let (rest, found) = j.without("a");
    assert!(found);
    assert!(rest.get("a").is_none());
    assert_eq!(rest.text("b").unwrap(), "y");
    let list = Json::texts(&["p".to_string(), "q".to_string()]);
    let holder = Json::object().put("l", Json::array(vec![list, Json::Uint(1), Json::Text("t".to_string())]));
    assert_eq!(json::texts_of(holder.items("l")), vec!["t".to_string()]);
}

#[test]
fn ids_map_like_a_map() {
    let mut m: IdMap<u8> = IdMap::new();
    m.insert(5, 1);
    m.insert(2, 2);
    m.insert(5, 3);
    assert_eq!(m.len(), 2);
    assert_eq!(m.get(5), Some(&3));
    m.remove(5);
    assert!(m.get(5).is_none());
    assert_eq!(m.at(0), (2, &2));
}

#[test]
fn spans_are_counted_from_now() {
    let now = Timestamp { secs: 1_700_000_000, nanos: 0 };
    let span = parse_span(" 90m ").unwrap();
    assert_eq!(span.count, 90);
    assert_eq!(span.unit, Unit::Minute);
    assert_eq!(span.seconds(), 5400);
    assert_eq!(span_after(&span, now), "2023-11-14T23:43:20+00:00");
    assert!(matches!(parse_span("xh"), Err(SpanError::Number)));
    assert!(matches!(parse_span("5w"), Err(SpanError::Unit(u)) if u == "w"));
    assert!(can_expire("7d", now));
    assert!(!can_expire("9223372036854775807d", now));
    assert!(Timestamp { secs: 5, nanos: 1 }.after(&Timestamp { secs: 5, nanos: 0 }));
}
