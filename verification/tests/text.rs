use pixi_experimental_backends::text::{
    chars_lt, chars_of, decimal_chars, parse_u32, sorted_unique, split_chars, trim_chars,
};

fn cs(s: &str) -> Vec<char> {
    s.chars().collect()
}

#[test]
fn parse_u32_like_std() {
    for s in ["0", "42", "+7", "007", "4294967295", "4294967296", "", "+", "-1", "1a", " 1", "99999999999"] {
        assert_eq!(parse_u32(&cs(s)), s.parse::<u32>().ok(), "{s:?}");
    }
}

#[test]
fn decimal_like_display() {
    for n in [0u64, 7, 10, 118, 4294967295, u64::MAX] {
        assert_eq!(decimal_chars(n), cs(&n.to_string()));
    }
}

#[test]
fn split_like_str_split() {
    for s in ["a-b", "", "-", "a--b-", "abc"] {
        let expected: Vec<Vec<char>> = s.split('-').map(cs).collect();
        assert_eq!(split_chars(&cs(s), '-'), expected, "{s:?}");
    }
}

#[test]
fn trim_like_str_trim() {
    for s in ["  a b \r\n", "\u{3000}x\u{a0}", "", "   ", "x"] {
        assert_eq!(trim_chars(&cs(s)), cs(s.trim()), "{s:?}");
    }
}

#[test]
fn order_like_str_order() {
    let words = ["", "a", "b", "ab", "é", "z", "Z", "aa"];
    for a in words {
        for b in words {
            assert_eq!(chars_lt(&cs(a), &cs(b)), a < b, "{a:?} {b:?}");
        }
    }
    let v: Vec<String> = vec!["b".into(), "a".into(), "é".into(), "b".into(), "".into()];
    assert_eq!(sorted_unique(&v), vec!["", "a", "b", "é"]);
    assert_eq!(chars_of("héllo"), cs("héllo"));
}
