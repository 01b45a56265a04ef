use pj::lines::{drop_blank, join, lines_of, pieces_of, position_of};
use pj::number::{align_right, decimal_text, parse_u16, push_decimal, signed_text};
use pj::replace::{count, substitute};
use pj::sorting::sort;
use pj::text::{
    blank, byte_len, chars_of, contains_text, copy_option, copy_texts, find_chars, is_whitespace, same_text,
    string_of, take_chars, trimmed, trimmed_end,
};

const SAMPLES: [&str; 14] = [
    "",
    " ",
    "a",
    "  a b  ",
    "\t\r\n x \u{a0}\u{3000}",
    "one\ntwo\r\nthree\n",
    "\n\n",
    "a\r\n\r\nb",
    "a\rb",
    "abcabcabc",
    "aaaa",
    "caf\u{e9} \u{4e2d}\u{6587} \u{1f600}",
    "\u{85}x\u{2028}",
    "ends in return\r",
];

#[test]
fn white_space_is_that_of_std() {
    for n in 0u32..0x11_0000 {
        if let Some(c) = char::from_u32(n) {
            assert_eq!(is_whitespace(c), c.is_whitespace());
        }
    }
}

#[test]
fn trimming_is_that_of_std() {
    for s in SAMPLES {
        assert_eq!(trimmed(s), s.trim());
        assert_eq!(trimmed_end(s), s.trim_end());
        assert_eq!(blank(s), s.trim().is_empty());
    }
}

#[test]
fn lengths_and_prefixes() {
    for s in SAMPLES {
        assert_eq!(byte_len(s), s.len());
        assert_eq!(take_chars(s, 3), s.chars().take(3).collect::<String>());
        assert_eq!(chars_of(s), s.chars().collect::<Vec<char>>());
    }
    assert_eq!(string_of(&chars_of("hello"), 1, 4), "ell");
}

#[test]
fn lines_are_those_of_std() {
    for s in SAMPLES {
        assert_eq!(lines_of(s), s.lines().map(String::from).collect::<Vec<String>>());
        assert_eq!(pieces_of(s), s.split('\n').map(String::from).collect::<Vec<String>>());
    }
    assert_eq!(position_of(&chars_of("a\nb"), '\n', 0), 1);
    assert_eq!(position_of(&chars_of("ab"), '\n', 0), 2);
}

#[test]
fn blank_lines_are_dropped() {
    let list = vec!["a".to_string(), " \t".to_string(), String::new(), "b".to_string()];
    assert_eq!(drop_blank(list), vec!["a".to_string(), "b".to_string()]);
}

#[test]
fn joining_is_that_of_std() {
    let list = vec!["a".to_string(), String::new(), "c".to_string()];
    assert_eq!(join(&list, ", "), "a, , c");
    assert_eq!(join(&Vec::new(), ", "), "");
}

#[test]
fn counting_is_that_of_std() {
    for s in SAMPLES {
        for p in ["a", "aa", "abc", "", "\n", "zz", "\u{4e2d}"] {
            assert_eq!(count(s, p), s.matches(p).count() as u128);
        }
    }
}

#[test]
fn replacing_is_that_of_std() {
    for s in SAMPLES {
        for p in ["a", "aa", "abc", "", "\n", "zz", "\u{4e2d}"] {
            for w in ["", "x", "aa", "\u{e9}"] {
                assert_eq!(substitute(s, p, w, true), s.replace(p, w));
                assert_eq!(substitute(s, p, w, false), s.replacen(p, w, 1));
            }
        }
    }
}

#[test]
fn finding_is_that_of_std() {
    for s in SAMPLES {
        for p in ["a", "aa", "abc", "\n", "zz", "\u{4e2d}"] {
            assert_eq!(contains_text(s, p), s.contains(p));
        }
    }
    assert_eq!(find_chars(&chars_of("xabab"), &chars_of("ab"), 2), Some(3));
    assert_eq!(find_chars(&chars_of("xabab"), &chars_of("ab"), 4), None);
}

#[test]
fn numbers_are_written_in_decimal() {
    assert_eq!(decimal_text(0), "0");
    assert_eq!(decimal_text(u128::MAX), u128::MAX.to_string());
    assert_eq!(signed_text(-1), "-1");
    assert_eq!(signed_text(i64::MIN), i64::MIN.to_string());
    assert_eq!(signed_text(42), "42");
    assert_eq!(align_right("7", 6), format!("{:>6}", 7));
    assert_eq!(align_right("1234567", 6), "1234567");
    let mut out = "n=".to_string();
    push_decimal(&mut out, 30_000);
    assert_eq!(out, "n=30000");
}

#[test]
fn ports_are_read_as_std_reads_them() {
    for s in ["", "0", "8080", "65535", "65536", "+80", "+", "-1", "08", "1 ", "a", "99999999999"] {
        assert_eq!(parse_u16(s), s.parse::<u16>().ok());
    }
}

#[test]
fn sorting_is_that_of_std() {
    let list: Vec<String> = ["b", "a/", "a", "", "\u{e9}", "Z", "b", "ab"]
        .iter()
        .map(|s| s.to_string())
        .collect();
    let mut wanted = list.clone();
    wanted.sort();
    assert_eq!(sort(list), wanted);
}

#[test]
fn copies_hold_the_same() {
    let list = vec!["a".to_string(), "b".to_string()];
    assert_eq!(copy_texts(&list), list);
    assert_eq!(copy_option(&Some("x".to_string())), Some("x".to_string()));
    assert_eq!(copy_option(&None), None);
}

#[test]
fn texts_are_compared() {
    for a in SAMPLES {
        for b in SAMPLES {
            assert_eq!(same_text(a, b), a == b);
        }
    }
}
