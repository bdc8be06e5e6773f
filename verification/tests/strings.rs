//! Strings.
use goscript::string_obj::{window_end_index, StringObj};
use std::cmp::Ordering;

fn string(text: &str) -> StringObj {
    StringObj::with_str(text.to_string())
}

#[test]
fn a_string_reads_as_its_text() {
    let s = string("h\u{e9}llo");
    assert_eq!(s.as_str(), "h\u{e9}llo");
    assert_eq!(s.len(), 6);
    assert_eq!(s.as_bytes(), "h\u{e9}llo".as_bytes());
    assert_eq!(s.get_byte(1), Some(&0xc3));
    assert_eq!(s.get_byte(6), None);
    assert_eq!(s.iter().collect::<String>(), "h\u{e9}llo");
}

#[test]
fn windows_end_where_they_are_told() {
    assert_eq!(window_end_index(5, 3), 3);
    assert_eq!(window_end_index(5, 0), 0);
    assert_eq!(window_end_index(5, 5), 5);
    assert_eq!(window_end_index(5, -1), 5);
    assert_eq!(window_end_index(5, -3), 3);
    assert_eq!(window_end_index(5, -6), 0);
    assert_eq!(window_end_index(5, 6), 0);
    assert_eq!(window_end_index(5, -8), (-2isize) as usize);
    assert_eq!(window_end_index(5, 13), 1);
}

#[test]
fn a_string_is_cut() {
    let s = string("goscript");
    assert_eq!(s.slice(2, 5).as_str(), "scr");
    assert_eq!(s.slice(0, -1).as_str(), "goscript");
    assert_eq!(s.slice(2, -1).as_str(), "script");
    assert_eq!(s.slice(2, -4).as_str(), "scr");
    assert_eq!(s.slice(0, 8).as_str(), "goscript");
    assert_eq!(s.slice(0, -9).as_str(), "");
    assert_eq!(s.slice(4, 4).as_str(), "");
}

#[test]
fn positions_count_from_the_start_of_the_whole_text() {
    let s = string("goscript").slice(2, -1);
    assert_eq!(s.as_str(), "script");
    assert_eq!(s.slice(0, 3).as_str(), "gos");
}

#[test]
fn clones_read_the_same() {
    let s = string("abc").slice(1, 3);
    assert_eq!(s.clone().as_str(), "bc");
    assert!(s.eq(&s.clone()));
}

#[test]
fn strings_are_compared_byte_by_byte() {
    let texts = ["", "a", "aa", "ab", "b", "\u{e9}"];
    for (i, a) in texts.iter().enumerate() {
        for (j, b) in texts.iter().enumerate() {
            let x = string(a);
            let y = string(b);
            assert_eq!(x.eq(&y), i == j);
            assert_eq!(x.cmp(&y), i.cmp(&j));
            assert_eq!(x.partial_cmp(&y), Some(i.cmp(&j)));
        }
    }
    assert_eq!(string("xaby").slice(1, 3).cmp(&string("ab")), Ordering::Equal);
}
