use capedit::request::{parse_request, parse_edit_command, parse_centiseconds, split_request,
    EditRequest};
use capedit::textutil::{trim, escape_braces, format_ass_time, remove_all, find_needle,
    parse_u32};

#[test]
fn timed_request_parses() {
    let r = parse_request(&b"Hello///5.5///Bye".to_vec());
    match r {
        EditRequest::TimedSwap(a, t, b) => {
            assert_eq!(a, b"Hello".to_vec());
            assert_eq!(t, 550);
            assert_eq!(b, b"Bye".to_vec());
        },
        _ => panic!("expected a timed swap"),
    }
}

#[test]
fn invalid_time_falls_back_to_two_boxes() {
    let r = parse_request(&b"a///x///b".to_vec());
    match r {
        EditRequest::TwoBoxText(a, b) => {
            assert_eq!(a, b"a".to_vec());
            assert_eq!(b, b"x".to_vec());
        },
        _ => panic!("expected two box texts"),
    }
}

#[test]
fn two_parts_fill_two_boxes() {
    let r = parse_request(&b" one /// two ".to_vec());
    match r {
        EditRequest::TwoBoxText(a, b) => {
            assert_eq!(a, b"one".to_vec());
            assert_eq!(b, b"two".to_vec());
        },
        _ => panic!("expected two box texts"),
    }
}

#[test]
fn one_part_is_single_text() {
    let r = parse_request(&b"  hi  ".to_vec());
    match r {
        EditRequest::SingleText(a) => assert_eq!(a, b"hi".to_vec()),
        _ => panic!("expected a single text"),
    }
}

#[test]
fn split_keeps_every_part() {
    let parts = split_request(&b"a///b///c///d".to_vec());
    assert_eq!(parts.len(), 4);
    assert_eq!(parts[0], b"a".to_vec());
    assert_eq!(parts[3], b"d".to_vec());
}

#[test]
fn centiseconds_grammar() {
    assert_eq!(parse_centiseconds(&b"12".to_vec()), Some(1200));
    assert_eq!(parse_centiseconds(&b"0.25".to_vec()), Some(25));
    assert_eq!(parse_centiseconds(&b"5.".to_vec()), Some(500));
    assert_eq!(parse_centiseconds(&b".5".to_vec()), Some(50));
    assert_eq!(parse_centiseconds(&b"1.239".to_vec()), Some(123));
    assert_eq!(parse_centiseconds(&b"".to_vec()), None);
    assert_eq!(parse_centiseconds(&b".".to_vec()), None);
    assert_eq!(parse_centiseconds(&b"1e3".to_vec()), None);
    assert_eq!(parse_centiseconds(&b"-2".to_vec()), None);
    assert_eq!(parse_centiseconds(&b"1.2.3".to_vec()), None);
    assert_eq!(parse_centiseconds(&b" 5".to_vec()), None);
}

#[test]
fn edit_command_timed() {
    let r = parse_edit_command(&b"Text Before /5.5 Text After".to_vec());
    match r {
        EditRequest::TimedSwap(a, t, b) => {
            assert_eq!(a, b"Text Before".to_vec());
            assert_eq!(t, 550);
            assert_eq!(b, b"Text After".to_vec());
        },
        _ => panic!("expected a timed swap"),
    }
}

#[test]
fn edit_command_two_boxes() {
    let r = parse_edit_command(&b"Top Text /box2 Bottom Text".to_vec());
    match r {
        EditRequest::TwoBoxText(a, b) => {
            assert_eq!(a, b"Top Text".to_vec());
            assert_eq!(b, b"Bottom Text".to_vec());
        },
        _ => panic!("expected two box texts"),
    }
}

#[test]
fn edit_command_plain() {
    let r = parse_edit_command(&b"  New funny text  ".to_vec());
    match r {
        EditRequest::SingleText(a) => assert_eq!(a, b"New funny text".to_vec()),
        _ => panic!("expected a single text"),
    }
}

#[test]
fn ass_times_format() {
    assert_eq!(format_ass_time(0), b"0:00:00.00".to_vec());
    assert_eq!(format_ass_time(550), b"0:00:05.50".to_vec());
    assert_eq!(format_ass_time(366105), b"1:01:01.05".to_vec());
    assert_eq!(format_ass_time(3_599_999), b"9:59:59.99".to_vec());
}

#[test]
fn trimming_and_escaping() {
    assert_eq!(trim(&b" \t a b \n".to_vec()), b"a b".to_vec());
    assert_eq!(trim(&b"   ".to_vec()), Vec::<u8>::new());
    assert_eq!(escape_braces(&b"{x}".to_vec()), b"\\{x\\}".to_vec());
    assert_eq!(escape_braces(&b"plain".to_vec()), b"plain".to_vec());
}

#[test]
fn removing_every_occurrence() {
    assert_eq!(remove_all(&b"a URL b URL".to_vec(), &b"URL".to_vec()), b"a  b ".to_vec());
    assert_eq!(remove_all(&b"abc".to_vec(), &b"zz".to_vec()), b"abc".to_vec());
}

#[test]
fn finding_needles() {
    assert_eq!(find_needle(&b"hello world".to_vec(), &b"world".to_vec()), Some(6));
    assert_eq!(find_needle(&b"hello".to_vec(), &b"xyz".to_vec()), None);
}

#[test]
fn decimal_parsing_bounds() {
    assert_eq!(parse_u32(&b"0".to_vec()), Some(0));
    assert_eq!(parse_u32(&b"4294967295".to_vec()), Some(u32::MAX));
    assert_eq!(parse_u32(&b"4294967296".to_vec()), None);
    assert_eq!(parse_u32(&b"12a".to_vec()), None);
    assert_eq!(parse_u32(&b"".to_vec()), None);
}
