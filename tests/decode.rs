use unescape::chumsky_basic;
use unescape::chumsky_bumpalo::{self, CollectString};
use unescape::chumsky_optimized;
use unescape::escape::{lookup_escape, DecodeError};
use unescape::generator::generate_input;
use unescape::harness::{classify, Agreement};
use unescape::io::Output;
use unescape::manual_parser;

const SAMPLE: &str = r#"hello\\\n\tniho\r\"\'\0\bxl\a\n123\b2"#;
const SAMPLE_DECODED: &str = "hello\\\n\tniho\r\"'\0\x08xl\x07\n123\x082";

fn all(input: &str) -> Vec<Result<String, DecodeError>> {
    vec![
        chumsky_basic::parse(input),
        chumsky_optimized::parse(input),
        chumsky_bumpalo::parse(input),
        manual_parser::parse(input),
    ]
}

fn all_ok(input: &str, expected: &str) {
    for r in all(input) {
        assert_eq!(r, Ok(expected.to_string()), "input {:?}", input);
    }
}

fn all_fail(input: &str) {
    for r in all(input) {
        assert_eq!(r, Err(DecodeError::InvalidEscape), "input {:?}", input);
    }
}

#[test]
fn chumsky_basic_test_parse() {
    let s = chumsky_basic::parse(SAMPLE).unwrap();
    println!("{}", s);
    assert_eq!(s, SAMPLE_DECODED);
}

#[test]
fn chumsky_bumpalo_test_parse() {
    let s = chumsky_bumpalo::parse(SAMPLE).unwrap();
    println!("{}", s.as_str());
    assert_eq!(s, SAMPLE_DECODED);
}

#[test]
fn chumsky_optimized_test_parse() {
    let s = chumsky_optimized::parse(SAMPLE).unwrap();
    println!("{}", s);
    assert_eq!(s, SAMPLE_DECODED);
}

#[test]
fn manual_parser_test_parse() {
    let s = manual_parser::parse(SAMPLE).unwrap();
    println!("{}", s);
    assert_eq!(s, SAMPLE_DECODED);
}

#[test]
fn sample_decodes_alike_everywhere() {
    all_ok(SAMPLE, SAMPLE_DECODED);
}

#[test]
fn empty_input_decodes_to_empty_output() {
    all_ok("", "");
}

#[test]
fn each_escape_pair_maps_to_one_character() {
    let pairs = [
        ("\\\\", "\\"),
        ("\\t", "\t"),
        ("\\n", "\n"),
        ("\\r", "\r"),
        ("\\0", "\0"),
        ("\\\"", "\""),
        ("\\'", "'"),
        ("\\b", "\x08"),
        ("\\f", "\x0C"),
        ("\\v", "\x0B"),
        ("\\a", "\x07"),
    ];
    for (raw, decoded) in pairs {
        all_ok(raw, decoded);
        all_ok(&format!("x{}y", raw), &format!("x{}y", decoded));
    }
}

#[test]
fn plain_text_passes_through() {
    all_ok("plain text 123 !?", "plain text 123 !?");
    all_ok("h\u{e9}llo \u{4e16}\u{754c}\\n\u{1f600}", "h\u{e9}llo \u{4e16}\u{754c}\n\u{1f600}");
}

#[test]
fn trailing_introducer_fails() {
    all_fail("abc\\");
    all_fail("\\");
    all_fail("\\\\\\");
    all_fail("a\\n\\");
}

#[test]
fn escaped_introducer_at_end_succeeds() {
    all_ok("ab\\\\", "ab\\");
}

#[test]
fn unknown_escape_fails() {
    all_fail("a\\x");
    all_fail("\\xabc");
    all_fail("ok\\n then \\q");
    all_fail("\\u0041");
    all_fail("\\\u{e9}");
}

#[test]
fn unknown_escape_after_introducer_pair_fails() {
    all_fail("\\\\\\z");
}

#[test]
fn output_is_never_longer_than_input() {
    for input in [SAMPLE, "abc", "\\n\\t", "", "\\\\\\\\"] {
        for r in all(input) {
            let out = r.unwrap();
            assert!(out.chars().count() <= input.chars().count());
        }
    }
    assert_eq!(manual_parser::parse("\\n\\t").unwrap().chars().count(), 2);
}

#[test]
fn decoding_twice_gives_the_same_result() {
    for input in [SAMPLE, "a\\x", "abc\\", "", "text"] {
        assert_eq!(all(input), all(input));
    }
}

#[test]
fn generated_inputs_decode_alike() {
    for len in [0usize, 1, 2, 3, 10, 20, 50, 100, 1000, 5000] {
        let input = generate_input(len);
        assert_eq!(input.chars().count(), len);
        let results = all(&input);
        assert!(results[0].is_ok());
        for r in &results {
            assert_eq!(r, &results[0]);
        }
        assert_eq!(classify(&results[0], &results[1], &results[3]), Agreement::Identical);
    }
}

#[test]
fn generated_input_is_deterministic_and_escaped() {
    assert_eq!(generate_input(100), generate_input(100));
    let long = generate_input(5000);
    assert!(long.contains('\\'));
    let decoded = manual_parser::parse(&long).unwrap();
    assert!(decoded.chars().count() < 5000);
}

#[test]
fn lookup_escape_table() {
    assert_eq!(lookup_escape('\\'), Some('\\'));
    assert_eq!(lookup_escape('t'), Some('\t'));
    assert_eq!(lookup_escape('n'), Some('\n'));
    assert_eq!(lookup_escape('r'), Some('\r'));
    assert_eq!(lookup_escape('0'), Some('\0'));
    assert_eq!(lookup_escape('"'), Some('"'));
    assert_eq!(lookup_escape('\''), Some('\''));
    assert_eq!(lookup_escape('b'), Some('\x08'));
    assert_eq!(lookup_escape('f'), Some('\x0C'));
    assert_eq!(lookup_escape('v'), Some('\x0B'));
    assert_eq!(lookup_escape('a'), Some('\x07'));
    assert_eq!(lookup_escape('x'), None);
    assert_eq!(lookup_escape('u'), None);
    assert_eq!(lookup_escape('1'), None);
}

#[test]
fn classify_reports_each_relation() {
    let ok_a: Result<String, DecodeError> = Ok("a".to_string());
    let ok_b: Result<String, DecodeError> = Ok("b".to_string());
    let err: Result<String, DecodeError> = Err(DecodeError::InvalidEscape);
    assert_eq!(classify(&ok_a, &ok_a, &ok_a), Agreement::Identical);
    assert_eq!(classify(&ok_a, &ok_a, &ok_b), Agreement::Differ);
    assert_eq!(classify(&ok_b, &ok_a, &ok_a), Agreement::Differ);
    assert_eq!(classify(&err, &err, &err), Agreement::AllFailed);
    assert_eq!(classify(&ok_a, &err, &ok_a), Agreement::Mixed);
    assert_eq!(classify(&err, &err, &ok_a), Agreement::Mixed);
}

#[test]
fn arena_buffer_collects_pushed_text() {
    let bump = bumpalo::Bump::new();
    let mut buf = CollectString::new_in(&bump);
    assert_eq!(buf.as_str(), "");
    buf.push("abc");
    buf.push_char('\n');
    buf.push("d\u{e9}");
    assert_eq!(buf.as_str(), "abc\nd\u{e9}");
}

#[test]
fn string_output_is_its_text() {
    let s = String::from("held text");
    assert_eq!(Output::as_str(&s), "held text");
}

#[test]
fn generated_input_exact_values() {
    assert_eq!(generate_input(0), "");
    assert_eq!(generate_input(5), r#"pF\\b"#);
    assert_eq!(generate_input(20), r#"S4s}gSk@iYo0S) @Ge=S"#);
    assert_eq!(
        generate_input(50),
        r#"m\\:0@As6GyUSk$me6Qw\"8)SKSY^46:ac)U^u$*O.2qESE+iu"#
    );
    assert_eq!(manual_parser::parse(&generate_input(5)).unwrap(), "pF\\b");
}
