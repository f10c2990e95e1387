use nom::leaf::Tag;
use nom::leaf::TagError;
use nom::parser::ParseErr;
use nom::parser::Parser;
use nom::sequence::tuple;

fn t(s: &str) -> Tag {
    Tag { tag: s.as_bytes().to_vec() }
}

fn err_at(s: &str) -> ParseErr<TagError> {
    ParseErr::Error(TagError { at: s.as_bytes().to_vec() })
}

#[test]
fn tuple4_in_order() {
    let p = tuple((t("a"), t("b"), t("c"), t("d")));
    let (rem, out) = p.parse(b"abcde").unwrap();
    assert_eq!(
        out,
        (b"a".to_vec(), b"b".to_vec(), b"c".to_vec(), b"d".to_vec())
    );
    assert_eq!(rem, b"e");
}

#[test]
fn tuple5_in_order() {
    let p = tuple((t("a"), t("b"), t("c"), t("d"), t("e")));
    let (rem, out) = p.parse(b"abcdef").unwrap();
    assert_eq!(out.4, b"e".to_vec());
    assert_eq!(rem, b"f");
}

#[test]
fn tuple6_in_order() {
    let p = tuple((t("a"), t("b"), t("c"), t("d"), t("e"), t("f")));
    let (rem, out) = p.parse(b"abcdefg").unwrap();
    assert_eq!(out.5, b"f".to_vec());
    assert_eq!(rem, b"g");
}

#[test]
fn tuple7_in_order() {
    let p = tuple((t("a"), t("b"), t("c"), t("d"), t("e"), t("f"), t("g")));
    let (rem, out) = p.parse(b"abcdefgh").unwrap();
    assert_eq!(out.0, b"a".to_vec());
    assert_eq!(out.6, b"g".to_vec());
    assert_eq!(rem, b"h");
}

#[test]
fn tuple7_fails_at_last() {
    let p = tuple((t("a"), t("b"), t("c"), t("d"), t("e"), t("f"), t("g")));
    assert_eq!(p.parse(b"abcdefX").unwrap_err(), err_at("X"));
}

#[test]
fn wide_tuple_consumed_lengths_add_up() {
    let input: &[u8] = b"aabbbcZ";
    let p = tuple((t("aa"), t("bbb"), t("c")));
    let (rem, _) = p.parse(input).unwrap();
    assert_eq!(input.len() - rem.len(), 2 + 3 + 1);
    assert_eq!(rem, b"Z");
}

#[test]
fn tuple12_in_order() {
    let p = tuple((
        t("a"),
        t("b"),
        t("c"),
        t("d"),
        t("e"),
        t("f"),
        t("g"),
        t("h"),
        t("i"),
        t("j"),
        t("k"),
        t("l"),
    ));
    let (rem, out) = p.parse(b"abcdefghijkl!").unwrap();
    assert_eq!(out.0, b"a".to_vec());
    assert_eq!(out.11, b"l".to_vec());
    assert_eq!(rem, b"!");
}

#[test]
fn tuple12_short_circuits_in_the_middle() {
    let p = tuple((
        t("a"),
        t("b"),
        t("c"),
        t("d"),
        t("e"),
        t("f"),
        t("g"),
        t("h"),
        t("i"),
        t("j"),
        t("k"),
        t("l"),
    ));
    assert_eq!(p.parse(b"abcdefgXijkl").unwrap_err(), err_at("Xijkl"));
}
