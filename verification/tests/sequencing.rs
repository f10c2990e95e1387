use nom::leaf::Tag;
use nom::leaf::TagError;
use nom::parser::ParseErr;
use nom::parser::Parser;
use nom::sequence::delimited;
use nom::sequence::delimitedc;
use nom::sequence::pair;
use nom::sequence::pairc;
use nom::sequence::preceded;
use nom::sequence::precededc;
use nom::sequence::separated_pair;
use nom::sequence::separated_pairc;
use nom::sequence::terminated;
use nom::sequence::terminatedc;
use nom::sequence::tuple;

fn t(s: &str) -> Tag {
    Tag { tag: s.as_bytes().to_vec() }
}

fn err_at(s: &str) -> ParseErr<TagError> {
    ParseErr::Error(TagError { at: s.as_bytes().to_vec() })
}

#[test]
fn pair_matches_both() {
    let p = pair(t("abc"), t("efg"));
    let (rem, out) = p.parse(b"abcefg").unwrap();
    assert_eq!(out, (b"abc".to_vec(), b"efg".to_vec()));
    assert_eq!(rem, b"");
}

#[test]
fn pair_leaves_remainder() {
    let p = pair(t("abc"), t("efg"));
    let (rem, out) = p.parse(b"abcefghij").unwrap();
    assert_eq!(out, (b"abc".to_vec(), b"efg".to_vec()));
    assert_eq!(rem, b"hij");
}

#[test]
fn pair_fails_on_empty() {
    let p = pair(t("abc"), t("efg"));
    assert_eq!(p.parse(b"").unwrap_err(), err_at(""));
}

#[test]
fn pair_fails_without_consuming() {
    let p = pair(t("abc"), t("efg"));
    assert_eq!(p.parse(b"123").unwrap_err(), err_at("123"));
}

#[test]
fn preceded_keeps_second() {
    let p = preceded(t("abc"), t("efg"));
    let (rem, out) = p.parse(b"abcefghij").unwrap();
    assert_eq!(out, b"efg".to_vec());
    assert_eq!(rem, b"hij");
}

#[test]
fn terminated_keeps_first() {
    let p = terminated(t("abc"), t("efg"));
    let (rem, out) = p.parse(b"abcefghij").unwrap();
    assert_eq!(out, b"abc".to_vec());
    assert_eq!(rem, b"hij");
}

#[test]
fn separated_pair_drops_separator() {
    let p = separated_pair(t("key"), t("="), t("val"));
    let (rem, out) = p.parse(b"key=val;").unwrap();
    assert_eq!(out, (b"key".to_vec(), b"val".to_vec()));
    assert_eq!(rem, b";");
}

#[test]
fn separated_pair_fails_on_separator() {
    let p = separated_pair(t("key"), t("="), t("val"));
    assert_eq!(p.parse(b"key:val").unwrap_err(), err_at(":val"));
}

#[test]
fn delimited_keeps_middle() {
    let p = delimited(t("("), t("x"), t(")"));
    let (rem, out) = p.parse(b"(x)rest").unwrap();
    assert_eq!(out, b"x".to_vec());
    assert_eq!(rem, b"rest");
}

#[test]
fn delimited_fails_on_missing_close() {
    let p = delimited(t("("), t("x"), t(")"));
    assert_eq!(p.parse(b"(x]").unwrap_err(), err_at("]"));
}

#[test]
fn tuple2_equals_pair_on_success() {
    let via_tuple = tuple((t("abc"), t("efg"))).parse(b"abcefghij");
    let via_pair = pair(t("abc"), t("efg")).parse(b"abcefghij");
    assert_eq!(via_tuple, via_pair);
}

#[test]
fn tuple2_equals_pair_on_failure() {
    let via_tuple = tuple((t("abc"), t("efg"))).parse(b"abq");
    let via_pair = pair(t("abc"), t("efg")).parse(b"abq");
    assert_eq!(via_tuple, via_pair);
}

#[test]
fn tuple3_equals_right_nested_pairs() {
    let flat = tuple((t("a"), t("b"), t("c"))).parse(b"abcd").unwrap();
    let nested = pair(t("a"), pair(t("b"), t("c"))).parse(b"abcd").unwrap();
    assert_eq!(flat.0, nested.0);
    let (o1, o2, o3) = flat.1;
    let (n1, (n2, n3)) = nested.1;
    assert_eq!((o1, (o2, o3)), (n1, (n2, n3)));
}

#[test]
fn tuple3_scenario() {
    let p = tuple((t("a"), t("b"), t("c")));
    let (rem, out) = p.parse(b"abcd").unwrap();
    assert_eq!(out, (b"a".to_vec(), b"b".to_vec(), b"c".to_vec()));
    assert_eq!(rem, b"d");
}

#[test]
fn tuple3_fails_at_third() {
    let p = tuple((t("a"), t("b"), t("c")));
    assert_eq!(p.parse(b"abzd").unwrap_err(), err_at("zd"));
}

#[test]
fn preceded_projects_pair() {
    let both = pair(t("abc"), t("efg")).parse(b"abcefghij").unwrap();
    let second = preceded(t("abc"), t("efg")).parse(b"abcefghij").unwrap();
    assert_eq!(second.1, both.1 .1);
    assert_eq!(second.0, both.0);
}

#[test]
fn terminated_projects_pair() {
    let both = pair(t("abc"), t("efg")).parse(b"abcefghij").unwrap();
    let first = terminated(t("abc"), t("efg")).parse(b"abcefghij").unwrap();
    assert_eq!(first.1, both.1 .0);
    assert_eq!(first.0, both.0);
}

#[test]
fn failure_is_the_sub_parsers_own() {
    // The second sub-parser fails on the remainder the first left; the
    // composition's error is exactly what that sub-parser returns there.
    let composed = pair(t("ab"), t("cd")).parse(b"abXY").unwrap_err();
    let direct = t("cd").parse(b"XY").unwrap_err();
    assert_eq!(composed, direct);
}

#[test]
fn consumed_lengths_add_up() {
    let input: &[u8] = b"abcefghij";
    let (rem_a, _) = t("abc").parse(input).unwrap();
    let (rem_b, _) = t("efg").parse(rem_a).unwrap();
    let (rem, _) = pair(t("abc"), t("efg")).parse(input).unwrap();
    let consumed_a = input.len() - rem_a.len();
    let consumed_b = rem_a.len() - rem_b.len();
    assert_eq!(input.len() - rem.len(), consumed_a + consumed_b);
    assert_eq!(rem, &input[consumed_a + consumed_b..]);
}

#[test]
fn empty_literal_consumes_nothing() {
    let (rem, out) = t("").parse(b"xyz").unwrap();
    assert_eq!(out, b"".to_vec());
    assert_eq!(rem, b"xyz");
}

#[test]
fn pairc_runs_like_pair() {
    assert_eq!(
        pairc(b"abcefg", t("abc"), t("efg")),
        pair(t("abc"), t("efg")).parse(b"abcefg")
    );
}

#[test]
fn precededc_runs_like_preceded() {
    assert_eq!(
        precededc(b"abcefg", t("abc"), t("efg")),
        preceded(t("abc"), t("efg")).parse(b"abcefg")
    );
}

#[test]
fn terminatedc_runs_like_terminated() {
    assert_eq!(
        terminatedc(b"abcefg", t("abc"), t("efg")),
        terminated(t("abc"), t("efg")).parse(b"abcefg")
    );
}

#[test]
fn separated_pairc_runs_like_separated_pair() {
    assert_eq!(
        separated_pairc(b"a=b", t("a"), t("="), t("b")),
        separated_pair(t("a"), t("="), t("b")).parse(b"a=b")
    );
}

#[test]
fn delimitedc_runs_like_delimited() {
    assert_eq!(
        delimitedc(b"(x)", t("("), t("x"), t(")")),
        delimited(t("("), t("x"), t(")")).parse(b"(x)")
    );
}
