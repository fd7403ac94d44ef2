//! The byte-level array scanner: element boundaries, string literals,
//! whitespace, and the structural failure modes.

use sesh::split_json_array;
use sesh::MalformedJson;

fn spans(input: &[u8]) -> Vec<Vec<u8>> {
    split_json_array(input).expect("well-formed array")
}

#[test]
fn empty_array_yields_no_elements() {
    assert_eq!(spans(b"[]").len(), 0);
    assert_eq!(spans(b"  [   ]  ").len(), 0);
    assert_eq!(spans(b"[\n\t\r ]").len(), 0);
}

#[test]
fn single_scalar_element() {
    assert_eq!(spans(b"[1]"), vec![b"1".to_vec()]);
}

#[test]
fn objects_split_at_top_level_commas() {
    let out = spans(b"[{\"a\":1},{\"b\":2}]");
    assert_eq!(out, vec![b"{\"a\":1}".to_vec(), b"{\"b\":2}".to_vec()]);
}

#[test]
fn whitespace_between_elements_is_dropped() {
    let out = spans(b"[ {\"a\":1} , {\"b\":2} ]");
    assert_eq!(out, vec![b"{\"a\":1}".to_vec(), b"{\"b\":2}".to_vec()]);
}

#[test]
fn escaped_quotes_commas_and_brackets_stay_inside_strings() {
    let out = spans(b"[{\"n\":\"a, {weird} \\\"name\\\"\"},2]");
    assert_eq!(
        out,
        vec![b"{\"n\":\"a, {weird} \\\"name\\\"\"}".to_vec(), b"2".to_vec()]
    );
}

#[test]
fn brackets_inside_strings_do_not_nest() {
    let out = spans(b"[\"]][[\",\"}{\"]");
    assert_eq!(out, vec![b"\"]][[\"".to_vec(), b"\"}{\"".to_vec()]);
}

#[test]
fn nested_arrays_and_objects_are_one_element() {
    let out = spans(b"[[1,2,[3]],{\"a\":[4,{\"b\":5}]}]");
    assert_eq!(
        out,
        vec![b"[1,2,[3]]".to_vec(), b"{\"a\":[4,{\"b\":5}]}".to_vec()]
    );
}

#[test]
fn truncated_mid_string_is_unterminated() {
    assert_eq!(
        split_json_array(b"[\"abc"),
        Err(MalformedJson::UnterminatedString)
    );
}

#[test]
fn unmatched_open_bracket_is_premature_end() {
    assert_eq!(split_json_array(b"["), Err(MalformedJson::PrematureEnd));
    assert_eq!(
        split_json_array(b"[{\"a\":1}"),
        Err(MalformedJson::PrematureEnd)
    );
    assert_eq!(split_json_array(b""), Err(MalformedJson::PrematureEnd));
}

#[test]
fn close_without_opener_underflows() {
    assert_eq!(
        split_json_array(b"[}]"),
        Err(MalformedJson::BracketUnderflow)
    );
}

#[test]
fn bytes_outside_the_array_are_refused() {
    assert_eq!(
        split_json_array(b"x[]"),
        Err(MalformedJson::UnexpectedByte)
    );
    assert_eq!(
        split_json_array(b"[] trailing"),
        Err(MalformedJson::UnexpectedByte)
    );
    assert_eq!(split_json_array(b"[]  \n"), Ok(vec![]));
}
