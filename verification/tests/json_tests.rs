use rust_learning::jsonfmt::{reformat_json, JsonFormatError};

#[test]
fn test_reformat_json_object() {
    let out = reformat_json("{\"a\":1}").expect("well-formed input");
    assert_eq!(out, "{\n  \"a\": 1\n}");
}

#[test]
fn test_reformat_json_array() {
    let out = reformat_json("[1,2]").expect("well-formed input");
    assert_eq!(out, "[\n  1,\n  2\n]");
}

#[test]
fn test_reformat_json_output_reparses() {
    let once = reformat_json("{\"nested\":{\"k\":[true,null]}}").expect("well-formed input");
    let twice = reformat_json(&once).expect("pretty output is well-formed JSON");
    assert_eq!(once, twice);
}

#[test]
fn test_reformat_json_is_deterministic() {
    let a = reformat_json("{\"k\":[1,2,{\"x\":null}]}").expect("well-formed input");
    let b = reformat_json("{\"k\":[1,2,{\"x\":null}]}").expect("well-formed input");
    assert_eq!(a, b);
}

#[test]
fn test_reformat_json_malformed() {
    assert_eq!(reformat_json("{"), Err(JsonFormatError::Malformed));
    assert_eq!(reformat_json("not json"), Err(JsonFormatError::Malformed));
    assert_eq!(reformat_json(""), Err(JsonFormatError::Malformed));
}
