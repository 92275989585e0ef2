use phonetic_converter::dict::{parse_dict_from_bytes, parse_dict_from_str, Dict};
use phonetic_converter::resolver::PhoneticConverter;

#[test]
fn scenario_cat_line() {
    let d = parse_dict_from_str("cat k ae t");
    let conv = PhoneticConverter::with_dicts(Dict::new(), d);
    assert_eq!(conv.resolve_word("Cat"), "k ae t");
}

#[test]
fn loader_skips_blank_and_single_token_lines() {
    let d = parse_dict_from_str("cat k ae t\n\nx\ndog d ao g\n");
    assert!(d.contains_key("cat"));
    assert!(d.contains_key("dog"));
    assert!(!d.contains_key("x"));
    assert!(!d.contains_key(""));
    assert_eq!(d.get("cat").unwrap(), "k ae t");
    assert_eq!(d.get("dog").unwrap(), "d ao g");
}

#[test]
fn loader_last_line_wins() {
    let d = parse_dict_from_str("cat a b\ncat c d");
    assert_eq!(d.get("cat").unwrap(), "c d");
}

#[test]
fn loader_joins_value_tokens_with_single_space() {
    let d = parse_dict_from_str("cat k  ae\tt");
    assert_eq!(d.get("cat").unwrap(), "k ae t");
}

#[test]
fn loader_lowercases_keys() {
    let d = parse_dict_from_str("CAT k");
    assert_eq!(d.get("cat").unwrap(), "k");
    assert!(!d.contains_key("CAT"));
}

#[test]
fn loader_handles_crlf_line_endings() {
    let d = parse_dict_from_str("cat k\r\ndog d");
    assert_eq!(d.get("cat").unwrap(), "k");
    assert_eq!(d.get("dog").unwrap(), "d");
}

#[test]
fn load_twice_yields_identical_contents() {
    let source = "cat k ae t\ndog d ao g\ncat x\n";
    let d1 = parse_dict_from_str(source);
    let d2 = parse_dict_from_str(source);
    for key in ["cat", "dog", "fish", ""] {
        assert_eq!(d1.get(key), d2.get(key));
        assert_eq!(d1.contains_key(key), d2.contains_key(key));
    }
    assert_eq!(d1.get("cat").unwrap(), "x");
}

#[test]
fn loader_repairs_invalid_bytes_with_replacement() {
    let d = parse_dict_from_bytes(b"ba\xFFd x y\n", "?");
    assert_eq!(d.get("ba?d").unwrap(), "x y");
}

#[test]
fn loader_applies_replacement_before_splitting() {
    let d = parse_dict_from_bytes(b"ba\xFFd x\n", " ");
    assert_eq!(d.get("ba").unwrap(), "d x");
}

#[test]
fn loader_accepts_valid_bytes_unchanged() {
    let d = parse_dict_from_bytes(b"cat k ae t\n", " ");
    assert_eq!(d.get("cat").unwrap(), "k ae t");
}
