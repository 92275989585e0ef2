use phonetic_converter::boundary::{
    parse_operation, BoundaryError, ClientRequestType, ConvertMainInner, PhoneticResponceType,
    RequestData,
};
use phonetic_converter::dict::{parse_dict_from_str, Dict};
use phonetic_converter::resolver::PhoneticConverter;

#[test]
fn parse_operation_recognizes_both_tags() {
    assert_eq!(parse_operation("MapRes"), Ok(ClientRequestType::MapRes));
    assert_eq!(parse_operation("SentRes"), Ok(ClientRequestType::SentRes));
}

#[test]
fn parse_operation_rejects_unknown_tag() {
    assert_eq!(parse_operation("Bogus"), Err(BoundaryError::UnknownOperation));
    assert_eq!(parse_operation(""), Err(BoundaryError::UnknownOperation));
    assert_eq!(parse_operation("mapres"), Err(BoundaryError::UnknownOperation));
}

#[test]
fn dispatch_map_res_produces_paired_shape() {
    let simple = parse_dict_from_str("hello h ah l ow");
    let conv = PhoneticConverter::with_dicts(Dict::new(), simple);
    let req = RequestData { text: "hello world".to_string(), operation: ClientRequestType::MapRes };
    let resp = ConvertMainInner(&conv, &req);
    match resp.phonetic {
        PhoneticResponceType::MapRes(pairs) => {
            assert_eq!(pairs.len(), 2);
            assert_eq!(pairs[0].text, "hello");
            assert_eq!(pairs[0].phonetic, "h ah l ow");
            assert_eq!(pairs[1].text, "world");
            assert_eq!(pairs[1].phonetic, "world");
        }
        PhoneticResponceType::SentRes(_) => panic!("expected the paired shape"),
    }
}

#[test]
fn dispatch_sent_res_produces_sentence_shape() {
    let simple = parse_dict_from_str("hello h ah l ow");
    let conv = PhoneticConverter::with_dicts(Dict::new(), simple);
    let req = RequestData { text: "hello world".to_string(), operation: ClientRequestType::SentRes };
    let resp = ConvertMainInner(&conv, &req);
    match resp.phonetic {
        PhoneticResponceType::SentRes(words) => {
            assert_eq!(words, vec!["h ah l ow", "world"]);
        }
        PhoneticResponceType::MapRes(_) => panic!("expected the sentence shape"),
    }
}

#[test]
fn dispatch_empty_text_in_both_modes() {
    let conv = PhoneticConverter::new();
    let map_req = RequestData { text: String::new(), operation: ClientRequestType::MapRes };
    match ConvertMainInner(&conv, &map_req).phonetic {
        PhoneticResponceType::MapRes(pairs) => assert!(pairs.is_empty()),
        PhoneticResponceType::SentRes(_) => panic!("expected the paired shape"),
    }
    let sent_req = RequestData { text: String::new(), operation: ClientRequestType::SentRes };
    match ConvertMainInner(&conv, &sent_req).phonetic {
        PhoneticResponceType::SentRes(words) => assert!(words.is_empty()),
        PhoneticResponceType::MapRes(_) => panic!("expected the sentence shape"),
    }
}
