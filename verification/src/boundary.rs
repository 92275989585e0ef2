//! The request dispatcher: the operation selector picks paired or sentence
//! output, and an unrecognized selector tag is a boundary decoding error.

use vstd::prelude::*;

verus! {

use crate::resolver::{pair_view, resolved_pairs, resolved_words, Pair, PhoneticConverter};

broadcast use vstd::string::group_string_axioms;

/// The operation a request selects: a per-word mapping or a sentence
/// rendering.
#[derive(Clone, Copy, Debug, PartialEq, Eq, Structural)]
pub enum ClientRequestType {
    MapRes,
    SentRes,
}

/// A conversion request: the input text and the selected operation.
pub struct RequestData {
    pub text: String,
    pub operation: ClientRequestType,
}

/// A conversion result: exactly one of the two output shapes.
pub enum PhoneticResponceType {
    MapRes(Vec<Pair>),
    SentRes(Vec<String>),
}

/// The response handed back across the boundary.
pub struct ResponseData {
    pub phonetic: PhoneticResponceType,
}

/// A failure to decode a request at the boundary; the resolver is never
/// invoked on such a request.
#[derive(Clone, Copy, Debug, PartialEq, Eq, Structural)]
pub enum BoundaryError {
    UnknownOperation,
}

/// Decodes an operation selector tag. Exactly the tags `"MapRes"` and
/// `"SentRes"` are recognized; any other tag is a boundary decoding error.
pub fn parse_operation(tag: &str) -> (r: Result<ClientRequestType, BoundaryError>)
    ensures
        tag@ == "MapRes"@ ==> r == Ok::<ClientRequestType, BoundaryError>(
            ClientRequestType::MapRes,
        ),
        tag@ == "SentRes"@ ==> r == Ok::<ClientRequestType, BoundaryError>(
            ClientRequestType::SentRes,
        ),
        tag@ != "MapRes"@ && tag@ != "SentRes"@ ==> r == Err::<ClientRequestType, BoundaryError>(
            BoundaryError::UnknownOperation,
        ),
{
    proof {
        reveal_strlit("MapRes");
        reveal_strlit("SentRes");
        assert("MapRes"@.len() == 6);
        assert("SentRes"@.len() == 7);
    }
    let t = tag.to_owned();
    if t == "MapRes".to_owned() {
        Ok(ClientRequestType::MapRes)
    } else if t == "SentRes".to_owned() {
        Ok(ClientRequestType::SentRes)
    } else {
        Err(BoundaryError::UnknownOperation)
    }
}

/// Dispatches a decoded request: the `MapRes` operation produces the paired
/// response shape and the `SentRes` operation the sentence shape, each over
/// the converter's dictionaries; exactly one variant is populated.
#[allow(non_snake_case)]
pub fn ConvertMainInner(converter: &PhoneticConverter, req: &RequestData) -> (r: ResponseData)
    ensures
        req.operation is MapRes ==> (r.phonetic matches PhoneticResponceType::MapRes(pairs)
            && pairs@.map_values(|p: Pair| pair_view(p)) == resolved_pairs(
            req.text@,
            converter.simple_dict(),
            converter.ipa_dict(),
        )),
        req.operation is SentRes ==> (r.phonetic matches PhoneticResponceType::SentRes(words)
            && words@.map_values(|s: String| s@) == resolved_words(
            req.text@,
            converter.simple_dict(),
            converter.ipa_dict(),
        )),
{
    match req.operation {
        ClientRequestType::MapRes => {
            let res = converter.convert(req.text.as_str());
            ResponseData { phonetic: PhoneticResponceType::MapRes(res) }
        },
        ClientRequestType::SentRes => {
            let res = converter.convert_sentence(req.text.as_str());
            ResponseData { phonetic: PhoneticResponceType::SentRes(res) }
        },
    }
}

} // verus!
