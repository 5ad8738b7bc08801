//! Boolean literals: `false` and `true`.

use crate::err::{err_none, perr_none, ErrorModel, ParseError, ParseErrorKind};
use vstd::prelude::*;
use vstd::string::StringSliceAdditionalSpecFns;
use vstd::utf8::encode_utf8;

verus! {

/// A bool literal: `true` or `false`.
#[derive(Debug, Clone, Copy, PartialEq, Eq, Structural)]
pub enum BoolLit {
    False,
    True,
}

/// The bytes of `false`.
pub open spec fn false_bytes() -> Seq<u8> {
    seq![0x66u8, 0x61u8, 0x6cu8, 0x73u8, 0x65u8]
}

/// The bytes of `true`.
pub open spec fn true_bytes() -> Seq<u8> {
    seq![0x74u8, 0x72u8, 0x75u8, 0x65u8]
}

/// The bool literal grammar: exactly `false` or `true`.
pub open spec fn bool_literal(b: Seq<u8>) -> Result<BoolLit, ErrorModel> {
    if b == false_bytes() {
        Ok(BoolLit::False)
    } else if b == true_bytes() {
        Ok(BoolLit::True)
    } else {
        Err(err_none(ParseErrorKind::InvalidLiteral))
    }
}

/// Whether `b` is exactly `false` or `true`: compares byte by byte.
pub(crate) fn bool_of_bytes(b: &[u8]) -> (r: Option<BoolLit>)
    ensures
        r == match bool_literal(b@) {
            Ok(v) => Some(v),
            Err(_) => None,
        },
{
    if b.len() == 5 && b[0] == 0x66 && b[1] == 0x61 && b[2] == 0x6c && b[3] == 0x73 && b[4] == 0x65 {
        assert(b@ =~= false_bytes());
        return Some(BoolLit::False);
    }
    if b.len() == 4 && b[0] == 0x74 && b[1] == 0x72 && b[2] == 0x75 && b[3] == 0x65 {
        assert(b@ =~= true_bytes());
        return Some(BoolLit::True);
    }
    proof {
        if b@ == false_bytes() {
            assert(b@[0] == 0x66 && b@[1] == 0x61 && b@[2] == 0x6c && b@[3] == 0x73 && b@[4] == 0x65);
        }
        if b@ == true_bytes() {
            assert(b@[0] == 0x74 && b@[1] == 0x72 && b@[2] == 0x75 && b@[3] == 0x65);
        }
    }
    None
}

impl BoolLit {
    /// Parses the input as a bool literal. Returns an error if the input is
    /// neither `false` nor `true`.
    pub fn parse(s: &str) -> (r: Result<Self, ParseError>)
        ensures
            match r {
                Ok(v) => bool_literal(s.spec_bytes()) == Ok::<BoolLit, ErrorModel>(v),
                Err(e) => bool_literal(s.spec_bytes()) == Err::<BoolLit, ErrorModel>(e.model()),
            },
    {
        match bool_of_bytes(s.as_bytes()) {
            Some(v) => Ok(v),
            None => Err(perr_none(ParseErrorKind::InvalidLiteral)),
        }
    }

    /// Returns the literal's value.
    pub fn value(self) -> (r: bool)
        ensures
            r == (self == BoolLit::True),
    {
        match self {
            BoolLit::False => false,
            BoolLit::True => true,
        }
    }

    /// Renders the literal: `false` or `true`.
    pub fn to_string(&self) -> (r: String)
        ensures
            encode_utf8(r@) == match self {
                BoolLit::False => false_bytes(),
                BoolLit::True => true_bytes(),
            },
    {
        self.as_str().to_owned()
    }

    /// Returns the literal's text: `"false"` or `"true"`.
    pub fn as_str(&self) -> (r: &'static str)
        ensures
            r.spec_bytes() == match self {
                BoolLit::False => false_bytes(),
                BoolLit::True => true_bytes(),
            },
    {
        let r = match self {
            BoolLit::False => {
                proof {
                    reveal_strlit("false");
                }
                "false"
            },
            BoolLit::True => {
                proof {
                    reveal_strlit("true");
                }
                "true"
            },
        };
        proof {
            crate::textutil::lemma_ascii_text_bytes(r);
            assert(r.spec_bytes() =~= match self {
                BoolLit::False => false_bytes(),
                BoolLit::True => true_bytes(),
            });
        }
        r
    }
}

} // verus!
