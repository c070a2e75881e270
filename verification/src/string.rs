//! UTF-8 string newtypes: stored as the exact UTF-8 bytes, with no length
//! prefix; invalid UTF-8 on decode is an internal-consistency violation.

use crate::codec::PrimitiveKind;
use crate::storable::Storable;
use std::rc::Rc;
use vstd::pervasive::unreached;
use vstd::prelude::*;
use vstd::string::StrSliceExecFns;
use vstd::utf8::{decode_utf8, decode_utf8_encode_utf8, encode_utf8, encode_utf8_decode_utf8,
    encode_utf8_valid_utf8, valid_utf8};

verus! {

/// A string newtype value. The wrapped string sits behind a reference
/// count, so copies share one backing buffer and cloning stays cheap.
#[derive(Debug, Clone)]
pub struct StringValue {
    pub text: Rc<String>,
}

/// Accessors shared by string newtypes.
pub trait Newtype: Sized {
    /// The wrapped characters.
    spec fn spec_str(&self) -> Seq<char>;

    /// Wraps a string.
    fn new(s: String) -> (r: Self)
        ensures
            r.spec_str() == s@,
    ;

    /// Borrows the wrapped string.
    fn as_str(&self) -> (r: &str)
        ensures
            r@ == self.spec_str(),
    ;

    /// Unwraps the string.
    fn into_string(self) -> (r: String)
        ensures
            r@ == self.spec_str(),
    ;
}

/// Direct construction by wrapping an owned string.
pub trait New: Sized {
    /// The wrapped characters.
    spec fn wrapped(&self) -> Seq<char>;

    /// Wraps `s`.
    fn new(s: String) -> (r: Self)
        ensures
            r.wrapped() == s@,
    ;
}

/// Relies on `String::from_utf8`: it succeeds exactly on valid UTF-8 input
/// and returns the character sequence those bytes encode.
#[verifier::external_body]
fn bytes_to_string(bytes: Vec<u8>) -> (r: Option<String>)
    ensures
        match r {
            Some(s) => valid_utf8(bytes@) && s@ == decode_utf8(bytes@),
            None => !valid_utf8(bytes@),
        },
{
    String::from_utf8(bytes).ok()
}

impl Storable for StringValue {
    open spec fn wf(&self) -> bool {
        true
    }

    open spec fn kind(&self) -> PrimitiveKind {
        PrimitiveKind::Text
    }

    open spec fn encoding(&self) -> Seq<u8> {
        encode_utf8(self.text@)
    }

    fn to_owned_bytes(&self) -> (r: Vec<u8>) {
        self.text.as_str().as_bytes_vec()
    }

    fn from_owned_bytes(bytes: Vec<u8>) -> (r: Self) {
        let ghost bs = bytes@;
        proof {
            let v = choose|v: StringValue| v.wf() && v.encoding() == bs;
            encode_utf8_valid_utf8(v.text@);
            assert(valid_utf8(bs));
        }
        match bytes_to_string(bytes) {
            Some(text) => {
                proof {
                    decode_utf8_encode_utf8(bs);
                }
                StringValue { text: Rc::new(text) }
            },
            None => unreached(),
        }
    }
}

impl Newtype for StringValue {
    open spec fn spec_str(&self) -> Seq<char> {
        self.text@
    }

    fn new(s: String) -> (r: Self) {
        StringValue { text: Rc::new(s) }
    }

    fn as_str(&self) -> (r: &str) {
        self.text.as_str()
    }

    fn into_string(self) -> (r: String) {
        self.text.as_str().to_owned()
    }
}

impl New for StringValue {
    open spec fn wrapped(&self) -> Seq<char> {
        self.text@
    }

    fn new(s: String) -> (r: Self) {
        StringValue { text: Rc::new(s) }
    }
}

/// Round trip: the UTF-8 encoding determines the wrapped characters
/// completely, so decoding an encoded string gives the same characters back.
pub proof fn lemma_string_encoding_injective(a: StringValue, b: StringValue)
    requires
        a.encoding() == b.encoding(),
    ensures
        a.spec_str() == b.spec_str(),
{
    encode_utf8_decode_utf8(a.text@);
    encode_utf8_decode_utf8(b.text@);
}

} // verus!
