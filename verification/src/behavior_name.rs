//! The name of a behavior as the table of indices keys it: bytes that are
//! known to be text.

use vstd::prelude::*;
use vstd::utf8::{encode_utf8, valid_utf8};

verus! {

/// Declares `core::str::Utf8Error`, the complaint of `core::str::from_utf8`,
/// as a type that is carried and never looked into.
#[verifier::external_type_specification]
#[verifier::external_body]
pub struct ExUtf8Error(core::str::Utf8Error);

/// Trusted of `core::str::from_utf8`: it accepts a slice exactly when the
/// bytes are well-formed UTF-8, and the string slice it then returns
/// consists of those bytes.
pub assume_specification[ core::str::from_utf8 ](v: &[u8]) -> (text: Result<
    &str,
    core::str::Utf8Error,
>)
    ensures
        text is Ok <==> valid_utf8(v@),
        text matches Ok(text) ==> encode_utf8(text@) == v@,
;

/// The name of a behavior, held as the bytes of its UTF-8 encoding: the
/// form in which the table of indices is keyed.
#[derive(Debug)]
pub struct BehaviorName(Vec<u8>);

impl View for BehaviorName {
    type V = Seq<char>;

    /// The name as text.
    closed spec fn view(&self) -> Seq<char> {
        vstd::utf8::decode_utf8(self.0@)
    }
}

impl Clone for BehaviorName {
    fn clone(&self) -> (name: Self)
        ensures
            name@ == self@,
    {
        proof {
            use_type_invariant(self);
        }
        BehaviorName(vstd::slice::slice_to_vec(self.0.as_slice()))
    }
}

impl BehaviorName {
    #[verifier::type_invariant]
    spec fn inv(&self) -> bool {
        valid_utf8(self.0@)
    }

    pub fn from_string(s: String) -> (name: BehaviorName)
        ensures
            name@ == s@,
    {
        BehaviorName::from_str(s.as_str())
    }

    pub fn from_str(s: &str) -> (name: BehaviorName)
        ensures
            name@ == s@,
    {
        proof {
            vstd::utf8::encode_utf8_valid_utf8(s@);
            vstd::utf8::encode_utf8_decode_utf8(s@);
        }
        BehaviorName(s.as_bytes_vec())
    }

    /// The name as text. It is always there: a name is made from text only.
    pub fn as_str(&self) -> (s: &str)
        ensures
            s@ == self@,
    {
        proof {
            use_type_invariant(self);
        }
        match core::str::from_utf8(self.0.as_slice()) {
            Ok(s) => {
                proof {
                    vstd::utf8::encode_utf8_decode_utf8(s@);
                }
                s
            },
            Err(_) => vstd::pervasive::unreached(),
        }
    }

    /// The bytes of the name: the key under which the table of indices
    /// holds it.
    pub fn as_bytes(&self) -> (bytes: &[u8])
        ensures
            bytes@ == encode_utf8(self@),
    {
        proof {
            use_type_invariant(self);
            vstd::utf8::decode_utf8_encode_utf8(self.0@);
        }
        self.0.as_slice()
    }
}

} // verus!
