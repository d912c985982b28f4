//! The languages a behavior can be written in, and how a file name tells which.

use vstd::prelude::*;
use vstd::utf8::{
    decode_utf8, decode_utf8_split, encode_utf8, encode_utf8_decode_utf8, encode_utf8_valid_utf8,
    is_ascii_chars, is_ascii_chars_encode_utf8, is_char_boundary,
    is_char_boundary_iff_not_is_continuation_byte,
};

verus! {

/// A language that a runner can execute behaviors in.
#[derive(Copy, Clone, Debug, Hash, PartialEq, Eq, Structural)]
pub enum Language {
    JavaScript,
    Python,
    Rust,
}

/// Whether the text ends with the given ending.
pub open spec fn ends_with(text: Seq<char>, ending: Seq<char>) -> bool {
    &&& text.len() >= ending.len()
    &&& text.subrange(text.len() - ending.len(), text.len() as int) == ending
}

/// The language that a file name stands for, by its extension: `.js`,
/// `.py` or `.rs`; none for any other name.
pub open spec fn language_of_file_name(name: Seq<char>) -> Option<Language> {
    if ends_with(name, seq!['.', 'j', 's']) {
        Some(Language::JavaScript)
    } else if ends_with(name, seq!['.', 'p', 'y']) {
        Some(Language::Python)
    } else if ends_with(name, seq!['.', 'r', 's']) {
        Some(Language::Rust)
    } else {
        None
    }
}

/// Whether the bytes end with the given bytes.
spec fn bytes_end_with(bytes: Seq<u8>, ending: Seq<u8>) -> bool {
    &&& bytes.len() >= ending.len()
    &&& bytes.subrange(bytes.len() - ending.len(), bytes.len() as int) == ending
}

/// The encoding of two texts in a row is the two encodings in a row.
proof fn lemma_encode_concat(front: Seq<char>, back: Seq<char>)
    ensures
        encode_utf8(front + back) == encode_utf8(front) + encode_utf8(back),
    decreases front.len(),
{
    if front.len() == 0 {
        assert(front + back =~= back);
        assert(encode_utf8(front) + encode_utf8(back) =~= encode_utf8(back));
    } else {
        assert((front + back).drop_first() =~= front.drop_first() + back);
        lemma_encode_concat(front.drop_first(), back);
        assert(encode_utf8(front + back) =~= encode_utf8(front) + encode_utf8(back));
    }
}

/// A byte below 0x80 is no continuation byte.
proof fn lemma_small_byte_starts_a_char(byte: u8)
    by (bit_vector)
    requires
        byte < 0x80,
    ensures
        byte & 0xC0 != 0x80,
{
}

/// A text ends with an ASCII ending exactly when its UTF-8 bytes end with
/// the bytes of that ending.
proof fn lemma_ascii_ending(text: Seq<char>, ending: Seq<char>)
    requires
        is_ascii_chars(ending),
        ending.len() > 0,
    ensures
        ends_with(text, ending) <==> bytes_end_with(encode_utf8(text), encode_utf8(ending)),
{
    let bytes = encode_utf8(text);
    let tail = encode_utf8(ending);
    is_ascii_chars_encode_utf8(ending);
    if ends_with(text, ending) {
        let front = text.subrange(0, text.len() - ending.len());
        assert(text =~= front + ending);
        lemma_encode_concat(front, ending);
        assert(bytes.subrange(bytes.len() - tail.len(), bytes.len() as int) =~= tail);
    }
    if bytes_end_with(bytes, tail) {
        let cut = bytes.len() - tail.len();
        encode_utf8_valid_utf8(text);
        assert(bytes[cut] == tail[0]);
        assert(tail[0] == ending[0] as u8);
        assert(bytes[cut] < 0x80);
        lemma_small_byte_starts_a_char(bytes[cut]);
        is_char_boundary_iff_not_is_continuation_byte(bytes, cut);
        assert(is_char_boundary(bytes, cut));
        decode_utf8_split(bytes, cut);
        encode_utf8_decode_utf8(text);
        encode_utf8_decode_utf8(ending);
        let front = decode_utf8(bytes.subrange(0, cut));
        assert(text =~= front + ending);
        assert(text.subrange(text.len() - ending.len(), text.len() as int) =~= ending);
    }
}

/// The bytes of an extension of a dot and two ASCII characters.
proof fn lemma_extension_bytes(second: char, third: char)
    requires
        second <= '\u{7f}',
        third <= '\u{7f}',
    ensures
        is_ascii_chars(seq!['.', second, third]),
        encode_utf8(seq!['.', second, third]) == seq![0x2eu8, second as u8, third as u8],
{
    let ending = seq!['.', second, third];
    is_ascii_chars_encode_utf8(ending);
    assert(encode_utf8(ending) =~= seq![0x2eu8, second as u8, third as u8]);
}

/// Tells whether a name ends with a dot and the two ASCII characters.
fn ends_with_extension(name: &str, second: u8, third: u8) -> (found: bool)
    requires
        second < 0x80,
        third < 0x80,
    ensures
        found == ends_with(name@, seq!['.', second as char, third as char]),
{
    let bytes = name.as_bytes();
    let len: usize = bytes.len();
    proof {
        lemma_extension_bytes(second as char, third as char);
        lemma_ascii_ending(name@, seq!['.', second as char, third as char]);
    }
    if len < 3 {
        return false;
    }
    let found = bytes[len - 3] == 0x2e && bytes[len - 2] == second && bytes[len - 1] == third;
    proof {
        let ending = seq![0x2eu8, second, third];
        let tail = bytes@.subrange(len - 3, len as int);
        if found {
            assert(tail =~= ending);
        } else {
            assert(tail[0] != ending[0] || tail[1] != ending[1] || tail[2] != ending[2]);
        }
    }
    found
}

impl Language {
    /// How many languages there are.
    pub const NUM: usize = 3;

    /// The position of the language in the fixed order JavaScript, Python, Rust.
    pub open spec fn index(self) -> nat {
        match self {
            Language::JavaScript => 0,
            Language::Python => 1,
            Language::Rust => 2,
        }
    }

    pub fn as_index(self) -> (index: usize)
        ensures
            index == self.index(),
            index < Language::NUM,
    {
        match self {
            Language::JavaScript => 0,
            Language::Python => 1,
            Language::Rust => 2,
        }
    }

    /// Tells the language of a behavior from the extension of its file name.
    pub fn from_file_name(file_name: &str) -> (language: Option<Language>)
        ensures
            language == language_of_file_name(file_name@),
    {
        if ends_with_extension(file_name, 0x6a, 0x73) {
            Some(Language::JavaScript)
        } else if ends_with_extension(file_name, 0x70, 0x79) {
            Some(Language::Python)
        } else if ends_with_extension(file_name, 0x72, 0x73) {
            Some(Language::Rust)
        } else {
            None
        }
    }
}

} // verus!
