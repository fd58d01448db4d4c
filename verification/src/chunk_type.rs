//! The four-letter type tag of a chunk and the property bits it encodes.

use crate::text::push_char;
use vstd::prelude::*;
use vstd::string::StrSliceExecFns;

verus! {

/// Why a type tag could not be built.
#[derive(Debug, Clone, Copy, PartialEq, Eq, Structural)]
pub enum ChunkTypeError {
    /// A byte of the tag is not an ASCII letter, or the text is not four
    /// characters long.
    InvalidChunkType,
}

/// `b` is the code of an uppercase ASCII letter, `A` to `Z`.
pub open spec fn is_upper(b: u8) -> bool {
    65 <= b <= 90
}

/// `b` is the code of a lowercase ASCII letter, `a` to `z`.
pub open spec fn is_lower(b: u8) -> bool {
    97 <= b <= 122
}

/// `b` is the code of an ASCII letter.
pub open spec fn is_letter(b: u8) -> bool {
    is_upper(b) || is_lower(b)
}

/// `s` is a well-formed tag: four bytes, each an ASCII letter.
pub open spec fn is_tag(s: Seq<u8>) -> bool {
    s.len() == 4 && forall|i: int| 0 <= i < 4 ==> is_letter(#[trigger] s[i])
}

/// `c` is an ASCII letter.
pub open spec fn is_letter_char(c: char) -> bool {
    65 <= c as u32 <= 90 || 97 <= c as u32 <= 122
}

/// `text` spells a well-formed tag: four characters, each an ASCII letter.
pub open spec fn is_tag_text(text: Seq<char>) -> bool {
    text.len() == 4 && forall|i: int| 0 <= i < 4 ==> is_letter_char(#[trigger] text[i])
}

/// The bytes that `text` spells: the code point of each character.
pub open spec fn tag_of_text(text: Seq<char>) -> Seq<u8> {
    Seq::new(text.len(), |i: int| text[i] as u8)
}

/// The text that the bytes of `tag` spell: one character for each byte.
pub open spec fn text_of_tag(tag: Seq<u8>) -> Seq<char> {
    Seq::new(tag.len(), |i: int| tag[i] as char)
}

/// A character is an ASCII letter exactly when its code point fits a byte
/// and that byte is a letter; the character is then the byte's character.
pub proof fn lemma_letter_char(c: char)
    ensures
        is_letter_char(c) <==> c as u32 <= 127 && is_letter(c as u8),
        c as u32 <= 127 ==> c as u8 == c as u32 && (c as u8) as char == c,
{
}

/// The text of a tag spells the tag: it is four letters, and its bytes are
/// the tag's.
pub proof fn lemma_text_of_tag(tag: Seq<u8>)
    requires
        is_tag(tag),
    ensures
        is_tag_text(text_of_tag(tag)),
        tag_of_text(text_of_tag(tag)) == tag,
{
    let text = text_of_tag(tag);
    assert forall|i: int| 0 <= i < 4 implies is_letter_char(#[trigger] text[i]) && text[i] as u8
        == tag[i] by {
        let b = tag[i];
        assert(is_letter(b));
        lemma_letter_char(b as char);
    }
    assert(tag_of_text(text) =~= tag);
}

/// Text that spells a tag is the text of that tag: rendering the tag gives
/// the text back.
pub proof fn lemma_tag_of_text(text: Seq<char>)
    requires
        is_tag_text(text),
    ensures
        is_tag(tag_of_text(text)),
        text_of_tag(tag_of_text(text)) == text,
{
    let tag = tag_of_text(text);
    assert forall|i: int| 0 <= i < 4 implies is_letter(#[trigger] tag[i]) && tag[i] as char
        == text[i] by {
        assert(is_letter_char(text[i]));
        lemma_letter_char(text[i]);
    }
    assert(text_of_tag(tag) =~= text);
}

/// In a letter, bit 5 (value 32) tells the case: clear in an uppercase
/// letter, set in a lowercase one.
pub proof fn lemma_case_bit(b: u8)
    requires
        is_letter(b),
    ensures
        is_upper(b) <==> b & 32 == 0,
        is_lower(b) <==> b & 32 == 32,
        is_upper(b) <==> !is_lower(b),
{
    assert((65 <= b <= 90) ==> b & 32 == 0) by (bit_vector);
    assert((97 <= b <= 122) ==> b & 32 == 32) by (bit_vector);
}

/// A chunk's type tag: four ASCII letters.
#[derive(Debug, Eq)]
pub struct ChunkType {
    bytes: [u8; 4],
}

impl View for ChunkType {
    type V = Seq<u8>;

    /// The four bytes of the tag, in order.
    closed spec fn view(&self) -> Seq<u8> {
        self.bytes@
    }
}

impl ChunkType {
    #[verifier::type_invariant]
    spec fn well_formed(&self) -> bool {
        is_tag(self.bytes@)
    }

    /// Whether `byte` is the code of an ASCII letter, `A`-`Z` or `a`-`z`.
    pub fn is_valid_byte(byte: u8) -> (valid: bool)
        ensures
            valid == is_letter(byte),
    {
        byte >= 65 && byte <= 90 || byte >= 97 && byte <= 122
    }

    /// The four bytes of the tag.
    pub fn bytes(&self) -> (bytes: [u8; 4])
        ensures
            bytes@ == self@,
            is_tag(bytes@),
    {
        proof {
            use_type_invariant(self);
        }
        self.bytes
    }

    /// Whether the chunk is critical: the first letter is uppercase, that is
    /// bit 5 of the first byte is clear.
    pub fn is_critical(&self) -> (critical: bool)
        ensures
            critical == is_upper(self@[0]),
            critical == (self@[0] & 32 == 0),
    {
        proof {
            use_type_invariant(self);
            lemma_case_bit(self.bytes@[0]);
        }
        self.bytes[0] >= 65 && self.bytes[0] <= 90
    }

    /// Whether the chunk is public: the second letter is uppercase, that is
    /// bit 5 of the second byte is clear.
    pub fn is_public(&self) -> (public: bool)
        ensures
            public == is_upper(self@[1]),
            public == (self@[1] & 32 == 0),
    {
        proof {
            use_type_invariant(self);
            lemma_case_bit(self.bytes@[1]);
        }
        self.bytes[1] >= 65 && self.bytes[1] <= 90
    }

    /// Whether the reserved bit is valid: the third letter is uppercase, that
    /// is bit 5 of the third byte is clear.
    pub fn is_reserved_bit_valid(&self) -> (valid: bool)
        ensures
            valid == is_upper(self@[2]),
            valid == (self@[2] & 32 == 0),
    {
        proof {
            use_type_invariant(self);
            lemma_case_bit(self.bytes@[2]);
        }
        self.bytes[2] >= 65 && self.bytes[2] <= 90
    }

    /// Whether the chunk is safe to copy: the fourth letter is lowercase,
    /// that is bit 5 of the fourth byte is set.
    pub fn is_safe_to_copy(&self) -> (safe: bool)
        ensures
            safe == is_lower(self@[3]),
            safe == (self@[3] & 32 == 32),
    {
        proof {
            use_type_invariant(self);
            lemma_case_bit(self.bytes@[3]);
        }
        !(self.bytes[3] >= 65 && self.bytes[3] <= 90)
    }

    /// Whether the tag is fully valid: the reserved bit is valid and every
    /// byte is a letter. Construction already guarantees the letters, so this
    /// comes down to the reserved bit.
    pub fn is_valid(&self) -> (valid: bool)
        ensures
            valid == (is_upper(self@[2]) && is_tag(self@)),
            valid == is_upper(self@[2]),
    {
        proof {
            use_type_invariant(self);
        }
        if !self.is_reserved_bit_valid() {
            return false;
        }
        let mut i: usize = 0;
        while i < 4
            invariant
                i <= 4,
                is_tag(self.bytes@),
            decreases 4 - i,
        {
            if !Self::is_valid_byte(self.bytes[i]) {
                return false;
            }
            i += 1;
        }
        true
    }

    /// Whether the tag is not fully valid: the negation of `is_valid`.
    pub fn is_err(&self) -> (invalid: bool)
        ensures
            invalid == !is_upper(self@[2]),
    {
        !self.is_valid()
    }

    /// Builds a tag from four bytes, which must all be ASCII letters.
    pub fn from_bytes(bytes: [u8; 4]) -> (made: Result<ChunkType, ChunkTypeError>)
        ensures
            match made {
                Ok(tag) => is_tag(bytes@) && tag@ == bytes@,
                Err(e) => !is_tag(bytes@) && e == ChunkTypeError::InvalidChunkType,
            },
    {
        let mut valid = true;
        let mut i: usize = 0;
        while i < 4
            invariant
                i <= 4,
                valid == forall|j: int| 0 <= j < i ==> is_letter(#[trigger] bytes@[j]),
            decreases 4 - i,
        {
            if !Self::is_valid_byte(bytes[i]) {
                valid = false;
            }
            i += 1;
        }
        if !valid {
            return Err(ChunkTypeError::InvalidChunkType);
        }
        Ok(ChunkType { bytes })
    }

    /// Builds a tag from text, which must be four ASCII letters. Each
    /// character's code point becomes one byte.
    pub fn from_text(text: &str) -> (made: Result<ChunkType, ChunkTypeError>)
        ensures
            match made {
                Ok(tag) => is_tag_text(text@) && tag@ == tag_of_text(text@),
                Err(e) => !is_tag_text(text@) && e == ChunkTypeError::InvalidChunkType,
            },
    {
        if text.unicode_len() != 4 {
            return Err(ChunkTypeError::InvalidChunkType);
        }
        let mut bytes = [0u8; 4];
        let mut i: usize = 0;
        while i < 4
            invariant
                i <= 4,
                text@.len() == 4,
                forall|j: int|
                    #![trigger text@[j]]
                    #![trigger bytes@[j]]
                    0 <= j < i ==> text@[j] as u32 <= 127 && bytes@[j] == text@[j] as u8,
            decreases 4 - i,
        {
            let code = text.get_char(i) as u32;
            if code > 127 {
                return Err(ChunkTypeError::InvalidChunkType);
            }
            bytes[i] = code as u8;
            i += 1;
        }
        proof {
            assert(bytes@ =~= tag_of_text(text@));
            assert forall|j: int| 0 <= j < 4 implies (is_letter(#[trigger] bytes@[j])
                <==> is_letter_char(text@[j])) by {
                lemma_letter_char(text@[j]);
            }
        }
        Self::from_bytes(bytes)
    }

    /// The tag as text: one character for each byte.
    pub fn to_text(&self) -> (text: String)
        ensures
            text@ == text_of_tag(self@),
            is_tag_text(text@),
    {
        proof {
            use_type_invariant(self);
            lemma_text_of_tag(self.bytes@);
        }
        let mut text = String::new();
        let mut i: usize = 0;
        while i < 4
            invariant
                i <= 4,
                text@ == text_of_tag(self.bytes@.subrange(0, i as int)),
            decreases 4 - i,
        {
            push_char(&mut text, self.bytes[i] as char);
            i += 1;
        }
        text
    }
}

impl PartialEq for ChunkType {
    /// Two tags are equal when their four bytes are.
    fn eq(&self, other: &ChunkType) -> (equal: bool) {
        let equal = self.bytes[0] == other.bytes[0] && self.bytes[1] == other.bytes[1]
            && self.bytes[2] == other.bytes[2] && self.bytes[3] == other.bytes[3];
        proof {
            if equal {
                assert(self.bytes@ =~= other.bytes@);
            }
        }
        equal
    }
}

impl Clone for ChunkType {
    fn clone(&self) -> (copy: ChunkType)
        ensures
            copy@ == self@,
    {
        proof {
            use_type_invariant(self);
        }
        ChunkType { bytes: self.bytes }
    }
}

impl vstd::std_specs::cmp::PartialEqSpecImpl for ChunkType {
    open spec fn obeys_eq_spec() -> bool {
        true
    }

    open spec fn eq_spec(&self, other: &ChunkType) -> bool {
        self@ == other@
    }
}

} // verus!
