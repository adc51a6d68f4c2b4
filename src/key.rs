use vstd::prelude::*;
use crate::error::PreclearError;

verus! {

/// Length of the key in bytes: two 16-byte sub-keys.
pub const KEY_LEN: usize = 32;

/// The separator that may be written between groups of hex digits.
pub const DASH: u8 = 45;

pub open spec fn is_hex_digit(c: u8) -> bool {
    (48 <= c <= 57) || (65 <= c <= 70) || (97 <= c <= 102)
}

/// Value of a hex digit, upper or lower case.
pub open spec fn hex_value(c: u8) -> int {
    if c <= 57 {
        c - 48
    } else if c <= 70 {
        c - 55
    } else {
        c - 87
    }
}

/// Text that decodes as hex: an even number of hex digits.
pub open spec fn is_hex_text(s: Seq<u8>) -> bool {
    &&& s.len() % 2 == 0
    &&& forall|i: int| 0 <= i < s.len() ==> is_hex_digit(#[trigger] s[i])
}

/// The bytes that hex text stands for: each pair of digits, high digit first.
pub open spec fn hex_decoded(s: Seq<u8>) -> Seq<u8> {
    Seq::new(s.len() / 2, |i: int| (hex_value(s[2 * i]) * 16 + hex_value(s[2 * i + 1])) as u8)
}

/// The key text with every dash removed.
pub open spec fn without_dashes(s: Seq<u8>) -> Seq<u8> {
    s.filter(|c: u8| c != DASH)
}

#[verifier::external_type_specification]
#[verifier::external_body]
pub struct ExFromHexError(hex::FromHexError);

/// Relies on hex::decode: it accepts exactly an even number of hex digits of
/// either case and returns one byte per pair, high digit first.
#[verifier::external_body]
fn decode_hex(text: &[u8]) -> (r: Result<Vec<u8>, hex::FromHexError>)
    ensures
        r is Ok <==> is_hex_text(text@),
        r is Ok ==> r->Ok_0@ == hex_decoded(text@),
{
    hex::decode(text)
}

/// Relies on rand::random: 32 bytes from the thread-local secure generator.
#[verifier::external_body]
fn random_key_bytes() -> (r: Vec<u8>)
    ensures
        r@.len() == KEY_LEN,
{
    rand::random::<[u8; 32]>().to_vec()
}

/// Removes every dash from the key text.
pub fn strip_dashes(text: &[u8]) -> (r: Vec<u8>)
    ensures
        r@ == without_dashes(text@),
{
    let mut out: Vec<u8> = Vec::new();
    let mut i: usize = 0;
    while i < text.len()
        invariant
            i <= text@.len(),
            out@ == without_dashes(text@.subrange(0, i as int)),
        decreases text@.len() - i,
    {
        proof {
            let next = text@.subrange(0, i as int + 1);
            assert(next.drop_last() == text@.subrange(0, i as int));
            assert(next.last() == text@[i as int]);
            reveal(Seq::filter);
        }
        if text[i] != DASH {
            out.push(text[i]);
        }
        i = i + 1;
    }
    assert(text@.subrange(0, text@.len() as int) == text@);
    out
}

/// The 256-bit key of the fill pattern: the first 16 bytes key the data
/// cipher, the last 16 the tweak cipher.
pub struct KeyMaterial {
    bytes: Vec<u8>,
}

impl View for KeyMaterial {
    type V = Seq<u8>;

    closed spec fn view(&self) -> Seq<u8> {
        self.bytes@
    }
}

impl KeyMaterial {
    #[verifier::type_invariant]
    spec fn inv(&self) -> bool {
        self.bytes@.len() == KEY_LEN
    }

    /// Parses user-supplied key text: dashes are ignored, the rest must be
    /// hex that decodes to exactly 32 bytes.
    pub fn from_hex(text: &[u8]) -> (r: Result<KeyMaterial, PreclearError>)
        ensures
            !is_hex_text(without_dashes(text@)) <==> r == Err::<KeyMaterial, PreclearError>(
                PreclearError::InvalidKeyHex,
            ),
            is_hex_text(without_dashes(text@)) && without_dashes(text@).len() != 2 * KEY_LEN
                <==> r == Err::<KeyMaterial, PreclearError>(PreclearError::InvalidKeyLength),
            is_hex_text(without_dashes(text@)) && without_dashes(text@).len() == 2 * KEY_LEN
                <==> r is Ok,
            r is Ok ==> r->Ok_0@ == hex_decoded(without_dashes(text@)),
    {
        let clean = strip_dashes(text);
        match decode_hex(clean.as_slice()) {
            Ok(bytes) => {
                if bytes.len() != KEY_LEN {
                    Err(PreclearError::InvalidKeyLength)
                } else {
                    Ok(KeyMaterial { bytes })
                }
            },
            Err(_) => Err(PreclearError::InvalidKeyHex),
        }
    }

    /// A fresh key from the secure random source.
    pub fn random() -> (r: KeyMaterial)
        ensures
            r@.len() == KEY_LEN,
    {
        KeyMaterial { bytes: random_key_bytes() }
    }

    /// The key bytes.
    pub fn as_bytes(&self) -> (r: &[u8])
        ensures
            r@ == self@,
            r@.len() == KEY_LEN,
    {
        proof {
            use_type_invariant(self);
        }
        self.bytes.as_slice()
    }
}

} // verus!
