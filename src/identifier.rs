//! Identifiers: 128-bit random values written as hyphenated lowercase hex.
use vstd::prelude::*;

verus! {

/// Number of characters in the hyphenated text of an identifier.
pub const IDENTIFIER_LEN: usize = 36;

/// The lowercase hexadecimal digit of value `n` (for `n < 16`).
pub open spec fn hex_digit(n: int) -> char {
    seq!['0', '1', '2', '3', '4', '5', '6', '7', '8', '9', 'a', 'b', 'c', 'd', 'e', 'f'][n]
}

pub open spec fn is_hex_digit(c: char) -> bool {
    ('0' <= c && c <= '9') || ('a' <= c && c <= 'f')
}

/// Positions of the hyphens that separate the 8-4-4-4-12 digit groups.
pub open spec fn is_hyphen_position(i: int) -> bool {
    i == 8 || i == 13 || i == 18 || i == 23
}

/// The canonical text of an identifier: 36 characters, hyphens at the group
/// boundaries and lowercase hex digits everywhere else.
pub open spec fn is_identifier(s: Seq<char>) -> bool {
    &&& s.len() == IDENTIFIER_LEN
    &&& forall|i: int|
        0 <= i < s.len() ==> if is_hyphen_position(i) {
            #[trigger] s[i] == '-'
        } else {
            is_hex_digit(s[i])
        }
}

/// How many hyphens stand before text position `i`.
pub open spec fn hyphens_before(i: int) -> int {
    if i > 23 {
        4
    } else if i > 18 {
        3
    } else if i > 13 {
        2
    } else if i > 8 {
        1
    } else {
        0
    }
}

/// The `d`-th hex digit of `x`, counting from the most significant one.
pub open spec fn nibble(x: u128, d: int) -> int {
    ((x >> ((124 - 4 * d) as u128)) & 15u128) as int
}

/// The hyphenated lowercase text of the 128-bit value `x`, most significant
/// digit first.
pub open spec fn hyphenated_text(x: u128) -> Seq<char> {
    Seq::new(
        36,
        |i: int|
            if is_hyphen_position(i) {
                '-'
            } else {
                hex_digit(nibble(x, i - hyphens_before(i)))
            },
    )
}

/// Every hyphenated text is an identifier.
pub proof fn lemma_hyphenated_text_is_identifier(x: u128)
    ensures
        is_identifier(hyphenated_text(x)),
{
    let s = hyphenated_text(x);
    assert forall|i: int| 0 <= i < s.len() implies if is_hyphen_position(i) {
        #[trigger] s[i] == '-'
    } else {
        is_hex_digit(s[i])
    } by {
        if !is_hyphen_position(i) {
            let sh = (124 - 4 * (i - hyphens_before(i))) as u128;
            assert((x >> sh) & 15u128 < 16u128) by (bit_vector);
        }
    }
}

/// Relies on uuid's `Uuid::new_v4` (random bytes from the system source with
/// the version and variant bits set) and `Uuid::as_u128`. The value depends on
/// chance, so nothing is promised of it.
#[verifier::external_body]
fn random_v4_value() -> (r: u128) {
    uuid::Uuid::new_v4().as_u128()
}

/// Relies on uuid's hyphenated `Display` (`Uuid::to_hyphenated`): the 16
/// bytes of `Uuid::from_u128(x)`, big-endian, as lowercase hex digit pairs
/// with hyphens after the 8th, 12th, 16th and 20th digit.
#[verifier::external_body]
fn hyphenated(x: u128) -> (r: String)
    ensures
        r@ == hyphenated_text(x),
{
    uuid::Uuid::from_u128(x).to_hyphenated().to_string()
}

/// Draws one fresh random identifier.
pub fn new_identifier() -> (r: String)
    ensures
        is_identifier(r@),
{
    let x = random_v4_value();
    proof {
        lemma_hyphenated_text_is_identifier(x);
    }
    hyphenated(x)
}

/// The text of the 128-bit value `x` as an identifier.
pub fn identifier_text(x: u128) -> (r: String)
    ensures
        r@ == hyphenated_text(x),
        is_identifier(r@),
{
    proof {
        lemma_hyphenated_text_is_identifier(x);
    }
    hyphenated(x)
}

/// Generates a batch of `count` random identifiers, in the order drawn.
pub fn generate_batch(count: usize) -> (r: Vec<String>)
    ensures
        r.len() == count,
        forall|i: int| 0 <= i < r.len() ==> is_identifier(#[trigger] r[i]@),
{
    let mut batch: Vec<String> = Vec::with_capacity(count);
    let mut k: usize = 0;
    while k < count
        invariant
            k <= count,
            batch.len() == k,
            forall|i: int| 0 <= i < batch.len() ==> is_identifier(#[trigger] batch[i]@),
        decreases count - k,
    {
        let id = new_identifier();
        batch.push(id);
        k = k + 1;
    }
    batch
}

} // verus!
