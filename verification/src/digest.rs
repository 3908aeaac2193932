//! Content digests and their hexadecimal text.

use vstd::prelude::*;

verus! {

/// The lower-case hexadecimal digit of a number below sixteen.
pub open spec fn hex_digit(d: nat) -> char {
    "0123456789abcdef"@[d as int]
}

/// The lower-case hexadecimal text of some bytes, two digits for each.
pub open spec fn hex_text(bytes: Seq<u8>) -> Seq<char>
    decreases bytes.len(),
{
    if bytes.len() == 0 {
        Seq::empty()
    } else {
        hex_text(bytes.drop_last()) + seq![
            hex_digit(bytes.last() as nat / 16),
            hex_digit(bytes.last() as nat % 16),
        ]
    }
}

/// `hex::encode`, which writes two lower-case hexadecimal digits for each byte.
#[verifier::external_body]
pub(crate) fn encode_hex(bytes: &Vec<u8>) -> (text: String)
    ensures
        text@ == hex_text(bytes@),
{
    hex::encode(bytes)
}

/// The BLAKE3 digest of some bytes.
pub uninterp spec fn blake3_digest(bytes: Seq<u8>) -> Seq<u8>;

/// `blake3::hash`: the digest is 32 bytes long and follows from the bytes alone.
#[verifier::external_body]
fn hash_bytes(bytes: &[u8]) -> (digest: Vec<u8>)
    ensures
        digest@ == blake3_digest(bytes@),
        digest@.len() == 32,
{
    blake3::hash(bytes).as_bytes().to_vec()
}

/// The hexadecimal text of the first bytes of a digest.
pub open spec fn digest_prefix(bytes: Seq<u8>, count: nat) -> Seq<char> {
    hex_text(blake3_digest(bytes).take(count as int))
}

/// Whether a character is a lower-case hexadecimal digit.
pub open spec fn is_hex_digit(c: char) -> bool {
    '0' <= c <= '9' || 'a' <= c <= 'f'
}

/// Whether a text is made of so many lower-case hexadecimal digits.
pub open spec fn is_hex(text: Seq<char>, digits: nat) -> bool {
    text.len() == digits && forall|i: int|
        0 <= i < text.len() ==> is_hex_digit(#[trigger] text[i])
}

/// The hexadecimal text of the first `count` bytes of the digest of some bytes.
pub fn digest_prefix_text(bytes: &[u8], count: usize) -> (prefix: String)
    requires
        count <= 32,
    ensures
        prefix@ == digest_prefix(bytes@, count as nat),
        is_hex(prefix@, (2 * count) as nat),
{
    let mut digest = hash_bytes(bytes);
    digest.truncate(count);
    proof {
        law_hex_text_has_two_digits_for_each_byte(digest@);
    }
    encode_hex(&digest)
}

/// The hexadecimal text of some bytes has two digits for each.
pub proof fn law_hex_text_has_two_digits_for_each_byte(bytes: Seq<u8>)
    ensures
        is_hex(hex_text(bytes), 2 * bytes.len()),
    decreases bytes.len(),
{
    if bytes.len() > 0 {
        law_hex_text_has_two_digits_for_each_byte(bytes.drop_last());
        lemma_hex_digit(bytes.last() as nat / 16);
        lemma_hex_digit(bytes.last() as nat % 16);
    }
}

proof fn lemma_hex_digit(d: nat)
    requires
        d < 16,
    ensures
        is_hex_digit(hex_digit(d)),
{
    reveal_strlit("0123456789abcdef");
}

/// Different bytes have different hexadecimal texts.
pub proof fn law_hex_text_tells_bytes_apart(a: u8, b: u8)
    requires
        hex_text(seq![a]) == hex_text(seq![b]),
    ensures
        a == b,
{
    reveal_strlit("0123456789abcdef");
    let (x, y) = (hex_text(seq![a]), hex_text(seq![b]));
    reveal_with_fuel(hex_text, 2);
    assert(seq![a].drop_last().len() == 0 && seq![b].drop_last().len() == 0);
    assert(x[0] == hex_digit(a as nat / 16) && x[1] == hex_digit(a as nat % 16));
    assert(y[0] == hex_digit(b as nat / 16) && y[1] == hex_digit(b as nat % 16));
    lemma_hex_digits_differ(a as nat / 16, b as nat / 16);
    lemma_hex_digits_differ(a as nat % 16, b as nat % 16);
}

proof fn lemma_hex_digits_differ(d: nat, e: nat)
    requires
        d < 16,
        e < 16,
        hex_digit(d) == hex_digit(e),
    ensures
        d == e,
{
    reveal_strlit("0123456789abcdef");
    assert(hex_digit(d) as int == if d < 10 {
        d + '0' as int
    } else {
        d - 10 + 'a' as int
    });
    assert(hex_digit(e) as int == if e < 10 {
        e + '0' as int
    } else {
        e - 10 + 'a' as int
    });
}

/// The number that a hexadecimal digit denotes.
pub open spec fn hex_value(c: char) -> int {
    if '0' <= c <= '9' {
        c as int - '0' as int
    } else {
        c as int - 'a' as int + 10
    }
}

/// Each byte is read back from its two digits, of which the first counts sixteenfold.
pub proof fn law_hex_text_is_read_back(bytes: Seq<u8>)
    ensures
        hex_text(bytes).len() == 2 * bytes.len(),
        forall|i: int|
            0 <= i < bytes.len() ==> #[trigger] bytes[i] == 16 * hex_value(hex_text(bytes)[2 * i])
                + hex_value(hex_text(bytes)[2 * i + 1]),
    decreases bytes.len(),
{
    if bytes.len() > 0 {
        let rest = bytes.drop_last();
        law_hex_text_is_read_back(rest);
        lemma_hex_digit_denotes(bytes.last() as nat / 16);
        lemma_hex_digit_denotes(bytes.last() as nat % 16);
        assert forall|i: int| 0 <= i < bytes.len() implies #[trigger] bytes[i] == 16 * hex_value(
            hex_text(bytes)[2 * i],
        ) + hex_value(hex_text(bytes)[2 * i + 1]) by {
            if i < rest.len() {
                assert(rest[i] == bytes[i]);
                assert(hex_text(bytes)[2 * i] == hex_text(rest)[2 * i]);
                assert(hex_text(bytes)[2 * i + 1] == hex_text(rest)[2 * i + 1]);
            }
        }
    }
}

proof fn lemma_hex_digit_denotes(d: nat)
    requires
        d < 16,
    ensures
        hex_value(hex_digit(d)) == d,
{
    reveal_strlit("0123456789abcdef");
}

/// A hexadecimal text can be parted anywhere into hexadecimal texts, and two of them make
/// one.
pub proof fn law_hex_texts_can_be_parted(
    first: Seq<char>,
    second: Seq<char>,
    a: nat,
    b: nat,
)
    requires
        first.len() == a,
        second.len() == b,
    ensures
        is_hex(first + second, a + b) <==> is_hex(first, a) && is_hex(second, b),
        is_hex(seq!['0'], 1),
        !is_hex(seq!['g'], 1),
        !is_hex(seq!['A'], 1),
{
    let whole = first + second;
    if is_hex(whole, a + b) {
        assert forall|i: int| 0 <= i < first.len() implies is_hex_digit(#[trigger] first[i]) by {
            assert(whole[i] == first[i]);
        }
        assert forall|i: int| 0 <= i < second.len() implies is_hex_digit(#[trigger] second[i]) by {
            assert(whole[first.len() + i] == second[i]);
        }
    }
    if is_hex(first, a) && is_hex(second, b) {
        assert forall|i: int| 0 <= i < whole.len() implies is_hex_digit(#[trigger] whole[i]) by {
            if i < first.len() {
                assert(whole[i] == first[i]);
            } else {
                assert(whole[i] == second[i - first.len()]);
            }
        }
    }
    assert(!is_hex_digit(seq!['g'][0]));
    assert(!is_hex_digit(seq!['A'][0]));
}

} // verus!
