//! Digest support for deterministic archive naming: archives are keyed by
//! the lowercase hex SHA-256 of the template name.

use sha2::Digest;
use vstd::prelude::*;

verus! {

/// The SHA-256 digest of a byte sequence, as the sha2 crate computes it:
/// a pure function of the input bytes.
pub uninterp spec fn sha256_of(data: Seq<u8>) -> Seq<u8>;

/// Relies on sha2::Sha256::digest: the result depends on the input bytes
/// alone, and is always exactly 32 bytes long.
#[verifier::external_body]
fn sha256_digest(data: &[u8]) -> (r: Vec<u8>)
    ensures
        r@ == sha256_of(data@),
        r@.len() == 32,
{
    sha2::Sha256::digest(data).to_vec()
}

/// The lowercase hex character for a value below sixteen.
pub open spec fn hex_digit(d: nat) -> char
    recommends
        d < 16,
{
    if d == 0 { '0' }
    else if d == 1 { '1' }
    else if d == 2 { '2' }
    else if d == 3 { '3' }
    else if d == 4 { '4' }
    else if d == 5 { '5' }
    else if d == 6 { '6' }
    else if d == 7 { '7' }
    else if d == 8 { '8' }
    else if d == 9 { '9' }
    else if d == 10 { 'a' }
    else if d == 11 { 'b' }
    else if d == 12 { 'c' }
    else if d == 13 { 'd' }
    else if d == 14 { 'e' }
    else { 'f' }
}

/// Lowercase hex rendering of a byte sequence, two digits per byte,
/// high nibble first.
pub open spec fn hex_of(data: Seq<u8>) -> Seq<char>
    decreases data.len(),
{
    if data.len() == 0 {
        Seq::empty()
    } else {
        seq![
            hex_digit((data[0] >> 4) as nat),
            hex_digit((data[0] & 0x0f) as nat),
        ] + hex_of(data.drop_first())
    }
}

/// The lowercase hex character for a value below sixteen.
pub fn hex_digit_to_char(d: u8) -> (c: char)
    requires
        d < 16,
    ensures
        c == hex_digit(d as nat),
{
    if d == 0 { '0' }
    else if d == 1 { '1' }
    else if d == 2 { '2' }
    else if d == 3 { '3' }
    else if d == 4 { '4' }
    else if d == 5 { '5' }
    else if d == 6 { '6' }
    else if d == 7 { '7' }
    else if d == 8 { '8' }
    else if d == 9 { '9' }
    else if d == 10 { 'a' }
    else if d == 11 { 'b' }
    else if d == 12 { 'c' }
    else if d == 13 { 'd' }
    else if d == 14 { 'e' }
    else { 'f' }
}

/// Renders a byte sequence as lowercase hex.
pub fn to_hex(data: &Vec<u8>) -> (r: String)
    ensures
        r@ == hex_of(data@),
{
    let len = data.len();
    let mut res = String::new();
    proof {
        assert(data@.skip(0) =~= data@);
    }
    let mut i: usize = 0;
    while i < len
        invariant
            0 <= i <= len,
            len == data@.len(),
            hex_of(data@) =~= res@ + hex_of(data@.skip(i as int)),
        decreases len - i,
    {
        let byte = data[i];
        proof {
            assert(byte >> 4 < 16 && byte & 0x0f < 16) by (bit_vector);
            assert(data@.skip(i as int).drop_first() =~= data@.skip(i + 1));
        }
        crate::strutil::string_push(&mut res, hex_digit_to_char(byte >> 4));
        crate::strutil::string_push(&mut res, hex_digit_to_char(byte & 0x0f));
        i = i + 1;
    }
    proof {
        assert(data@.skip(len as int) =~= Seq::<u8>::empty());
        assert(res@ + Seq::<char>::empty() =~= res@);
        assert(res@ =~= hex_of(data@));
    }
    res
}

/// A lowercase hex digit character.
pub open spec fn is_hex_char(c: char) -> bool {
    let u = c as u32;
    (48 <= u <= 57) || (97 <= u <= 102)
}

/// Every character of a hex rendering is a lowercase hex digit.
pub proof fn hex_of_is_hex(data: Seq<u8>)
    ensures
        forall|k: int| 0 <= k < hex_of(data).len()
            ==> is_hex_char(#[trigger] hex_of(data)[k]),
    decreases data.len(),
{
    if data.len() > 0 {
        hex_of_is_hex(data.drop_first());
        let b = data[0];
        assert(b >> 4 < 16 && b & 0x0f < 16) by (bit_vector);
        assert(is_hex_char(hex_digit((data[0] >> 4) as nat)));
        assert(is_hex_char(hex_digit((data[0] & 0x0f) as nat)));
        assert forall|k: int| 0 <= k < hex_of(data).len() implies is_hex_char(
            #[trigger] hex_of(data)[k],
        ) by {
            if k >= 2 {
                assert(hex_of(data)[k] == hex_of(data.drop_first())[k - 2]);
                assert(is_hex_char(hex_of(data.drop_first())[k - 2]));
            }
        }
    }
}

/// Lowercase hex SHA-256 of a string's UTF-8 bytes: the deterministic key
/// under which a template name is filed in the store directory.
pub open spec fn name_digest(name: Seq<char>) -> Seq<char> {
    hex_of(sha256_of(vstd::utf8::encode_utf8(name)))
}

/// Computes `name_digest` of a string.
pub fn name_digest_hex(name: &str) -> (r: String)
    ensures
        r@ == name_digest(name@),
        r@.len() == 64,
{
    let digest = sha256_digest(name.as_bytes());
    proof {
        hex_of_len(digest@);
    }
    to_hex(&digest)
}

/// Hex rendering is injective: equal renderings come from equal bytes.
pub proof fn hex_of_injective(a: Seq<u8>, b: Seq<u8>)
    requires
        hex_of(a) == hex_of(b),
    ensures
        a == b,
    decreases a.len(),
{
    hex_of_len(a);
    hex_of_len(b);
    if a.len() > 0 {
        let x = a[0];
        let y = b[0];
        assert(hex_of(a)[0] == hex_digit((x >> 4) as nat));
        assert(hex_of(a)[1] == hex_digit((x & 0x0f) as nat));
        assert(hex_of(b)[0] == hex_digit((y >> 4) as nat));
        assert(hex_of(b)[1] == hex_digit((y & 0x0f) as nat));
        assert(x >> 4 < 16 && x & 0x0f < 16 && y >> 4 < 16 && y & 0x0f < 16) by (bit_vector);
        hex_digit_injective((x >> 4) as nat, (y >> 4) as nat);
        hex_digit_injective((x & 0x0f) as nat, (y & 0x0f) as nat);
        assert(x == y) by (bit_vector)
            requires
                x >> 4 == y >> 4,
                x & 0x0f == y & 0x0f,
        ;
        assert(hex_of(a.drop_first()) =~= hex_of(b.drop_first())) by {
            assert forall|k: int| 0 <= k < hex_of(a.drop_first()).len() implies
                #[trigger] hex_of(a.drop_first())[k] == hex_of(b.drop_first())[k] by {
                assert(hex_of(a)[k + 2] == hex_of(a.drop_first())[k]);
                assert(hex_of(b)[k + 2] == hex_of(b.drop_first())[k]);
            }
            hex_of_len(a.drop_first());
            hex_of_len(b.drop_first());
        }
        hex_of_injective(a.drop_first(), b.drop_first());
        assert(a.len() == b.len());
        assert forall|k: int| 0 <= k < a.len() implies a[k] == b[k] by {
            if k > 0 {
                assert(a[k] == a.drop_first()[k - 1]);
                assert(b[k] == b.drop_first()[k - 1]);
            }
        }
        assert(a =~= b);
    } else {
        assert(a =~= b);
    }
}

proof fn hex_digit_injective(d1: nat, d2: nat)
    requires
        d1 < 16,
        d2 < 16,
        hex_digit(d1) == hex_digit(d2),
    ensures
        d1 == d2,
{
}

/// The hex rendering of a byte sequence has two characters per byte.
pub proof fn hex_of_len(data: Seq<u8>)
    ensures
        hex_of(data).len() == 2 * data.len(),
    decreases data.len(),
{
    if data.len() > 0 {
        hex_of_len(data.drop_first());
    }
}

} // verus!
