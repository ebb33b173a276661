//! Checksums: SHA-256 and its hexadecimal form.

use sha2::Digest;
use sha2::Sha256;
use vstd::prelude::*;

verus! {

/// The SHA-256 digest of `data`, as the sha2 crate computes it.
pub uninterp spec fn sha256(data: Seq<u8>) -> Seq<u8>;

/// `Sha256::digest` of the sha2 crate. The contract names the digest, which depends on the data
/// alone, and says that it has 32 bytes. How the digest comes about is not stated.
#[verifier::external_body]
fn sha256_digest(data: &[u8]) -> (digest: Vec<u8>)
    ensures
        digest@ == sha256(data@),
        digest@.len() == 32,
{
    Sha256::digest(data).to_vec()
}

/// The lower-case hexadecimal digit of a number below 16.
pub open spec fn hex_digit(n: int) -> char {
    if n < 10 {
        ('0' as int + n) as char
    } else {
        ('a' as int + n - 10) as char
    }
}

/// Two hexadecimal digits a byte, the high one first.
pub open spec fn hex(bytes: Seq<u8>) -> Seq<char> {
    Seq::new(
        2 * bytes.len(),
        |i: int|
            if i % 2 == 0 {
                hex_digit(bytes[i / 2] as int / 16)
            } else {
                hex_digit(bytes[i / 2] as int % 16)
            },
    )
}

fn digit(n: u8) -> (c: char)
    requires
        n < 16,
    ensures
        c == hex_digit(n as int),
{
    if n < 10 {
        (48 + n) as char
    } else {
        (87 + n) as char
    }
}

/// The bytes in lower-case hexadecimal, without separators.
pub fn lower_hex(bytes: &Vec<u8>) -> (text: String)
    ensures
        text@ == hex(bytes@),
{
    let mut text: String = String::new();
    let mut i: usize = 0;
    while i < bytes.len()
        invariant
            i <= bytes@.len(),
            text@ == hex(bytes@.take(i as int)),
        decreases bytes@.len() - i,
    {
        let byte: u8 = bytes[i];
        text.push(digit(byte / 16));
        text.push(digit(byte % 16));
        i += 1;
        assert(text@ =~= hex(bytes@.take(i as int)));
    }
    assert(bytes@.take(bytes@.len() as int) == bytes@);
    text
}

/// The checksum of `data`: its SHA-256 digest in lower-case hexadecimal.
pub fn checksum(data: &Vec<u8>) -> (text: String)
    ensures
        text@ == hex(sha256(data@)),
        text@.len() == 64,
{
    let digest: Vec<u8> = sha256_digest(data.as_slice());
    lower_hex(&digest)
}

/// Hexadecimal text holds lower-case digits only.
pub proof fn law_hex_is_lower_case(bytes: Seq<u8>)
    ensures
        forall|i: int|
            0 <= i < hex(bytes).len() ==> '0' <= #[trigger] hex(bytes)[i] <= '9' || 'a' <= hex(
                bytes,
            )[i] <= 'f',
{
}

/// Different bytes have different hexadecimal text.
pub proof fn law_hex_is_injective(a: Seq<u8>, b: Seq<u8>)
    requires
        hex(a) == hex(b),
    ensures
        a == b,
{
    assert(hex(a).len() == 2 * a.len() && hex(b).len() == 2 * b.len());
    assert forall|i: int| 0 <= i < a.len() implies a[i] == b[i] by {
        let high = 2 * i;
        let low = 2 * i + 1;
        assert(high / 2 == i && low / 2 == i && high % 2 == 0 && low % 2 == 1);
        assert(0 <= high < low < hex(a).len());
        assert(hex(a)[high] == hex_digit(a[i] as int / 16));
        assert(hex(b)[high] == hex_digit(b[i] as int / 16));
        assert(hex(a)[low] == hex_digit(a[i] as int % 16));
        assert(hex(b)[low] == hex_digit(b[i] as int % 16));
        assert(a[i] as int / 16 == b[i] as int / 16);
    }
    assert(a =~= b);
}

/// The number that a hexadecimal digit stands for.
pub open spec fn digit_value(c: char) -> int {
    if '0' <= c <= '9' {
        c as int - '0' as int
    } else if 'a' <= c <= 'f' {
        c as int - 'a' as int + 10
    } else {
        -1
    }
}

/// Each byte can be read back from its two digits, of which the first counts for sixteen.
pub proof fn law_bytes_can_be_read_back(bytes: Seq<u8>, i: int)
    requires
        0 <= i < bytes.len(),
    ensures
        hex(bytes).len() == 2 * bytes.len(),
        0 <= digit_value(hex(bytes)[2 * i]) < 16,
        0 <= digit_value(hex(bytes)[2 * i + 1]) < 16,
        16 * digit_value(hex(bytes)[2 * i]) + digit_value(hex(bytes)[2 * i + 1]) == bytes[i],
{
    let high = 2 * i;
    let low = 2 * i + 1;
    assert(high / 2 == i && low / 2 == i && high % 2 == 0 && low % 2 == 1);
    assert(hex(bytes)[high] == hex_digit(bytes[i] as int / 16));
    assert(hex(bytes)[low] == hex_digit(bytes[i] as int % 16));
}

/// Text is written byte after byte: what one row of bytes reads does not depend on another.
pub proof fn law_hex_goes_byte_by_byte(a: Seq<u8>, b: Seq<u8>)
    ensures
        hex(a + b) == hex(a) + hex(b),
{
    assert forall|i: int| 0 <= i < 2 * (a.len() + b.len()) implies hex(a + b)[i] == (hex(a) + hex(
        b,
    ))[i] by {
        if i >= 2 * a.len() {
            let k = i - 2 * a.len();
            assert(k / 2 == i / 2 - a.len() && k % 2 == i % 2);
            assert((a + b)[i / 2] == b[k / 2]);
        } else {
            assert((a + b)[i / 2] == a[i / 2]);
        }
    }
    assert(hex(a + b) =~= hex(a) + hex(b));
}

} // verus!
