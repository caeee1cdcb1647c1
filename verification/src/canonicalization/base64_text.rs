//! Base64 text of binary columns.
//!
//! Embeddings are stored as raw bytes and travel in JSON as base64, so a byte that got
//! lost on the way would be lost for good when a merge is undone.

use vstd::prelude::*;
use base64::engine::general_purpose::STANDARD;
use base64::Engine;

verus! {

/// The byte at `i`, zero behind the end.
pub open spec fn byte_at(bytes: Seq<u8>, i: int) -> int {
    if 0 <= i < bytes.len() {
        bytes[i] as int
    } else {
        0
    }
}

/// The `k`-th group of six bits.
pub open spec fn sextet(bytes: Seq<u8>, k: int) -> int {
    let i = 3 * (k / 4);
    if k % 4 == 0 {
        byte_at(bytes, i) / 4
    } else if k % 4 == 1 {
        (byte_at(bytes, i) % 4) * 16 + byte_at(bytes, i + 1) / 16
    } else if k % 4 == 2 {
        (byte_at(bytes, i + 1) % 16) * 4 + byte_at(bytes, i + 2) / 64
    } else {
        byte_at(bytes, i + 2) % 64
    }
}

/// The character of a group in the standard alphabet.
pub open spec fn base64_char(v: int) -> char {
    if v < 26 {
        ((65 + v) as u8) as char
    } else if v < 52 {
        ((71 + v) as u8) as char
    } else if v < 62 {
        ((v - 4) as u8) as char
    } else if v == 62 {
        '+'
    } else {
        '/'
    }
}

/// Groups that carry data.
pub open spec fn data_chars(n: nat) -> nat {
    (4 * n + 2) / 3
}

/// The standard base64 text of `bytes`, padded with `=` to whole quadruples.
pub open spec fn base64_of(bytes: Seq<u8>) -> Seq<char> {
    Seq::new(
        4 * ((bytes.len() + 2) / 3),
        |k: int|
            if k < data_chars(bytes.len()) {
                base64_char(sextet(bytes, k))
            } else {
                '='
            },
    )
}

/// Encodes bytes with the `STANDARD` engine of the `base64` crate (`Engine::encode`).
/// The claim is that the text is the padded standard encoding.
#[verifier::external_body]
pub(crate) fn encode_base64(bytes: &Vec<u8>) -> (r: String)
    ensures
        r@ == base64_of(bytes@),
{
    STANDARD.encode(bytes)
}

proof fn base64_char_injective(v: int, w: int)
    requires
        0 <= v < 64,
        0 <= w < 64,
        base64_char(v) == base64_char(w),
    ensures
        v == w,
{
}

proof fn base64_char_is_no_padding(v: int)
    requires
        0 <= v < 64,
    ensures
        base64_char(v) != '=',
{
}

/// Every byte can be read back from the groups that it is spread over.
proof fn byte_from_sextets(bytes: Seq<u8>, i: int)
    requires
        0 <= i < bytes.len(),
    ensures
        ({
            let k = 4 * (i / 3);
            bytes[i] == (if i % 3 == 0 {
                sextet(bytes, k) * 4 + sextet(bytes, k + 1) / 16
            } else if i % 3 == 1 {
                (sextet(bytes, k + 1) % 16) * 16 + sextet(bytes, k + 2) / 4
            } else {
                (sextet(bytes, k + 2) % 4) * 64 + sextet(bytes, k + 3)
            })
        }),
{
    let k = 4 * (i / 3);
    assert(k / 4 == i / 3);
    assert(k % 4 == 0 && (k + 1) % 4 == 1 && (k + 2) % 4 == 2 && (k + 3) % 4 == 3);
    assert((k + 1) / 4 == i / 3 && (k + 2) / 4 == i / 3 && (k + 3) / 4 == i / 3);
}

proof fn sextet_range(bytes: Seq<u8>, k: int)
    requires
        0 <= k,
    ensures
        0 <= sextet(bytes, k) < 64,
{
}

/// No byte is lost: different byte strings have different texts.
pub proof fn law_base64_loses_nothing(a: Seq<u8>, b: Seq<u8>)
    requires
        base64_of(a) == base64_of(b),
    ensures
        a == b,
{
    let s = base64_of(a);
    let t = base64_of(b);
    // The number of data characters, and with it the number of bytes, is the same.
    if a.len() < b.len() && data_chars(a.len()) < data_chars(b.len()) {
        let k = data_chars(a.len()) as int;
        assert(s.len() == t.len());
        assert(k < s.len());
        assert(s[k] == '=');
        sextet_range(b, k);
        base64_char_is_no_padding(sextet(b, k));
        assert(t[k] == base64_char(sextet(b, k)));
    }
    if b.len() < a.len() && data_chars(b.len()) < data_chars(a.len()) {
        let k = data_chars(b.len()) as int;
        assert(s.len() == t.len());
        assert(k < t.len());
        assert(t[k] == '=');
        sextet_range(a, k);
        base64_char_is_no_padding(sextet(a, k));
        assert(s[k] == base64_char(sextet(a, k)));
    }
    assert(a.len() == b.len());
    assert forall|k: int| 0 <= k < data_chars(a.len()) implies #[trigger] sextet(a, k) == sextet(
        b,
        k,
    ) by {
        sextet_range(a, k);
        sextet_range(b, k);
        assert(s[k] == t[k]);
        base64_char_injective(sextet(a, k), sextet(b, k));
    }
    assert forall|i: int| 0 <= i < a.len() implies a[i] == b[i] by {
        byte_from_sextets(a, i);
        byte_from_sextets(b, i);
        let k = 4 * (i / 3);
        if i % 3 == 0 {
            assert(sextet(a, k) == sextet(b, k));
            assert(sextet(a, k + 1) == sextet(b, k + 1));
        } else if i % 3 == 1 {
            assert(sextet(a, k + 1) == sextet(b, k + 1));
            assert(sextet(a, k + 2) == sextet(b, k + 2));
        } else {
            assert(sextet(a, k + 2) == sextet(b, k + 2));
            assert(sextet(a, k + 3) == sextet(b, k + 3));
        }
    }
    assert(a =~= b);
}

}
