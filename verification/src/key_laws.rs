//! Laws of the bytes that keys are stored under.
use crate::data_access::{be_bytes, KeyString, KeyU64, Uid};
use crate::error_handling::ErrorModel;
use crate::key_order::{less, less_at};
use crate::pb::{CdnUid, KeyUid};
use crate::wire::{field_one, varint};
use vstd::prelude::*;
use vstd::utf8::{
    char_is_scalar, char_u32_cast, decode_first_scalar, encode_scalar, encode_utf8, encode_utf8_decode_utf8,
    encode_utf8_first_scalar, encode_utf8_valid_utf8,
};

verus! {

/// A number reads back from its bytes.
pub proof fn law_number_round_trip(n: u64)
    ensures
        KeyU64::key_readable(be_bytes(n)),
        KeyU64::key_decoding(be_bytes(n)) == Ok::<u64, ErrorModel>(n),
{
    assert(((n / 0x100_0000_0000_0000) as u8) as u64 == n / 0x100_0000_0000_0000) by (bit_vector);
    assert(n == (n / 0x100_0000_0000_0000) * 0x100_0000_0000_0000 + (n / 0x1_0000_0000_0000 % 256)
        * 0x1_0000_0000_0000 + (n / 0x100_0000_0000 % 256) * 0x100_0000_0000 + (n / 0x1_0000_0000
        % 256) * 0x1_0000_0000 + (n / 0x100_0000 % 256) * 0x100_0000 + (n / 0x1_0000 % 256)
        * 0x1_0000 + (n / 0x100 % 256) * 0x100 + (n % 256)) by (bit_vector);
}

/// Numbers are in the order of their bytes.
pub proof fn law_number_order(n: u64, m: u64)
    ensures
        n < m <==> less(be_bytes(n), be_bytes(m)),
{
    lemma_number_order(n, m);
    lemma_number_order(m, n);
    if n == m {
        crate::key_order::lemma_less_irreflexive(be_bytes(n));
    } else if m < n && less(be_bytes(n), be_bytes(m)) {
        crate::key_order::lemma_less_transitive(be_bytes(n), be_bytes(m), be_bytes(n));
        crate::key_order::lemma_less_irreflexive(be_bytes(n));
    }
}

/// The first digits of a number in base 256: all but the last `k`.
spec fn leading(n: u64, k: nat) -> int
    decreases k,
{
    if k == 0 {
        n as int
    } else {
        leading(n, (k - 1) as nat) / 256
    }
}

/// Byte by byte, the bytes of a number are its digits.
proof fn lemma_digits(n: u64)
    ensures
        forall|k: nat| k < 8 ==> leading(n, k) % 256 == #[trigger] be_bytes(n)[7 - k],
        leading(n, 8) == 0,
{
    reveal_with_fuel(leading, 9);
    assert(n / 0x1_0000 == n / 0x100 / 256) by (bit_vector);
    assert(n / 0x100_0000 == n / 0x1_0000 / 256) by (bit_vector);
    assert(n / 0x1_0000_0000 == n / 0x100_0000 / 256) by (bit_vector);
    assert(n / 0x100_0000_0000 == n / 0x1_0000_0000 / 256) by (bit_vector);
    assert(n / 0x1_0000_0000_0000 == n / 0x100_0000_0000 / 256) by (bit_vector);
    assert(n / 0x100_0000_0000_0000 == n / 0x1_0000_0000_0000 / 256) by (bit_vector);
    assert(n / 0x100_0000_0000_0000 < 256) by (bit_vector);
    assert forall|k: nat| k < 8 implies leading(n, k) % 256 == #[trigger] be_bytes(n)[7 - k] by {
        assert(k == 0 || k == 1 || k == 2 || k == 3 || k == 4 || k == 5 || k == 6 || k == 7);
    }
}

/// A smaller number has no larger first digits.
proof fn lemma_leading_monotone(n: u64, m: u64, k: nat)
    requires
        n <= m,
    ensures
        leading(n, k) <= leading(m, k),
    decreases k,
{
    if k > 0 {
        lemma_leading_monotone(n, m, (k - 1) as nat);
    }
}

proof fn lemma_number_order(n: u64, m: u64)
    ensures
        n < m ==> less(be_bytes(n), be_bytes(m)),
{
    if n < m {
        lemma_digits(n);
        lemma_digits(m);
        lemma_first_difference(n, m, 8);
    }
}

/// The numbers agree before their last `k` digits, so they differ in one of those.
proof fn lemma_first_difference(n: u64, m: u64, k: nat)
    requires
        n < m,
        k <= 8,
        leading(n, k) == leading(m, k),
        forall|i: int| 0 <= i < 8 - k ==> be_bytes(n)[i] == be_bytes(m)[i],
    ensures
        less(be_bytes(n), be_bytes(m)),
    decreases k,
{
    if k > 0 {
        let j = (k - 1) as nat;
        lemma_digits(n);
        lemma_digits(m);
        lemma_leading_monotone(n, m, j);
        assert(leading(n, j) % 256 == be_bytes(n)[7 - j]);
        assert(leading(m, j) % 256 == be_bytes(m)[7 - j]);
        if be_bytes(n)[7 - j] == be_bytes(m)[7 - j] {
            lemma_first_difference(n, m, j);
        } else {
            assert(less_at(be_bytes(n), be_bytes(m), 7 - j));
        }
    }
}

/// A text reads back from its bytes.
pub proof fn law_text_round_trip(text: Seq<char>)
    ensures
        KeyString::key_readable(encode_utf8(text)),
        KeyString::key_decoding(encode_utf8(text)) == Ok::<Seq<char>, ErrorModel>(text),
{
    encode_utf8_valid_utf8(text);
    encode_utf8_decode_utf8(text);
}

/// Different texts are stored under different keys.
pub proof fn law_texts_apart(a: Seq<char>, b: Seq<char>)
    requires
        KeyString::key_encoding(a) == KeyString::key_encoding(b),
    ensures
        a == b,
{
    encode_utf8_decode_utf8(a);
    encode_utf8_decode_utf8(b);
}

/// Different numbers are stored under different keys.
pub proof fn law_numbers_apart(a: u64, b: u64)
    requires
        KeyU64::key_encoding(a) == KeyU64::key_encoding(b),
    ensures
        a == b,
{
    law_number_round_trip(a);
    law_number_round_trip(b);
}

/// Different names are stored under different keys.
pub proof fn law_names_apart(a: Seq<char>, b: Seq<char>)
    requires
        CdnUid::key_encoding(a) == CdnUid::key_encoding(b),
    ensures
        a == b,
{
    lemma_field_one_injective(encode_utf8(a), encode_utf8(b));
    law_texts_apart(a, b);
}

/// Different hashes are stored under different keys.
pub proof fn law_hashes_apart(a: Seq<u8>, b: Seq<u8>)
    requires
        KeyUid::key_encoding(a) == KeyUid::key_encoding(b),
    ensures
        a == b,
{
    lemma_field_one_injective(a, b);
}

/// What follows a length, and the length, can be told from the bytes.
proof fn lemma_varint_prefix_free(a: nat, b: nat, x: Seq<u8>, y: Seq<u8>)
    requires
        varint(a) + x == varint(b) + y,
    ensures
        a == b,
        x == y,
    decreases a,
{
    let s = varint(a) + x;
    let t = varint(b) + y;
    assert(s[0] == varint(a)[0]);
    assert(t[0] == varint(b)[0]);
    if a < 128 {
        assert(b < 128);
        assert(x =~= s.skip(1));
        assert(y =~= t.skip(1));
    } else {
        assert(b >= 128);
        let more_a = varint(a / 128);
        let more_b = varint(b / 128);
        assert(more_a + x =~= s.skip(1));
        assert(more_b + y =~= t.skip(1));
        lemma_varint_prefix_free(a / 128, b / 128, x, y);
    }
}

proof fn lemma_field_one_injective(a: Seq<u8>, b: Seq<u8>)
    requires
        field_one(a) == field_one(b),
    ensures
        a == b,
{
    if a.len() == 0 || b.len() == 0 {
        assert(a =~= b);
    } else {
        assert(varint(a.len()) + a =~= field_one(a).skip(1));
        assert(varint(b.len()) + b =~= field_one(b).skip(1));
        lemma_varint_prefix_free(a.len(), b.len(), a, b);
    }
}

/// The bytes of a text are the bytes of its beginning and those of the rest.
proof fn lemma_encode_concat(a: Seq<char>, b: Seq<char>)
    ensures
        encode_utf8(a + b) == encode_utf8(a) + encode_utf8(b),
    decreases a.len(),
{
    if a.len() == 0 {
        assert(a + b =~= b);
        assert(encode_utf8(a) + encode_utf8(b) =~= encode_utf8(b));
    } else {
        assert((a + b).drop_first() =~= a.drop_first() + b);
        lemma_encode_concat(a.drop_first(), b);
        assert(encode_utf8(a + b) =~= encode_utf8(a) + encode_utf8(b));
    }
}

/// A text starts with a prefix exactly if its bytes start with the bytes of the prefix.
pub proof fn law_text_prefix(prefix: Seq<char>, text: Seq<char>)
    ensures
        encode_utf8(prefix).is_prefix_of(encode_utf8(text)) <==> prefix.is_prefix_of(text),
{
    if prefix.is_prefix_of(text) {
        let rest = text.skip(prefix.len() as int);
        assert(text =~= prefix + rest);
        lemma_encode_concat(prefix, rest);
        assert(encode_utf8(prefix).is_prefix_of(encode_utf8(text)));
    }
    if encode_utf8(prefix).is_prefix_of(encode_utf8(text)) {
        lemma_bytes_prefix(prefix, text);
    }
}

proof fn lemma_bytes_prefix(prefix: Seq<char>, text: Seq<char>)
    requires
        encode_utf8(prefix).is_prefix_of(encode_utf8(text)),
    ensures
        prefix.is_prefix_of(text),
    decreases prefix.len(),
{
    if prefix.len() > 0 {
        let p = encode_utf8(prefix);
        let t = encode_utf8(text);
        encode_utf8_first_scalar(prefix);
        char_is_scalar(prefix[0]);
        assert(p.len() > 0);
        assert(text.len() > 0);
        encode_utf8_first_scalar(text);
        char_is_scalar(text[0]);
        assert(forall|i: int| 0 <= i < p.len() ==> p[i] == t[i]);
        assert(decode_first_scalar(p) == decode_first_scalar(t));
        assert(prefix[0] as u32 == text[0] as u32);
        char_u32_cast(prefix[0], prefix[0] as u32);
        char_u32_cast(text[0], text[0] as u32);
        assert(prefix[0] == text[0]);
        let n = encode_scalar(prefix[0] as u32).len() as int;
        assert(p.skip(n) =~= encode_utf8(prefix.drop_first()));
        assert(t.skip(n) =~= encode_utf8(text.drop_first()));
        assert(p.skip(n).is_prefix_of(t.skip(n)));
        lemma_bytes_prefix(prefix.drop_first(), text.drop_first());
        assert(prefix =~= text.take(prefix.len() as int)) by {
            assert forall|i: int| 0 <= i < prefix.len() implies prefix[i] == text[i] by {
                if i > 0 {
                    assert(prefix[i] == prefix.drop_first()[i - 1]);
                    assert(text[i] == text.drop_first()[i - 1]);
                }
            }
        }
    }
}

} // verus!
