//! Bytes in base64, with the standard alphabet and padding.
use base64::engine::general_purpose::STANDARD;
use base64::Engine;
use vstd::prelude::*;

verus! {

#[verifier::external_type_specification]
#[verifier::external_body]
pub struct ExDecodeError(base64::DecodeError);

/// The character that stands for six bits.
pub open spec fn base64_char(n: int) -> char {
    if n < 26 {
        ('A' as int + n) as char
    } else if n < 52 {
        ('a' as int + (n - 26)) as char
    } else if n < 62 {
        ('0' as int + (n - 52)) as char
    } else if n == 62 {
        '+'
    } else {
        '/'
    }
}

/// The byte at `i`, or zero behind the end.
pub open spec fn byte_or_zero(bytes: Seq<u8>, i: int) -> int {
    if i < bytes.len() {
        bytes[i] as int
    } else {
        0
    }
}

/// The six bits that the character at `i` stands for: each four characters hold three bytes.
pub open spec fn sextet(bytes: Seq<u8>, i: int) -> int {
    let first = byte_or_zero(bytes, i / 4 * 3);
    let second = byte_or_zero(bytes, i / 4 * 3 + 1);
    let third = byte_or_zero(bytes, i / 4 * 3 + 2);
    if i % 4 == 0 {
        first / 4
    } else if i % 4 == 1 {
        first % 4 * 16 + second / 16
    } else if i % 4 == 2 {
        second % 16 * 4 + third / 64
    } else {
        third % 64
    }
}

/// Whether the character at `i` is padding: it would hold only bits behind the end.
pub open spec fn is_padding(len: nat, i: int) -> bool {
    i % 4 >= 2 && i / 4 * 3 + i % 4 > len
}

/// The bytes in base64.
pub open spec fn base64_text(bytes: Seq<u8>) -> Seq<char> {
    Seq::new(
        (bytes.len() + 2) / 3 * 4,
        |i: int|
            if is_padding(bytes.len(), i) {
                '='
            } else {
                base64_char(sextet(bytes, i))
            },
    )
}

/// The bytes whose base64 the text is, if there are any.
pub open spec fn base64_bytes(text: Seq<char>) -> Option<Seq<u8>> {
    if exists|bytes: Seq<u8>| #[trigger] base64_text(bytes) == text {
        Some(choose|bytes: Seq<u8>| #[trigger] base64_text(bytes) == text)
    } else {
        None
    }
}

/// `base64::Engine::encode` of the `STANDARD` engine.
#[verifier::external_body]
pub(crate) fn encode_base64(bytes: &[u8]) -> (r: String)
    ensures
        r@ == base64_text(bytes@),
{
    STANDARD.encode(bytes)
}

/// `base64::Engine::decode` of the `STANDARD` engine, which wants the padding and allows no
/// stray bits: the bytes whose base64 the text is, if there are any.
#[verifier::external_body]
pub(crate) fn decode_base64(text: &str) -> (r: Result<Vec<u8>, base64::DecodeError>)
    ensures
        match r {
            Ok(bytes) => base64_text(bytes@) == text@,
            Err(_) => forall|bytes: Seq<u8>| #[trigger] base64_text(bytes) != text@,
        },
{
    STANDARD.decode(text)
}

// ---- Laws ----

/// The bytes come back from their text.
pub proof fn base64_round_trip(bytes: Seq<u8>)
    ensures
        base64_bytes(base64_text(bytes)) == Some(bytes),
{
    let text = base64_text(bytes);
    let found = choose|found: Seq<u8>| #[trigger] base64_text(found) == text;
    base64_is_injective(found, bytes);
}

/// Six bits come back from their character, which is neither padding nor a dot.
proof fn lemma_char(m: int, n: int)
    requires
        0 <= m < 64,
        0 <= n < 64,
    ensures
        base64_char(m) == base64_char(n) ==> m == n,
        base64_char(m) != '=',
        base64_char(m) != '.',
{
}

/// No character of base64 is a dot.
pub proof fn base64_has_no_dot(bytes: Seq<u8>, i: int)
    requires
        0 <= i < base64_text(bytes).len(),
    ensures
        base64_text(bytes)[i] != '.',
{
    lemma_sextet(bytes, i);
    if !is_padding(bytes.len(), i) {
        lemma_char(sextet(bytes, i), 0);
    }
}

proof fn lemma_sextet(bytes: Seq<u8>, i: int)
    requires
        0 <= i,
    ensures
        0 <= sextet(bytes, i) < 64,
{
}

/// Where two texts agree, both have padding there or the same six bits.
proof fn lemma_same_char(a: Seq<u8>, b: Seq<u8>, i: int)
    requires
        base64_text(a) == base64_text(b),
        0 <= i < base64_text(a).len(),
    ensures
        is_padding(a.len(), i) == is_padding(b.len(), i),
        !is_padding(a.len(), i) ==> sextet(a, i) == sextet(b, i),
{
    lemma_sextet(a, i);
    lemma_sextet(b, i);
    lemma_char(sextet(a, i), sextet(b, i));
    lemma_char(sextet(b, i), sextet(a, i));
    assert(base64_text(a)[i] == if is_padding(a.len(), i) {
        '='
    } else {
        base64_char(sextet(a, i))
    });
    assert(base64_text(b)[i] == if is_padding(b.len(), i) {
        '='
    } else {
        base64_char(sextet(b, i))
    });
}

/// Different bytes have different texts.
pub proof fn base64_is_injective(a: Seq<u8>, b: Seq<u8>)
    requires
        base64_text(a) == base64_text(b),
    ensures
        a == b,
{
    let text = base64_text(a);
    assert(text.len() == (a.len() + 2) / 3 * 4);
    assert(text.len() == (b.len() + 2) / 3 * 4);
    let groups = (a.len() + 2) / 3;
    assert(groups == (b.len() + 2) / 3);
    assert forall|i: int| 0 <= i < text.len() implies #[trigger] is_padding(a.len(), i)
        == is_padding(b.len(), i) && (!is_padding(a.len(), i) ==> sextet(a, i) == sextet(b, i)) by {
        lemma_same_char(a, b, i);
    }
    if groups > 0 {
        let last = 4 * (groups - 1);
        assert(last / 4 == groups - 1);
        assert((last + 2) / 4 == groups - 1 && (last + 2) % 4 == 2);
        assert((last + 3) / 4 == groups - 1 && (last + 3) % 4 == 3);
        assert(is_padding(a.len(), last + 2) == is_padding(b.len(), last + 2));
        assert(is_padding(a.len(), last + 3) == is_padding(b.len(), last + 3));
    }
    assert(a.len() == b.len());
    assert forall|k: int| 0 <= k < a.len() implies a[k] == b[k] by {
        lemma_byte(a, b, k);
    }
    assert(a =~= b);
}

/// A byte is determined by the characters that hold its bits.
proof fn lemma_byte(a: Seq<u8>, b: Seq<u8>, k: int)
    requires
        a.len() == b.len(),
        0 <= k < a.len(),
        forall|i: int|
            0 <= i < (a.len() + 2) / 3 * 4 && !is_padding(a.len(), i) ==> #[trigger] sextet(a, i)
                == sextet(b, i),
    ensures
        a[k] == b[k],
{
    let g = k / 3;
    let i = 4 * g;
    assert(0 <= g < (a.len() + 2) / 3);
    assert(i / 4 == g && i % 4 == 0);
    assert((i + 1) / 4 == g && (i + 1) % 4 == 1);
    assert((i + 2) / 4 == g && (i + 2) % 4 == 2);
    assert((i + 3) / 4 == g && (i + 3) % 4 == 3);
    assert(sextet(a, i) == sextet(b, i));
    assert(sextet(a, i + 1) == sextet(b, i + 1));
    if k % 3 >= 1 {
        assert(!is_padding(a.len(), i + 2));
        assert(sextet(a, i + 2) == sextet(b, i + 2));
    }
    if k % 3 == 2 {
        assert(!is_padding(a.len(), i + 3));
        assert(sextet(a, i + 3) == sextet(b, i + 3));
    }
}

} // verus!
