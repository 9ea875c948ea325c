//! Byte-level text handling shared by the request decoders.
//!
//! Identifiers, timestamps and envelopes are compared and cut as byte
//! strings; their specifications are written over `Seq<u8>`.

use vstd::prelude::*;
use vstd::slice::slice_subrange;
use vstd::utf8::{encode_utf8, encode_utf8_decode_utf8, valid_utf8};

verus! {

/// `text` begins with `prefix`.
pub open spec fn has_prefix(text: Seq<u8>, prefix: Seq<u8>) -> bool {
    prefix.len() <= text.len() && text.subrange(0, prefix.len() as int) == prefix
}

/// `text` begins with the two bytes `0x`.
pub open spec fn has_hex_marker(text: Seq<u8>) -> bool {
    text.len() >= 2 && text[0] == 0x30u8 && text[1] == 0x78u8
}

/// `text` with every leading repetition of `0x` removed.
pub open spec fn trim_hex_marker(text: Seq<u8>) -> Seq<u8>
    decreases text.len(),
{
    if has_hex_marker(text) {
        trim_hex_marker(text.skip(2))
    } else {
        text
    }
}

/// Strict lexicographic order on byte strings: the order in which text
/// columns of equal collation sort.
pub open spec fn lex_less(a: Seq<u8>, b: Seq<u8>) -> bool
    decreases a.len(),
{
    if b.len() == 0 {
        false
    } else if a.len() == 0 {
        true
    } else if a[0] != b[0] {
        a[0] < b[0]
    } else {
        lex_less(a.skip(1), b.skip(1))
    }
}

/// Position of the first occurrence of `byte` at or after `from`, or the
/// length of `text` when there is none.
pub open spec fn find_byte(text: Seq<u8>, byte: u8, from: int) -> int
    decreases text.len() - from,
{
    if from < 0 || from >= text.len() {
        text.len() as int
    } else if text[from] == byte {
        from
    } else {
        find_byte(text, byte, from + 1)
    }
}

/// Whether two byte strings are equal.
pub fn bytes_eq(a: &[u8], b: &[u8]) -> (same: bool)
    ensures
        same == (a@ == b@),
{
    if a.len() != b.len() {
        return false;
    }
    let mut i: usize = 0;
    while i < a.len()
        invariant
            a.len() == b.len(),
            i <= a.len(),
            a@.subrange(0, i as int) == b@.subrange(0, i as int),
        decreases a.len() - i,
    {
        if a[i] != b[i] {
            return false;
        }
        i += 1;
    }
    assert(a@ == a@.subrange(0, a.len() as int));
    assert(b@ == b@.subrange(0, b.len() as int));
    true
}

/// Whether two texts are equal.
pub fn str_eq(a: &str, b: &str) -> (same: bool)
    ensures
        same == (a@ == b@),
{
    proof {
        encode_utf8_decode_utf8(a@);
        encode_utf8_decode_utf8(b@);
    }
    bytes_eq(a.as_bytes(), b.as_bytes())
}

/// Whether text `a` sorts strictly before text `b`, byte by byte.
pub open spec fn text_less(a: Seq<char>, b: Seq<char>) -> bool {
    lex_less(encode_utf8(a), encode_utf8(b))
}

/// Whether text `a` sorts strictly before text `b`.
pub fn str_less(a: &str, b: &str) -> (less: bool)
    ensures
        less == text_less(a@, b@),
{
    bytes_less(a.as_bytes(), b.as_bytes())
}

/// Nothing sorts before itself.
pub proof fn lemma_lex_less_irreflexive(a: Seq<u8>)
    ensures
        !lex_less(a, a),
    decreases a.len(),
{
    if a.len() > 0 {
        lemma_lex_less_irreflexive(a.skip(1));
    }
}

/// The order is transitive.
pub proof fn lemma_lex_less_transitive(a: Seq<u8>, b: Seq<u8>, c: Seq<u8>)
    requires
        lex_less(a, b),
        lex_less(b, c),
    ensures
        lex_less(a, c),
    decreases a.len(),
{
    if a.len() > 0 && a[0] == b[0] && b[0] == c[0] {
        lemma_lex_less_transitive(a.skip(1), b.skip(1), c.skip(1));
    }
}

/// Of two different byte strings one sorts before the other.
pub proof fn lemma_lex_less_total(a: Seq<u8>, b: Seq<u8>)
    ensures
        lex_less(a, b) || lex_less(b, a) || a == b,
    decreases a.len(),
{
    if a.len() > 0 && b.len() > 0 && a[0] == b[0] {
        lemma_lex_less_total(a.skip(1), b.skip(1));
        if a.skip(1) == b.skip(1) {
            assert(b =~= seq![b[0]] + b.skip(1));
        }
    }
}

/// What does not sort after `b` and lies before `c` in turn: if `b` is not
/// before `a`, and `b` is before `c`, then `a` is before `c`.
pub proof fn lemma_lex_not_after_then_less(a: Seq<u8>, b: Seq<u8>, c: Seq<u8>)
    requires
        !lex_less(b, a),
        lex_less(b, c),
    ensures
        lex_less(a, c),
{
    lemma_lex_less_total(a, b);
    if lex_less(a, b) {
        lemma_lex_less_transitive(a, b, c);
    }
}

/// Text that opens with ASCII characters is well-formed UTF-8 exactly when
/// what follows them is: an ASCII byte is a character of its own.
pub proof fn lemma_utf8_after_ascii(bytes: Seq<u8>, count: int)
    requires
        0 <= count <= bytes.len(),
        forall|i: int| 0 <= i < count ==> bytes[i] <= 0x7f,
    ensures
        valid_utf8(bytes) == valid_utf8(bytes.skip(count)),
    decreases count,
{
    if count == 0 {
        assert(bytes.skip(0) == bytes);
    } else {
        let first = bytes[0];
        assert(first & 0x7f == first) by (bit_vector)
            requires
                first <= 0x7f,
        ;
        assert(vstd::utf8::pop_first_scalar(bytes) == bytes.skip(1));
        lemma_utf8_after_ascii(bytes.skip(1), count - 1);
        assert(bytes.skip(1).skip(count - 1) == bytes.skip(count));
    }
}

/// Whether `a` sorts strictly before `b`.
pub fn bytes_less(a: &[u8], b: &[u8]) -> (less: bool)
    ensures
        less == lex_less(a@, b@),
{
    let mut i: usize = 0;
    assert(a@.skip(0) == a@);
    assert(b@.skip(0) == b@);
    while i < a.len() && i < b.len()
        invariant
            i <= a.len(),
            i <= b.len(),
            lex_less(a@, b@) == lex_less(a@.skip(i as int), b@.skip(i as int)),
        decreases a.len() - i,
    {
        if a[i] != b[i] {
            return a[i] < b[i];
        }
        assert(a@.skip(i as int).skip(1) == a@.skip(i + 1));
        assert(b@.skip(i as int).skip(1) == b@.skip(i + 1));
        i += 1;
    }
    i < b.len()
}

/// The part of `text` after a leading `prefix`, if it has one.
pub fn strip_prefix<'a>(text: &'a [u8], prefix: &[u8]) -> (rest: Option<&'a [u8]>)
    ensures
        match rest {
            Some(r) => has_prefix(text@, prefix@) && r@ == text@.skip(prefix@.len() as int),
            None => !has_prefix(text@, prefix@),
        },
{
    if prefix.len() > text.len() {
        return None;
    }
    let head = slice_subrange(text, 0, prefix.len());
    if bytes_eq(head, prefix) {
        let tail = slice_subrange(text, prefix.len(), text.len());
        Some(tail)
    } else {
        None
    }
}

/// Removes every leading `0x` from `text`.
pub fn trim_hex_prefix(text: &[u8]) -> (rest: &[u8])
    ensures
        rest@ == trim_hex_marker(text@),
{
    let mut i: usize = 0;
    assert(text@.skip(0) == text@);
    while text.len() - i >= 2 && text[i] == 0x30 && text[i + 1] == 0x78
        invariant
            i <= text.len(),
            trim_hex_marker(text@) == trim_hex_marker(text@.skip(i as int)),
        decreases text.len() - i,
    {
        proof {
            let here = text@.skip(i as int);
            assert(here.skip(2) == text@.skip(i + 2));
        }
        i += 2;
    }
    let rest = slice_subrange(text, i, text.len());
    rest
}

/// Index of the first `byte` at or after `from`, or the length of `text`.
pub fn find_from(text: &[u8], byte: u8, from: usize) -> (at: usize)
    requires
        from <= text.len(),
    ensures
        at == find_byte(text@, byte, from as int),
        from <= at <= text.len(),
        at < text.len() ==> text@[at as int] == byte,
        forall|k: int| from <= k < at ==> text@[k] != byte,
{
    let mut i: usize = from;
    while i < text.len() && text[i] != byte
        invariant
            from <= i <= text.len(),
            find_byte(text@, byte, from as int) == find_byte(text@, byte, i as int),
            forall|k: int| from <= k < i ==> text@[k] != byte,
        decreases text.len() - i,
    {
        i += 1;
    }
    i
}

} // verus!
