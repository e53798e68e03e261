//! The byte-level building blocks of the wire format: big-endian integers,
//! fixed-width fields and length-prefixed byte strings, each as a function on
//! sequences of bytes and as executable code that is proved to compute it.

use vstd::prelude::*;
use vstd::slice::{slice_subrange, slice_to_vec};

verus! {

/// What was wrong with the input of a parser.
#[derive(Clone, Copy, Debug, PartialEq, Eq, Structural)]
pub enum ParseErrorKind {
    /// The input ended before a field of `needed` bytes could be read.
    UnexpectedEnd { needed: usize },
    /// The discriminant of an account transaction payload is not one of the
    /// known ones.
    UnsupportedPayloadTag { tag: u8 },
    /// The discriminant of an update payload is not one of the known ones.
    UnknownUpdatePayloadTag { tag: u8 },
    /// The discriminant of a block item is not one of the known ones.
    UnsupportedBlockItemTag { tag: u8 },
    /// A header declares a payload larger than the protocol allows.
    PayloadTooLarge { size: u32 },
    /// A payload was parsed, but `remaining` bytes of the input that was
    /// declared to hold it were left over.
    LengthMismatch { remaining: usize },
    /// An update instruction carries no signature: at least one is required.
    NoSignatures,
    /// The keys of a map are not listed in strictly increasing order.
    KeysNotInOrder,
    /// A byte that should hold a boolean is neither 0 nor 1.
    InvalidBool { value: u8 },
    /// A threshold of zero.
    ZeroThreshold,
    /// A length prefix announces more bytes than the field may hold.
    TooLong { len: usize, max: usize },
    /// The signature scheme of a verification key is not known.
    UnsupportedKeyScheme { tag: u8 },
    /// The parser was not handed as many sizes as the payload has parts that
    /// are carried as they are: it needs `needed` of them.
    CarriedSizes { needed: u8 },
}

/// A parse error: what went wrong, and the offset in the input of the field
/// at which it went wrong.
#[derive(Clone, Copy, Debug, PartialEq, Eq, Structural)]
pub struct ParseError {
    pub kind: ParseErrorKind,
    pub at: usize,
}

/// What a parser yields: the value read together with the offset just behind
/// it, or an error.
pub type ParseResult<T> = Result<(T, usize), ParseError>;

/// The mathematical counterpart of [`ParseResult`].
pub type Parsed<T> = Result<(T, int), ParseError>;

/// The error of a parser that found `kind` wrong with the field at offset `at`.
pub open spec fn error_at<T>(kind: ParseErrorKind, at: int) -> Parsed<T> {
    Err(ParseError { kind, at: at as usize })
}

/// The error of a parser that needed `needed` bytes at offset `at` and found
/// fewer.
pub open spec fn end_error<T>(at: int, needed: int) -> Parsed<T> {
    error_at(ParseErrorKind::UnexpectedEnd { needed: needed as usize }, at)
}

/// An executable parser's result `r` is the mathematical result `s`, and the
/// offset it returns lies within an input of `len` bytes.
pub open spec fn reads<T: View>(r: ParseResult<T>, s: Parsed<T::V>, len: nat) -> bool {
    match r {
        Ok(p) => s == Ok::<(T::V, int), ParseError>((p.0@, p.1 as int)) && p.1 <= len,
        Err(e) => s == Err::<(T::V, int), ParseError>(e),
    }
}

/// The sequence `s` holds the bytes `e` at offset `at`.
pub open spec fn has_at(s: Seq<u8>, at: int, e: Seq<u8>) -> bool {
    &&& 0 <= at
    &&& at + e.len() <= s.len()
    &&& s.subrange(at, at + e.len()) == e
}

/// A sequence holds a concatenation at an offset exactly when it holds the
/// first part there and the second part right behind it.
pub proof fn lemma_has_at_concat(s: Seq<u8>, at: int, a: Seq<u8>, b: Seq<u8>)
    ensures
        has_at(s, at, a + b) <==> has_at(s, at, a) && has_at(s, at + a.len(), b),
{
    if has_at(s, at, a + b) {
        assert(s.subrange(at, at + a.len()) =~= (a + b).subrange(0, a.len() as int));
        assert((a + b).subrange(0, a.len() as int) =~= a);
        assert(s.subrange(at + a.len(), at + a.len() + b.len()) =~= (a + b).subrange(
            a.len() as int,
            (a.len() + b.len()) as int,
        ));
        assert((a + b).subrange(a.len() as int, (a.len() + b.len()) as int) =~= b);
    }
    if has_at(s, at, a) && has_at(s, at + a.len(), b) {
        assert(s.subrange(at, at + a.len() + b.len()) =~= s.subrange(at, at + a.len())
            + s.subrange(at + a.len(), at + a.len() + b.len()));
    }
}

/// Every sequence holds itself at offset 0.
pub proof fn lemma_has_at_whole(s: Seq<u8>)
    ensures
        has_at(s, 0, s),
{
    assert(s.subrange(0, s.len() as int) =~= s);
}

// ---------------------------------------------------------------------------
// Big-endian integers
// ---------------------------------------------------------------------------

/// The two bytes of a 16-bit integer, most significant first.
#[verifier::opaque]
pub open spec fn be_u16(x: u16) -> Seq<u8> {
    seq![(x / 0x100) as u8, (x % 0x100) as u8]
}

/// The four bytes of a 32-bit integer, most significant first: those of its
/// upper half, then those of its lower half.
#[verifier::opaque]
pub open spec fn be_u32(x: u32) -> Seq<u8> {
    be_u16((x / 0x1_0000) as u16) + be_u16((x % 0x1_0000) as u16)
}

/// The eight bytes of a 64-bit integer, most significant first: those of its
/// upper half, then those of its lower half.
#[verifier::opaque]
pub open spec fn be_u64(x: u64) -> Seq<u8> {
    be_u32((x / 0x1_0000_0000) as u32) + be_u32((x % 0x1_0000_0000) as u32)
}

/// The 16-bit integer that two bytes spell, most significant first.
#[verifier::opaque]
pub open spec fn u16_from_be(s: Seq<u8>) -> u16
    recommends
        s.len() == 2,
{
    (s[0] * 0x100 + s[1]) as u16
}

/// The 32-bit integer that four bytes spell, most significant first.
#[verifier::opaque]
pub open spec fn u32_from_be(s: Seq<u8>) -> u32
    recommends
        s.len() == 4,
{
    (u16_from_be(s.subrange(0, 2)) * 0x1_0000 + u16_from_be(s.subrange(2, 4))) as u32
}

/// The 64-bit integer that eight bytes spell, most significant first.
#[verifier::opaque]
pub open spec fn u64_from_be(s: Seq<u8>) -> u64
    recommends
        s.len() == 8,
{
    (u32_from_be(s.subrange(0, 4)) * 0x1_0000_0000 + u32_from_be(s.subrange(4, 8))) as u64
}

/// Reading back the bytes of a 16-bit integer gives the integer.
pub proof fn lemma_u16_round_trip(x: u16)
    ensures
        be_u16(x).len() == 2,
        u16_from_be(be_u16(x)) == x,
{
    reveal(be_u16);
    reveal(u16_from_be);
}

/// Reading back the bytes of a 32-bit integer gives the integer.
pub proof fn lemma_u32_round_trip(x: u32)
    ensures
        be_u32(x).len() == 4,
        u32_from_be(be_u32(x)) == x,
{
    reveal(be_u32);
    reveal(u32_from_be);
    let hi = (x / 0x1_0000) as u16;
    let lo = (x % 0x1_0000) as u16;
    lemma_u16_round_trip(hi);
    lemma_u16_round_trip(lo);
    assert(be_u32(x).subrange(0, 2) =~= be_u16(hi));
    assert(be_u32(x).subrange(2, 4) =~= be_u16(lo));
}

/// Reading back the bytes of a 64-bit integer gives the integer.
pub proof fn lemma_u64_round_trip(x: u64)
    ensures
        be_u64(x).len() == 8,
        u64_from_be(be_u64(x)) == x,
{
    reveal(be_u64);
    reveal(u64_from_be);
    let hi = (x / 0x1_0000_0000) as u32;
    let lo = (x % 0x1_0000_0000) as u32;
    lemma_u32_round_trip(hi);
    lemma_u32_round_trip(lo);
    assert(be_u64(x).subrange(0, 4) =~= be_u32(hi));
    assert(be_u64(x).subrange(4, 8) =~= be_u32(lo));
}

/// The encodings of integers have their fixed widths.
pub proof fn lemma_be_lengths()
    ensures
        forall|x: u16| #[trigger] be_u16(x).len() == 2,
        forall|x: u32| #[trigger] be_u32(x).len() == 4,
        forall|x: u64| #[trigger] be_u64(x).len() == 8,
{
    assert forall|x: u16| #[trigger] be_u16(x).len() == 2 by {
        lemma_u16_round_trip(x);
    }
    assert forall|x: u32| #[trigger] be_u32(x).len() == 4 by {
        lemma_u32_round_trip(x);
    }
    assert forall|x: u64| #[trigger] be_u64(x).len() == 8 by {
        lemma_u64_round_trip(x);
    }
}

// ---------------------------------------------------------------------------
// Parsers, as functions on sequences
// ---------------------------------------------------------------------------

/// One byte at offset `at`.
pub open spec fn parse_u8(s: Seq<u8>, at: int) -> Parsed<u8> {
    if at + 1 <= s.len() {
        Ok((s[at], at + 1))
    } else {
        end_error(at, 1)
    }
}

/// A big-endian 16-bit integer at offset `at`.
pub open spec fn parse_u16(s: Seq<u8>, at: int) -> Parsed<u16> {
    if at + 2 <= s.len() {
        Ok((u16_from_be(s.subrange(at, at + 2)), at + 2))
    } else {
        end_error(at, 2)
    }
}

/// A big-endian 32-bit integer at offset `at`.
pub open spec fn parse_u32(s: Seq<u8>, at: int) -> Parsed<u32> {
    if at + 4 <= s.len() {
        Ok((u32_from_be(s.subrange(at, at + 4)), at + 4))
    } else {
        end_error(at, 4)
    }
}

/// A big-endian 64-bit integer at offset `at`.
pub open spec fn parse_u64(s: Seq<u8>, at: int) -> Parsed<u64> {
    if at + 8 <= s.len() {
        Ok((u64_from_be(s.subrange(at, at + 8)), at + 8))
    } else {
        end_error(at, 8)
    }
}

/// A boolean at offset `at`: the byte 0 or the byte 1.
pub open spec fn parse_bool(s: Seq<u8>, at: int) -> Parsed<bool> {
    if at + 1 <= s.len() {
        if s[at] == 0 {
            Ok((false, at + 1))
        } else if s[at] == 1 {
            Ok((true, at + 1))
        } else {
            error_at(ParseErrorKind::InvalidBool { value: s[at] }, at)
        }
    } else {
        end_error(at, 1)
    }
}

/// A field of exactly `n` bytes at offset `at`.
pub open spec fn parse_fixed(s: Seq<u8>, at: int, n: int) -> Parsed<Seq<u8>> {
    if at + n <= s.len() {
        Ok((s.subrange(at, at + n), at + n))
    } else {
        end_error(at, n)
    }
}

/// A byte string at offset `at` that is preceded by its length as a 16-bit
/// integer and holds at most `max` bytes.
pub open spec fn parse_bytes16(s: Seq<u8>, at: int, max: int) -> Parsed<Seq<u8>> {
    match parse_u16(s, at) {
        Ok((len, next)) => if len > max {
            error_at(ParseErrorKind::TooLong { len: len as usize, max: max as usize }, at)
        } else {
            parse_fixed(s, next, len as int)
        },
        Err(e) => Err(e),
    }
}

/// A byte string at offset `at` that is preceded by its length as a 32-bit
/// integer and holds at most `max` bytes.
pub open spec fn parse_bytes32(s: Seq<u8>, at: int, max: int) -> Parsed<Seq<u8>> {
    match parse_u32(s, at) {
        Ok((len, next)) => if len > max {
            error_at(ParseErrorKind::TooLong { len: len as usize, max: max as usize }, at)
        } else {
            parse_fixed(s, next, len as int)
        },
        Err(e) => Err(e),
    }
}

/// The encoding of a boolean: one byte, 1 for true and 0 for false.
pub open spec fn enc_bool(b: bool) -> Seq<u8> {
    seq![if b { 1u8 } else { 0u8 }]
}

/// The encoding of a byte string with a 16-bit length prefix.
pub open spec fn enc_bytes16(b: Seq<u8>) -> Seq<u8> {
    be_u16(b.len() as u16) + b
}

/// The encoding of a byte string with a 32-bit length prefix.
pub open spec fn enc_bytes32(b: Seq<u8>) -> Seq<u8> {
    be_u32(b.len() as u32) + b
}

/// Runs the parser `f` on what the parser before it left: the value it read
/// and the offset behind it. An error of the first parser is the result.
pub open spec fn and_next<A, B>(r: Parsed<A>, f: spec_fn(A, int) -> Parsed<B>) -> Parsed<B> {
    match r {
        Ok((a, next)) => f(a, next),
        Err(e) => Err(e),
    }
}

/// The key of an entry of a map that is keyed by a byte.
pub open spec fn entry_key<T>() -> spec_fn((u8, T)) -> int {
    |e: (u8, T)| e.0 as int
}

// ---------------------------------------------------------------------------
// Sequences of items
// ---------------------------------------------------------------------------

/// The views of the items of a sequence, in order.
pub open spec fn views<T: View>(v: Seq<T>) -> Seq<T::V> {
    v.map_values(|x: T| x@)
}

/// The items list the entries `m` of a map: each has the index of the entry
/// at its place, and a value with the view of that entry's value.
pub open spec fn lists<K, V: View>(items: Seq<(K, &V)>, m: Seq<(K, V::V)>) -> bool {
    &&& items.len() == m.len()
    &&& forall|i: int|
        0 <= i < items.len() ==> (#[trigger] items[i]).0 == m[i].0 && items[i].1@ == m[i].1
}

/// The views of a sequence with one more item are the views of the sequence
/// with the view of the item added.
pub proof fn lemma_views_push<T: View>(v: Seq<T>, x: T)
    ensures
        views(v.push(x)) == views(v).push(x@),
{
    assert(views(v.push(x)) =~= views(v).push(x@));
}

/// The encodings of the items of a sequence, one after the other.
pub open spec fn enc_many<T>(v: Seq<T>, enc: spec_fn(T) -> Seq<u8>) -> Seq<u8>
    decreases v.len(),
{
    if v.len() == 0 {
        Seq::empty()
    } else {
        enc_many(v.drop_last(), enc) + enc(v.last())
    }
}

/// Adding an item to a sequence adds its encoding at the end.
pub proof fn lemma_enc_many_push<T>(v: Seq<T>, x: T, enc: spec_fn(T) -> Seq<u8>)
    ensures
        enc_many(v.push(x), enc) == enc_many(v, enc) + enc(x),
{
    assert(v.push(x).drop_last() =~= v);
}

/// The items of `v` are listed by strictly increasing key.
pub open spec fn increasing<T>(v: Seq<T>, key: spec_fn(T) -> int) -> bool {
    forall|i: int, j: int| 0 <= i < j < v.len() ==> key(#[trigger] v[i]) < key(#[trigger] v[j])
}

/// A list by strictly increasing key is determined by the items it holds:
/// two such lists that hold the same items are the same list.
pub proof fn lemma_increasing_same_items<T>(a: Seq<T>, b: Seq<T>, key: spec_fn(T) -> int)
    requires
        increasing(a, key),
        increasing(b, key),
        forall|x: T| a.contains(x) <==> b.contains(x),
    ensures
        a == b,
    decreases a.len(),
{
    if a.len() == 0 {
        if b.len() > 0 {
            assert(b.contains(b[0]));
        }
        assert(a =~= b);
    } else {
        let la = a.last();
        assert(a.contains(la));
        assert(b.contains(la));
        let lb = b.last();
        assert(b.contains(lb));
        assert(a.contains(lb));
        let ia = choose|i: int| 0 <= i < a.len() && a[i] == lb;
        let ib = choose|i: int| 0 <= i < b.len() && b[i] == la;
        if ia < a.len() - 1 {
            assert(key(a[ia]) < key(a[a.len() - 1]));
        }
        if ib < b.len() - 1 {
            assert(key(b[ib]) < key(b[b.len() - 1]));
        }
        assert(la == lb);
        let a0 = a.drop_last();
        let b0 = b.drop_last();
        assert forall|x: T| a0.contains(x) <==> b0.contains(x) by {
            if a0.contains(x) {
                let i = choose|i: int| 0 <= i < a0.len() && a0[i] == x;
                assert(a[i] == x);
                assert(key(a[i]) < key(a[a.len() - 1]));
                assert(a.contains(x));
                let j = choose|j: int| 0 <= j < b.len() && b[j] == x;
                assert(b0[j] == x);
            }
            if b0.contains(x) {
                let i = choose|i: int| 0 <= i < b0.len() && b0[i] == x;
                assert(b[i] == x);
                assert(key(b[i]) < key(b[b.len() - 1]));
                assert(b.contains(x));
                let j = choose|j: int| 0 <= j < a.len() && a[j] == x;
                assert(a0[j] == x);
            }
        }
        assert(increasing(a0, key)) by {
            assert forall|i: int, j: int| 0 <= i < j < a0.len() implies key(#[trigger] a0[i])
                < key(#[trigger] a0[j]) by {
                assert(key(a[i]) < key(a[j]));
            }
        }
        assert(increasing(b0, key)) by {
            assert forall|i: int, j: int| 0 <= i < j < b0.len() implies key(#[trigger] b0[i])
                < key(#[trigger] b0[j]) by {
                assert(key(b[i]) < key(b[j]));
            }
        }
        lemma_increasing_same_items(a0, b0, key);
        assert(a =~= a0.push(la));
        assert(b =~= b0.push(lb));
    }
}

/// `n` items in a row, starting at offset `at`. The parser of an item is
/// handed the input, the offset and the item's position in the row.
pub open spec fn parse_many<T>(
    s: Seq<u8>,
    at: int,
    n: nat,
    parse: spec_fn(Seq<u8>, int, int) -> Parsed<T>,
) -> Parsed<Seq<T>>
    decreases n,
{
    if n == 0 {
        Ok((Seq::empty(), at))
    } else {
        match parse_many(s, at, (n - 1) as nat, parse) {
            Ok((v, next)) => match parse(s, next, n - 1) {
                Ok((x, end)) => Ok((v.push(x), end)),
                Err(e) => Err(e),
            },
            Err(e) => Err(e),
        }
    }
}

/// `n` items in a row, starting at offset `at`, each of which must have a
/// greater key than the one before it.
pub open spec fn parse_increasing<T>(
    s: Seq<u8>,
    at: int,
    n: nat,
    parse: spec_fn(Seq<u8>, int, int) -> Parsed<T>,
    key: spec_fn(T) -> int,
) -> Parsed<Seq<T>>
    decreases n,
{
    if n == 0 {
        Ok((Seq::empty(), at))
    } else {
        match parse_increasing(s, at, (n - 1) as nat, parse, key) {
            Ok((v, next)) => match parse(s, next, n - 1) {
                Ok((x, end)) => if v.len() > 0 && key(x) <= key(v.last()) {
                    error_at(ParseErrorKind::KeysNotInOrder, next)
                } else {
                    Ok((v.push(x), end))
                },
                Err(e) => Err(e),
            },
            Err(e) => Err(e),
        }
    }
}

/// Once a row of `i` items fails to parse, every longer row fails in the
/// same way.
pub proof fn lemma_parse_many_error<T>(
    s: Seq<u8>,
    at: int,
    i: nat,
    n: nat,
    parse: spec_fn(Seq<u8>, int, int) -> Parsed<T>,
)
    requires
        i <= n,
        parse_many(s, at, i, parse) is Err,
    ensures
        parse_many(s, at, n, parse) == parse_many(s, at, i, parse),
    decreases n - i,
{
    if i < n {
        lemma_parse_many_error(s, at, i, (n - 1) as nat, parse);
    }
}

/// Once a row of `i` items fails to parse, every longer row fails in the
/// same way.
pub proof fn lemma_parse_increasing_error<T>(
    s: Seq<u8>,
    at: int,
    i: nat,
    n: nat,
    parse: spec_fn(Seq<u8>, int, int) -> Parsed<T>,
    key: spec_fn(T) -> int,
)
    requires
        i <= n,
        parse_increasing(s, at, i, parse, key) is Err,
    ensures
        parse_increasing(s, at, n, parse, key) == parse_increasing(s, at, i, parse, key),
    decreases n - i,
{
    if i < n {
        lemma_parse_increasing_error(s, at, i, (n - 1) as nat, parse, key);
    }
}

/// Items whose encodings the input holds in a row at `at`, each of which is
/// parsed from wherever the input holds its encoding, are parsed from there
/// as a row.
pub proof fn lemma_parse_many<T>(
    s: Seq<u8>,
    at: int,
    v: Seq<T>,
    enc: spec_fn(T) -> Seq<u8>,
    parse: spec_fn(Seq<u8>, int, int) -> Parsed<T>,
)
    requires
        has_at(s, at, enc_many(v, enc)),
        forall|a: int, i: int|
            0 <= i < v.len() && #[trigger] has_at(s, a, enc(v[i])) ==> parse(s, a, i) == Ok::<
                _,
                ParseError,
            >((v[i], a + enc(v[i]).len())),
    ensures
        parse_many(s, at, v.len(), parse) == Ok::<_, ParseError>(
            (v, at + enc_many(v, enc).len()),
        ),
    decreases v.len(),
{
    if v.len() > 0 {
        let front = v.drop_last();
        lemma_has_at_concat(s, at, enc_many(front, enc), enc(v.last()));
        assert forall|a: int, i: int|
            0 <= i < front.len() && #[trigger] has_at(s, a, enc(front[i])) implies parse(s, a, i)
            == Ok::<_, ParseError>((front[i], a + enc(front[i]).len())) by {
            assert(front[i] == v[i]);
        }
        lemma_parse_many(s, at, front, enc, parse);
        let next = at + enc_many(front, enc).len();
        assert(has_at(s, next, enc(v[v.len() - 1])));
        assert(front.push(v.last()) =~= v);
    } else {
        assert(v =~= Seq::empty());
    }
}

/// As [`lemma_parse_many`], for items that are listed by strictly increasing
/// key.
pub proof fn lemma_parse_increasing<T>(
    s: Seq<u8>,
    at: int,
    v: Seq<T>,
    enc: spec_fn(T) -> Seq<u8>,
    parse: spec_fn(Seq<u8>, int, int) -> Parsed<T>,
    key: spec_fn(T) -> int,
)
    requires
        has_at(s, at, enc_many(v, enc)),
        increasing(v, key),
        forall|a: int, i: int|
            0 <= i < v.len() && #[trigger] has_at(s, a, enc(v[i])) ==> parse(s, a, i) == Ok::<
                _,
                ParseError,
            >((v[i], a + enc(v[i]).len())),
    ensures
        parse_increasing(s, at, v.len(), parse, key) == Ok::<_, ParseError>(
            (v, at + enc_many(v, enc).len()),
        ),
    decreases v.len(),
{
    if v.len() > 0 {
        let front = v.drop_last();
        lemma_has_at_concat(s, at, enc_many(front, enc), enc(v.last()));
        assert forall|a: int, i: int|
            0 <= i < front.len() && #[trigger] has_at(s, a, enc(front[i])) implies parse(s, a, i)
            == Ok::<_, ParseError>((front[i], a + enc(front[i]).len())) by {
            assert(front[i] == v[i]);
        }
        assert(increasing(front, key)) by {
            assert forall|i: int, j: int| 0 <= i < j < front.len() implies key(
                #[trigger] front[i],
            ) < key(#[trigger] front[j]) by {
                assert(front[i] == v[i] && front[j] == v[j]);
            }
        }
        lemma_parse_increasing(s, at, front, enc, parse, key);
        let next = at + enc_many(front, enc).len();
        assert(has_at(s, next, enc(v[v.len() - 1])));
        if front.len() > 0 {
            assert(front.last() == v[v.len() - 2]);
            assert(key(v[v.len() - 2]) < key(v[v.len() - 1]));
        }
        assert(front.push(v.last()) =~= v);
    } else {
        assert(v =~= Seq::empty());
    }
}

/// What `parse_increasing` accepts is listed by strictly increasing key and
/// has the length asked for.
pub proof fn lemma_parse_increasing_is_increasing<T>(
    s: Seq<u8>,
    at: int,
    n: nat,
    parse: spec_fn(Seq<u8>, int, int) -> Parsed<T>,
    key: spec_fn(T) -> int,
)
    ensures
        parse_increasing(s, at, n, parse, key) matches Ok(p) ==> p.0.len() == n && increasing(
            p.0,
            key,
        ),
    decreases n,
{
    if n > 0 {
        lemma_parse_increasing_is_increasing(s, at, (n - 1) as nat, parse, key);
        if let Ok(p) = parse_increasing(s, at, n, parse, key) {
            let front = parse_increasing(s, at, (n - 1) as nat, parse, key).unwrap().0;
            assert(p.0.drop_last() =~= front);
            assert forall|i: int, j: int| 0 <= i < j < p.0.len() implies key(#[trigger] p.0[i])
                < key(#[trigger] p.0[j]) by {
                if j < n - 1 {
                    assert(p.0[i] == front[i] && p.0[j] == front[j]);
                } else if i < n - 1 {
                    assert(p.0[i] == front[i]);
                    if i < n - 2 {
                        assert(key(front[i]) < key(front[n - 2]));
                    }
                }
            }
        }
    }
}

// ---------------------------------------------------------------------------
// Parsing what was encoded
// ---------------------------------------------------------------------------

/// A byte that the input holds at `at` is parsed from there.
pub proof fn lemma_parse_u8(s: Seq<u8>, at: int, x: u8)
    requires
        has_at(s, at, seq![x]),
    ensures
        parse_u8(s, at) == Ok::<_, ParseError>((x, at + 1)),
{
    assert(s.subrange(at, at + 1)[0] == x);
}

/// A 16-bit integer whose bytes the input holds at `at` is parsed from there.
pub proof fn lemma_parse_u16(s: Seq<u8>, at: int, x: u16)
    requires
        has_at(s, at, be_u16(x)),
    ensures
        parse_u16(s, at) == Ok::<_, ParseError>((x, at + 2)),
{
    lemma_u16_round_trip(x);
}

/// A 32-bit integer whose bytes the input holds at `at` is parsed from there.
pub proof fn lemma_parse_u32(s: Seq<u8>, at: int, x: u32)
    requires
        has_at(s, at, be_u32(x)),
    ensures
        parse_u32(s, at) == Ok::<_, ParseError>((x, at + 4)),
{
    lemma_u32_round_trip(x);
}

/// A 64-bit integer whose bytes the input holds at `at` is parsed from there.
pub proof fn lemma_parse_u64(s: Seq<u8>, at: int, x: u64)
    requires
        has_at(s, at, be_u64(x)),
    ensures
        parse_u64(s, at) == Ok::<_, ParseError>((x, at + 8)),
{
    lemma_u64_round_trip(x);
}

/// A boolean whose byte the input holds at `at` is parsed from there.
pub proof fn lemma_parse_bool(s: Seq<u8>, at: int, b: bool)
    requires
        has_at(s, at, enc_bool(b)),
    ensures
        parse_bool(s, at) == Ok::<_, ParseError>((b, at + 1)),
{
    assert(s.subrange(at, at + 1)[0] == enc_bool(b)[0]);
}

/// A field that the input holds at `at` is parsed from there.
pub proof fn lemma_parse_fixed(s: Seq<u8>, at: int, b: Seq<u8>)
    requires
        has_at(s, at, b),
    ensures
        parse_fixed(s, at, b.len() as int) == Ok::<_, ParseError>((b, at + b.len())),
{
}

/// A byte string within the limit whose encoding the input holds at `at` is
/// parsed from there.
pub proof fn lemma_parse_bytes16(s: Seq<u8>, at: int, b: Seq<u8>, max: int)
    requires
        has_at(s, at, enc_bytes16(b)),
        b.len() <= max,
        b.len() <= u16::MAX,
    ensures
        parse_bytes16(s, at, max) == Ok::<_, ParseError>((b, at + 2 + b.len())),
{
    lemma_be_lengths();
    lemma_has_at_concat(s, at, be_u16(b.len() as u16), b);
    lemma_parse_u16(s, at, b.len() as u16);
}

/// A byte string within the limit whose encoding the input holds at `at` is
/// parsed from there.
pub proof fn lemma_parse_bytes32(s: Seq<u8>, at: int, b: Seq<u8>, max: int)
    requires
        has_at(s, at, enc_bytes32(b)),
        b.len() <= max,
        b.len() <= u32::MAX,
    ensures
        parse_bytes32(s, at, max) == Ok::<_, ParseError>((b, at + 4 + b.len())),
{
    lemma_be_lengths();
    lemma_has_at_concat(s, at, be_u32(b.len() as u32), b);
    lemma_parse_u32(s, at, b.len() as u32);
}

// ---------------------------------------------------------------------------
// Parsers look only at what they take
// ---------------------------------------------------------------------------

/// Two inputs hold the same first `n` bytes.
pub open spec fn agree(s1: Seq<u8>, s2: Seq<u8>, n: int) -> bool {
    &&& n <= s1.len()
    &&& n <= s2.len()
    &&& forall|i: int| 0 <= i < n ==> #[trigger] s1[i] == s2[i]
}

/// What a parser yields at offset `at` on the input `s1` is `r1`, and on the
/// input `s2` is `r2`, and it has looked only at what it took: where `r1` is
/// a value, the offset behind it lies within `s1` and not before `at`, and
/// on every input `s2` that holds the same bytes up to that offset the
/// parser yields the same.
pub open spec fn local_at<T>(r1: Parsed<T>, r2: Parsed<T>, s1: Seq<u8>, s2: Seq<u8>, at: int)
    -> bool {
    match r1 {
        Ok(p) => at <= p.1 <= s1.len() && (agree(s1, s2, p.1) ==> r2 == r1),
        Err(_) => true,
    }
}

/// The parsers of integers, booleans, fields and byte strings look only at
/// what they take.
pub proof fn lemma_primitives_local(s1: Seq<u8>, s2: Seq<u8>)
    ensures
        forall|at: int|
            0 <= at ==> local_at(#[trigger] parse_u8(s1, at), parse_u8(s2, at), s1, s2, at),
        forall|at: int|
            0 <= at ==> local_at(#[trigger] parse_u16(s1, at), parse_u16(s2, at), s1, s2, at),
        forall|at: int|
            0 <= at ==> local_at(#[trigger] parse_u32(s1, at), parse_u32(s2, at), s1, s2, at),
        forall|at: int|
            0 <= at ==> local_at(#[trigger] parse_u64(s1, at), parse_u64(s2, at), s1, s2, at),
        forall|at: int|
            0 <= at ==> local_at(#[trigger] parse_bool(s1, at), parse_bool(s2, at), s1, s2, at),
        forall|at: int, n: int|
            0 <= at && 0 <= n ==> local_at(
                #[trigger] parse_fixed(s1, at, n),
                parse_fixed(s2, at, n),
                s1,
                s2,
                at,
            ),
        forall|at: int, max: int|
            0 <= at ==> local_at(
                #[trigger] parse_bytes16(s1, at, max),
                parse_bytes16(s2, at, max),
                s1,
                s2,
                at,
            ),
        forall|at: int, max: int|
            0 <= at ==> local_at(
                #[trigger] parse_bytes32(s1, at, max),
                parse_bytes32(s2, at, max),
                s1,
                s2,
                at,
            ),
{
    assert forall|at: int, n: int| 0 <= at && 0 <= n implies local_at(
        #[trigger] parse_fixed(s1, at, n),
        parse_fixed(s2, at, n),
        s1,
        s2,
        at,
    ) by {
        if at + n <= s1.len() && agree(s1, s2, at + n) {
            assert(s1.subrange(at, at + n) =~= s2.subrange(at, at + n));
        }
    }
    assert forall|at: int| 0 <= at implies local_at(
        #[trigger] parse_u16(s1, at),
        parse_u16(s2, at),
        s1,
        s2,
        at,
    ) by {
        if at + 2 <= s1.len() && agree(s1, s2, at + 2) {
            assert(s1.subrange(at, at + 2) =~= s2.subrange(at, at + 2));
        }
    }
    assert forall|at: int| 0 <= at implies local_at(
        #[trigger] parse_u32(s1, at),
        parse_u32(s2, at),
        s1,
        s2,
        at,
    ) by {
        if at + 4 <= s1.len() && agree(s1, s2, at + 4) {
            assert(s1.subrange(at, at + 4) =~= s2.subrange(at, at + 4));
        }
    }
    assert forall|at: int| 0 <= at implies local_at(
        #[trigger] parse_u64(s1, at),
        parse_u64(s2, at),
        s1,
        s2,
        at,
    ) by {
        if at + 8 <= s1.len() && agree(s1, s2, at + 8) {
            assert(s1.subrange(at, at + 8) =~= s2.subrange(at, at + 8));
        }
    }
    assert forall|at: int, max: int| 0 <= at implies local_at(
        #[trigger] parse_bytes16(s1, at, max),
        parse_bytes16(s2, at, max),
        s1,
        s2,
        at,
    ) by {
        if let Ok(p) = parse_bytes16(s1, at, max) {
            let len = parse_u16(s1, at).unwrap().0;
            assert(local_at(parse_u16(s1, at), parse_u16(s2, at), s1, s2, at));
            assert(local_at(
                parse_fixed(s1, at + 2, len as int),
                parse_fixed(s2, at + 2, len as int),
                s1,
                s2,
                at + 2,
            ));
        }
    }
    assert forall|at: int, max: int| 0 <= at implies local_at(
        #[trigger] parse_bytes32(s1, at, max),
        parse_bytes32(s2, at, max),
        s1,
        s2,
        at,
    ) by {
        if let Ok(p) = parse_bytes32(s1, at, max) {
            let len = parse_u32(s1, at).unwrap().0;
            assert(local_at(parse_u32(s1, at), parse_u32(s2, at), s1, s2, at));
            assert(local_at(
                parse_fixed(s1, at + 4, len as int),
                parse_fixed(s2, at + 4, len as int),
                s1,
                s2,
                at + 4,
            ));
        }
    }
}

/// A row of items is parsed by looking only at what it takes, where the
/// parser of an item does so.
pub proof fn lemma_parse_many_local<T>(
    s1: Seq<u8>,
    s2: Seq<u8>,
    at: int,
    n: nat,
    parse: spec_fn(Seq<u8>, int, int) -> Parsed<T>,
)
    requires
        0 <= at <= s1.len(),
        forall|a: int, i: int|
            0 <= a <= s1.len() ==> local_at(
                #[trigger] parse(s1, a, i),
                parse(s2, a, i),
                s1,
                s2,
                a,
            ),
    ensures
        local_at(parse_many(s1, at, n, parse), parse_many(s2, at, n, parse), s1, s2, at),
    decreases n,
{
    if n > 0 {
        lemma_parse_many_local(s1, s2, at, (n - 1) as nat, parse);
        if let Ok(front) = parse_many(s1, at, (n - 1) as nat, parse) {
            assert(local_at(
                parse(s1, front.1, n - 1),
                parse(s2, front.1, n - 1),
                s1,
                s2,
                front.1,
            ));
        }
    }
}

/// A row of items by increasing key is parsed by looking only at what it
/// takes, where the parser of an item does so.
pub proof fn lemma_parse_increasing_local<T>(
    s1: Seq<u8>,
    s2: Seq<u8>,
    at: int,
    n: nat,
    parse: spec_fn(Seq<u8>, int, int) -> Parsed<T>,
    key: spec_fn(T) -> int,
)
    requires
        0 <= at <= s1.len(),
        forall|a: int, i: int|
            0 <= a <= s1.len() ==> local_at(
                #[trigger] parse(s1, a, i),
                parse(s2, a, i),
                s1,
                s2,
                a,
            ),
    ensures
        local_at(
            parse_increasing(s1, at, n, parse, key),
            parse_increasing(s2, at, n, parse, key),
            s1,
            s2,
            at,
        ),
    decreases n,
{
    if n > 0 {
        lemma_parse_increasing_local(s1, s2, at, (n - 1) as nat, parse, key);
        if let Ok(front) = parse_increasing(s1, at, (n - 1) as nat, parse, key) {
            assert(local_at(
                parse(s1, front.1, n - 1),
                parse(s2, front.1, n - 1),
                s1,
                s2,
                front.1,
            ));
        }
    }
}

// ---------------------------------------------------------------------------
// Executable writers
// ---------------------------------------------------------------------------

/// Appends one byte.
pub fn put_u8(out: &mut Vec<u8>, x: u8)
    ensures
        final(out)@ == old(out)@ + seq![x],
{
    out.push(x);
    assert(out@ =~= old(out)@ + seq![x]);
}

/// Appends a 16-bit integer, most significant byte first.
pub fn put_u16(out: &mut Vec<u8>, x: u16)
    ensures
        final(out)@ == old(out)@ + be_u16(x),
{
    out.push((x / 0x100) as u8);
    out.push((x % 0x100) as u8);
    proof {
        reveal(be_u16);
    }
    assert(out@ =~= old(out)@ + be_u16(x));
}

/// Appends a 32-bit integer, most significant byte first.
pub fn put_u32(out: &mut Vec<u8>, x: u32)
    ensures
        final(out)@ == old(out)@ + be_u32(x),
{
    put_u16(out, (x / 0x1_0000) as u16);
    put_u16(out, (x % 0x1_0000) as u16);
    proof {
        reveal(be_u32);
    }
    assert(out@ =~= old(out)@ + be_u32(x));
}

/// Appends a 64-bit integer, most significant byte first.
pub fn put_u64(out: &mut Vec<u8>, x: u64)
    ensures
        final(out)@ == old(out)@ + be_u64(x),
{
    put_u32(out, (x / 0x1_0000_0000) as u32);
    put_u32(out, (x % 0x1_0000_0000) as u32);
    proof {
        reveal(be_u64);
    }
    assert(out@ =~= old(out)@ + be_u64(x));
}

/// Appends a boolean as one byte.
pub fn put_bool(out: &mut Vec<u8>, b: bool)
    ensures
        final(out)@ == old(out)@ + enc_bool(b),
{
    out.push(if b { 1u8 } else { 0u8 });
    assert(out@ =~= old(out)@ + enc_bool(b));
}

/// Appends the given bytes.
pub fn put_bytes(out: &mut Vec<u8>, data: &[u8])
    ensures
        final(out)@ == old(out)@ + data@,
{
    let mut i: usize = 0;
    while i < data.len()
        invariant
            i <= data.len(),
            out@ == old(out)@ + data@.take(i as int),
        decreases data.len() - i,
    {
        out.push(data[i]);
        assert(data@.take(i + 1) =~= data@.take(i as int).push(data@[i as int]));
        assert(out@ =~= old(out)@ + data@.take(i + 1));
        i = i + 1;
    }
    assert(data@.take(i as int) =~= data@);
}

/// Appends the given bytes behind their number as a 16-bit integer.
pub fn put_bytes16(out: &mut Vec<u8>, data: &[u8])
    ensures
        final(out)@ == old(out)@ + enc_bytes16(data@),
{
    put_u16(out, data.len() as u16);
    put_bytes(out, data);
    assert(out@ =~= old(out)@ + enc_bytes16(data@));
}

/// Appends the given bytes behind their number as a 32-bit integer.
pub fn put_bytes32(out: &mut Vec<u8>, data: &[u8])
    ensures
        final(out)@ == old(out)@ + enc_bytes32(data@),
{
    put_u32(out, data.len() as u32);
    put_bytes(out, data);
    assert(out@ =~= old(out)@ + enc_bytes32(data@));
}

// ---------------------------------------------------------------------------
// Executable readers
// ---------------------------------------------------------------------------

/// The error value that stands for input that ended too early.
pub fn unexpected_end<T>(at: usize, needed: usize) -> (r: ParseResult<T>)
    ensures
        r == Err::<(T, usize), ParseError>(
            ParseError { kind: ParseErrorKind::UnexpectedEnd { needed }, at },
        ),
{
    Err(ParseError { kind: ParseErrorKind::UnexpectedEnd { needed }, at })
}

/// Reads one byte at offset `at`.
pub fn read_u8(src: &[u8], at: usize) -> (r: ParseResult<u8>)
    requires
        at <= src.len(),
    ensures
        reads(r, parse_u8(src@, at as int), src@.len()),
{
    if src.len() - at >= 1 {
        Ok((src[at], at + 1))
    } else {
        unexpected_end(at, 1)
    }
}

/// Reads a big-endian 16-bit integer at offset `at`.
pub fn read_u16(src: &[u8], at: usize) -> (r: ParseResult<u16>)
    requires
        at <= src.len(),
    ensures
        reads(r, parse_u16(src@, at as int), src@.len()),
{
    if src.len() - at >= 2 {
        proof {
            reveal(u16_from_be);
        }
        let x: u16 = (src[at] as u16) * 0x100 + (src[at + 1] as u16);
        Ok((x, at + 2))
    } else {
        unexpected_end(at, 2)
    }
}

/// Reads a big-endian 32-bit integer at offset `at`.
pub fn read_u32(src: &[u8], at: usize) -> (r: ParseResult<u32>)
    requires
        at <= src.len(),
    ensures
        reads(r, parse_u32(src@, at as int), src@.len()),
{
    if src.len() - at >= 4 {
        let hi: u32 = (src[at] as u32) * 0x100 + (src[at + 1] as u32);
        let lo: u32 = (src[at + 2] as u32) * 0x100 + (src[at + 3] as u32);
        proof {
            reveal(u16_from_be);
            reveal(u32_from_be);
            let four = src@.subrange(at as int, at + 4);
            assert(four.subrange(0, 2) =~= src@.subrange(at as int, at + 2));
            assert(four.subrange(2, 4) =~= src@.subrange(at + 2, at + 4));
        }
        Ok((hi * 0x1_0000 + lo, at + 4))
    } else {
        unexpected_end(at, 4)
    }
}

/// Reads a big-endian 64-bit integer at offset `at`.
pub fn read_u64(src: &[u8], at: usize) -> (r: ParseResult<u64>)
    requires
        at <= src.len(),
    ensures
        reads(r, parse_u64(src@, at as int), src@.len()),
{
    if src.len() - at >= 8 {
        let hi = read_u32(src, at);
        let lo = read_u32(src, at + 4);
        proof {
            reveal(u64_from_be);
            let eight = src@.subrange(at as int, at + 8);
            assert(eight.subrange(0, 4) =~= src@.subrange(at as int, at + 4));
            assert(eight.subrange(4, 8) =~= src@.subrange(at + 4, at + 8));
        }
        match (hi, lo) {
            (Ok((h, _)), Ok((l, _))) => Ok(((h as u64) * 0x1_0000_0000 + (l as u64), at + 8)),
            _ => unexpected_end(at, 8),
        }
    } else {
        unexpected_end(at, 8)
    }
}

/// Reads a boolean at offset `at`.
pub fn read_bool(src: &[u8], at: usize) -> (r: ParseResult<bool>)
    requires
        at <= src.len(),
    ensures
        reads(r, parse_bool(src@, at as int), src@.len()),
{
    if src.len() - at >= 1 {
        let b = src[at];
        if b == 0 {
            Ok((false, at + 1))
        } else if b == 1 {
            Ok((true, at + 1))
        } else {
            Err(ParseError { kind: ParseErrorKind::InvalidBool { value: b }, at })
        }
    } else {
        unexpected_end(at, 1)
    }
}

/// Reads `n` bytes at offset `at`.
pub fn read_fixed(src: &[u8], at: usize, n: usize) -> (r: ParseResult<Vec<u8>>)
    requires
        at <= src.len(),
    ensures
        reads(r, parse_fixed(src@, at as int, n as int), src@.len()),
        r matches Ok(p) ==> p.0@.len() == n,
{
    if src.len() - at >= n {
        let bytes = slice_to_vec(slice_subrange(src, at, at + n));
        Ok((bytes, at + n))
    } else {
        unexpected_end(at, n)
    }
}

/// Reads an array of `N` bytes at offset `at`.
pub fn read_array<const N: usize>(src: &[u8], at: usize) -> (r: ParseResult<[u8; N]>)
    requires
        at <= src.len(),
    ensures
        reads(r, parse_fixed(src@, at as int, N as int), src@.len()),
{
    if src.len() - at >= N {
        let mut bytes: [u8; N] = [0u8; N];
        let mut i: usize = 0;
        while i < N
            invariant
                i <= N,
                at + N <= src.len(),
                forall|j: int| 0 <= j < i ==> bytes@[j] == src@[at + j],
            decreases N - i,
        {
            bytes[i] = src[at + i];
            i = i + 1;
        }
        assert(bytes@ =~= src@.subrange(at as int, at + N));
        Ok((bytes, at + N))
    } else {
        unexpected_end(at, N)
    }
}

/// Reads a byte string of at most `max` bytes with a 16-bit length prefix.
pub fn read_bytes16(src: &[u8], at: usize, max: usize) -> (r: ParseResult<Vec<u8>>)
    requires
        at <= src.len(),
    ensures
        reads(r, parse_bytes16(src@, at as int, max as int), src@.len()),
        r matches Ok(p) ==> p.0@.len() <= max && p.0@.len() <= 65535,
{
    match read_u16(src, at) {
        Ok((len, next)) => {
            if len as usize > max {
                Err(
                    ParseError {
                        kind: ParseErrorKind::TooLong { len: len as usize, max },
                        at,
                    },
                )
            } else {
                read_fixed(src, next, len as usize)
            }
        },
        Err(e) => Err(e),
    }
}

/// Reads a byte string of at most `max` bytes with a 32-bit length prefix.
pub fn read_bytes32(src: &[u8], at: usize, max: usize) -> (r: ParseResult<Vec<u8>>)
    requires
        at <= src.len(),
    ensures
        reads(r, parse_bytes32(src@, at as int, max as int), src@.len()),
        r matches Ok(p) ==> p.0@.len() <= max,
{
    match read_u32(src, at) {
        Ok((len, next)) => {
            if len as usize > max {
                Err(
                    ParseError {
                        kind: ParseErrorKind::TooLong { len: len as usize, max },
                        at,
                    },
                )
            } else {
                read_fixed(src, next, len as usize)
            }
        },
        Err(e) => Err(e),
    }
}

} // verus!
