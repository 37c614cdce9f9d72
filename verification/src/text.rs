//! Character-level text helpers shared by every module of the crate.
//!
//! Strings are reasoned about through their character sequences (`s@`).
//! The helpers here cover blank checks (the `trim().is_empty()` idiom),
//! prefix handling, equality, ordering, and the decimal / hexadecimal
//! renderings used by identifiers, keys and fingerprints.
use vstd::prelude::*;

verus! {

broadcast use vstd::string::axiom_spec_iter;

/// Unicode `White_Space` property, as used by `char::is_whitespace`.
pub open spec fn is_ws(c: char) -> bool {
    let u = c as u32;
    (9 <= u && u <= 13) || u == 32 || u == 0x85 || u == 0xa0 || u == 0x1680 || (0x2000 <= u
        && u <= 0x200a) || u == 0x2028 || u == 0x2029 || u == 0x202f || u == 0x205f || u
        == 0x3000
}

/// A text is blank when every character is whitespace (so trimming leaves nothing).
pub open spec fn is_blank_seq(s: Seq<char>) -> bool {
    forall|i: int| 0 <= i < s.len() ==> is_ws(#[trigger] s[i])
}

/// `p` is a prefix of `s`.
pub open spec fn has_prefix(s: Seq<char>, p: Seq<char>) -> bool {
    p.len() <= s.len() && s.subrange(0, p.len() as int) == p
}

/// Strict lexicographic order on character sequences (code-point order),
/// which is the order in which std sorts `String` values.
pub open spec fn lex_lt(a: Seq<char>, b: Seq<char>) -> bool
    decreases a.len(),
{
    if a.len() == 0 {
        b.len() > 0
    } else if b.len() == 0 {
        false
    } else if a[0] != b[0] {
        (a[0] as u32) < (b[0] as u32)
    } else {
        lex_lt(a.drop_first(), b.drop_first())
    }
}

/// Lexicographic order extended with equality.
pub open spec fn lex_le(a: Seq<char>, b: Seq<char>) -> bool {
    a == b || lex_lt(a, b)
}

pub proof fn lemma_lex_irreflexive(a: Seq<char>)
    ensures
        !lex_lt(a, a),
    decreases a.len(),
{
    if a.len() > 0 {
        lemma_lex_irreflexive(a.drop_first());
    }
}

pub proof fn lemma_lex_transitive(a: Seq<char>, b: Seq<char>, c: Seq<char>)
    requires
        lex_lt(a, b),
        lex_lt(b, c),
    ensures
        lex_lt(a, c),
    decreases a.len(),
{
    if a.len() > 0 && b.len() > 0 && c.len() > 0 {
        if a[0] == b[0] && b[0] == c[0] {
            lemma_lex_transitive(a.drop_first(), b.drop_first(), c.drop_first());
        }
    }
}

pub proof fn lemma_lex_total(a: Seq<char>, b: Seq<char>)
    ensures
        a == b || lex_lt(a, b) || lex_lt(b, a),
    decreases a.len(),
{
    if a.len() > 0 && b.len() > 0 && a[0] == b[0] {
        lemma_lex_total(a.drop_first(), b.drop_first());
        if a.drop_first() == b.drop_first() {
            assert(a =~= seq![a[0]] + a.drop_first());
            assert(b =~= seq![b[0]] + b.drop_first());
        }
    } else if a.len() == 0 && b.len() == 0 {
        assert(a =~= b);
    } else if a.len() > 0 && b.len() > 0 {
        let x = a[0] as u32;
        let y = b[0] as u32;
        vstd::utf8::char_u32_cast(a[0], x);
        vstd::utf8::char_u32_cast(b[0], y);
        assert(x != y);
    }
}

pub proof fn lemma_lex_asymmetric(a: Seq<char>, b: Seq<char>)
    requires
        lex_lt(a, b),
    ensures
        !lex_lt(b, a),
{
    if lex_lt(b, a) {
        lemma_lex_transitive(a, b, a);
        lemma_lex_irreflexive(a);
    }
}

/// Sequences sorted in strictly increasing lexicographic order (hence without duplicates).
pub open spec fn strictly_sorted(s: Seq<Seq<char>>) -> bool {
    forall|i: int, j: int| 0 <= i < j < s.len() ==> lex_lt(#[trigger] s[i], #[trigger] s[j])
}

pub proof fn lemma_strictly_sorted_distinct(s: Seq<Seq<char>>, i: int, j: int)
    requires
        strictly_sorted(s),
        0 <= i < s.len(),
        0 <= j < s.len(),
        i != j,
    ensures
        s[i] != s[j],
{
    if i < j {
        assert(lex_lt(s[i], s[j]));
    } else {
        assert(lex_lt(s[j], s[i]));
    }
    lemma_lex_irreflexive(s[i]);
}

/// Decimal digit / hexadecimal digit for `d` in `0..16` (lowercase).
pub open spec fn hex_digit(d: int) -> char {
    if d == 0 {
        '0'
    } else if d == 1 {
        '1'
    } else if d == 2 {
        '2'
    } else if d == 3 {
        '3'
    } else if d == 4 {
        '4'
    } else if d == 5 {
        '5'
    } else if d == 6 {
        '6'
    } else if d == 7 {
        '7'
    } else if d == 8 {
        '8'
    } else if d == 9 {
        '9'
    } else if d == 10 {
        'a'
    } else if d == 11 {
        'b'
    } else if d == 12 {
        'c'
    } else if d == 13 {
        'd'
    } else if d == 14 {
        'e'
    } else {
        'f'
    }
}

/// Decimal rendering of a natural number, as produced by `to_string`.
pub open spec fn dec_seq(n: nat) -> Seq<char>
    decreases n,
{
    if n < 10 {
        seq![hex_digit(n as int)]
    } else {
        dec_seq(n / 10).push(hex_digit((n % 10) as int))
    }
}

/// Value of a hexadecimal digit character (either case), when it is one.
pub open spec fn hex_value(c: char) -> Option<int> {
    let u = c as u32;
    if 48 <= u && u <= 57 {
        Some(u - 48)
    } else if 97 <= u && u <= 102 {
        Some(u - 87)
    } else if 65 <= u && u <= 70 {
        Some(u - 55)
    } else {
        None
    }
}

pub open spec fn is_hex_char(c: char) -> bool {
    hex_value(c) is Some
}

/// Lowercase two-characters-per-byte hexadecimal encoding.
pub open spec fn hex_encode(bytes: Seq<u8>) -> Seq<char> {
    Seq::new(
        2 * bytes.len(),
        |i: int|
            if i % 2 == 0 {
                hex_digit((bytes[i / 2] / 16) as int)
            } else {
                hex_digit((bytes[i / 2] % 16) as int)
            },
    )
}

/// Inverse of [`hex_encode`], accepting either case; `None` on odd length or a non-hex character.
pub open spec fn hex_decode(s: Seq<char>) -> Option<Seq<u8>> {
    if s.len() % 2 == 0 && (forall|i: int| 0 <= i < s.len() ==> is_hex_char(#[trigger] s[i])) {
        Some(
            Seq::new(
                s.len() / 2,
                |k: int| (hex_value(s[2 * k]).unwrap() * 16 + hex_value(s[2 * k + 1]).unwrap()) as u8,
            ),
        )
    } else {
        None
    }
}

/// Zero-padded 16-digit lowercase hexadecimal rendering of a `u64` (`{:016x}`).
pub open spec fn hex16(n: u64) -> Seq<char> {
    Seq::new(16, |i: int| hex_digit(((n >> ((60 - 4 * i) as u64)) & 0xf) as int))
}

/// Calls `String::push`. Assumed: the string's characters gain `c` at the end.
#[verifier::external_body]
pub(crate) fn push_char(s: &mut String, c: char)
    ensures
        final(s)@ == old(s)@.push(c),
{
    s.push(c);
}

pub fn char_is_whitespace(c: char) -> (r: bool)
    ensures
        r == is_ws(c),
{
    let u = c as u32;
    (9 <= u && u <= 13) || u == 32 || u == 0x85 || u == 0xa0 || u == 0x1680 || (0x2000 <= u && u
        <= 0x200a) || u == 0x2028 || u == 0x2029 || u == 0x202f || u == 0x205f || u == 0x3000
}

/// The characters of a string.
pub fn chars_of(s: &str) -> (v: Vec<char>)
    ensures
        v@ == s@,
{
    let mut v: Vec<char> = Vec::new();
    for c in it: s.chars()
        invariant
            v@ == it.seq().take(it.index() as int),
    {
        v.push(c);
    }
    v
}

/// A string holding exactly the given characters.
pub fn string_from_chars(v: &[char]) -> (s: String)
    ensures
        s@ == v@,
{
    let mut s = String::new();
    let mut i: usize = 0;
    while i < v.len()
        invariant
            i <= v@.len(),
            s@ == v@.take(i as int),
        decreases v@.len() - i,
    {
        push_char(&mut s, v[i]);
        i = i + 1;
        assert(s@ =~= v@.take(i as int));
    }
    assert(v@.take(v@.len() as int) =~= v@);
    s
}

/// The string `a` followed by `b`.
pub fn concat(a: &str, b: &str) -> (s: String)
    ensures
        s@ == a@ + b@,
{
    let mut s = a.to_owned();
    s.append(b);
    s
}

/// `s.trim().is_empty()`: every character is whitespace.
pub fn is_blank(s: &str) -> (r: bool)
    ensures
        r == is_blank_seq(s@),
{
    let v = chars_of(s);
    let mut i: usize = 0;
    while i < v.len()
        invariant
            i <= v@.len(),
            v@ == s@,
            forall|k: int| 0 <= k < i ==> is_ws(#[trigger] v@[k]),
        decreases v@.len() - i,
    {
        if !char_is_whitespace(v[i]) {
            return false;
        }
        i = i + 1;
    }
    true
}

pub fn chars_eq(a: &[char], b: &[char]) -> (r: bool)
    ensures
        r == (a@ == b@),
{
    if a.len() != b.len() {
        return false;
    }
    let mut i: usize = 0;
    while i < a.len()
        invariant
            i <= a@.len(),
            a@.len() == b@.len(),
            forall|k: int| 0 <= k < i ==> a@[k] == b@[k],
        decreases a@.len() - i,
    {
        if a[i] != b[i] {
            return false;
        }
        i = i + 1;
    }
    assert(a@ =~= b@);
    true
}

/// String equality.
pub fn str_eq(a: &str, b: &str) -> (r: bool)
    ensures
        r == (a@ == b@),
{
    let va = chars_of(a);
    let vb = chars_of(b);
    chars_eq(va.as_slice(), vb.as_slice())
}

/// Whether `p` is a prefix of `s`.
pub fn starts_with(s: &str, p: &str) -> (r: bool)
    ensures
        r == has_prefix(s@, p@),
{
    let vs = chars_of(s);
    let vp = chars_of(p);
    if vp.len() > vs.len() {
        return false;
    }
    let mut i: usize = 0;
    while i < vp.len()
        invariant
            vs@ == s@,
            vp@ == p@,
            i <= vp@.len(),
            vp@.len() <= vs@.len(),
            forall|k: int| 0 <= k < i ==> vs@[k] == vp@[k],
        decreases vp@.len() - i,
    {
        if vs[i] != vp[i] {
            assert(vs@.subrange(0, vp@.len() as int)[i as int] != vp@[i as int]);
            assert(vs@.subrange(0, vp@.len() as int) != vp@);
            return false;
        }
        i = i + 1;
    }
    assert(vs@.subrange(0, vp@.len() as int) =~= vp@);
    true
}

/// `s.strip_prefix(p)`: the rest of `s` after the prefix `p`, when `p` is a prefix.
pub fn strip_prefix(s: &str, p: &str) -> (r: Option<String>)
    ensures
        r is Some <==> has_prefix(s@, p@),
        r matches Some(rest) ==> rest@ == s@.skip(p@.len() as int),
{
    if !starts_with(s, p) {
        return None;
    }
    let vs = chars_of(s);
    let vp = chars_of(p);
    let rest = slice_from(vs.as_slice(), vp.len());
    Some(string_from_chars(rest.as_slice()))
}

/// The characters of `v` from position `start` on.
pub fn slice_from(v: &[char], start: usize) -> (r: Vec<char>)
    requires
        start <= v@.len(),
    ensures
        r@ == v@.skip(start as int),
{
    let mut r: Vec<char> = Vec::new();
    let mut i = start;
    while i < v.len()
        invariant
            start <= i <= v@.len(),
            r@ == v@.subrange(start as int, i as int),
        decreases v@.len() - i,
    {
        r.push(v[i]);
        i = i + 1;
        assert(r@ =~= v@.subrange(start as int, i as int));
    }
    assert(v@.skip(start as int) =~= v@.subrange(start as int, v@.len() as int));
    r
}

/// Three-way comparison outcome.
#[derive(Debug, Clone, Copy, PartialEq, Eq, Structural)]
pub enum Order {
    Less,
    Equal,
    Greater,
}

pub proof fn lemma_lex_common_prefix(a: Seq<char>, b: Seq<char>, i: int)
    requires
        0 <= i <= a.len(),
        i <= b.len(),
        a.subrange(0, i) == b.subrange(0, i),
    ensures
        lex_lt(a, b) == lex_lt(a.skip(i), b.skip(i)),
    decreases i,
{
    if i > 0 {
        assert(a[0] == a.subrange(0, i)[0]);
        assert(b[0] == b.subrange(0, i)[0]);
        assert(a.drop_first().subrange(0, i - 1) =~= a.subrange(0, i).drop_first());
        assert(b.drop_first().subrange(0, i - 1) =~= b.subrange(0, i).drop_first());
        lemma_lex_common_prefix(a.drop_first(), b.drop_first(), i - 1);
        assert(a.drop_first().skip(i - 1) =~= a.skip(i));
        assert(b.drop_first().skip(i - 1) =~= b.skip(i));
    } else {
        assert(a.skip(0) =~= a);
        assert(b.skip(0) =~= b);
    }
}

/// Lexicographic comparison of character slices.
pub fn compare_chars(a: &[char], b: &[char]) -> (r: Order)
    ensures
        r == Order::Equal <==> a@ == b@,
        r == Order::Less <==> lex_lt(a@, b@),
        r == Order::Greater <==> lex_lt(b@, a@),
{
    let mut i: usize = 0;
    while i < a.len() && i < b.len()
        invariant
            i <= a@.len(),
            i <= b@.len(),
            a@.subrange(0, i as int) == b@.subrange(0, i as int),
        decreases a@.len() - i,
    {
        if a[i] != b[i] {
            proof {
                lemma_lex_common_prefix(a@, b@, i as int);
                lemma_lex_common_prefix(b@, a@, i as int);
                assert(a@.skip(i as int)[0] == a@[i as int]);
                assert(b@.skip(i as int)[0] == b@[i as int]);
                vstd::utf8::char_u32_cast(a@[i as int], a@[i as int] as u32);
                vstd::utf8::char_u32_cast(b@[i as int], b@[i as int] as u32);
                assert(a@[i as int] != b@[i as int]);
                if a@ == b@ {
                    assert(a@[i as int] == b@[i as int]);
                }
            }
            if (a[i] as u32) < (b[i] as u32) {
                return Order::Less;
            } else {
                return Order::Greater;
            }
        }
        proof {
            assert(a@.subrange(0, i + 1) =~= a@.subrange(0, i as int).push(a@[i as int]));
            assert(b@.subrange(0, i + 1) =~= b@.subrange(0, i as int).push(b@[i as int]));
        }
        i = i + 1;
    }
    proof {
        lemma_lex_common_prefix(a@, b@, i as int);
        lemma_lex_common_prefix(b@, a@, i as int);
        if a@.len() == b@.len() {
            assert(a@ =~= a@.subrange(0, i as int));
            assert(b@ =~= b@.subrange(0, i as int));
        } else if a@ == b@ {
            assert(false);
        }
    }
    if a.len() == b.len() {
        Order::Equal
    } else if a.len() < b.len() {
        Order::Less
    } else {
        Order::Greater
    }
}

/// Lexicographic comparison of strings.
pub fn compare_str(a: &str, b: &str) -> (r: Order)
    ensures
        r == Order::Equal <==> a@ == b@,
        r == Order::Less <==> lex_lt(a@, b@),
        r == Order::Greater <==> lex_lt(b@, a@),
{
    let va = chars_of(a);
    let vb = chars_of(b);
    compare_chars(va.as_slice(), vb.as_slice())
}

/// The digit character for `d` in `0..16`.
pub fn hex_char(d: u8) -> (c: char)
    requires
        d < 16,
    ensures
        c == hex_digit(d as int),
{
    match d {
        0 => '0',
        1 => '1',
        2 => '2',
        3 => '3',
        4 => '4',
        5 => '5',
        6 => '6',
        7 => '7',
        8 => '8',
        9 => '9',
        10 => 'a',
        11 => 'b',
        12 => 'c',
        13 => 'd',
        14 => 'e',
        _ => 'f',
    }
}

/// Appends the decimal rendering of `n`.
pub fn push_dec(out: &mut String, n: u64)
    ensures
        final(out)@ == old(out)@ + dec_seq(n as nat),
    decreases n,
{
    if n >= 10 {
        push_dec(out, n / 10);
    }
    push_char(out, hex_char((n % 10) as u8));
    proof {
        if n >= 10 {
            assert(final(out)@ =~= old(out)@ + dec_seq(n as nat));
        } else {
            assert(final(out)@ =~= old(out)@ + dec_seq(n as nat));
        }
    }
}

/// Decimal rendering of `n` (`n.to_string()`).
pub fn dec_string(n: u64) -> (s: String)
    ensures
        s@ == dec_seq(n as nat),
{
    let mut s = String::new();
    push_dec(&mut s, n);
    assert(s@ =~= dec_seq(n as nat));
    s
}

/// Appends `{:016x}` of `n`.
pub fn push_hex16(out: &mut String, n: u64)
    ensures
        final(out)@ == old(out)@ + hex16(n),
{
    let ghost start = out@;
    let mut i: u64 = 0;
    while i < 16
        invariant
            i <= 16,
            out@ == start + hex16(n).take(i as int),
        decreases 16 - i,
    {
        let shift: u64 = 60 - 4 * i;
        let d = ((n >> shift) & 0xf) as u8;
        assert(((n >> shift) & 0xf) < 16) by (bit_vector);
        push_char(out, hex_char(d));
        proof {
            assert(hex16(n)[i as int] == hex_digit(((n >> ((60 - 4 * i) as u64)) & 0xf) as int));
            assert(hex16(n).take(i + 1) =~= hex16(n).take(i as int).push(hex16(n)[i as int]));
        }
        i = i + 1;
    }
    assert(hex16(n).take(16) =~= hex16(n));
}

/// Appends the lowercase hexadecimal encoding of `bytes`.
pub fn push_hex_bytes(out: &mut String, bytes: &[u8])
    ensures
        final(out)@ == old(out)@ + hex_encode(bytes@),
{
    let ghost start = out@;
    let mut i: usize = 0;
    while i < bytes.len()
        invariant
            i <= bytes@.len(),
            out@ == start + hex_encode(bytes@).take(2 * i),
        decreases bytes@.len() - i,
    {
        let b = bytes[i];
        push_char(out, hex_char(b / 16));
        push_char(out, hex_char(b % 16));
        proof {
            let h = hex_encode(bytes@);
            assert(h[2 * i as int] == hex_digit((b / 16) as int));
            assert(h[2 * i + 1] == hex_digit((b % 16) as int));
            assert(h.take(2 * i + 2) =~= h.take(2 * i as int).push(h[2 * i as int]).push(
                h[2 * i + 1],
            ));
        }
        i = i + 1;
    }
    assert(hex_encode(bytes@).take(2 * bytes@.len() as int) =~= hex_encode(bytes@));
}

/// Value of one hexadecimal digit character.
pub fn hex_char_value(c: char) -> (r: Option<u8>)
    ensures
        r is Some <==> hex_value(c) is Some,
        r matches Some(v) ==> v as int == hex_value(c).unwrap() && v < 16,
{
    let u = c as u32;
    if 48 <= u && u <= 57 {
        Some((u - 48) as u8)
    } else if 97 <= u && u <= 102 {
        Some((u - 87) as u8)
    } else if 65 <= u && u <= 70 {
        Some((u - 55) as u8)
    } else {
        None
    }
}

/// Decodes hexadecimal text into bytes.
pub fn decode_hex(value: &str) -> (r: Option<Vec<u8>>)
    ensures
        r is Some <==> hex_decode(value@) is Some,
        r matches Some(bytes) ==> bytes@ == hex_decode(value@).unwrap(),
{
    let v = chars_of(value);
    if v.len() % 2 != 0 {
        return None;
    }
    let mut out: Vec<u8> = Vec::new();
    let mut i: usize = 0;
    while i < v.len()
        invariant
            v@ == value@,
            v@.len() % 2 == 0,
            i <= v@.len(),
            i % 2 == 0,
            out@.len() == i / 2,
            forall|k: int| 0 <= k < i ==> is_hex_char(#[trigger] v@[k]),
            forall|k: int|
                0 <= k < i / 2 ==> #[trigger] out@[k] == (hex_value(v@[2 * k]).unwrap() * 16
                    + hex_value(v@[2 * k + 1]).unwrap()) as u8,
        decreases v@.len() - i,
    {
        let high = match hex_char_value(v[i]) {
            Some(h) => h,
            None => {
                return None;
            },
        };
        let low = match hex_char_value(v[i + 1]) {
            Some(l) => l,
            None => {
                return None;
            },
        };
        out.push(high * 16 + low);
        proof {
            assert(2 * (i as int / 2) == i);
        }
        i = i + 2;
    }
    proof {
        assert(out@ =~= hex_decode(value@).unwrap());
    }
    Some(out)
}

/// Pieces of `s` between occurrences of `sep` (as `str::split` yields them).
pub open spec fn split_on(s: Seq<char>, sep: char) -> Seq<Seq<char>>
    decreases s.len(),
{
    if s.len() == 0 {
        seq![Seq::<char>::empty()]
    } else {
        let r = split_on(s.drop_last(), sep);
        if s.last() == sep {
            r.push(Seq::<char>::empty())
        } else {
            r.update(r.len() - 1, r.last().push(s.last()))
        }
    }
}

pub proof fn lemma_split_on_nonempty(s: Seq<char>, sep: char)
    ensures
        split_on(s, sep).len() >= 1,
    decreases s.len(),
{
    if s.len() > 0 {
        lemma_split_on_nonempty(s.drop_last(), sep);
    }
}

/// Splitting `a`, the separator, then `b` splits `a` and `b` apart.
pub proof fn lemma_split_on_concat(a: Seq<char>, b: Seq<char>, sep: char)
    ensures
        split_on(a + seq![sep] + b, sep) == split_on(a, sep) + split_on(b, sep),
    decreases b.len(),
{
    let s = a + seq![sep] + b;
    if b.len() == 0 {
        assert(s.drop_last() =~= a);
        assert(split_on(b, sep) =~= seq![Seq::<char>::empty()]);
        assert(split_on(s, sep) =~= split_on(a, sep) + split_on(b, sep));
    } else {
        let b0 = b.drop_last();
        lemma_split_on_concat(a, b0, sep);
        lemma_split_on_nonempty(b0, sep);
        assert(s.drop_last() =~= a + seq![sep] + b0);
        assert(s.last() == b.last());
        let r0 = split_on(a, sep);
        let r1 = split_on(b0, sep);
        if b.last() == sep {
            assert(split_on(s, sep) =~= r0 + r1.push(Seq::<char>::empty()));
        } else {
            let r = r0 + r1;
            assert(r.last() == r1.last());
            assert(split_on(s, sep) =~= r0 + r1.update(r1.len() - 1, r1.last().push(b.last())));
        }
    }
}

/// A text without the separator is one piece.
pub proof fn lemma_split_on_no_sep(s: Seq<char>, sep: char)
    requires
        forall|i: int| 0 <= i < s.len() ==> s[i] != sep,
    ensures
        split_on(s, sep) == seq![s],
    decreases s.len(),
{
    if s.len() > 0 {
        lemma_split_on_no_sep(s.drop_last(), sep);
        assert(s.drop_last().push(s.last()) =~= s);
        assert(seq![s.drop_last()].update(0, s.drop_last().push(s.last())) =~= seq![s]);
    } else {
        assert(s =~= Seq::<char>::empty());
    }
}

/// The value of a lowercase hexadecimal digit.
pub proof fn lemma_hex_digit_value(d: int)
    requires
        0 <= d < 16,
    ensures
        hex_value(hex_digit(d)) == Some(d),
{
}

/// Hexadecimal decoding inverts hexadecimal encoding.
pub proof fn lemma_hex_round_trip(bytes: Seq<u8>)
    ensures
        hex_decode(hex_encode(bytes)) == Some(bytes),
        forall|i: int| 0 <= i < hex_encode(bytes).len() ==> is_hex_char(#[trigger] hex_encode(bytes)[i]),
{
    let h = hex_encode(bytes);
    assert forall|i: int| 0 <= i < h.len() implies is_hex_char(#[trigger] h[i]) by {
        if i % 2 == 0 {
            lemma_hex_digit_value((bytes[i / 2] / 16) as int);
        } else {
            lemma_hex_digit_value((bytes[i / 2] % 16) as int);
        }
    }
    let d = hex_decode(h).unwrap();
    assert forall|k: int| 0 <= k < bytes.len() implies #[trigger] d[k] == bytes[k] by {
        assert((2 * k) / 2 == k);
        assert((2 * k + 1) / 2 == k);
        assert((2 * k) % 2 == 0);
        assert((2 * k + 1) % 2 == 1);
        lemma_hex_digit_value((bytes[k] / 16) as int);
        lemma_hex_digit_value((bytes[k] % 16) as int);
        assert((bytes[k] / 16) * 16 + bytes[k] % 16 == bytes[k]);
    }
    assert(d =~= bytes);
}

/// Views of a vector of character vectors.
pub open spec fn views_of(v: Seq<Vec<char>>) -> Seq<Seq<char>> {
    v.map_values(|x: Vec<char>| x@)
}

/// Splits characters at every `sep`.
pub fn split_chars(s: &[char], sep: char) -> (r: Vec<Vec<char>>)
    ensures
        views_of(r@) == split_on(s@, sep),
{
    let mut done: Vec<Vec<char>> = Vec::new();
    let mut cur: Vec<char> = Vec::new();
    let mut i: usize = 0;
    while i < s.len()
        invariant
            i <= s@.len(),
            views_of(done@).push(cur@) == split_on(s@.take(i as int), sep),
        decreases s@.len() - i,
    {
        let c = s[i];
        proof {
            lemma_split_on_nonempty(s@.take(i as int), sep);
            assert(s@.take(i + 1).drop_last() =~= s@.take(i as int));
            assert(s@.take(i + 1).last() == c);
        }
        if c == sep {
            let finished = cur;
            done.push(finished);
            cur = Vec::new();
            proof {
                assert(views_of(done@).push(cur@) =~= split_on(s@.take(i as int), sep).push(
                    Seq::<char>::empty(),
                ));
            }
        } else {
            let ghost before = cur@;
            cur.push(c);
            proof {
                let r = split_on(s@.take(i as int), sep);
                assert(r.last() == before);
                assert(views_of(done@).push(cur@) =~= r.update(r.len() - 1, r.last().push(c)));
            }
        }
        i = i + 1;
    }
    assert(s@.take(s@.len() as int) =~= s@);
    done.push(cur);
    assert(views_of(done@) =~= split_on(s@, sep));
    done
}

/// Whether every character of `v` is whitespace.
pub fn is_blank_chars(v: &[char]) -> (r: bool)
    ensures
        r == is_blank_seq(v@),
{
    let mut i: usize = 0;
    while i < v.len()
        invariant
            i <= v@.len(),
            forall|k: int| 0 <= k < i ==> is_ws(#[trigger] v@[k]),
        decreases v@.len() - i,
    {
        if !char_is_whitespace(v[i]) {
            return false;
        }
        i = i + 1;
    }
    true
}

/// A copy of the characters.
pub fn copy_chars(v: &[char]) -> (r: Vec<char>)
    ensures
        r@ == v@,
{
    let r = slice_from(v, 0);
    assert(v@.skip(0) =~= v@);
    r
}

/// Character views of a sequence of strings.
pub open spec fn str_views(v: Seq<String>) -> Seq<Seq<char>> {
    v.map_values(|s: String| s@)
}

/// An exact copy of a vector of strings.
pub fn copy_strings(v: &Vec<String>) -> (r: Vec<String>)
    ensures
        r@ == v@,
{
    let mut r: Vec<String> = Vec::new();
    let mut i: usize = 0;
    while i < v.len()
        invariant
            i <= v@.len(),
            r@ == v@.take(i as int),
        decreases v@.len() - i,
    {
        r.push(v[i].clone());
        i = i + 1;
        assert(r@ =~= v@.take(i as int));
    }
    assert(v@.take(v@.len() as int) =~= v@);
    r
}


/// Characters with leading whitespace removed.
pub open spec fn trim_start_seq(s: Seq<char>) -> Seq<char>
    decreases s.len(),
{
    if s.len() > 0 && is_ws(s[0]) {
        trim_start_seq(s.drop_first())
    } else {
        s
    }
}

/// Characters with trailing whitespace removed.
pub open spec fn trim_end_seq(s: Seq<char>) -> Seq<char>
    decreases s.len(),
{
    if s.len() > 0 && is_ws(s.last()) {
        trim_end_seq(s.drop_last())
    } else {
        s
    }
}

/// Characters with surrounding whitespace removed (what `str::trim` keeps).
pub open spec fn trimmed(s: Seq<char>) -> Seq<char> {
    trim_end_seq(trim_start_seq(s))
}

/// `s.trim()`, as characters.
pub fn trim_chars(s: &str) -> (r: Vec<char>)
    ensures
        r@ == trimmed(s@),
{
    let v = chars_of(s);
    let n = v.len();
    let mut i: usize = 0;
    assert(v@.skip(0) =~= v@);
    while i < n && char_is_whitespace(v[i])
        invariant
            i <= n,
            n == v@.len(),
            trim_start_seq(v@) == trim_start_seq(v@.skip(i as int)),
        decreases n - i,
    {
        proof {
            assert(v@.skip(i as int)[0] == v@[i as int]);
            assert(v@.skip(i as int).drop_first() =~= v@.skip(i + 1));
        }
        i = i + 1;
    }
    proof {
        if i < n {
            assert(v@.skip(i as int)[0] == v@[i as int]);
        }
        assert(trim_start_seq(v@) == v@.skip(i as int));
    }
    let mut j: usize = n;
    assert(v@.skip(i as int) =~= v@.subrange(i as int, j as int));
    while j > i && char_is_whitespace(v[j - 1])
        invariant
            i <= j <= n,
            n == v@.len(),
            trim_start_seq(v@) == v@.skip(i as int),
            trim_end_seq(v@.skip(i as int)) == trim_end_seq(v@.subrange(i as int, j as int)),
        decreases j - i,
    {
        proof {
            let t = v@.subrange(i as int, j as int);
            assert(t.last() == v@[j - 1]);
            assert(t.drop_last() =~= v@.subrange(i as int, j - 1));
        }
        j = j - 1;
    }
    proof {
        let t = v@.subrange(i as int, j as int);
        if j > i {
            assert(t.last() == v@[j - 1]);
        }
    }
    let mut r: Vec<char> = Vec::new();
    let mut k: usize = i;
    while k < j
        invariant
            i <= k <= j <= n,
            n == v@.len(),
            r@ == v@.subrange(i as int, k as int),
        decreases j - k,
    {
        r.push(v[k]);
        proof {
            assert(r@ =~= v@.subrange(i as int, k + 1));
        }
        k = k + 1;
    }
    r
}

/// `parts` joined with `sep` between neighbours.
pub open spec fn join_seqs(parts: Seq<Seq<char>>, sep: Seq<char>) -> Seq<char>
    decreases parts.len(),
{
    if parts.len() == 0 {
        Seq::empty()
    } else if parts.len() == 1 {
        parts[0]
    } else {
        join_seqs(parts.drop_last(), sep) + sep + parts.last()
    }
}

/// The strings joined with `sep` between neighbours.
pub fn join_strings(parts: &Vec<String>, sep: &str) -> (r: String)
    ensures
        r@ == join_seqs(str_views(parts@), sep@),
{
    let ghost views = str_views(parts@);
    let mut out = String::new();
    let mut i: usize = 0;
    while i < parts.len()
        invariant
            i <= parts@.len(),
            views == str_views(parts@),
            out@ == join_seqs(views.take(i as int), sep@),
        decreases parts@.len() - i,
    {
        let ghost before = out@;
        if i > 0 {
            out.append(sep);
        }
        out.append(parts[i].as_str());
        proof {
            assert(views.take(i + 1).drop_last() =~= views.take(i as int));
            assert(views.take(i + 1).last() == parts@[i as int]@);
            if i == 0 {
                assert(before =~= Seq::<char>::empty());
                assert(out@ =~= views.take(1)[0]);
            } else {
                assert(out@ =~= before + sep@ + parts@[i as int]@);
            }
        }
        i = i + 1;
    }
    proof {
        assert(views.take(parts@.len() as int) =~= views);
    }
    out
}

} // verus!
