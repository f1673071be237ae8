//! Verified text utilities: ASCII case folding, lexicographic ordering of
//! character sequences, decimal rendering of integers, and space padding.

use vstd::prelude::*;

verus! {

// --- ASCII case folding -------------------------------------------------

/// The code point of `c`, with ASCII upper-case letters folded to lower case.
pub open spec fn fold_case(c: char) -> u32 {
    if 'A' <= c && c <= 'Z' {
        (c as u32 + 32) as u32
    } else {
        c as u32
    }
}

/// Two texts are equal up to ASCII case.
pub open spec fn eq_ignore_case(a: Seq<char>, b: Seq<char>) -> bool {
    a.len() == b.len() && forall|i: int| 0 <= i < a.len() ==> fold_case(a[i]) == fold_case(b[i])
}

fn fold_char(c: char) -> (r: u32)
    ensures
        r == fold_case(c),
{
    if 'A' <= c && c <= 'Z' {
        c as u32 + 32
    } else {
        c as u32
    }
}

/// Compare two strings for equality ignoring ASCII case.
pub fn str_eq_ignore_case(a: &str, b: &str) -> (r: bool)
    ensures
        r == eq_ignore_case(a@, b@),
{
    let alen = a.unicode_len();
    let blen = b.unicode_len();
    if alen != blen {
        return false;
    }
    let mut i: usize = 0;
    while i < alen
        invariant
            alen == a@.len(),
            blen == b@.len(),
            alen == blen,
            i <= alen,
            forall|j: int| 0 <= j < i ==> fold_case(a@[j]) == fold_case(b@[j]),
        decreases alen - i,
    {
        let ca = a.get_char(i);
        let cb = b.get_char(i);
        if fold_char(ca) != fold_char(cb) {
            return false;
        }
        i += 1;
    }
    true
}

/// Compare two strings for equality, character by character.
pub fn str_eq(a: &str, b: &str) -> (r: bool)
    ensures
        r == (a@ == b@),
{
    let alen = a.unicode_len();
    let blen = b.unicode_len();
    if alen != blen {
        return false;
    }
    let mut i: usize = 0;
    while i < alen
        invariant
            alen == a@.len(),
            blen == b@.len(),
            alen == blen,
            i <= alen,
            forall|j: int| 0 <= j < i ==> a@[j] == b@[j],
        decreases alen - i,
    {
        if a.get_char(i) != b.get_char(i) {
            return false;
        }
        i += 1;
    }
    proof {
        assert(a@ =~= b@);
    }
    true
}

// --- Lexicographic order on character sequences -------------------------

/// Lexicographic order by code point; `String`'s own ordering agrees with it,
/// since UTF-8 byte order coincides with code-point order.
pub open spec fn lex_le(a: Seq<char>, b: Seq<char>) -> bool
    decreases a.len(),
{
    if a.len() == 0 {
        true
    } else if b.len() == 0 {
        false
    } else if (a[0] as u32) < (b[0] as u32) {
        true
    } else if (b[0] as u32) < (a[0] as u32) {
        false
    } else {
        lex_le(a.drop_first(), b.drop_first())
    }
}

pub proof fn lemma_lex_le_reflexive(a: Seq<char>)
    ensures
        lex_le(a, a),
    decreases a.len(),
{
    if a.len() != 0 {
        lemma_lex_le_reflexive(a.drop_first());
    }
}

pub proof fn lemma_lex_le_total(a: Seq<char>, b: Seq<char>)
    ensures
        lex_le(a, b) || lex_le(b, a),
    decreases a.len(),
{
    if a.len() != 0 && b.len() != 0 && a[0] as u32 == b[0] as u32 {
        lemma_lex_le_total(a.drop_first(), b.drop_first());
    }
}

/// Equal code points give equal characters.
proof fn lemma_char_code_injective(x: char, y: char)
    requires
        x as u32 == y as u32,
    ensures
        x == y,
{
}

pub proof fn lemma_lex_le_antisymmetric(a: Seq<char>, b: Seq<char>)
    requires
        lex_le(a, b),
        lex_le(b, a),
    ensures
        a == b,
    decreases a.len(),
{
    if a.len() == 0 {
        assert(b.len() == 0);
        assert(a =~= b);
    } else {
        assert(b.len() != 0);
        if (a[0] as u32) < (b[0] as u32) {
            assert(!lex_le(b, a));
        }
        if (b[0] as u32) < (a[0] as u32) {
            assert(!lex_le(a, b));
        }
        assert(a[0] as u32 == b[0] as u32);
        lemma_char_code_injective(a[0], b[0]);
        lemma_lex_le_antisymmetric(a.drop_first(), b.drop_first());
        assert(a =~= seq![a[0]] + a.drop_first());
        assert(b =~= seq![b[0]] + b.drop_first());
        assert(a =~= b);
    }
}

pub proof fn lemma_lex_le_transitive(a: Seq<char>, b: Seq<char>, c: Seq<char>)
    requires
        lex_le(a, b),
        lex_le(b, c),
    ensures
        lex_le(a, c),
    decreases a.len(),
{
    if a.len() != 0 && b.len() != 0 && c.len() != 0 && a[0] as u32 == b[0] as u32 && b[0] as u32
        == c[0] as u32 {
        lemma_lex_le_transitive(a.drop_first(), b.drop_first(), c.drop_first());
    }
}

/// When the first `i` characters agree, the order is decided by the rest.
proof fn lemma_lex_le_skip(a: Seq<char>, b: Seq<char>, i: int)
    requires
        0 <= i <= a.len(),
        i <= b.len(),
        forall|j: int| 0 <= j < i ==> a[j] == b[j],
    ensures
        lex_le(a, b) == lex_le(a.skip(i), b.skip(i)),
    decreases i,
{
    if i > 0 {
        assert(a.len() > 0 && b.len() > 0);
        assert(a[0] == b[0]);
        lemma_lex_le_skip(a.drop_first(), b.drop_first(), i - 1);
        assert(a.drop_first().skip(i - 1) =~= a.skip(i));
        assert(b.drop_first().skip(i - 1) =~= b.skip(i));
    } else {
        assert(a.skip(0) =~= a);
        assert(b.skip(0) =~= b);
    }
}

/// Decide `lex_le` on two strings.
pub fn str_lex_le(a: &str, b: &str) -> (r: bool)
    ensures
        r == lex_le(a@, b@),
{
    let alen = a.unicode_len();
    let blen = b.unicode_len();
    let min: usize = if alen < blen {
        alen
    } else {
        blen
    };
    let mut i: usize = 0;
    while i < min
        invariant
            alen == a@.len(),
            blen == b@.len(),
            min == if alen < blen {
                alen
            } else {
                blen
            },
            i <= min,
            forall|j: int| 0 <= j < i ==> a@[j] == b@[j],
        decreases min - i,
    {
        let ca = a.get_char(i);
        let cb = b.get_char(i);
        if (ca as u32) < (cb as u32) {
            proof {
                lemma_lex_le_skip(a@, b@, i as int);
            }
            return true;
        }
        if (cb as u32) < (ca as u32) {
            proof {
                lemma_lex_le_skip(a@, b@, i as int);
            }
            return false;
        }
        proof {
            lemma_char_code_injective(ca, cb);
        }
        i += 1;
    }
    proof {
        lemma_lex_le_skip(a@, b@, min as int);
    }
    alen <= blen
}

// --- Decimal rendering --------------------------------------------------

/// The decimal digit character for `d` in 0..10.
pub open spec fn dec_digit(d: int) -> char {
    if d == 0 {
        '0'
    } else if d == 1 {
        '1'
    } else if d == 2 {
        '2'
    } else if d == 3 {
        '3'
    } else if d == 4 {
        '4'
    } else if d == 5 {
        '5'
    } else if d == 6 {
        '6'
    } else if d == 7 {
        '7'
    } else if d == 8 {
        '8'
    } else {
        '9'
    }
}

/// Decimal representation of a non-negative integer, most significant first.
pub open spec fn dec_rep(n: int) -> Seq<char>
    decreases n,
{
    if n < 10 {
        seq![dec_digit(n)]
    } else {
        dec_rep(n / 10).push(dec_digit(n % 10))
    }
}

/// Decimal representation of a signed integer.
pub open spec fn int_rep(n: int) -> Seq<char> {
    if n < 0 {
        seq!['-'] + dec_rep(-n)
    } else {
        dec_rep(n)
    }
}

fn digit_str(d: u64) -> (r: &'static str)
    requires
        d < 10,
    ensures
        r@ =~= seq![dec_digit(d as int)],
{
    proof {
        reveal_strlit("0");
        reveal_strlit("1");
        reveal_strlit("2");
        reveal_strlit("3");
        reveal_strlit("4");
        reveal_strlit("5");
        reveal_strlit("6");
        reveal_strlit("7");
        reveal_strlit("8");
        reveal_strlit("9");
    }
    match d {
        0 => "0",
        1 => "1",
        2 => "2",
        3 => "3",
        4 => "4",
        5 => "5",
        6 => "6",
        7 => "7",
        8 => "8",
        _ => "9",
    }
}

fn digit_str_u128(d: u128) -> (r: &'static str)
    requires
        d < 10,
    ensures
        r@ =~= seq![dec_digit(d as int)],
{
    digit_str(d as u64)
}

/// Append the decimal rendering of `n` to `out`.
pub fn append_u128(out: &mut String, n: u128)
    ensures
        final(out)@ == old(out)@ + dec_rep(n as int),
    decreases n,
{
    if n >= 10 {
        append_u128(out, n / 10);
        out.append(digit_str_u128(n % 10));
        proof {
            assert(final(out)@ =~= old(out)@ + dec_rep(n as int));
        }
    } else {
        out.append(digit_str_u128(n));
        proof {
            assert(final(out)@ =~= old(out)@ + dec_rep(n as int));
        }
    }
}

/// Append the decimal rendering of `n` to `out`.
pub fn append_u64(out: &mut String, n: u64)
    ensures
        final(out)@ == old(out)@ + dec_rep(n as int),
{
    append_u128(out, n as u128);
}

/// Append the decimal rendering of a signed integer to `out`.
pub fn append_i64(out: &mut String, n: i64)
    ensures
        final(out)@ == old(out)@ + int_rep(n as int),
{
    if n < 0 {
        out.append("-");
        let mag: u64 = ((-(n + 1)) as u64) + 1;
        proof {
            reveal_strlit("-");
            assert(mag as int == -(n as int));
        }
        append_u64(out, mag);
        proof {
            assert(final(out)@ =~= old(out)@ + int_rep(n as int));
        }
    } else {
        append_u64(out, n as u64);
    }
}

/// The decimal rendering of a signed integer as a fresh string.
pub fn i64_to_string(n: i64) -> (r: String)
    ensures
        r@ == int_rep(n as int),
{
    let mut out = String::new();
    append_i64(&mut out, n);
    proof {
        assert(out@ =~= Seq::<char>::empty() + int_rep(n as int));
        assert(out@ =~= int_rep(n as int));
    }
    out
}

// --- Padding ------------------------------------------------------------

/// `n` space characters.
pub open spec fn spaces(n: int) -> Seq<char>
    decreases n,
{
    if n <= 0 {
        Seq::empty()
    } else {
        spaces(n - 1).push(' ')
    }
}

/// `s` padded on the right with spaces to width `w`.
pub open spec fn pad_right(s: Seq<char>, w: int) -> Seq<char> {
    s + spaces(w - s.len())
}

/// Append the decimal rendering of `n`, left-aligned in a field of `w` spaces.
pub fn append_i64_padded(out: &mut String, n: i64, w: usize)
    ensures
        final(out)@ == old(out)@ + pad_right(int_rep(n as int), w as int),
{
    let digits = i64_to_string(n);
    let dlen = digits.as_str().unicode_len();
    out.append(digits.as_str());
    let mut k: usize = dlen;
    proof {
        reveal_strlit(" ");
        assert(out@ =~= old(out)@ + int_rep(n as int) + spaces(k - dlen));
    }
    while k < w
        invariant
            dlen <= k,
            k <= w || k == dlen,
            dlen == int_rep(n as int).len(),
            out@ == old(out)@ + int_rep(n as int) + spaces(k - dlen),
        decreases w - k,
    {
        out.append(" ");
        k += 1;
        proof {
            reveal_strlit(" ");
            assert(out@ =~= old(out)@ + int_rep(n as int) + spaces(k - dlen));
        }
    }
    proof {
        assert(k - dlen >= w - dlen);
        if dlen < w {
            assert(k == w);
        } else {
            assert(k == dlen);
            assert(spaces(k - dlen) =~= spaces(w - dlen));
        }
        assert(out@ =~= old(out)@ + pad_right(int_rep(n as int), w as int));
    }
}

} // verus!
