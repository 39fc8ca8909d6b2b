//! The canonical on-disk form of a license record: one pretty-printed JSON
//! object, UTF-8, fields in a fixed order, absent optional fields written
//! as `null`, the metadata object always last. The encoder and the parser
//! are both verified, and parsing an encoded record is proved to give back
//! the record unchanged.

use vstd::prelude::*;

use crate::license::{
    metadata_view, opt_str_view, License, LicenseError, LicenseView, SubscriptionTier,
};
use crate::strutil::{enc_i64, enc_u64, push_char, push_i64_decimal, push_str};

verus! {

// ---------------------------------------------------------------------------
// String escaping
// ---------------------------------------------------------------------------
/// The escape expansion of one character inside a JSON string: quote,
/// backslash and the common control characters get a backslash escape,
/// everything else stands for itself.
pub open spec fn esc_char(c: char) -> Seq<char> {
    if c == '"' {
        seq!['\\', '"']
    } else if c == '\\' {
        seq!['\\', '\\']
    } else if c == '\n' {
        seq!['\\', 'n']
    } else if c == '\r' {
        seq!['\\', 'r']
    } else if c == '\t' {
        seq!['\\', 't']
    } else {
        seq![c]
    }
}

/// The escaped form of a whole string body.
pub open spec fn esc(s: Seq<char>) -> Seq<char>
    decreases s.len(),
{
    if s.len() == 0 {
        Seq::empty()
    } else {
        esc_char(s[0]) + esc(s.drop_first())
    }
}

/// Escaping commutes with appending one character at the end.
proof fn lemma_esc_push(s: Seq<char>, c: char)
    ensures
        esc(s.push(c)) == esc(s) + esc_char(c),
    decreases s.len(),
{
    let t = s.push(c);
    if s.len() == 0 {
        assert(t[0] == c);
        assert(t.drop_first() =~= Seq::<char>::empty());
        assert(esc(t) == esc_char(c) + esc(t.drop_first()));
        assert(esc_char(c) + Seq::<char>::empty() =~= esc_char(c));
        assert(esc(s) + esc_char(c) =~= esc_char(c));
    } else {
        assert(t[0] == s[0]);
        assert(t.drop_first() =~= s.drop_first().push(c));
        lemma_esc_push(s.drop_first(), c);
        assert(esc(t) == esc_char(s[0]) + (esc(s.drop_first()) + esc_char(c)));
        assert(esc_char(s[0]) + (esc(s.drop_first()) + esc_char(c)) =~= (esc_char(s[0]) + esc(
            s.drop_first(),
        )) + esc_char(c));
    }
}

/// Appends the escaped form of `s` to `out`.
fn push_escaped(out: &mut String, s: &str)
    ensures
        final(out)@ == old(out)@ + esc(s@),
{
    let n = s.unicode_len();
    let mut i: usize = 0;
    proof {
        assert(out@ =~= old(out)@ + esc(s@.take(0)));
    }
    while i < n
        invariant
            n == s@.len(),
            i <= n,
            out@ == old(out)@ + esc(s@.take(i as int)),
        decreases n - i,
    {
        let c = s.get_char(i);
        proof {
            assert(s@.take(i + 1) =~= s@.take(i as int).push(s@[i as int]));
            lemma_esc_push(s@.take(i as int), s@[i as int]);
        }
        if c == '"' {
            push_char(out, '\\');
            push_char(out, '"');
        } else if c == '\\' {
            push_char(out, '\\');
            push_char(out, '\\');
        } else if c == '\n' {
            push_char(out, '\\');
            push_char(out, 'n');
        } else if c == '\r' {
            push_char(out, '\\');
            push_char(out, 'r');
        } else if c == '\t' {
            push_char(out, '\\');
            push_char(out, 't');
        } else {
            push_char(out, c);
        }
        proof {
            assert(out@ =~= old(out)@ + esc(s@.take(i + 1)));
        }
        i = i + 1;
    }
    proof {
        assert(s@.take(n as int) =~= s@);
    }
}

/// A JSON string value: the escaped body between double quotes.
pub open spec fn enc_string(v: Seq<char>) -> Seq<char> {
    seq!['"'] + esc(v) + seq!['"']
}

/// Appends the JSON string form of `s` to `out`.
pub(crate) fn push_json_string(out: &mut String, s: &str)
    ensures
        final(out)@ == old(out)@ + enc_string(s@),
{
    push_char(out, '"');
    push_escaped(out, s);
    push_char(out, '"');
    proof {
        assert(final(out)@ =~= old(out)@ + enc_string(s@));
    }
}

// ---------------------------------------------------------------------------
// Parsing: literals and strings
// ---------------------------------------------------------------------------
/// Consume the exact literal `l` from the front of `s`, giving the rest.
pub open spec fn sp_lit(s: Seq<char>, l: Seq<char>) -> Option<Seq<char>> {
    if l.len() <= s.len() && s.subrange(0, l.len() as int) == l {
        Some(s.skip(l.len() as int))
    } else {
        None
    }
}

/// Consuming a literal off the front of itself-plus-rest leaves the rest.
proof fn lemma_sp_lit_roundtrip(l: Seq<char>, rest: Seq<char>)
    ensures
        sp_lit(l + rest, l) == Some(rest),
{
    assert((l + rest).subrange(0, l.len() as int) =~= l);
    assert((l + rest).skip(l.len() as int) =~= rest);
}

/// The character that a backslash escape code stands for.
pub open spec fn unesc_char(e: char) -> Option<char> {
    if e == '"' {
        Some('"')
    } else if e == '\\' {
        Some('\\')
    } else if e == 'n' {
        Some('\n')
    } else if e == 'r' {
        Some('\r')
    } else if e == 't' {
        Some('\t')
    } else {
        None
    }
}

/// Parse the body of a JSON string, positioned after the opening quote:
/// characters up to the closing quote, with backslash escapes decoded.
/// Gives the body and the rest after the closing quote.
pub open spec fn sp_string_inner(s: Seq<char>) -> Option<(Seq<char>, Seq<char>)>
    decreases s.len(),
{
    if s.len() == 0 {
        None
    } else if s[0] == '"' {
        Some((Seq::empty(), s.drop_first()))
    } else if s[0] == '\\' {
        if s.len() < 2 {
            None
        } else {
            match unesc_char(s[1]) {
                Some(c) => match sp_string_inner(s.skip(2)) {
                    Some(p) => Some((seq![c] + p.0, p.1)),
                    None => None,
                },
                None => None,
            }
        }
    } else {
        match sp_string_inner(s.drop_first()) {
            Some(p) => Some((seq![s[0]] + p.0, p.1)),
            None => None,
        }
    }
}

/// A parsed string body leaves a strictly shorter rest.
pub proof fn lemma_sp_string_inner_suffix(s: Seq<char>)
    ensures
        sp_string_inner(s) matches Some(p) ==> p.1.len() < s.len(),
    decreases s.len(),
{
    if s.len() == 0 {
    } else if s[0] == '"' {
    } else if s[0] == '\\' {
        if s.len() >= 2 {
            lemma_sp_string_inner_suffix(s.skip(2));
        }
    } else {
        lemma_sp_string_inner_suffix(s.drop_first());
    }
}

/// Parsing inverts escaping: the body parser applied to an escaped string,
/// its closing quote and arbitrary following text gives back the string
/// and the following text.
proof fn lemma_sp_string_inner_roundtrip(v: Seq<char>, rest: Seq<char>)
    ensures
        sp_string_inner(esc(v) + seq!['"'] + rest) == Some((v, rest)),
    decreases v.len(),
{
    let s = esc(v) + seq!['"'] + rest;
    if v.len() == 0 {
        assert(s[0] == '"');
        assert(s.drop_first() =~= rest);
    } else {
        let c = v[0];
        let v2 = v.drop_first();
        lemma_sp_string_inner_roundtrip(v2, rest);
        let s2 = esc(v2) + seq!['"'] + rest;
        if c == '"' || c == '\\' || c == '\n' || c == '\r' || c == '\t' {
            assert(esc_char(c).len() == 2);
            assert(s[0] == '\\');
            assert(s.len() >= 2);
            assert(s[1] == esc_char(c)[1]);
            assert(unesc_char(esc_char(c)[1]) == Some(c));
            assert(s.skip(2) =~= s2);
            assert(seq![c] + v2 =~= v);
        } else {
            assert(s[0] == c);
            assert(c != '"' && c != '\\');
            assert(s.drop_first() =~= s2);
            assert(seq![c] + v2 =~= v);
        }
    }
}

/// A JSON string value: opening quote, then the body with its closing
/// quote. Gives the decoded body and the rest.
pub open spec fn sp_value_string(s: Seq<char>) -> Option<(Seq<char>, Seq<char>)> {
    if s.len() > 0 && s[0] == '"' {
        sp_string_inner(s.drop_first())
    } else {
        None
    }
}

/// Parsing inverts string encoding.
proof fn lemma_sp_value_string_roundtrip(v: Seq<char>, rest: Seq<char>)
    ensures
        sp_value_string(enc_string(v) + rest) == Some((v, rest)),
{
    let s = enc_string(v) + rest;
    assert(s[0] == '"');
    assert(s.drop_first() =~= esc(v) + seq!['"'] + rest);
    lemma_sp_string_inner_roundtrip(v, rest);
}

/// A parsed string value leaves a strictly shorter rest.
pub proof fn lemma_sp_value_string_suffix(s: Seq<char>)
    ensures
        sp_value_string(s) matches Some(p) ==> p.1.len() < s.len(),
{
    if s.len() > 0 && s[0] == '"' {
        lemma_sp_string_inner_suffix(s.drop_first());
    }
}

/// Consume the literal `lit` at position `pos` of `s`; gives the position
/// after it.
fn eat_lit(s: &str, pos: usize, lit: &str) -> (r: Option<usize>)
    requires
        pos <= s@.len(),
    ensures
        match r {
            Some(p) => pos <= p <= s@.len() && sp_lit(s@.skip(pos as int), lit@) == Some(
                s@.skip(p as int),
            ),
            None => sp_lit(s@.skip(pos as int), lit@) is None,
        },
{
    let n = s.unicode_len();
    let ll = lit.unicode_len();
    if ll > n - pos {
        return None;
    }
    let mut j: usize = 0;
    while j < ll
        invariant
            n == s@.len(),
            ll == lit@.len(),
            pos + ll <= n,
            j <= ll,
            forall|k: int| 0 <= k < j ==> s@[pos + k] == lit@[k],
        decreases ll - j,
    {
        let a = s.get_char(pos + j);
        let b = lit.get_char(j);
        if a != b {
            proof {
                let su = s@.skip(pos as int);
                if ll <= su.len() && su.subrange(0, ll as int) == lit@ {
                    assert(su.subrange(0, ll as int)[j as int] == lit@[j as int]);
                    assert(su[j as int] == s@[pos + j]);
                    assert(false);
                }
            }
            return None;
        }
        j = j + 1;
    }
    proof {
        let su = s@.skip(pos as int);
        assert(su.subrange(0, ll as int) =~= lit@);
        assert(su.skip(ll as int) =~= s@.skip(pos + ll));
    }
    Some(pos + ll)
}

/// Parse a JSON string body starting at `pos` (just after the opening
/// quote): gives the decoded body and the position after the closing quote.
fn parse_string_inner(s: &str, pos: usize) -> (r: Option<(String, usize)>)
    requires
        pos <= s@.len(),
    ensures
        match r {
            Some(p) => pos <= p.1 <= s@.len() && sp_string_inner(s@.skip(pos as int)) == Some(
                (p.0@, s@.skip(p.1 as int)),
            ),
            None => sp_string_inner(s@.skip(pos as int)) is None,
        },
{
    let n = s.unicode_len();
    let mut out = String::new();
    let mut p = pos;
    proof {
        assert(out@ + sp_string_inner(s@.skip(pos as int)).unwrap().0 =~= sp_string_inner(
            s@.skip(pos as int),
        ).unwrap().0);
    }
    loop
        invariant
            n == s@.len(),
            pos <= p <= n,
            (match sp_string_inner(s@.skip(p as int)) {
                Some(q) => sp_string_inner(s@.skip(pos as int)) == Some((out@ + q.0, q.1)),
                None => sp_string_inner(s@.skip(pos as int)) is None,
            }),
        decreases n - p,
    {
        proof {
            if p < n {
                assert(s@.skip(p as int)[0] == s@[p as int]);
                assert(s@.skip(p as int).drop_first() =~= s@.skip(p + 1));
            }
        }
        if p >= n {
            proof {
                assert(s@.skip(p as int).len() == 0);
            }
            return None;
        }
        let c = s.get_char(p);
        if c == '"' {
            proof {
                assert(sp_string_inner(s@.skip(p as int)) == Some(
                    (Seq::<char>::empty(), s@.skip(p + 1)),
                ));
                assert(out@ + Seq::<char>::empty() =~= out@);
            }
            return Some((out, p + 1));
        } else if c == '\\' {
            if p + 1 >= n {
                proof {
                    assert(s@.skip(p as int).len() < 2);
                }
                return None;
            }
            let e = s.get_char(p + 1);
            proof {
                assert(s@.skip(p as int)[1] == s@[p + 1]);
                assert(s@.skip(p as int).skip(2) =~= s@.skip(p + 2));
            }
            let decoded: char;
            if e == '"' {
                decoded = '"';
            } else if e == '\\' {
                decoded = '\\';
            } else if e == 'n' {
                decoded = '\n';
            } else if e == 'r' {
                decoded = '\r';
            } else if e == 't' {
                decoded = '\t';
            } else {
                return None;
            }
            proof {
                assert(unesc_char(s@[p + 1]) == Some(decoded));
                match sp_string_inner(s@.skip(p + 2)) {
                    Some(q) => {
                        assert(sp_string_inner(s@.skip(p as int)) == Some(
                            (seq![decoded] + q.0, q.1),
                        ));
                        assert(out@ + (seq![decoded] + q.0) =~= out@.push(decoded) + q.0);
                    },
                    None => {},
                }
            }
            push_char(&mut out, decoded);
            p = p + 2;
        } else {
            proof {
                match sp_string_inner(s@.skip(p + 1)) {
                    Some(q) => {
                        assert(sp_string_inner(s@.skip(p as int)) == Some((seq![c] + q.0, q.1)));
                        assert(out@ + (seq![c] + q.0) =~= out@.push(c) + q.0);
                    },
                    None => {},
                }
            }
            push_char(&mut out, c);
            p = p + 1;
        }
    }
}

/// Parse a JSON string value at `pos`: opening quote, body, closing quote.
fn parse_value_string(s: &str, pos: usize) -> (r: Option<(String, usize)>)
    requires
        pos <= s@.len(),
    ensures
        match r {
            Some(p) => pos <= p.1 <= s@.len() && sp_value_string(s@.skip(pos as int)) == Some(
                (p.0@, s@.skip(p.1 as int)),
            ),
            None => sp_value_string(s@.skip(pos as int)) is None,
        },
{
    let n = s.unicode_len();
    if pos >= n {
        return None;
    }
    let c = s.get_char(pos);
    proof {
        assert(s@.skip(pos as int)[0] == s@[pos as int]);
        assert(s@.skip(pos as int).drop_first() =~= s@.skip(pos + 1));
    }
    if c != '"' {
        return None;
    }
    parse_string_inner(s, pos + 1)
}

// ---------------------------------------------------------------------------
// Parsing: numbers
// ---------------------------------------------------------------------------
/// Whether `c` is a decimal digit.
pub open spec fn is_digit(c: char) -> bool {
    48 <= c as int <= 57
}

/// The value of a decimal digit character.
pub open spec fn digit_val(c: char) -> int {
    c as int - 48
}

/// Powers of ten.
pub open spec fn pow10(k: nat) -> nat
    decreases k,
{
    if k == 0 {
        1
    } else {
        10 * pow10((k - 1) as nat)
    }
}

/// Consume decimal digits from the front of `s`, folding them onto `acc`;
/// refuses a value that would exceed `limit`. Stops at the first non-digit.
pub open spec fn sp_digits(s: Seq<char>, acc: nat, limit: nat) -> Option<(nat, Seq<char>)>
    decreases s.len(),
{
    if s.len() == 0 || !is_digit(s[0]) {
        Some((acc, s))
    } else {
        let a2 = acc * 10 + digit_val(s[0]);
        if a2 > limit {
            None
        } else {
            sp_digits(s.drop_first(), a2 as nat, limit)
        }
    }
}

/// A decimal natural number, JSON style: no leading zeros, at most `limit`.
pub open spec fn sp_u64(s: Seq<char>, limit: nat) -> Option<(nat, Seq<char>)> {
    if s.len() == 0 || !is_digit(s[0]) {
        None
    } else if s[0] == '0' {
        Some((0, s.drop_first()))
    } else {
        sp_digits(s, 0, limit)
    }
}

/// A decimal integer in the value range of `i64`: an optional minus sign,
/// then digits.
pub open spec fn sp_i64(s: Seq<char>) -> Option<(int, Seq<char>)> {
    if s.len() == 0 {
        None
    } else if s[0] == '-' {
        match sp_u64(s.drop_first(), 0x8000000000000000) {
            Some(p) => Some((-(p.0 as int), p.1)),
            None => None,
        }
    } else {
        match sp_u64(s, 0x7fffffffffffffff) {
            Some(p) => Some((p.0 as int, p.1)),
            None => None,
        }
    }
}

/// The digit characters that `enc_u64` produces are digits, and the leading
/// one is nonzero for a nonzero number.
proof fn lemma_enc_u64_shape(n: nat)
    ensures
        enc_u64(n).len() >= 1,
        forall|i: int| 0 <= i < enc_u64(n).len() ==> is_digit(#[trigger] enc_u64(n)[i]),
        n > 0 ==> enc_u64(n)[0] != '0',
        n < 10 ==> enc_u64(n).len() == 1,
    decreases n,
{
    if n < 10 {
        assert(is_digit(crate::strutil::digit_char(n as int)));
        assert(n > 0 ==> crate::strutil::digit_char(n as int) != '0');
    } else {
        lemma_enc_u64_shape(n / 10);
        assert(n / 10 > 0) by (nonlinear_arith)
            requires
                n >= 10,
        ;
        assert(is_digit(crate::strutil::digit_char((n % 10) as int)));
        assert(enc_u64(n)[0] == enc_u64(n / 10)[0]);
    }
}

/// The digit value folded onto by `enc_u64`'s digits: consuming the digits
/// of `n` appended before `rest` folds `n` onto the accumulator, provided
/// the folded value stays within `limit`.
proof fn lemma_sp_digits_append(n: nat, a: nat, limit: nat, rest: Seq<char>)
    requires
        a * pow10(enc_u64(n).len()) + n <= limit,
    ensures
        sp_digits(enc_u64(n) + rest, a, limit) == sp_digits(
            rest,
            (a * pow10(enc_u64(n).len()) + n) as nat,
            limit,
        ),
    decreases n,
{
    lemma_enc_u64_shape(n);
    let e = enc_u64(n);
    let s = e + rest;
    if n < 10 {
        let d = crate::strutil::digit_char(n as int);
        assert(s[0] == d);
        assert(is_digit(d) && digit_val(d) == n);
        assert(pow10(0) == 1);
        assert(pow10(1) == 10);
        assert(a * 10 + n <= limit);
        assert(s.drop_first() =~= rest);
        assert(sp_digits(s, a, limit) == sp_digits(rest, (a * 10 + n) as nat, limit));
    } else {
        let q = n / 10;
        let r = n % 10;
        vstd::arithmetic::div_mod::lemma_fundamental_div_mod(n as int, 10);
        let e1 = enc_u64(q);
        let d = crate::strutil::digit_char(r as int);
        assert(e =~= e1 + seq![d]);
        assert(e + rest =~= e1 + (seq![d] + rest));
        let p1 = pow10(e1.len());
        assert(pow10(e.len()) == 10 * p1);
        let b = a * p1 + q;
        assert(b * 10 + r == a * (10 * p1) + n) by (nonlinear_arith)
            requires
                b == a * p1 + q,
                n == 10 * q + r,
        ;
        assert(b <= limit) by (nonlinear_arith)
            requires
                b * 10 + r == a * (10 * p1) + n,
                a * (10 * p1) + n <= limit,
                0 <= r,
                0 <= b,
        ;
        lemma_sp_digits_append(q, a, limit, seq![d] + rest);
        assert(sp_digits(e1 + (seq![d] + rest), a, limit) == sp_digits(
            seq![d] + rest,
            b as nat,
            limit,
        ));
        let s2 = seq![d] + rest;
        assert(s2[0] == d && is_digit(d) && digit_val(d) == r);
        assert(b * 10 + r <= limit);
        assert(s2.drop_first() =~= rest);
        assert(sp_digits(s2, b as nat, limit) == sp_digits(rest, (b * 10 + r) as nat, limit));
        assert((b * 10 + r) as nat == (a * pow10(e.len()) + n) as nat);
    }
}

/// Parsing inverts decimal encoding of a natural number, whatever follows
/// the digits, provided it is not itself a digit.
proof fn lemma_sp_u64_roundtrip(n: nat, limit: nat, rest: Seq<char>)
    requires
        n <= limit,
        rest.len() == 0 || !is_digit(rest[0]),
    ensures
        sp_u64(enc_u64(n) + rest, limit) == Some((n, rest)),
{
    lemma_enc_u64_shape(n);
    let e = enc_u64(n);
    let s = e + rest;
    assert(s[0] == e[0]);
    assert(is_digit(s[0]));
    if n == 0 {
        assert(e =~= seq!['0']);
        assert(s[0] == '0');
        assert(s.drop_first() =~= rest);
    } else {
        assert(s[0] != '0');
        assert(0 * pow10(e.len()) == 0) by (nonlinear_arith);
        lemma_sp_digits_append(n, 0, limit, rest);
        assert(sp_digits(rest, n, limit) == Some((n, rest)));
    }
}

/// Parsing inverts decimal encoding of an `i64` value.
proof fn lemma_sp_i64_roundtrip(v: int, rest: Seq<char>)
    requires
        -0x8000000000000000 <= v <= 0x7fffffffffffffff,
        rest.len() == 0 || !is_digit(rest[0]),
    ensures
        sp_i64(enc_i64(v) + rest) == Some((v, rest)),
{
    let e = enc_i64(v);
    let s = e + rest;
    if v < 0 {
        let m = (-v) as nat;
        lemma_enc_u64_shape(m);
        assert(e =~= seq!['-'] + enc_u64(m));
        assert(s[0] == '-');
        assert(s.drop_first() =~= enc_u64(m) + rest);
        lemma_sp_u64_roundtrip(m, 0x8000000000000000, rest);
    } else {
        lemma_enc_u64_shape(v as nat);
        assert(s[0] == enc_u64(v as nat)[0]);
        assert(is_digit(s[0]) && s[0] != '-');
        lemma_sp_u64_roundtrip(v as nat, 0x7fffffffffffffff, rest);
    }
}

/// Parse decimal digits at `pos`, folding them onto an accumulator bounded
/// by `limit`.
fn parse_digits(s: &str, pos: usize, limit: u64) -> (r: Option<(u64, usize)>)
    requires
        pos <= s@.len(),
        limit >= 9,
    ensures
        match r {
            Some(p) => pos <= p.1 <= s@.len() && p.0 <= limit && sp_digits(
                s@.skip(pos as int),
                0,
                limit as nat,
            ) == Some((p.0 as nat, s@.skip(p.1 as int))),
            None => sp_digits(s@.skip(pos as int), 0, limit as nat) is None,
        },
{
    let n = s.unicode_len();
    let mut acc: u64 = 0;
    let mut p = pos;
    loop
        invariant
            n == s@.len(),
            pos <= p <= n,
            limit >= 9,
            acc <= limit,
            sp_digits(s@.skip(pos as int), 0, limit as nat) == sp_digits(
                s@.skip(p as int),
                acc as nat,
                limit as nat,
            ),
        decreases n - p,
    {
        if p >= n {
            proof {
                assert(s@.skip(p as int).len() == 0);
            }
            return Some((acc, p));
        }
        let c = s.get_char(p);
        proof {
            assert(s@.skip(p as int)[0] == s@[p as int]);
            assert(s@.skip(p as int).drop_first() =~= s@.skip(p + 1));
        }
        let code = c as u32;
        if code < 48 || code > 57 {
            return Some((acc, p));
        }
        let d = (code - 48) as u64;
        proof {
            assert(d == digit_val(s@[p as int]));
            vstd::arithmetic::div_mod::lemma_fundamental_div_mod((limit - d) as int, 10);
        }
        if acc > (limit - d) / 10 {
            proof {
                assert(acc * 10 + d > limit) by (nonlinear_arith)
                    requires
                        acc > ((limit - d) as int) / 10,
                        (limit - d) as int == 10 * (((limit - d) as int) / 10) + ((limit
                            - d) as int) % 10,
                        0 <= ((limit - d) as int) % 10 < 10,
                ;
            }
            return None;
        }
        proof {
            assert(acc * 10 + d <= limit) by (nonlinear_arith)
                requires
                    acc <= ((limit - d) as int) / 10,
                    (limit - d) as int == 10 * (((limit - d) as int) / 10) + ((limit - d) as int)
                        % 10,
                    0 <= ((limit - d) as int) % 10 < 10,
            ;
        }
        acc = acc * 10 + d;
        p = p + 1;
    }
}

/// Parse a JSON-style natural number at `pos`: no leading zeros, at most
/// `limit`.
fn parse_u64(s: &str, pos: usize, limit: u64) -> (r: Option<(u64, usize)>)
    requires
        pos <= s@.len(),
        limit >= 9,
    ensures
        match r {
            Some(p) => pos <= p.1 <= s@.len() && p.0 <= limit && sp_u64(
                s@.skip(pos as int),
                limit as nat,
            ) == Some((p.0 as nat, s@.skip(p.1 as int))),
            None => sp_u64(s@.skip(pos as int), limit as nat) is None,
        },
{
    let n = s.unicode_len();
    if pos >= n {
        return None;
    }
    let c = s.get_char(pos);
    proof {
        assert(s@.skip(pos as int)[0] == s@[pos as int]);
        assert(s@.skip(pos as int).drop_first() =~= s@.skip(pos + 1));
    }
    let code = c as u32;
    if code < 48 || code > 57 {
        return None;
    }
    if c == '0' {
        return Some((0, pos + 1));
    }
    parse_digits(s, pos, limit)
}

/// Parse a decimal `i64` at `pos`: optional minus sign, then digits, the
/// value within the `i64` range.
fn parse_i64_at(s: &str, pos: usize) -> (r: Option<(i64, usize)>)
    requires
        pos <= s@.len(),
    ensures
        match r {
            Some(p) => pos <= p.1 <= s@.len() && sp_i64(s@.skip(pos as int)) == Some(
                (p.0 as int, s@.skip(p.1 as int)),
            ),
            None => sp_i64(s@.skip(pos as int)) is None,
        },
{
    let n = s.unicode_len();
    if pos >= n {
        return None;
    }
    let c = s.get_char(pos);
    proof {
        assert(s@.skip(pos as int)[0] == s@[pos as int]);
        assert(s@.skip(pos as int).drop_first() =~= s@.skip(pos + 1));
    }
    if c == '-' {
        match parse_u64(s, pos + 1, 9223372036854775808u64) {
            Some((v, p)) => {
                let value: i64 = if v == 9223372036854775808u64 {
                    i64::MIN
                } else {
                    -(v as i64)
                };
                Some((value, p))
            },
            None => None,
        }
    } else {
        match parse_u64(s, pos, 9223372036854775807u64) {
            Some((v, p)) => Some((v as i64, p)),
            None => None,
        }
    }
}

// ---------------------------------------------------------------------------
// Optional values, tiers, and the metadata object
// ---------------------------------------------------------------------------
/// An optional string value: `null` when absent, a JSON string otherwise.
pub open spec fn enc_opt_string(v: Option<Seq<char>>) -> Seq<char> {
    match v {
        Some(b) => enc_string(b),
        None => "null"@,
    }
}

/// Parse an optional string value: `null` or a JSON string.
pub open spec fn sp_opt_string(s: Seq<char>) -> Option<(Option<Seq<char>>, Seq<char>)> {
    if s.len() == 0 {
        None
    } else if s[0] == 'n' {
        match sp_lit(s, "null"@) {
            Some(r) => Some((None, r)),
            None => None,
        }
    } else {
        match sp_value_string(s) {
            Some(p) => Some((Some(p.0), p.1)),
            None => None,
        }
    }
}

/// Parsing inverts optional-string encoding.
proof fn lemma_sp_opt_string_roundtrip(v: Option<Seq<char>>, rest: Seq<char>)
    ensures
        sp_opt_string(enc_opt_string(v) + rest) == Some((v, rest)),
{
    let s = enc_opt_string(v) + rest;
    reveal_strlit("null");
    match v {
        None => {
            assert(s[0] == 'n');
            lemma_sp_lit_roundtrip("null"@, rest);
        },
        Some(b) => {
            assert(s[0] == '"');
            lemma_sp_value_string_roundtrip(b, rest);
        },
    }
}

/// An optional timestamp value: `null` when absent, decimal otherwise.
pub open spec fn enc_opt_i64(v: Option<int>) -> Seq<char> {
    match v {
        Some(n) => enc_i64(n),
        None => "null"@,
    }
}

/// Parse an optional timestamp value: `null` or a decimal integer.
pub open spec fn sp_opt_i64(s: Seq<char>) -> Option<(Option<int>, Seq<char>)> {
    if s.len() == 0 {
        None
    } else if s[0] == 'n' {
        match sp_lit(s, "null"@) {
            Some(r) => Some((None, r)),
            None => None,
        }
    } else {
        match sp_i64(s) {
            Some(p) => Some((Some(p.0), p.1)),
            None => None,
        }
    }
}

/// Parsing inverts optional-timestamp encoding, for values in `i64` range.
proof fn lemma_sp_opt_i64_roundtrip(v: Option<int>, rest: Seq<char>)
    requires
        v matches Some(n) ==> -0x8000000000000000 <= n <= 0x7fffffffffffffff,
        rest.len() == 0 || !is_digit(rest[0]),
    ensures
        sp_opt_i64(enc_opt_i64(v) + rest) == Some((v, rest)),
{
    let s = enc_opt_i64(v) + rest;
    reveal_strlit("null");
    match v {
        None => {
            assert(s[0] == 'n');
            lemma_sp_lit_roundtrip("null"@, rest);
        },
        Some(n) => {
            if n < 0 {
                assert(s[0] == '-');
            } else {
                lemma_enc_u64_shape(n as nat);
                assert(s[0] == enc_u64(n as nat)[0]);
                assert(is_digit(s[0]));
            }
            assert(s[0] != 'n');
            lemma_sp_i64_roundtrip(n, rest);
        },
    }
}

/// The quoted name of a subscription tier, with its closing quote.
pub open spec fn tier_token(t: SubscriptionTier) -> Seq<char> {
    match t {
        SubscriptionTier::Free => "free\""@,
        SubscriptionTier::Pro => "pro\""@,
        SubscriptionTier::Enterprise => "enterprise\""@,
    }
}

/// A tier value: the tier's name as a JSON string.
pub open spec fn enc_tier(t: SubscriptionTier) -> Seq<char> {
    seq!['"'] + tier_token(t)
}

/// Whether `l` is a prefix of `s`.
pub open spec fn starts_with(s: Seq<char>, l: Seq<char>) -> bool {
    l.len() <= s.len() && s.subrange(0, l.len() as int) == l
}

/// Parse a tier value: one of the three known tier names, quoted.
pub open spec fn sp_tier(s: Seq<char>) -> Option<(SubscriptionTier, Seq<char>)> {
    if s.len() == 0 || s[0] != '"' {
        None
    } else {
        let t = s.drop_first();
        if starts_with(t, "free\""@) {
            Some((SubscriptionTier::Free, t.skip("free\""@.len() as int)))
        } else if starts_with(t, "pro\""@) {
            Some((SubscriptionTier::Pro, t.skip("pro\""@.len() as int)))
        } else if starts_with(t, "enterprise\""@) {
            Some((SubscriptionTier::Enterprise, t.skip("enterprise\""@.len() as int)))
        } else {
            None
        }
    }
}

/// Parsing inverts tier encoding: the three tier names are mutually
/// non-confusable.
proof fn lemma_sp_tier_roundtrip(t: SubscriptionTier, rest: Seq<char>)
    ensures
        sp_tier(enc_tier(t) + rest) == Some((t, rest)),
{
    reveal_strlit("free\"");
    reveal_strlit("pro\"");
    reveal_strlit("enterprise\"");
    let s = enc_tier(t) + rest;
    assert(s[0] == '"');
    let u = s.drop_first();
    assert(u =~= tier_token(t) + rest);
    match t {
        SubscriptionTier::Free => {
            assert(u.subrange(0, 5) =~= "free\""@);
            assert(u.skip(5) =~= rest);
        },
        SubscriptionTier::Pro => {
            assert(u[0] == 'p');
            assert(!starts_with(u, "free\""@)) by {
                if starts_with(u, "free\""@) {
                    assert(u.subrange(0, 5)[0] == 'f');
                }
            }
            assert(u.subrange(0, 4) =~= "pro\""@);
            assert(u.skip(4) =~= rest);
        },
        SubscriptionTier::Enterprise => {
            assert(u[0] == 'e');
            assert(!starts_with(u, "free\""@)) by {
                if starts_with(u, "free\""@) {
                    assert(u.subrange(0, 5)[0] == 'f');
                }
            }
            assert(!starts_with(u, "pro\""@)) by {
                if starts_with(u, "pro\""@) {
                    assert(u.subrange(0, 4)[0] == 'p');
                }
            }
            assert(u.subrange(0, 11) =~= "enterprise\""@);
            assert(u.skip(11) =~= rest);
        },
    }
}

/// One metadata entry on its own indented line.
pub open spec fn enc_entry(k: Seq<char>, v: Seq<char>) -> Seq<char> {
    "\n    "@ + enc_string(k) + ": "@ + enc_string(v)
}

/// The entries of a non-empty metadata object, comma separated, with the
/// closing indentation and brace.
pub open spec fn enc_entries(es: Seq<(Seq<char>, Seq<char>)>) -> Seq<char>
    decreases es.len(),
{
    if es.len() == 0 {
        Seq::empty()
    } else {
        enc_entry(es[0].0, es[0].1) + if es.len() > 1 {
            seq![','] + enc_entries(es.drop_first())
        } else {
            "\n  }"@
        }
    }
}

/// The metadata object: empty braces, or the entries with their closer.
pub open spec fn enc_map(es: Seq<(Seq<char>, Seq<char>)>) -> Seq<char> {
    if es.len() == 0 {
        seq!['{', '}']
    } else {
        seq!['{'] + enc_entries(es)
    }
}

/// Parse the entries of a non-empty metadata object, up to and including
/// the closing brace.
pub open spec fn sp_entries(s: Seq<char>) -> Option<(Seq<(Seq<char>, Seq<char>)>, Seq<char>)>
    decreases s.len(),
{
    match sp_lit(s, "\n    "@) {
        None => None,
        Some(s1) => match sp_value_string(s1) {
            None => None,
            Some((k, s2)) => match sp_lit(s2, ": "@) {
                None => None,
                Some(s3) => match sp_value_string(s3) {
                    None => None,
                    Some((v, s4)) => if s4.len() > 0 && s4[0] == ',' {
                        {
                            proof {
                                lemma_sp_value_string_suffix(s1);
                                lemma_sp_value_string_suffix(s3);
                            }
                            match sp_entries(s4.drop_first()) {
                                Some((es, r)) => Some((seq![(k, v)] + es, r)),
                                None => None,
                            }
                        }
                    } else {
                        match sp_lit(s4, "\n  }"@) {
                            Some(r) => Some((seq![(k, v)], r)),
                            None => None,
                        }
                    },
                },
            },
        },
    }
}

/// Parse a metadata object: `{}`, or entries each on an indented line.
pub open spec fn sp_map(s: Seq<char>) -> Option<(Seq<(Seq<char>, Seq<char>)>, Seq<char>)> {
    if s.len() == 0 || s[0] != '{' {
        None
    } else {
        let t = s.drop_first();
        if t.len() > 0 && t[0] == '}' {
            Some((Seq::empty(), t.drop_first()))
        } else {
            sp_entries(t)
        }
    }
}

/// Parsing inverts entry-list encoding.
#[verifier::rlimit(100)]
proof fn lemma_sp_entries_roundtrip(es: Seq<(Seq<char>, Seq<char>)>, rest: Seq<char>)
    requires
        es.len() >= 1,
    ensures
        sp_entries(enc_entries(es) + rest) == Some((es, rest)),
    decreases es.len(),
{
    reveal_strlit("\n  }");
    let k = es[0].0;
    let v = es[0].1;
    let tail: Seq<char> = if es.len() > 1 {
        seq![','] + enc_entries(es.drop_first())
    } else {
        "\n  }"@
    };
    let s = enc_entries(es) + rest;
    let r1 = enc_string(k) + ": "@ + enc_string(v) + tail + rest;
    assert(s =~= "\n    "@ + r1);
    lemma_sp_lit_roundtrip("\n    "@, r1);
    let r2 = ": "@ + enc_string(v) + tail + rest;
    assert(r1 =~= enc_string(k) + r2);
    lemma_sp_value_string_roundtrip(k, r2);
    let r3 = enc_string(v) + tail + rest;
    assert(r2 =~= ": "@ + r3);
    lemma_sp_lit_roundtrip(": "@, r3);
    let r4 = tail + rest;
    assert(r3 =~= enc_string(v) + r4);
    lemma_sp_value_string_roundtrip(v, r4);
    if es.len() > 1 {
        assert(r4[0] == ',');
        assert(r4.drop_first() =~= enc_entries(es.drop_first()) + rest);
        lemma_sp_entries_roundtrip(es.drop_first(), rest);
        assert(seq![(k, v)] + es.drop_first() =~= es);
    } else {
        assert(r4 =~= "\n  }"@ + rest);
        assert(r4[0] == '\n');
        assert(r4[0] != ',');
        lemma_sp_lit_roundtrip("\n  }"@, rest);
        assert(seq![(k, v)] =~= es);
    }
}

/// Parsing inverts metadata-object encoding.
proof fn lemma_sp_map_roundtrip(es: Seq<(Seq<char>, Seq<char>)>, rest: Seq<char>)
    ensures
        sp_map(enc_map(es) + rest) == Some((es, rest)),
{
    let s = enc_map(es) + rest;
    assert(s[0] == '{');
    let t = s.drop_first();
    if es.len() == 0 {
        assert(t[0] == '}');
        assert(t.drop_first() =~= rest);
        assert(es =~= Seq::<(Seq<char>, Seq<char>)>::empty());
    } else {
        reveal_strlit("\n    ");
        assert(t =~= enc_entries(es) + rest);
        assert(t[0] == '\n');
        assert(t[0] != '}');
        lemma_sp_entries_roundtrip(es, rest);
    }
}

// ---------------------------------------------------------------------------
// Executable parsers for the composite values
// ---------------------------------------------------------------------------
/// The view of an optional parsed timestamp.
pub open spec fn opt_i64_view(o: Option<i64>) -> Option<int> {
    match o {
        Some(t) => Some(t as int),
        None => None,
    }
}

/// Parse an optional string value at `pos`.
fn parse_opt_string(s: &str, pos: usize) -> (r: Option<(Option<String>, usize)>)
    requires
        pos <= s@.len(),
    ensures
        match r {
            Some(p) => pos <= p.1 <= s@.len() && sp_opt_string(s@.skip(pos as int)) == Some(
                (opt_str_view(p.0), s@.skip(p.1 as int)),
            ),
            None => sp_opt_string(s@.skip(pos as int)) is None,
        },
{
    let n = s.unicode_len();
    if pos >= n {
        return None;
    }
    let c = s.get_char(pos);
    proof {
        assert(s@.skip(pos as int)[0] == s@[pos as int]);
    }
    if c == 'n' {
        match eat_lit(s, pos, "null") {
            Some(p) => Some((None, p)),
            None => None,
        }
    } else {
        match parse_value_string(s, pos) {
            Some((v, p)) => Some((Some(v), p)),
            None => None,
        }
    }
}

/// Parse an optional timestamp value at `pos`.
fn parse_opt_i64(s: &str, pos: usize) -> (r: Option<(Option<i64>, usize)>)
    requires
        pos <= s@.len(),
    ensures
        match r {
            Some(p) => pos <= p.1 <= s@.len() && sp_opt_i64(s@.skip(pos as int)) == Some(
                (opt_i64_view(p.0), s@.skip(p.1 as int)),
            ),
            None => sp_opt_i64(s@.skip(pos as int)) is None,
        },
{
    let n = s.unicode_len();
    if pos >= n {
        return None;
    }
    let c = s.get_char(pos);
    proof {
        assert(s@.skip(pos as int)[0] == s@[pos as int]);
    }
    if c == 'n' {
        match eat_lit(s, pos, "null") {
            Some(p) => Some((None, p)),
            None => None,
        }
    } else {
        match parse_i64_at(s, pos) {
            Some((v, p)) => Some((Some(v), p)),
            None => None,
        }
    }
}

/// Parse a tier value at `pos`.
fn parse_tier(s: &str, pos: usize) -> (r: Option<(SubscriptionTier, usize)>)
    requires
        pos <= s@.len(),
    ensures
        match r {
            Some(p) => pos <= p.1 <= s@.len() && sp_tier(s@.skip(pos as int)) == Some(
                (p.0, s@.skip(p.1 as int)),
            ),
            None => sp_tier(s@.skip(pos as int)) is None,
        },
{
    let n = s.unicode_len();
    if pos >= n {
        return None;
    }
    let c = s.get_char(pos);
    proof {
        assert(s@.skip(pos as int)[0] == s@[pos as int]);
        assert(s@.skip(pos as int).drop_first() =~= s@.skip(pos + 1));
    }
    if c != '"' {
        return None;
    }
    if let Some(p) = eat_lit(s, pos + 1, "free\"") {
        return Some((SubscriptionTier::Free, p));
    }
    if let Some(p) = eat_lit(s, pos + 1, "pro\"") {
        return Some((SubscriptionTier::Pro, p));
    }
    if let Some(p) = eat_lit(s, pos + 1, "enterprise\"") {
        return Some((SubscriptionTier::Enterprise, p));
    }
    None
}

/// Parse the entries of a non-empty metadata object at `pos`, up to and
/// including the closing brace.
fn parse_entries(s: &str, pos: usize) -> (r: Option<(Vec<(String, String)>, usize)>)
    requires
        pos <= s@.len(),
    ensures
        match r {
            Some(p) => pos <= p.1 <= s@.len() && sp_entries(s@.skip(pos as int)) == Some(
                (metadata_view(p.0@), s@.skip(p.1 as int)),
            ),
            None => sp_entries(s@.skip(pos as int)) is None,
        },
{
    let n = s.unicode_len();
    let mut acc: Vec<(String, String)> = Vec::new();
    let mut p = pos;
    proof {
        assert(metadata_view(acc@) =~= Seq::<(Seq<char>, Seq<char>)>::empty());
    }
    loop
        invariant
            n == s@.len(),
            pos <= p <= n,
            (match sp_entries(s@.skip(p as int)) {
                Some(q) => sp_entries(s@.skip(pos as int)) == Some((metadata_view(acc@) + q.0, q.1)),
                None => sp_entries(s@.skip(pos as int)) is None,
            }),
        decreases n - p,
    {
        let p1 = match eat_lit(s, p, "\n    ") {
            Some(x) => x,
            None => {
                return None;
            },
        };
        let (k, p2) = match parse_value_string(s, p1) {
            Some(x) => x,
            None => {
                return None;
            },
        };
        let p3 = match eat_lit(s, p2, ": ") {
            Some(x) => x,
            None => {
                return None;
            },
        };
        let (v, p4) = match parse_value_string(s, p3) {
            Some(x) => x,
            None => {
                return None;
            },
        };
        proof {
            if p4 < n {
                assert(s@.skip(p4 as int)[0] == s@[p4 as int]);
                assert(s@.skip(p4 as int).drop_first() =~= s@.skip(p4 + 1));
            }
        }
        if p4 < n && s.get_char(p4) == ',' {
            let ghost old_acc = acc@;
            acc.push((k, v));
            proof {
                assert(metadata_view(acc@) =~= metadata_view(old_acc) + seq![(k@, v@)]);
                match sp_entries(s@.skip(p4 + 1)) {
                    Some(q) => {
                        assert(metadata_view(old_acc) + (seq![(k@, v@)] + q.0) =~= metadata_view(
                            acc@,
                        ) + q.0);
                    },
                    None => {},
                }
            }
            p = p4 + 1;
        } else {
            match eat_lit(s, p4, "\n  }") {
                Some(pe) => {
                    let ghost old_acc = acc@;
                    acc.push((k, v));
                    proof {
                        assert(metadata_view(acc@) =~= metadata_view(old_acc) + seq![(k@, v@)]);
                    }
                    return Some((acc, pe));
                },
                None => {
                    return None;
                },
            }
        }
    }
}

/// Parse a metadata object at `pos`.
fn parse_map(s: &str, pos: usize) -> (r: Option<(Vec<(String, String)>, usize)>)
    requires
        pos <= s@.len(),
    ensures
        match r {
            Some(p) => pos <= p.1 <= s@.len() && sp_map(s@.skip(pos as int)) == Some(
                (metadata_view(p.0@), s@.skip(p.1 as int)),
            ),
            None => sp_map(s@.skip(pos as int)) is None,
        },
{
    let n = s.unicode_len();
    if pos >= n {
        return None;
    }
    let c = s.get_char(pos);
    proof {
        assert(s@.skip(pos as int)[0] == s@[pos as int]);
        assert(s@.skip(pos as int).drop_first() =~= s@.skip(pos + 1));
    }
    if c != '{' {
        return None;
    }
    if pos + 1 < n {
        proof {
            assert(s@.skip(pos + 1)[0] == s@[pos + 1]);
            assert(s@.skip(pos + 1).drop_first() =~= s@.skip(pos + 2));
        }
        let c2 = s.get_char(pos + 1);
        if c2 == '}' {
            let empty: Vec<(String, String)> = Vec::new();
            proof {
                assert(metadata_view(empty@) =~= Seq::<(Seq<char>, Seq<char>)>::empty());
            }
            return Some((empty, pos + 2));
        }
    }
    parse_entries(s, pos + 1)
}

// ---------------------------------------------------------------------------
// The whole record
// ---------------------------------------------------------------------------
/// The canonical text of a license record: one pretty-printed JSON object,
/// fields in a fixed order, absent optional fields as `null`, the metadata
/// object last.
pub open spec fn enc_license(v: LicenseView) -> Seq<char> {
    "{\n  \"id\": "@ + enc_string(v.id) + ",\n  \"email\": "@ + enc_string(v.email)
        + ",\n  \"name\": "@ + enc_opt_string(v.name) + ",\n  \"tier\": "@ + enc_tier(v.tier)
        + ",\n  \"key\": "@ + enc_string(v.key) + ",\n  \"issued_at\": "@ + enc_i64(v.issued_at)
        + ",\n  \"expires_at\": "@ + enc_i64(v.expires_at) + ",\n  \"hardware_fingerprint\": "@
        + enc_opt_string(v.hardware_fingerprint) + ",\n  \"last_validated\": "@ + enc_opt_i64(
        v.last_validated,
    ) + ",\n  \"stripe_customer_id\": "@ + enc_opt_string(v.stripe_customer_id)
        + ",\n  \"stripe_subscription_id\": "@ + enc_opt_string(v.stripe_subscription_id)
        + ",\n  \"organization_id\": "@ + enc_opt_string(v.organization_id)
        + ",\n  \"organization_name\": "@ + enc_opt_string(v.organization_name)
        + ",\n  \"metadata\": "@ + enc_map(v.metadata) + "\n}"@
}

/// Parse the canonical text of a license record. The whole input must be
/// one record; a missing metadata field is read as an empty map.
pub open spec fn spec_parse_license(s: Seq<char>) -> Option<LicenseView> {
    match sp_lit(s, "{\n  \"id\": "@) {
        None => None,
        Some(s1) => match sp_value_string(s1) {
            None => None,
            Some((id, s2)) => match sp_lit(s2, ",\n  \"email\": "@) {
                None => None,
                Some(s3) => match sp_value_string(s3) {
                    None => None,
                    Some((email, s4)) => match sp_lit(s4, ",\n  \"name\": "@) {
                        None => None,
                        Some(s5) => match sp_opt_string(s5) {
                            None => None,
                            Some((name, s6)) => match sp_lit(s6, ",\n  \"tier\": "@) {
                                None => None,
                                Some(s7) => match sp_tier(s7) {
                                    None => None,
                                    Some((tier, s8)) => match sp_lit(s8, ",\n  \"key\": "@) {
                                        None => None,
                                        Some(s9) => match sp_value_string(s9) {
                                            None => None,
                                            Some((key, s10)) => spec_parse_license_tail(
                                                s10,
                                                id,
                                                email,
                                                name,
                                                tier,
                                                key,
                                            ),
                                        },
                                    },
                                },
                            },
                        },
                    },
                },
            },
        },
    }
}

/// The timestamps, binding, billing and metadata fields of a record, after
/// the identity fields have been read.
pub open spec fn spec_parse_license_tail(
    s10: Seq<char>,
    id: Seq<char>,
    email: Seq<char>,
    name: Option<Seq<char>>,
    tier: SubscriptionTier,
    key: Seq<char>,
) -> Option<LicenseView> {
    match sp_lit(s10, ",\n  \"issued_at\": "@) {
        None => None,
        Some(s11) => match sp_i64(s11) {
            None => None,
            Some((issued_at, s12)) => match sp_lit(s12, ",\n  \"expires_at\": "@) {
                None => None,
                Some(s13) => match sp_i64(s13) {
                    None => None,
                    Some((expires_at, s14)) => match sp_lit(
                        s14,
                        ",\n  \"hardware_fingerprint\": "@,
                    ) {
                        None => None,
                        Some(s15) => match sp_opt_string(s15) {
                            None => None,
                            Some((hardware_fingerprint, s16)) => match sp_lit(
                                s16,
                                ",\n  \"last_validated\": "@,
                            ) {
                                None => None,
                                Some(s17) => match sp_opt_i64(s17) {
                                    None => None,
                                    Some((last_validated, s18)) => match sp_lit(
                                        s18,
                                        ",\n  \"stripe_customer_id\": "@,
                                    ) {
                                        None => None,
                                        Some(s19) => match sp_opt_string(s19) {
                                            None => None,
                                            Some((stripe_customer_id, s20)) => match sp_lit(
                                                s20,
                                                ",\n  \"stripe_subscription_id\": "@,
                                            ) {
                                                None => None,
                                                Some(s21) => match sp_opt_string(s21) {
                                                    None => None,
                                                    Some(
                                                        (stripe_subscription_id, s22),
                                                    ) => spec_parse_license_end(
                                                        s22,
                                                        LicenseView {
                                                            id,
                                                            email,
                                                            name,
                                                            tier,
                                                            key,
                                                            issued_at,
                                                            expires_at,
                                                            hardware_fingerprint,
                                                            last_validated,
                                                            stripe_customer_id,
                                                            stripe_subscription_id,
                                                            organization_id: None,
                                                            organization_name: None,
                                                            metadata: Seq::empty(),
                                                        },
                                                    ),
                                                },
                                            },
                                        },
                                    },
                                },
                            },
                        },
                    },
                },
            },
        },
    }
}

/// The organization and metadata fields of a record; `head` carries the
/// fields already read.
pub open spec fn spec_parse_license_end(s22: Seq<char>, head: LicenseView) -> Option<LicenseView> {
    match sp_lit(s22, ",\n  \"organization_id\": "@) {
        None => None,
        Some(s23) => match sp_opt_string(s23) {
            None => None,
            Some((organization_id, s24)) => match sp_lit(s24, ",\n  \"organization_name\": "@) {
                None => None,
                Some(s25) => match sp_opt_string(s25) {
                    None => None,
                    Some((organization_name, s26)) => match sp_lit(s26, ",\n  \"metadata\": "@) {
                        Some(s27) => match sp_map(s27) {
                            None => None,
                            Some((metadata, s28)) => match sp_lit(s28, "\n}"@) {
                                None => None,
                                Some(r) => if r.len() == 0 {
                                    Some(
                                        LicenseView {
                                            organization_id,
                                            organization_name,
                                            metadata,
                                            ..head
                                        },
                                    )
                                } else {
                                    None
                                },
                            },
                        },
                        None => match sp_lit(s26, "\n}"@) {
                            None => None,
                            Some(r) => if r.len() == 0 {
                                Some(
                                    LicenseView {
                                        organization_id,
                                        organization_name,
                                        metadata: Seq::empty(),
                                        ..head
                                    },
                                )
                            } else {
                                None
                            },
                        },
                    },
                },
            },
        },
    }
}

/// Appends an optional string value to `out`.
fn push_opt_string(out: &mut String, o: &Option<String>)
    ensures
        final(out)@ == old(out)@ + enc_opt_string(opt_str_view(*o)),
{
    match o {
        Some(v) => push_json_string(out, v.as_str()),
        None => push_str(out, "null"),
    }
}

/// Appends an optional timestamp value to `out`.
fn push_opt_i64(out: &mut String, o: Option<i64>)
    ensures
        final(out)@ == old(out)@ + enc_opt_i64(opt_i64_view(o)),
{
    match o {
        Some(v) => push_i64_decimal(out, v),
        None => push_str(out, "null"),
    }
}

/// Appends a tier value to `out`.
fn push_tier(out: &mut String, t: SubscriptionTier)
    ensures
        final(out)@ == old(out)@ + enc_tier(t),
{
    push_char(out, '"');
    match t {
        SubscriptionTier::Free => push_str(out, "free\""),
        SubscriptionTier::Pro => push_str(out, "pro\""),
        SubscriptionTier::Enterprise => push_str(out, "enterprise\""),
    }
    proof {
        assert(final(out)@ =~= old(out)@ + enc_tier(t));
    }
}

/// Appends the entries of a non-empty metadata object from index `i` on,
/// with the closing indentation and brace.
fn push_entries(out: &mut String, entries: &Vec<(String, String)>, i: usize)
    requires
        i < entries@.len(),
    ensures
        final(out)@ == old(out)@ + enc_entries(metadata_view(entries@).skip(i as int)),
    decreases entries@.len() - i,
{
    let ghost mv = metadata_view(entries@);
    proof {
        assert(mv.skip(i as int)[0] == mv[i as int]);
        assert(mv.skip(i as int).drop_first() =~= mv.skip(i + 1));
        assert(mv.skip(i as int).len() == mv.len() - i);
    }
    let len = entries.len();
    push_str(out, "\n    ");
    push_json_string(out, entries[i].0.as_str());
    push_str(out, ": ");
    push_json_string(out, entries[i].1.as_str());
    if i + 1 < len {
        push_char(out, ',');
        push_entries(out, entries, i + 1);
    } else {
        push_str(out, "\n  }");
    }
    proof {
        assert(final(out)@ =~= old(out)@ + enc_entries(mv.skip(i as int)));
    }
}

/// Appends a metadata object to `out`.
fn push_map(out: &mut String, entries: &Vec<(String, String)>)
    ensures
        final(out)@ == old(out)@ + enc_map(metadata_view(entries@)),
{
    if entries.len() == 0 {
        push_char(out, '{');
        push_char(out, '}');
        proof {
            assert(metadata_view(entries@).len() == 0);
            assert(final(out)@ =~= old(out)@ + enc_map(metadata_view(entries@)));
        }
    } else {
        push_char(out, '{');
        push_entries(out, entries, 0);
        proof {
            assert(metadata_view(entries@).skip(0) =~= metadata_view(entries@));
            assert(final(out)@ =~= old(out)@ + enc_map(metadata_view(entries@)));
        }
    }
}

/// Encode a license record in its canonical on-disk form.
pub fn encode_license(license: &License) -> (out: String)
    ensures
        out@ == enc_license(license@),
{
    let mut out = String::new();
    push_str(&mut out, "{\n  \"id\": ");
    push_json_string(&mut out, license.id.as_str());
    push_str(&mut out, ",\n  \"email\": ");
    push_json_string(&mut out, license.email.as_str());
    push_str(&mut out, ",\n  \"name\": ");
    push_opt_string(&mut out, &license.name);
    push_str(&mut out, ",\n  \"tier\": ");
    push_tier(&mut out, license.tier);
    push_str(&mut out, ",\n  \"key\": ");
    push_json_string(&mut out, license.key.as_str());
    push_str(&mut out, ",\n  \"issued_at\": ");
    push_i64_decimal(&mut out, license.issued_at);
    push_str(&mut out, ",\n  \"expires_at\": ");
    push_i64_decimal(&mut out, license.expires_at);
    push_str(&mut out, ",\n  \"hardware_fingerprint\": ");
    push_opt_string(&mut out, &license.hardware_fingerprint);
    push_str(&mut out, ",\n  \"last_validated\": ");
    push_opt_i64(&mut out, license.last_validated);
    push_str(&mut out, ",\n  \"stripe_customer_id\": ");
    push_opt_string(&mut out, &license.stripe_customer_id);
    push_str(&mut out, ",\n  \"stripe_subscription_id\": ");
    push_opt_string(&mut out, &license.stripe_subscription_id);
    push_str(&mut out, ",\n  \"organization_id\": ");
    push_opt_string(&mut out, &license.organization_id);
    push_str(&mut out, ",\n  \"organization_name\": ");
    push_opt_string(&mut out, &license.organization_name);
    push_str(&mut out, ",\n  \"metadata\": ");
    push_map(&mut out, &license.metadata);
    push_str(&mut out, "\n}");
    proof {
        assert(out@ =~= enc_license(license@));
    }
    out
}

/// Parse the canonical text of a license record: gives the record it
/// encodes, or `InvalidFormat` for any other input.
#[verifier::rlimit(100)]
pub fn parse_license(content: &str) -> (r: Result<License, LicenseError>)
    ensures
        (match spec_parse_license(content@) {
            Some(v) => r matches Ok(l) && l@ == v,
            None => r matches Err(e) && (e matches LicenseError::InvalidFormat(_)),
        }),
{
    let s = content;
    let n = s.unicode_len();
    proof {
        assert(s@.skip(0) =~= s@);
    }
    let invalid = || -> (e: LicenseError)
        ensures
            e matches LicenseError::InvalidFormat(_),
        { LicenseError::InvalidFormat("malformed license record".to_owned()) };
    let p1 = match eat_lit(s, 0, "{\n  \"id\": ") {
        Some(x) => x,
        None => {
            return Err(invalid());
        },
    };
    let (id, p2) = match parse_value_string(s, p1) {
        Some(x) => x,
        None => {
            return Err(invalid());
        },
    };
    let p3 = match eat_lit(s, p2, ",\n  \"email\": ") {
        Some(x) => x,
        None => {
            return Err(invalid());
        },
    };
    let (email, p4) = match parse_value_string(s, p3) {
        Some(x) => x,
        None => {
            return Err(invalid());
        },
    };
    let p5 = match eat_lit(s, p4, ",\n  \"name\": ") {
        Some(x) => x,
        None => {
            return Err(invalid());
        },
    };
    let (name, p6) = match parse_opt_string(s, p5) {
        Some(x) => x,
        None => {
            return Err(invalid());
        },
    };
    let p7 = match eat_lit(s, p6, ",\n  \"tier\": ") {
        Some(x) => x,
        None => {
            return Err(invalid());
        },
    };
    let (tier, p8) = match parse_tier(s, p7) {
        Some(x) => x,
        None => {
            return Err(invalid());
        },
    };
    let p9 = match eat_lit(s, p8, ",\n  \"key\": ") {
        Some(x) => x,
        None => {
            return Err(invalid());
        },
    };
    let (key, p10) = match parse_value_string(s, p9) {
        Some(x) => x,
        None => {
            return Err(invalid());
        },
    };
    parse_license_tail(s, p10, id, email, name, tier, key)
}

/// Parse a record's timestamps, binding, billing and metadata fields at
/// `p10`, the identity fields having been read already, and assemble the
/// record.
#[verifier::rlimit(100)]
fn parse_license_tail(
    s: &str,
    p10: usize,
    id: String,
    email: String,
    name: Option<String>,
    tier: SubscriptionTier,
    key: String,
) -> (r: Result<License, LicenseError>)
    requires
        p10 <= s@.len(),
    ensures
        (match spec_parse_license_tail(
            s@.skip(p10 as int),
            id@,
            email@,
            opt_str_view(name),
            tier,
            key@,
        ) {
            Some(v) => r matches Ok(l) && l@ == v,
            None => r matches Err(e) && (e matches LicenseError::InvalidFormat(_)),
        }),
{
    let n = s.unicode_len();
    let invalid = || -> (e: LicenseError)
        ensures
            e matches LicenseError::InvalidFormat(_),
        { LicenseError::InvalidFormat("malformed license record".to_owned()) };
    let p11 = match eat_lit(s, p10, ",\n  \"issued_at\": ") {
        Some(x) => x,
        None => {
            return Err(invalid());
        },
    };
    let (issued_at, p12) = match parse_i64_at(s, p11) {
        Some(x) => x,
        None => {
            return Err(invalid());
        },
    };
    let p13 = match eat_lit(s, p12, ",\n  \"expires_at\": ") {
        Some(x) => x,
        None => {
            return Err(invalid());
        },
    };
    let (expires_at, p14) = match parse_i64_at(s, p13) {
        Some(x) => x,
        None => {
            return Err(invalid());
        },
    };
    let p15 = match eat_lit(s, p14, ",\n  \"hardware_fingerprint\": ") {
        Some(x) => x,
        None => {
            return Err(invalid());
        },
    };
    let (hardware_fingerprint, p16) = match parse_opt_string(s, p15) {
        Some(x) => x,
        None => {
            return Err(invalid());
        },
    };
    let p17 = match eat_lit(s, p16, ",\n  \"last_validated\": ") {
        Some(x) => x,
        None => {
            return Err(invalid());
        },
    };
    let (last_validated, p18) = match parse_opt_i64(s, p17) {
        Some(x) => x,
        None => {
            return Err(invalid());
        },
    };
    let p19 = match eat_lit(s, p18, ",\n  \"stripe_customer_id\": ") {
        Some(x) => x,
        None => {
            return Err(invalid());
        },
    };
    let (stripe_customer_id, p20) = match parse_opt_string(s, p19) {
        Some(x) => x,
        None => {
            return Err(invalid());
        },
    };
    let p21 = match eat_lit(s, p20, ",\n  \"stripe_subscription_id\": ") {
        Some(x) => x,
        None => {
            return Err(invalid());
        },
    };
    let (stripe_subscription_id, p22) = match parse_opt_string(s, p21) {
        Some(x) => x,
        None => {
            return Err(invalid());
        },
    };
    let p23 = match eat_lit(s, p22, ",\n  \"organization_id\": ") {
        Some(x) => x,
        None => {
            return Err(invalid());
        },
    };
    let (organization_id, p24) = match parse_opt_string(s, p23) {
        Some(x) => x,
        None => {
            return Err(invalid());
        },
    };
    let p25 = match eat_lit(s, p24, ",\n  \"organization_name\": ") {
        Some(x) => x,
        None => {
            return Err(invalid());
        },
    };
    let (organization_name, p26) = match parse_opt_string(s, p25) {
        Some(x) => x,
        None => {
            return Err(invalid());
        },
    };
    let metadata: Vec<(String, String)>;
    let p_done: usize;
    match eat_lit(s, p26, ",\n  \"metadata\": ") {
        Some(p27) => {
            let (md, p28) = match parse_map(s, p27) {
                Some(x) => x,
                None => {
                    return Err(invalid());
                },
            };
            let p29 = match eat_lit(s, p28, "\n}") {
                Some(x) => x,
                None => {
                    return Err(invalid());
                },
            };
            metadata = md;
            p_done = p29;
        },
        None => {
            let p27 = match eat_lit(s, p26, "\n}") {
                Some(x) => x,
                None => {
                    return Err(invalid());
                },
            };
            metadata = Vec::new();
            p_done = p27;
            proof {
                assert(metadata_view(metadata@) =~= Seq::<(Seq<char>, Seq<char>)>::empty());
            }
        },
    }
    if p_done != n {
        return Err(invalid());
    }
    proof {
        assert(s@.skip(p_done as int).len() == 0);
    }
    let license = License {
        id,
        email,
        name,
        tier,
        key,
        issued_at,
        expires_at,
        hardware_fingerprint,
        last_validated,
        stripe_customer_id,
        stripe_subscription_id,
        organization_id,
        organization_name,
        metadata,
    };
    proof {
        match spec_parse_license_tail(
            s@.skip(p10 as int),
            license.id@,
            license.email@,
            opt_str_view(license.name),
            license.tier,
            license.key@,
        ) {
            Some(v) => {
                assert(license@ =~= v);
            },
            None => {
                assert(false);
            },
        }
    }
    Ok(license)
}

/// Whether a record view's timestamps lie in the value range of `i64`; the
/// view of every [`License`] does.
pub open spec fn timestamps_in_range(v: LicenseView) -> bool {
    &&& -0x8000000000000000 <= v.issued_at <= 0x7fffffffffffffff
    &&& -0x8000000000000000 <= v.expires_at <= 0x7fffffffffffffff
    &&& (v.last_validated matches Some(t) ==> -0x8000000000000000 <= t <= 0x7fffffffffffffff)
}

/// The record text from the metadata field on, grouped as the parser
/// consumes it.
spec fn rest_meta(v: LicenseView) -> Seq<char> {
    ",\n  \"metadata\": "@ + (enc_map(v.metadata) + "\n}"@)
}

/// The record text from the organization name field on.
spec fn rest_orgname(v: LicenseView) -> Seq<char> {
    ",\n  \"organization_name\": "@ + (enc_opt_string(v.organization_name) + rest_meta(v))
}

/// The record text from the organization id field on.
spec fn rest_org(v: LicenseView) -> Seq<char> {
    ",\n  \"organization_id\": "@ + (enc_opt_string(v.organization_id) + rest_orgname(v))
}

/// The record text from the subscription billing id field on.
spec fn rest_stripe_sub(v: LicenseView) -> Seq<char> {
    ",\n  \"stripe_subscription_id\": "@ + (enc_opt_string(v.stripe_subscription_id) + rest_org(v))
}

/// The record text from the customer billing id field on.
spec fn rest_stripe_cust(v: LicenseView) -> Seq<char> {
    ",\n  \"stripe_customer_id\": "@ + (enc_opt_string(v.stripe_customer_id) + rest_stripe_sub(v))
}

/// The record text from the last validation field on.
spec fn rest_lastv(v: LicenseView) -> Seq<char> {
    ",\n  \"last_validated\": "@ + (enc_opt_i64(v.last_validated) + rest_stripe_cust(v))
}

/// The record text from the hardware binding field on.
spec fn rest_hw(v: LicenseView) -> Seq<char> {
    ",\n  \"hardware_fingerprint\": "@ + (enc_opt_string(v.hardware_fingerprint) + rest_lastv(v))
}

/// The record text from the expiry field on.
spec fn rest_expires(v: LicenseView) -> Seq<char> {
    ",\n  \"expires_at\": "@ + (enc_i64(v.expires_at) + rest_hw(v))
}

/// The record text from the issue field on.
spec fn rest_issued(v: LicenseView) -> Seq<char> {
    ",\n  \"issued_at\": "@ + (enc_i64(v.issued_at) + rest_expires(v))
}

/// The record text from the key field on.
spec fn rest_key(v: LicenseView) -> Seq<char> {
    ",\n  \"key\": "@ + (enc_string(v.key) + rest_issued(v))
}

/// The record text from the tier field on.
spec fn rest_tier(v: LicenseView) -> Seq<char> {
    ",\n  \"tier\": "@ + (enc_tier(v.tier) + rest_key(v))
}

/// The record text from the name field on.
spec fn rest_name(v: LicenseView) -> Seq<char> {
    ",\n  \"name\": "@ + (enc_opt_string(v.name) + rest_tier(v))
}

/// The record text from the email field on.
spec fn rest_email(v: LicenseView) -> Seq<char> {
    ",\n  \"email\": "@ + (enc_string(v.email) + rest_name(v))
}

/// The whole record text, grouped as the parser consumes it.
spec fn enc_license_nested(v: LicenseView) -> Seq<char> {
    "{\n  \"id\": "@ + (enc_string(v.id) + rest_email(v))
}

/// Concatenation of sequences is associative.
proof fn lemma_assoc(a: Seq<char>, b: Seq<char>, c: Seq<char>)
    ensures
        (a + b) + c == a + (b + c),
{
    assert((a + b) + c =~= a + (b + c));
}

/// The flat and the parser-grouped record texts are the same sequence.
#[verifier::rlimit(100)]
proof fn lemma_enc_license_nested(v: LicenseView)
    ensures
        enc_license(v) == enc_license_nested(v),
{
    let a1 = "{\n  \"id\": "@;
    let a2 = enc_string(v.id);
    let a3 = ",\n  \"email\": "@;
    let a4 = enc_string(v.email);
    let a5 = ",\n  \"name\": "@;
    let a6 = enc_opt_string(v.name);
    let a7 = ",\n  \"tier\": "@;
    let a8 = enc_tier(v.tier);
    let a9 = ",\n  \"key\": "@;
    let a10 = enc_string(v.key);
    let a11 = ",\n  \"issued_at\": "@;
    let a12 = enc_i64(v.issued_at);
    let a13 = ",\n  \"expires_at\": "@;
    let a14 = enc_i64(v.expires_at);
    let a15 = ",\n  \"hardware_fingerprint\": "@;
    let a16 = enc_opt_string(v.hardware_fingerprint);
    let a17 = ",\n  \"last_validated\": "@;
    let a18 = enc_opt_i64(v.last_validated);
    let a19 = ",\n  \"stripe_customer_id\": "@;
    let a20 = enc_opt_string(v.stripe_customer_id);
    let a21 = ",\n  \"stripe_subscription_id\": "@;
    let a22 = enc_opt_string(v.stripe_subscription_id);
    let a23 = ",\n  \"organization_id\": "@;
    let a24 = enc_opt_string(v.organization_id);
    let a25 = ",\n  \"organization_name\": "@;
    let a26 = enc_opt_string(v.organization_name);
    let a27 = ",\n  \"metadata\": "@;
    let a28 = enc_map(v.metadata);
    let a29 = "\n}"@;
    let q1 = a1;
    let q2 = q1 + a2;
    let q3 = q2 + a3;
    let q4 = q3 + a4;
    let q5 = q4 + a5;
    let q6 = q5 + a6;
    let q7 = q6 + a7;
    let q8 = q7 + a8;
    let q9 = q8 + a9;
    let q10 = q9 + a10;
    let q11 = q10 + a11;
    let q12 = q11 + a12;
    let q13 = q12 + a13;
    let q14 = q13 + a14;
    let q15 = q14 + a15;
    let q16 = q15 + a16;
    let q17 = q16 + a17;
    let q18 = q17 + a18;
    let q19 = q18 + a19;
    let q20 = q19 + a20;
    let q21 = q20 + a21;
    let q22 = q21 + a22;
    let q23 = q22 + a23;
    let q24 = q23 + a24;
    let q25 = q24 + a25;
    let q26 = q25 + a26;
    let q27 = q26 + a27;
    let q28 = q27 + a28;
    let q29 = q28 + a29;
    assert(enc_license(v) == q29);
    let t29 = a29;
    let t28 = a28 + t29;
    let t27 = a27 + t28;
    let t26 = a26 + t27;
    let t25 = a25 + t26;
    let t24 = a24 + t25;
    let t23 = a23 + t24;
    let t22 = a22 + t23;
    let t21 = a21 + t22;
    let t20 = a20 + t21;
    let t19 = a19 + t20;
    let t18 = a18 + t19;
    let t17 = a17 + t18;
    let t16 = a16 + t17;
    let t15 = a15 + t16;
    let t14 = a14 + t15;
    let t13 = a13 + t14;
    let t12 = a12 + t13;
    let t11 = a11 + t12;
    let t10 = a10 + t11;
    let t9 = a9 + t10;
    let t8 = a8 + t9;
    let t7 = a7 + t8;
    let t6 = a6 + t7;
    let t5 = a5 + t6;
    let t4 = a4 + t5;
    let t3 = a3 + t4;
    let t2 = a2 + t3;
    lemma_assoc(q27, a28, t29);
    lemma_assoc(q26, a27, t28);
    lemma_assoc(q25, a26, t27);
    lemma_assoc(q24, a25, t26);
    lemma_assoc(q23, a24, t25);
    lemma_assoc(q22, a23, t24);
    lemma_assoc(q21, a22, t23);
    lemma_assoc(q20, a21, t22);
    lemma_assoc(q19, a20, t21);
    lemma_assoc(q18, a19, t20);
    lemma_assoc(q17, a18, t19);
    lemma_assoc(q16, a17, t18);
    lemma_assoc(q15, a16, t17);
    lemma_assoc(q14, a15, t16);
    lemma_assoc(q13, a14, t15);
    lemma_assoc(q12, a13, t14);
    lemma_assoc(q11, a12, t13);
    lemma_assoc(q10, a11, t12);
    lemma_assoc(q9, a10, t11);
    lemma_assoc(q8, a9, t10);
    lemma_assoc(q7, a8, t9);
    lemma_assoc(q6, a7, t8);
    lemma_assoc(q5, a6, t7);
    lemma_assoc(q4, a5, t6);
    lemma_assoc(q3, a4, t5);
    lemma_assoc(q2, a3, t4);
    lemma_assoc(q1, a2, t3);
    assert(q29 == q1 + t2);
    assert(t27 == rest_meta(v));
    assert(t25 == rest_orgname(v));
    assert(t23 == rest_org(v));
    assert(t21 == rest_stripe_sub(v));
    assert(t19 == rest_stripe_cust(v));
    assert(t17 == rest_lastv(v));
    assert(t15 == rest_hw(v));
    assert(t13 == rest_expires(v));
    assert(t11 == rest_issued(v));
    assert(t9 == rest_key(v));
    assert(t7 == rest_tier(v));
    assert(t5 == rest_name(v));
    assert(t3 == rest_email(v));
    assert(enc_license_nested(v) == q1 + t2);
}

/// The organization and metadata fields parse back from their encoding.
proof fn lemma_rt_end(v: LicenseView, head: LicenseView)
    ensures
        spec_parse_license_end(rest_org(v), head) == Some(
            LicenseView {
                organization_id: v.organization_id,
                organization_name: v.organization_name,
                metadata: v.metadata,
                ..head
            },
        ),
{
    lemma_sp_lit_roundtrip(",\n  \"organization_id\": "@, enc_opt_string(v.organization_id)
        + rest_orgname(v));
    lemma_sp_opt_string_roundtrip(v.organization_id, rest_orgname(v));
    lemma_sp_lit_roundtrip(",\n  \"organization_name\": "@, enc_opt_string(v.organization_name)
        + rest_meta(v));
    lemma_sp_opt_string_roundtrip(v.organization_name, rest_meta(v));
    lemma_sp_lit_roundtrip(",\n  \"metadata\": "@, enc_map(v.metadata) + "\n}"@);
    lemma_sp_map_roundtrip(v.metadata, "\n}"@);
    assert("\n}"@ =~= "\n}"@ + Seq::<char>::empty());
    lemma_sp_lit_roundtrip("\n}"@, Seq::<char>::empty());
}

/// The timestamp, binding and billing fields parse back from their
/// encoding.
#[verifier::rlimit(100)]
proof fn lemma_rt_tail(v: LicenseView)
    requires
        timestamps_in_range(v),
    ensures
        spec_parse_license_tail(rest_issued(v), v.id, v.email, v.name, v.tier, v.key) == Some(v),
{
    reveal_strlit(",\n  \"expires_at\": ");
    reveal_strlit(",\n  \"hardware_fingerprint\": ");
    reveal_strlit(",\n  \"stripe_customer_id\": ");
    lemma_sp_lit_roundtrip(",\n  \"issued_at\": "@, enc_i64(v.issued_at) + rest_expires(v));
    assert(rest_expires(v)[0] == ',');
    lemma_sp_i64_roundtrip(v.issued_at, rest_expires(v));
    lemma_sp_lit_roundtrip(",\n  \"expires_at\": "@, enc_i64(v.expires_at) + rest_hw(v));
    assert(rest_hw(v)[0] == ',');
    lemma_sp_i64_roundtrip(v.expires_at, rest_hw(v));
    lemma_sp_lit_roundtrip(",\n  \"hardware_fingerprint\": "@, enc_opt_string(
        v.hardware_fingerprint,
    ) + rest_lastv(v));
    lemma_sp_opt_string_roundtrip(v.hardware_fingerprint, rest_lastv(v));
    lemma_sp_lit_roundtrip(",\n  \"last_validated\": "@, enc_opt_i64(v.last_validated)
        + rest_stripe_cust(v));
    assert(rest_stripe_cust(v)[0] == ',');
    lemma_sp_opt_i64_roundtrip(v.last_validated, rest_stripe_cust(v));
    lemma_sp_lit_roundtrip(",\n  \"stripe_customer_id\": "@, enc_opt_string(v.stripe_customer_id)
        + rest_stripe_sub(v));
    lemma_sp_opt_string_roundtrip(v.stripe_customer_id, rest_stripe_sub(v));
    lemma_sp_lit_roundtrip(",\n  \"stripe_subscription_id\": "@, enc_opt_string(
        v.stripe_subscription_id,
    ) + rest_org(v));
    lemma_sp_opt_string_roundtrip(v.stripe_subscription_id, rest_org(v));
    let head = LicenseView {
        id: v.id,
        email: v.email,
        name: v.name,
        tier: v.tier,
        key: v.key,
        issued_at: v.issued_at,
        expires_at: v.expires_at,
        hardware_fingerprint: v.hardware_fingerprint,
        last_validated: v.last_validated,
        stripe_customer_id: v.stripe_customer_id,
        stripe_subscription_id: v.stripe_subscription_id,
        organization_id: None,
        organization_name: None,
        metadata: Seq::empty(),
    };
    lemma_rt_end(v, head);
    assert((LicenseView {
        organization_id: v.organization_id,
        organization_name: v.organization_name,
        metadata: v.metadata,
        ..head
    }) =~= v);
}

/// Serialization fidelity: parsing the canonical text of any record gives
/// back a record equal in every field — including an empty metadata map
/// round-tripping to an empty one.
#[verifier::rlimit(100)]
pub proof fn lemma_encode_parse_roundtrip(v: LicenseView)
    requires
        timestamps_in_range(v),
    ensures
        spec_parse_license(enc_license(v)) == Some(v),
{
    lemma_enc_license_nested(v);
    lemma_sp_lit_roundtrip("{\n  \"id\": "@, enc_string(v.id) + rest_email(v));
    lemma_sp_value_string_roundtrip(v.id, rest_email(v));
    lemma_sp_lit_roundtrip(",\n  \"email\": "@, enc_string(v.email) + rest_name(v));
    lemma_sp_value_string_roundtrip(v.email, rest_name(v));
    lemma_sp_lit_roundtrip(",\n  \"name\": "@, enc_opt_string(v.name) + rest_tier(v));
    lemma_sp_opt_string_roundtrip(v.name, rest_tier(v));
    lemma_sp_lit_roundtrip(",\n  \"tier\": "@, enc_tier(v.tier) + rest_key(v));
    lemma_sp_tier_roundtrip(v.tier, rest_key(v));
    lemma_sp_lit_roundtrip(",\n  \"key\": "@, enc_string(v.key) + rest_issued(v));
    lemma_sp_value_string_roundtrip(v.key, rest_issued(v));
    lemma_rt_tail(v);
}

} // verus!
