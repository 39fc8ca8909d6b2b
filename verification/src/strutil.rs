//! Verified string helpers shared by the whole crate: building strings
//! character by character, joining words, splitting on whitespace and
//! substring search.

use vstd::prelude::*;

verus! {

/// Relies on `String::push`: appends exactly one character to the string.
#[verifier::external_body]
pub(crate) fn push_char(s: &mut String, c: char)
    ensures
        final(s)@ == old(s)@.push(c),
{
    s.push(c);
}

/// Appends `part` to `out`; a thin verified convenience over `String::append`.
pub(crate) fn push_str(out: &mut String, part: &str)
    ensures
        final(out)@ == old(out)@ + part@,
{
    out.append(part);
}

/// Whether a character counts as alphanumeric, exactly as the standard
/// library classifies it.
pub uninterp spec fn is_alnum_char(c: char) -> bool;

/// Relies on `char::is_alphanumeric`: the classification depends on the
/// character alone.
pub assume_specification[ char::is_alphanumeric ](c: char) -> (b: bool)
    ensures
        b == is_alnum_char(c),
;

/// The subsequence of alphanumeric characters of `s`, in order.
pub open spec fn filter_alnum(s: Seq<char>) -> Seq<char>
    decreases s.len(),
{
    if s.len() == 0 {
        Seq::empty()
    } else {
        filter_alnum(s.drop_last()) + if is_alnum_char(s.last()) {
            seq![s.last()]
        } else {
            Seq::empty()
        }
    }
}

/// Keeps exactly the alphanumeric characters of `s`, in order.
pub fn filter_alphanumeric(s: &str) -> (out: String)
    ensures
        out@ == filter_alnum(s@),
{
    let n = s.unicode_len();
    let mut out = String::new();
    let mut i: usize = 0;
    while i < n
        invariant
            n == s@.len(),
            i <= n,
            out@ == filter_alnum(s@.take(i as int)),
        decreases n - i,
    {
        let c = s.get_char(i);
        proof {
            assert(s@.take(i + 1).drop_last() =~= s@.take(i as int));
            assert(s@.take(i + 1).last() == s@[i as int]);
        }
        if c.is_alphanumeric() {
            push_char(&mut out, c);
        }
        i = i + 1;
    }
    proof {
        assert(s@.take(n as int) =~= s@);
    }
    out
}

/// Whether a character counts as whitespace, exactly as the standard
/// library classifies it.
pub uninterp spec fn is_ws_char(c: char) -> bool;

/// Relies on `char::is_whitespace`: the classification depends on the
/// character alone.
pub assume_specification[ char::is_whitespace ](c: char) -> (b: bool)
    ensures
        b == is_ws_char(c),
;

/// The lowercase form of a string.
pub uninterp spec fn lower_of(s: Seq<char>) -> Seq<char>;

/// Relies on `str::to_lowercase`: the result depends on the characters
/// alone.
pub assume_specification[ str::to_lowercase ](s: &str) -> (r: String)
    ensures
        r@ == lower_of(s@),
;

/// The views of a sequence of strings.
pub open spec fn str_views(ws: Seq<String>) -> Seq<Seq<char>> {
    ws.map_values(|w: String| w@)
}

/// Split `s` at whitespace, with `cur` the word read so far: the list of
/// maximal non-whitespace runs.
pub open spec fn split2(s: Seq<char>, cur: Seq<char>) -> Seq<Seq<char>>
    decreases s.len(),
{
    if s.len() == 0 {
        if cur.len() == 0 {
            Seq::empty()
        } else {
            seq![cur]
        }
    } else if is_ws_char(s[0]) {
        (if cur.len() > 0 {
            seq![cur]
        } else {
            Seq::empty()
        }) + split2(s.drop_first(), Seq::empty())
    } else {
        split2(s.drop_first(), cur.push(s[0]))
    }
}

/// The whitespace-separated words of `s`.
pub open spec fn split_ws(s: Seq<char>) -> Seq<Seq<char>> {
    split2(s, Seq::empty())
}

/// Split `s` into its whitespace-separated words.
pub fn split_whitespace_words(s: &str) -> (out: Vec<String>)
    ensures
        str_views(out@) == split_ws(s@),
{
    let n = s.unicode_len();
    let mut out: Vec<String> = Vec::new();
    let mut cur = String::new();
    let mut i: usize = 0;
    proof {
        assert(s@.skip(0) =~= s@);
        assert(str_views(out@) =~= Seq::<Seq<char>>::empty());
        assert(str_views(out@) + split2(s@, Seq::<char>::empty()) =~= split2(
            s@,
            Seq::<char>::empty(),
        ));
    }
    while i < n
        invariant
            n == s@.len(),
            i <= n,
            split_ws(s@) == str_views(out@) + split2(s@.skip(i as int), cur@),
        decreases n - i,
    {
        let c = s.get_char(i);
        proof {
            assert(s@.skip(i as int)[0] == s@[i as int]);
            assert(s@.skip(i as int).drop_first() =~= s@.skip(i + 1));
        }
        if c.is_whitespace() {
            if !cur.as_str().is_empty() {
                let ghost old_out = out@;
                let ghost word = cur@;
                out.push(cur);
                cur = String::new();
                proof {
                    assert(str_views(out@) =~= str_views(old_out) + seq![word]);
                    assert(str_views(old_out) + (seq![word] + split2(s@.skip(i + 1), cur@))
                        =~= str_views(out@) + split2(s@.skip(i + 1), cur@));
                }
            } else {
                proof {
                    assert(cur@.len() == 0);
                    assert(Seq::<Seq<char>>::empty() + split2(s@.skip(i + 1), Seq::<char>::empty())
                        =~= split2(s@.skip(i + 1), Seq::<char>::empty()));
                    assert(split2(s@.skip(i as int), cur@) == split2(
                        s@.skip(i + 1),
                        Seq::<char>::empty(),
                    ));
                    assert(cur@ =~= Seq::<char>::empty());
                }
            }
        } else {
            push_char(&mut cur, c);
        }
        i = i + 1;
    }
    proof {
        assert(s@.skip(n as int).len() == 0);
    }
    if !cur.as_str().is_empty() {
        let ghost old_out = out@;
        let ghost word = cur@;
        out.push(cur);
        proof {
            assert(str_views(out@) =~= str_views(old_out) + seq![word]);
        }
    } else {
        proof {
            assert(str_views(out@) + Seq::<Seq<char>>::empty() =~= str_views(out@));
        }
    }
    out
}

/// Whether `needle` occurs in `hay` starting at `i`.
pub open spec fn is_substring_at(hay: Seq<char>, needle: Seq<char>, i: int) -> bool {
    0 <= i && i + needle.len() <= hay.len() && hay.subrange(i, i + needle.len() as int) == needle
}

/// Whether `needle` occurs anywhere in `hay`.
pub open spec fn has_substring(hay: Seq<char>, needle: Seq<char>) -> bool {
    exists|i: int| is_substring_at(hay, needle, i)
}

/// Whether `needle` occurs anywhere in `hay`.
pub fn contains_substring(hay: &str, needle: &str) -> (r: bool)
    ensures
        r == has_substring(hay@, needle@),
{
    let hn = hay.unicode_len();
    let nn = needle.unicode_len();
    if nn > hn {
        proof {
            assert(forall|i: int| !is_substring_at(hay@, needle@, i));
        }
        return false;
    }
    if nn == 0 {
        proof {
            assert(hay@.subrange(0, 0) =~= needle@);
            assert(is_substring_at(hay@, needle@, 0));
        }
        return true;
    }
    let mut i: usize = 0;
    while i <= hn - nn
        invariant
            hn == hay@.len(),
            nn == needle@.len(),
            1 <= nn <= hn,
            i <= hn - nn + 1,
            forall|k: int| 0 <= k < i ==> !is_substring_at(hay@, needle@, k),
        decreases hn + 1 - i,
    {
        let mut j: usize = 0;
        let mut matched = true;
        while j < nn
            invariant
                hn == hay@.len(),
                nn == needle@.len(),
                i + nn <= hn,
                j <= nn,
                matched ==> forall|t: int| 0 <= t < j ==> hay@[i + t] == needle@[t],
                !matched ==> !is_substring_at(hay@, needle@, i as int),
            decreases nn - j,
        {
            if hay.get_char(i + j) != needle.get_char(j) {
                matched = false;
                proof {
                    if is_substring_at(hay@, needle@, i as int) {
                        assert(hay@.subrange(i as int, i + nn)[j as int] == hay@[i + j]);
                        assert(false);
                    }
                }
                j = nn;
            } else {
                j = j + 1;
            }
        }
        if matched {
            proof {
                assert(hay@.subrange(i as int, i + nn) =~= needle@);
                assert(is_substring_at(hay@, needle@, i as int));
            }
            return true;
        }
        i = i + 1;
    }
    proof {
        assert(forall|k: int| is_substring_at(hay@, needle@, k) ==> 0 <= k <= hn - nn);
    }
    false
}

/// The strings of `parts` joined by `sep`.
pub open spec fn spec_join(parts: Seq<Seq<char>>, sep: Seq<char>) -> Seq<char>
    decreases parts.len(),
{
    if parts.len() == 0 {
        Seq::empty()
    } else if parts.len() == 1 {
        parts[0]
    } else {
        parts[0] + sep + spec_join(parts.drop_first(), sep)
    }
}

/// Join the strings of `parts` with `sep` between each pair.
pub fn join_with(parts: &Vec<String>, sep: &str) -> (out: String)
    ensures
        out@ == spec_join(str_views(parts@), sep@),
{
    let mut out = String::new();
    let n = parts.len();
    if n == 0 {
        return out;
    }
    push_str(&mut out, parts[0].as_str());
    let mut i: usize = 1;
    proof {
        assert(out@ =~= spec_join(str_views(parts@).take(1), sep@));
    }
    while i < n
        invariant
            n == parts@.len(),
            1 <= i <= n,
            out@ == spec_join(str_views(parts@).take(i as int), sep@),
        decreases n - i,
    {
        push_str(&mut out, sep);
        push_str(&mut out, parts[i].as_str());
        proof {
            lemma_spec_join_push(str_views(parts@).take(i as int), sep@, parts@[i as int]@);
            assert(str_views(parts@).take(i as int).push(parts@[i as int]@) =~= str_views(
                parts@,
            ).take(i + 1));
        }
        i = i + 1;
    }
    proof {
        assert(str_views(parts@).take(n as int) =~= str_views(parts@));
    }
    out
}

/// Joining one more part appends a separator and the part.
proof fn lemma_spec_join_push(parts: Seq<Seq<char>>, sep: Seq<char>, w: Seq<char>)
    requires
        parts.len() >= 1,
    ensures
        spec_join(parts.push(w), sep) == spec_join(parts, sep) + sep + w,
    decreases parts.len(),
{
    let t = parts.push(w);
    if parts.len() == 1 {
        assert(t.len() == 2);
        assert(t[0] == parts[0]);
        assert(t.drop_first() =~= seq![w]);
        assert(spec_join(t.drop_first(), sep) == w);
    } else {
        assert(t[0] == parts[0]);
        assert(t.drop_first() =~= parts.drop_first().push(w));
        lemma_spec_join_push(parts.drop_first(), sep, w);
        assert(parts[0] + sep + (spec_join(parts.drop_first(), sep) + sep + w) =~= (parts[0] + sep
            + spec_join(parts.drop_first(), sep)) + sep + w);
    }
}


/// Whether two strings hold the same characters.
pub fn str_eq(a: &str, b: &str) -> (r: bool)
    ensures
        r == (a@ == b@),
{
    let sa = a.to_owned();
    let sb = b.to_owned();
    sa == sb
}

/// The decimal digit character for `d`.
pub open spec fn digit_char(d: int) -> char {
    if d == 0 {
        '0'
    } else if d == 1 {
        '1'
    } else if d == 2 {
        '2'
    } else if d == 3 {
        '3'
    } else if d == 4 {
        '4'
    } else if d == 5 {
        '5'
    } else if d == 6 {
        '6'
    } else if d == 7 {
        '7'
    } else if d == 8 {
        '8'
    } else {
        '9'
    }
}

/// Decimal digits of `n`, most significant first, with no leading zeros.
pub open spec fn enc_u64(n: nat) -> Seq<char>
    decreases n,
{
    if n < 10 {
        seq![digit_char(n as int)]
    } else {
        enc_u64(n / 10) + seq![digit_char((n % 10) as int)]
    }
}

/// Decimal form of `n`: a minus sign for negative values, then the digits.
pub open spec fn enc_i64(n: int) -> Seq<char> {
    if n < 0 {
        seq!['-'] + enc_u64((-n) as nat)
    } else {
        enc_u64(n as nat)
    }
}

/// The decimal digit character for `d`, executable form.
fn digit_char_exec(d: u64) -> (c: char)
    requires
        d < 10,
    ensures
        c == digit_char(d as int),
{
    match d {
        0 => '0',
        1 => '1',
        2 => '2',
        3 => '3',
        4 => '4',
        5 => '5',
        6 => '6',
        7 => '7',
        8 => '8',
        _ => '9',
    }
}

/// Appends the decimal digits of `n` to `out`.
pub fn push_u64_decimal(out: &mut String, n: u64)
    ensures
        final(out)@ == old(out)@ + enc_u64(n as nat),
    decreases n,
{
    if n < 10 {
        push_char(out, digit_char_exec(n));
        proof {
            assert(final(out)@ =~= old(out)@ + enc_u64(n as nat));
        }
    } else {
        proof {
            vstd::arithmetic::div_mod::lemma_div_is_strictly_smaller(n as int, 10);
        }
        push_u64_decimal(out, n / 10);
        push_char(out, digit_char_exec(n % 10));
        proof {
            assert(final(out)@ =~= old(out)@ + enc_u64(n as nat));
        }
    }
}

/// Appends the decimal form of `n` to `out`, minus sign included for
/// negative values.
pub fn push_i64_decimal(out: &mut String, n: i64)
    ensures
        final(out)@ == old(out)@ + enc_i64(n as int),
{
    if n >= 0 {
        push_u64_decimal(out, n as u64);
    } else {
        push_char(out, '-');
        let mag: u64 = ((-(n + 1)) as u64) + 1;
        proof {
            assert(mag as int == -(n as int));
        }
        push_u64_decimal(out, mag);
        proof {
            assert(final(out)@ =~= old(out)@ + enc_i64(n as int));
        }
    }
}

} // verus!
