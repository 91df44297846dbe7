//! Small verified text utilities shared by the parsing and decoding
//! modules: string equality and decimal rendering.

use vstd::prelude::*;
use vstd::string::*;

verus! {

/// Character-wise equality of two string slices.
pub fn str_eq(a: &str, b: &str) -> (r: bool)
    ensures
        r == (a@ == b@),
{
    let alen = a.unicode_len();
    let blen = b.unicode_len();
    if alen != blen {
        return false;
    }
    let mut i: usize = 0;
    while i < alen
        invariant
            alen == a@.len(),
            blen == b@.len(),
            alen == blen,
            i <= alen,
            forall|j: int| 0 <= j < i ==> a@[j] == b@[j],
        decreases alen - i,
    {
        if a.get_char(i) != b.get_char(i) {
            return false;
        }
        i += 1;
    }
    proof {
        assert(a@ =~= b@);
    }
    true
}

/// The Unicode whitespace characters, as `char::is_whitespace` and the
/// `str` trimming methods classify them.
pub open spec fn is_space_char(c: char) -> bool {
    let u = c as u32;
    ||| u == 32
    ||| (9 <= u && u <= 13)
    ||| u == 0x85
    ||| u == 0xA0
    ||| u == 0x1680
    ||| (0x2000 <= u && u <= 0x200A)
    ||| u == 0x2028
    ||| u == 0x2029
    ||| u == 0x202F
    ||| u == 0x205F
    ||| u == 0x3000
}

pub fn is_space(c: char) -> (r: bool)
    ensures
        r == is_space_char(c),
{
    let u = c as u32;
    u == 32 || (9 <= u && u <= 13) || u == 0x85 || u == 0xA0 || u == 0x1680 || (0x2000 <= u && u
        <= 0x200A) || u == 0x2028 || u == 0x2029 || u == 0x202F || u == 0x205F || u == 0x3000
}

/// A sequence with its trailing whitespace removed.
pub open spec fn trim_end_spec(s: Seq<char>) -> Seq<char>
    decreases s.len(),
{
    if s.len() > 0 && is_space_char(s.last()) {
        trim_end_spec(s.drop_last())
    } else {
        s
    }
}

/// A sequence with its leading whitespace removed.
pub open spec fn trim_start_spec(s: Seq<char>) -> Seq<char>
    decreases s.len(),
{
    if s.len() > 0 && is_space_char(s[0]) {
        trim_start_spec(s.drop_first())
    } else {
        s
    }
}

/// A sequence with whitespace removed from both ends.
pub open spec fn trim_spec(s: Seq<char>) -> Seq<char> {
    trim_start_spec(trim_end_spec(s))
}

/// Trailing-whitespace trimming, as `str::trim_end` does.
pub fn trim_end_str<'a>(s: &'a str) -> (r: &'a str)
    ensures
        r@ == trim_end_spec(s@),
{
    let len = s.unicode_len();
    let mut b: usize = len;
    proof {
        assert(s@.subrange(0, b as int) =~= s@);
    }
    while b > 0 && is_space(s.get_char(b - 1))
        invariant
            b <= s@.len(),
            trim_end_spec(s@) == trim_end_spec(s@.subrange(0, b as int)),
        decreases b,
    {
        proof {
            let t = s@.subrange(0, b as int);
            assert(t.drop_last() =~= s@.subrange(0, b - 1));
        }
        b = b - 1;
    }
    proof {
        let t = s@.subrange(0, b as int);
        assert(trim_end_spec(t) == t);
    }
    s.substring_char(0, b)
}

/// Whitespace trimming at both ends, as `str::trim` does.
pub fn trim_str<'a>(s: &'a str) -> (r: &'a str)
    ensures
        r@ == trim_spec(s@),
{
    let e = trim_end_str(s);
    let len = e.unicode_len();
    let mut a: usize = 0;
    proof {
        assert(e@.subrange(0, len as int) =~= e@);
    }
    while a < len && is_space(e.get_char(a))
        invariant
            a <= e@.len(),
            len == e@.len(),
            trim_start_spec(e@) == trim_start_spec(e@.subrange(a as int, len as int)),
        decreases len - a,
    {
        proof {
            let t = e@.subrange(a as int, len as int);
            assert(t.drop_first() =~= e@.subrange(a + 1, len as int));
        }
        a = a + 1;
    }
    proof {
        let t = e@.subrange(a as int, len as int);
        assert(trim_start_spec(t) == t);
    }
    e.substring_char(a, len)
}

/// Decimal digit test.
pub open spec fn is_digit_char(c: char) -> bool {
    48 <= c as u32 && c as u32 <= 57
}

pub open spec fn all_digits(s: Seq<char>) -> bool {
    forall|i: int| 0 <= i < s.len() ==> is_digit_char(s[i])
}

/// Value of a run of decimal digits, most significant first.
pub open spec fn digits_val(s: Seq<char>) -> int
    decreases s.len(),
{
    if s.len() == 0 {
        0
    } else {
        digits_val(s.drop_last()) * 10 + (s.last() as u32 - 48)
    }
}

pub proof fn lemma_digits_val_nonneg(s: Seq<char>)
    requires
        all_digits(s),
    ensures
        digits_val(s) >= 0,
    decreases s.len(),
{
    if s.len() > 0 {
        assert(all_digits(s.drop_last()));
        lemma_digits_val_nonneg(s.drop_last());
        assert(digits_val(s.drop_last()) * 10 >= 0) by (nonlinear_arith)
            requires
                digits_val(s.drop_last()) >= 0,
        ;
    }
}

/// The value of a digit string only grows as digits are appended.
pub proof fn lemma_digits_val_prefix_le(s: Seq<char>, n: int)
    requires
        all_digits(s),
        0 <= n <= s.len(),
    ensures
        digits_val(s.subrange(0, n)) <= digits_val(s),
    decreases s.len() - n,
{
    if n == s.len() {
        assert(s.subrange(0, n) =~= s);
    } else {
        let t = s.subrange(0, n + 1);
        lemma_digits_val_prefix_le(s, n + 1);
        assert(t.drop_last() =~= s.subrange(0, n));
        lemma_digits_val_nonneg(t.drop_last());
        assert(digits_val(t.drop_last()) * 10 >= digits_val(t.drop_last())) by (nonlinear_arith)
            requires
                digits_val(t.drop_last()) >= 0,
        ;
        assert(digits_val(s.subrange(0, n)) <= digits_val(t));
    }
}

/// What `str::parse::<usize>` accepts: an optional leading plus sign,
/// then at least one decimal digit and nothing else. The value is
/// unbounded here; the executable parser additionally rejects values
/// beyond `usize`.
pub open spec fn parse_usize_spec(s: Seq<char>) -> Option<int> {
    let digits = if s.len() > 0 && s[0] == '+' {
        s.drop_first()
    } else {
        s
    };
    if digits.len() > 0 && all_digits(digits) {
        Some(digits_val(digits))
    } else {
        None
    }
}

/// A successfully parsed value is never negative.
pub proof fn lemma_parse_usize_spec_nonneg(s: Seq<char>)
    ensures
        parse_usize_spec(s) matches Some(v) ==> v >= 0,
{
    let digits = if s.len() > 0 && s[0] == '+' {
        s.drop_first()
    } else {
        s
    };
    if digits.len() > 0 && all_digits(digits) {
        lemma_digits_val_nonneg(digits);
    }
}

/// Decimal parsing with the exact acceptance and overflow behavior of
/// `str::parse::<usize>`.
pub fn parse_usize(s: &str) -> (r: Option<usize>)
    ensures
        match parse_usize_spec(s@) {
            Some(v) => v >= 0 && (if v <= usize::MAX { r == Some(v as usize) } else { r is None }),
            None => r is None,
        },
{
    proof {
        lemma_parse_usize_spec_nonneg(s@);
    }
    let len = s.unicode_len();
    let start: usize = if len > 0 && s.get_char(0) == '+' {
        1
    } else {
        0
    };
    let ghost digits = if s@.len() > 0 && s@[0] == '+' {
        s@.drop_first()
    } else {
        s@
    };
    proof {
        assert(digits =~= s@.subrange(start as int, len as int));
    }
    if start >= len {
        return None;
    }
    let mut i: usize = start;
    let mut val: usize = 0;
    while i < len
        invariant
            start <= i <= len,
            len == s@.len(),
            start < len,
            if s@.len() > 0 && s@[0] == '+' {
                start == 1
            } else {
                start == 0
            },
            digits == (if s@.len() > 0 && s@[0] == '+' {
                s@.drop_first()
            } else {
                s@
            }),
            digits =~= s@.subrange(start as int, len as int),
            all_digits(s@.subrange(start as int, i as int)),
            val == digits_val(s@.subrange(start as int, i as int)),
        decreases len - i,
    {
        let c = s.get_char(i);
        let u = c as u32;
        if u < 48 || u > 57 {
            proof {
                let dsp = if s@.len() > 0 && s@[0] == '+' {
                    s@.drop_first()
                } else {
                    s@
                };
                assert(dsp == digits);
                assert(digits[i - start] == s@[i as int]);
                assert(!is_digit_char(digits[i - start]));
                assert(!all_digits(dsp));
                assert(parse_usize_spec(s@) is None);
            }
            return None;
        }
        let d: usize = (u - 48) as usize;
        proof {
            let pre = s@.subrange(start as int, i as int);
            let ext = s@.subrange(start as int, i + 1);
            assert(ext.drop_last() =~= pre);
            assert(ext.last() == s@[i as int]);
            assert(digits_val(ext) == digits_val(pre) * 10 + d);
            assert forall|j: int| 0 <= j < ext.len() implies is_digit_char(ext[j]) by {
                if j < i - start {
                    assert(ext[j] == pre[j]);
                }
            }
            assert(all_digits(ext));
        }
        let next = match val.checked_mul(10) {
            Some(v10) => v10.checked_add(d),
            None => None,
        };
        match next {
            Some(v) => {
                val = v;
            },
            None => {
                proof {
                    let dsp = if s@.len() > 0 && s@[0] == '+' {
                        s@.drop_first()
                    } else {
                        s@
                    };
                    assert(dsp == digits);
                    let ext = s@.subrange(start as int, i + 1);
                    assert(digits_val(ext) > usize::MAX);
                    assert(ext =~= digits.subrange(0, i + 1 - start));
                    if all_digits(digits) {
                        lemma_digits_val_prefix_le(digits, i + 1 - start);
                        assert(digits_val(digits) >= digits_val(ext));
                        assert(parse_usize_spec(s@) == Some(digits_val(dsp)));
                    } else {
                        assert(parse_usize_spec(s@) is None);
                    }
                }
                return None;
            },
        }
        i += 1;
    }
    proof {
        assert(s@.subrange(start as int, len as int) =~= digits);
    }
    Some(val)
}

/// Index of the first occurrence of `c` at or after position `i`, or
/// the length of the sequence if there is none.
pub open spec fn find_char_from(s: Seq<char>, c: char, i: int) -> int
    recommends
        0 <= i <= s.len(),
    decreases s.len() - i,
{
    if i < 0 || i >= s.len() {
        s.len() as int
    } else if s[i] == c {
        i
    } else {
        find_char_from(s, c, i + 1)
    }
}

pub proof fn lemma_find_char_from(s: Seq<char>, c: char, i: int, k: int)
    requires
        0 <= i <= k <= s.len(),
        forall|j: int| i <= j < k ==> s[j] != c,
        k == s.len() || s[k] == c,
    ensures
        find_char_from(s, c, i) == k,
    decreases k - i,
{
    if i < k {
        lemma_find_char_from(s, c, i + 1, k);
    }
}

/// A line with a trailing carriage return removed, as `str::lines`
/// does at a `\r\n` line ending.
pub open spec fn strip_cr(line: Seq<char>) -> Seq<char> {
    if line.len() > 0 && line.last() == '\r' {
        line.drop_last()
    } else {
        line
    }
}

/// The lines of a text, as `str::lines` yields them: split on newline,
/// with the carriage return of a `\r\n` ending stripped, no empty
/// final line after a trailing newline, and a bare carriage return at
/// the very end of an unterminated final line kept.
pub open spec fn lines_spec(s: Seq<char>) -> Seq<Seq<char>>
    decreases s.len(),
{
    if s.len() == 0 {
        Seq::empty()
    } else {
        let k = find_char_from(s, '\n', 0);
        if 0 <= k < s.len() {
            seq![strip_cr(s.subrange(0, k))] + lines_spec(s.subrange(k + 1, s.len() as int))
        } else {
            seq![s]
        }
    }
}

/// Splits a text into its lines, as `str::lines` does.
pub fn split_lines<'a>(s: &'a str) -> (r: Vec<&'a str>)
    ensures
        r.deep_view() == lines_spec(s@),
{
    let len = s.unicode_len();
    let mut r: Vec<&'a str> = Vec::new();
    let mut pos: usize = 0;
    proof {
        assert(s@.subrange(0, len as int) =~= s@);
        assert(r.deep_view() + lines_spec(s@) =~= lines_spec(s@));
    }
    while pos < len
        invariant
            pos <= len,
            len == s@.len(),
            lines_spec(s@) == r.deep_view() + lines_spec(s@.subrange(pos as int, len as int)),
        decreases len - pos,
    {
        let ghost rest = s@.subrange(pos as int, len as int);
        let mut k: usize = pos;
        while k < len && s.get_char(k) != '\n'
            invariant
                pos <= k <= len,
                len == s@.len(),
                forall|j: int| pos <= j < k ==> s@[j] != '\n',
            decreases len - k,
        {
            k += 1;
        }
        proof {
            assert forall|j: int| 0 <= j < k - pos implies rest[j] != '\n' by {
                assert(rest[j] == s@[pos + j]);
            }
            if k < len {
                assert(rest[k - pos] == s@[k as int]);
            }
            lemma_find_char_from(rest, '\n', 0, k - pos);
        }
        let line_end: usize = if k < len && k > pos && s.get_char(k - 1) == '\r' {
            k - 1
        } else {
            k
        };
        let line = s.substring_char(pos, line_end);
        proof {
            let chunk = rest.subrange(0, k - pos);
            if k > pos && s@[k - 1] == '\r' {
                assert(chunk.last() == s@[k - 1]);
                assert(chunk.drop_last() =~= s@.subrange(pos as int, k - 1));
            }
            if k < len {
                assert(line@ =~= strip_cr(chunk));
            } else {
                assert(line@ =~= rest);
            }
        }
        r.push(line);
        let new_pos: usize = if k < len {
            k + 1
        } else {
            len
        };
        proof {
            let old_r = r.deep_view().drop_last();
            if k < len {
                assert(rest.subrange(k - pos + 1, rest.len() as int) =~= s@.subrange(
                    new_pos as int,
                    len as int,
                ));
                assert(lines_spec(rest) == seq![line@] + lines_spec(
                    s@.subrange(new_pos as int, len as int),
                ));
            } else {
                assert(rest =~= rest.subrange(0, k - pos));
                assert(lines_spec(rest) == seq![line@]);
                assert(s@.subrange(new_pos as int, len as int).len() == 0);
                assert(lines_spec(s@.subrange(new_pos as int, len as int)) == Seq::<Seq<
                    char,
                >>::empty());
            }
            assert(r.deep_view() =~= old_r + seq![line@]);
            assert(old_r + seq![line@] + lines_spec(s@.subrange(new_pos as int, len as int))
                =~= old_r + (seq![line@] + lines_spec(s@.subrange(new_pos as int, len as int))));
        }
        pos = new_pos;
    }
    proof {
        assert(s@.subrange(pos as int, len as int).len() == 0);
        assert(lines_spec(s@.subrange(pos as int, len as int)) == Seq::<Seq<char>>::empty());
        assert(r.deep_view() + Seq::<Seq<char>>::empty() =~= r.deep_view());
    }
    r
}

/// Index of the last occurrence of `c` in `s`, or -1 if there is none.
pub open spec fn find_last_char(s: Seq<char>, c: char) -> int
    decreases s.len(),
{
    if s.len() == 0 {
        -1
    } else if s.last() == c {
        s.len() - 1
    } else {
        find_last_char(s.drop_last(), c)
    }
}

pub proof fn lemma_find_last_char_at(s: Seq<char>, c: char, k: int)
    requires
        0 <= k < s.len(),
        s[k] == c,
        forall|j: int| k < j < s.len() ==> s[j] != c,
    ensures
        find_last_char(s, c) == k,
    decreases s.len(),
{
    if k < s.len() - 1 {
        assert(s.last() != c);
        assert(s.drop_last()[k] == c);
        lemma_find_last_char_at(s.drop_last(), c, k);
    }
}

pub proof fn lemma_find_last_char_none(s: Seq<char>, c: char)
    requires
        forall|j: int| 0 <= j < s.len() ==> s[j] != c,
    ensures
        find_last_char(s, c) == -1,
    decreases s.len(),
{
    if s.len() > 0 {
        lemma_find_last_char_none(s.drop_last(), c);
    }
}

/// Position of the last occurrence of a character, counted in
/// characters; the split position `str::rsplit_once` uses.
pub fn str_rfind_char(s: &str, c: char) -> (r: Option<usize>)
    ensures
        match r {
            Some(k) => k < s@.len() && k as int == find_last_char(s@, c),
            None => find_last_char(s@, c) == -1,
        },
{
    let len = s.unicode_len();
    let mut i: usize = len;
    while i > 0
        invariant
            i <= len,
            len == s@.len(),
            forall|j: int| i <= j < len ==> s@[j] != c,
        decreases i,
    {
        i -= 1;
        if s.get_char(i) == c {
            proof {
                lemma_find_last_char_at(s@, c, i as int);
            }
            return Some(i);
        }
    }
    proof {
        lemma_find_last_char_none(s@, c);
    }
    None
}

/// The part of a line before its first hash mark, as
/// `line.split('#').next()` yields it.
pub open spec fn strip_comment_spec(s: Seq<char>) -> Seq<char> {
    s.subrange(0, find_char_from(s, '#', 0))
}

/// Cuts a line at its first hash mark.
pub fn strip_comment<'a>(s: &'a str) -> (r: &'a str)
    ensures
        r@ == strip_comment_spec(s@),
{
    let len = s.unicode_len();
    let mut k: usize = 0;
    while k < len && s.get_char(k) != '#'
        invariant
            k <= len,
            len == s@.len(),
            forall|j: int| 0 <= j < k ==> s@[j] != '#',
        decreases len - k,
    {
        k += 1;
    }
    proof {
        lemma_find_char_from(s@, '#', 0, k as int);
    }
    s.substring_char(0, k)
}

/// Whether `p` is a prefix of `s`, as `str::starts_with` tests.
pub open spec fn starts_with_spec(s: Seq<char>, p: Seq<char>) -> bool {
    p.len() <= s.len() && s.subrange(0, p.len() as int) == p
}

/// Prefix removal, as `str::strip_prefix` does.
pub fn str_strip_prefix<'a>(s: &'a str, p: &str) -> (r: Option<&'a str>)
    ensures
        match r {
            Some(rest) => starts_with_spec(s@, p@) && rest@ == s@.subrange(
                p@.len() as int,
                s@.len() as int,
            ),
            None => !starts_with_spec(s@, p@),
        },
{
    let slen = s.unicode_len();
    let plen = p.unicode_len();
    if plen > slen {
        return None;
    }
    let mut k: usize = 0;
    while k < plen
        invariant
            plen <= slen,
            slen == s@.len(),
            plen == p@.len(),
            k <= plen,
            forall|m: int| 0 <= m < k ==> s@[m] == p@[m],
        decreases plen - k,
    {
        if s.get_char(k) != p.get_char(k) {
            proof {
                assert(s@.subrange(0, plen as int)[k as int] == s@[k as int]);
            }
            return None;
        }
        k += 1;
    }
    proof {
        assert forall|m: int| 0 <= m < plen implies s@.subrange(0, plen as int)[m] == p@[m] by {
            assert(s@.subrange(0, plen as int)[m] == s@[m]);
        }
        assert(s@.subrange(0, plen as int) =~= p@);
    }
    Some(s.substring_char(plen, slen))
}

/// Whether `p` occurs as a contiguous run inside `s` starting at `i`.
pub open spec fn occurs_at(s: Seq<char>, p: Seq<char>, i: int) -> bool {
    0 <= i && i + p.len() <= s.len() && s.subrange(i, i + p.len()) == p
}

/// Whether `p` occurs anywhere inside `s`, as `str::contains` tests.
pub open spec fn contains_spec(s: Seq<char>, p: Seq<char>) -> bool {
    exists|i: int| occurs_at(s, p, i)
}

/// Substring search, as `str::contains` does.
pub fn str_contains(s: &str, p: &str) -> (r: bool)
    ensures
        r == contains_spec(s@, p@),
{
    let slen = s.unicode_len();
    let plen = p.unicode_len();
    if plen > slen {
        return false;
    }
    let mut i: usize = 0;
    while i <= slen - plen
        invariant
            plen <= slen,
            slen == s@.len(),
            plen == p@.len(),
            i <= slen - plen + 1,
            forall|j: int| 0 <= j < i ==> !occurs_at(s@, p@, j),
        decreases slen - plen - i + 1,
    {
        let mut k: usize = 0;
        let mut matched = true;
        while k < plen && matched
            invariant
                i + plen <= slen,
                slen == s@.len(),
                plen == p@.len(),
                k <= plen,
                matched ==> forall|m: int| 0 <= m < k ==> s@[i + m] == p@[m],
                !matched ==> exists|m: int| 0 <= m < plen && s@[i + m] != p@[m],
            decreases plen - k + (if matched {
                1int
            } else {
                0int
            }),
        {
            if s.get_char(i + k) != p.get_char(k) {
                matched = false;
            } else {
                k += 1;
            }
        }
        if matched {
            proof {
                assert forall|m: int| 0 <= m < plen implies s@.subrange(i as int, i + plen)[m]
                    == p@[m] by {
                    assert(s@.subrange(i as int, i + plen)[m] == s@[i + m]);
                }
                assert(s@.subrange(i as int, i + plen) =~= p@);
                assert(occurs_at(s@, p@, i as int));
            }
            return true;
        }
        proof {
            let m = choose|m: int| 0 <= m < plen && s@[i + m] != p@[m];
            assert(s@.subrange(i as int, i + plen)[m] == s@[i + m]);
            assert(!occurs_at(s@, p@, i as int));
        }
        i += 1;
    }
    proof {
        assert forall|j: int| occurs_at(s@, p@, j) implies false by {
            assert(0 <= j < i);
        }
    }
    false
}

/// ASCII lower-casing of a single code point: ASCII capital letters
/// move down by 32, everything else is unchanged.
pub open spec fn ascii_lower(u: u32) -> u32 {
    if 65 <= u && u <= 90 {
        (u + 32) as u32
    } else {
        u
    }
}

/// ASCII case-insensitive equality of two character sequences.
pub open spec fn eq_ignore_ascii_case_spec(a: Seq<char>, b: Seq<char>) -> bool {
    a.len() == b.len() && (forall|i: int|
        0 <= i < a.len() ==> ascii_lower(a[i] as u32) == ascii_lower(b[i] as u32))
}

/// ASCII case-insensitive equality, as `str::eq_ignore_ascii_case` tests.
pub fn str_eq_ignore_ascii_case(a: &str, b: &str) -> (r: bool)
    ensures
        r == eq_ignore_ascii_case_spec(a@, b@),
{
    let alen = a.unicode_len();
    let blen = b.unicode_len();
    if alen != blen {
        return false;
    }
    let mut i: usize = 0;
    while i < alen
        invariant
            alen == a@.len(),
            blen == b@.len(),
            alen == blen,
            i <= alen,
            forall|j: int| 0 <= j < i ==> ascii_lower(a@[j] as u32) == ascii_lower(b@[j] as u32),
        decreases alen - i,
    {
        let ca = a.get_char(i);
        let cb = b.get_char(i);
        let ua = ca as u32;
        let ub = cb as u32;
        let la: u32 = if 65 <= ua && ua <= 90 {
            ua + 32
        } else {
            ua
        };
        let lb: u32 = if 65 <= ub && ub <= 90 {
            ub + 32
        } else {
            ub
        };
        if la != lb {
            return false;
        }
        i += 1;
    }
    true
}

/// The decimal digit character for a value below ten.
pub open spec fn digit_char(d: int) -> char
    recommends
        0 <= d < 10,
{
    ((d + 48) as u8) as char
}

/// Decimal representation of a natural number, most significant digit first.
pub open spec fn dec_str(n: int) -> Seq<char>
    recommends
        n >= 0,
    decreases n,
{
    if n < 10 {
        seq![digit_char(n)]
    } else {
        dec_str(n / 10).push(digit_char(n % 10))
    }
}

/// The one-character string for a decimal digit.
fn digit_str(d: u8) -> (r: &'static str)
    requires
        d < 10,
    ensures
        r@ == seq![digit_char(d as int)],
{
    let r: &'static str = if d == 0 {
        "0"
    } else if d == 1 {
        "1"
    } else if d == 2 {
        "2"
    } else if d == 3 {
        "3"
    } else if d == 4 {
        "4"
    } else if d == 5 {
        "5"
    } else if d == 6 {
        "6"
    } else if d == 7 {
        "7"
    } else if d == 8 {
        "8"
    } else {
        "9"
    };
    proof {
        reveal_strlit("0");
        reveal_strlit("1");
        reveal_strlit("2");
        reveal_strlit("3");
        reveal_strlit("4");
        reveal_strlit("5");
        reveal_strlit("6");
        reveal_strlit("7");
        reveal_strlit("8");
        reveal_strlit("9");
        assert(r@ =~= seq![digit_char(d as int)]);
    }
    r
}

/// Renders a number in decimal, as `u128::to_string` does.
pub fn u128_to_string(n: u128) -> (r: String)
    ensures
        r@ == dec_str(n as int),
    decreases n,
{
    if n < 10 {
        let mut s = String::new();
        s.append(digit_str((n % 10) as u8));
        proof {
            assert(s@ =~= dec_str(n as int));
        }
        s
    } else {
        let mut s = u128_to_string(n / 10);
        s.append(digit_str((n % 10) as u8));
        proof {
            assert(s@ =~= dec_str(n as int));
        }
        s
    }
}

} // verus!
