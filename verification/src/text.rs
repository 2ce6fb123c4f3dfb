//! Verified text utilities: character classes, string equality, trimming,
//! splitting on a separator, and decimal parsing and rendering of `u32`.
//!
//! These are the building blocks for the leaderboard's line-oriented
//! persistence format and for validating player input.

use vstd::prelude::*;

verus! {

/// The whitespace characters stripped from the ends of a record line.
pub open spec fn is_ws(c: char) -> bool {
    c == ' ' || c == '\t' || c == '\r' || c == '\n'
}

/// Character-for-character string equality.
pub fn str_eq(a: &str, b: &str) -> (r: bool)
    ensures
        r == (a@ == b@),
{
    let alen = a.unicode_len();
    let blen = b.unicode_len();
    if alen != blen {
        return false;
    }
    let mut i: usize = 0;
    while i < alen
        invariant
            alen == a@.len(),
            blen == b@.len(),
            alen == blen,
            i <= alen,
            forall|j: int| 0 <= j < i ==> a@[j] == b@[j],
        decreases alen - i,
    {
        if a.get_char(i) != b.get_char(i) {
            return false;
        }
        i = i + 1;
    }
    proof {
        assert(a@ =~= b@);
    }
    true
}

/// `s` without its leading whitespace.
pub open spec fn drop_leading_ws(s: Seq<char>) -> Seq<char>
    decreases s.len(),
{
    if s.len() > 0 && is_ws(s[0]) {
        drop_leading_ws(s.drop_first())
    } else {
        s
    }
}

/// `s` without its trailing whitespace.
pub open spec fn drop_trailing_ws(s: Seq<char>) -> Seq<char>
    decreases s.len(),
{
    if s.len() > 0 && is_ws(s[s.len() - 1]) {
        drop_trailing_ws(s.drop_last())
    } else {
        s
    }
}

/// `s` without leading and trailing whitespace.
pub open spec fn trim_spec(s: Seq<char>) -> Seq<char> {
    drop_trailing_ws(drop_leading_ws(s))
}

/// Trimming a string whose ends are not whitespace leaves it unchanged.
pub proof fn lemma_trim_clean(s: Seq<char>)
    requires
        s.len() > 0,
        !is_ws(s[0]),
        !is_ws(s[s.len() - 1]),
    ensures
        trim_spec(s) == s,
{
}

/// Strip leading and trailing whitespace.
pub fn trim(s: &str) -> (r: &str)
    ensures
        r@ == trim_spec(s@),
{
    let len = s.unicode_len();
    proof {
        assert(s@.subrange(0, len as int) =~= s@);
    }
    let mut a: usize = 0;
    while a < len && is_ws_char(s.get_char(a))
        invariant
            len == s@.len(),
            a <= len,
            drop_leading_ws(s@) == drop_leading_ws(s@.subrange(a as int, len as int)),
        decreases len - a,
    {
        proof {
            let t = s@.subrange(a as int, len as int);
            assert(t.drop_first() =~= s@.subrange(a as int + 1, len as int));
        }
        a = a + 1;
    }
    proof {
        let t = s@.subrange(a as int, len as int);
        if a < len {
            assert(drop_leading_ws(t) == t);
        } else {
            assert(t =~= Seq::<char>::empty());
            assert(drop_leading_ws(t) == t);
        }
    }
    let mut b: usize = len;
    while b > a && is_ws_char(s.get_char(b - 1))
        invariant
            len == s@.len(),
            a <= b <= len,
            drop_leading_ws(s@) == s@.subrange(a as int, len as int),
            drop_trailing_ws(s@.subrange(a as int, len as int)) == drop_trailing_ws(
                s@.subrange(a as int, b as int),
            ),
        decreases b,
    {
        proof {
            let t = s@.subrange(a as int, b as int);
            assert(t.drop_last() =~= s@.subrange(a as int, b as int - 1));
        }
        b = b - 1;
    }
    proof {
        let t = s@.subrange(a as int, b as int);
        if b > a {
            assert(drop_trailing_ws(t) == t);
        } else {
            assert(t =~= Seq::<char>::empty());
            assert(drop_trailing_ws(t) == t);
        }
    }
    s.substring_char(a, b)
}

/// Index of the first occurrence of `c` in `s`, or `s.len()` if absent.
pub open spec fn char_index_of(s: Seq<char>, c: char) -> nat
    decreases s.len(),
{
    if s.len() == 0 {
        0
    } else if s[0] == c {
        0
    } else {
        1 + char_index_of(s.drop_first(), c)
    }
}

/// `char_index_of` points at the first occurrence of `c`, if any.
pub proof fn lemma_char_index_of(s: Seq<char>, c: char)
    ensures
        char_index_of(s, c) <= s.len(),
        char_index_of(s, c) < s.len() ==> s[char_index_of(s, c) as int] == c,
        forall|j: int| 0 <= j < char_index_of(s, c) ==> s[j] != c,
    decreases s.len(),
{
    if s.len() > 0 && s[0] != c {
        let t = s.drop_first();
        lemma_char_index_of(t, c);
        let i = char_index_of(s, c);
        assert(i == 1 + char_index_of(t, c));
        if i < s.len() {
            assert(s[i as int] == t[i as int - 1]);
        }
        assert forall|j: int| 0 <= j < i implies s[j] != c by {
            if j >= 1 {
                assert(s[j] == t[j - 1]);
            }
        }
    }
}

/// In a concatenation `a + [c] + b` where `a` avoids `c`, the first
/// occurrence of `c` sits right after `a`.
pub proof fn lemma_char_index_of_concat(a: Seq<char>, c: char, b: Seq<char>)
    requires
        forall|j: int| 0 <= j < a.len() ==> a[j] != c,
    ensures
        char_index_of(a + seq![c] + b, c) == a.len(),
    decreases a.len(),
{
    let s = a + seq![c] + b;
    if a.len() == 0 {
        assert(s[0] == c);
    } else {
        assert(s[0] == a[0]);
        lemma_char_index_of_concat(a.drop_first(), c, b);
        assert(s.drop_first() =~= a.drop_first() + seq![c] + b);
    }
}

/// The segments of `s` between occurrences of the separator `c`.
pub open spec fn split_spec(s: Seq<char>, c: char) -> Seq<Seq<char>>
    decreases s.len(),
{
    let i = char_index_of(s, c);
    if i >= s.len() {
        seq![s]
    } else {
        seq![s.subrange(0, i as int)] + split_spec(s.subrange(i as int + 1, s.len() as int), c)
    }
}

/// Splitting a string that avoids the separator yields that one segment.
pub proof fn lemma_split_whole(s: Seq<char>, c: char)
    requires
        forall|j: int| 0 <= j < s.len() ==> s[j] != c,
    ensures
        split_spec(s, c) == seq![s],
{
    lemma_char_index_of(s, c);
    if char_index_of(s, c) < s.len() {
        assert(false);
    }
}

/// Splitting peels off a separator-free prefix as the first segment.
pub proof fn lemma_split_concat(a: Seq<char>, c: char, b: Seq<char>)
    requires
        forall|j: int| 0 <= j < a.len() ==> a[j] != c,
    ensures
        split_spec(a + seq![c] + b, c) == seq![a] + split_spec(b, c),
{
    let s = a + seq![c] + b;
    lemma_char_index_of_concat(a, c, b);
    assert(s.subrange(0, a.len() as int) =~= a);
    assert(s.subrange(a.len() as int + 1, s.len() as int) =~= b);
}

/// No segment produced by `split_spec` contains the separator.
pub proof fn lemma_split_parts_clean(s: Seq<char>, c: char)
    ensures
        forall|k: int, j: int|
            0 <= k < split_spec(s, c).len() && 0 <= j < split_spec(s, c)[k].len()
                ==> split_spec(s, c)[k][j] != c,
    decreases s.len(),
{
    lemma_char_index_of(s, c);
    let i = char_index_of(s, c);
    let p = split_spec(s, c);
    if i < s.len() {
        let rest = s.subrange(i as int + 1, s.len() as int);
        lemma_split_parts_clean(rest, c);
        assert forall|k: int, j: int| 0 <= k < p.len() && 0 <= j < p[k].len() implies p[k][j]
            != c by {
            if k == 0 {
                assert(p[0] == s.subrange(0, i as int));
                assert(p[0][j] == s[j]);
            } else {
                assert(p[k] == split_spec(rest, c)[k - 1]);
            }
        }
    } else {
        assert(p == seq![s]);
        assert forall|k: int, j: int| 0 <= k < p.len() && 0 <= j < p[k].len() implies p[k][j]
            != c by {
            assert(p[k] == s);
        }
    }
}

/// Split `s` into the segments between occurrences of `c`.
pub fn split_on(s: &str, c: char) -> (r: Vec<String>)
    ensures
        r@.map_values(|t: String| t@) == split_spec(s@, c),
{
    let len = s.unicode_len();
    let mut r: Vec<String> = Vec::new();
    proof {
        assert(r@.map_values(|t: String| t@) =~= Seq::<Seq<char>>::empty());
        assert(s@.subrange(0, len as int) =~= s@);
        assert(Seq::<Seq<char>>::empty() + split_spec(s@, c) =~= split_spec(s@, c));
    }
    let mut seg_start: usize = 0;
    let mut i: usize = 0;
    while i < len
        invariant
            len == s@.len(),
            seg_start <= i <= len,
            forall|j: int| seg_start <= j < i ==> s@[j] != c,
            split_spec(s@, c) == r@.map_values(|t: String| t@) + split_spec(
                s@.subrange(seg_start as int, len as int),
                c,
            ),
        decreases len - i,
    {
        if s.get_char(i) == c {
            let seg = String::from_str(s.substring_char(seg_start, i));
            proof {
                let cur = s@.subrange(seg_start as int, i as int);
                let rest = s@.subrange(i + 1, len as int);
                assert(s@.subrange(seg_start as int, len as int) =~= cur + seq![c] + rest);
                lemma_split_concat(cur, c, rest);
                assert((r@.push(seg)).map_values(|t: String| t@) =~= r@.map_values(
                    |t: String| t@,
                ).push(seg@));
                assert(r@.map_values(|t: String| t@) + (seq![cur] + split_spec(rest, c))
                    =~= r@.map_values(|t: String| t@).push(cur) + split_spec(rest, c));
            }
            r.push(seg);
            seg_start = i + 1;
        }
        i = i + 1;
    }
    let seg = String::from_str(s.substring_char(seg_start, len));
    proof {
        let cur = s@.subrange(seg_start as int, len as int);
        lemma_split_whole(cur, c);
        assert((r@.push(seg)).map_values(|t: String| t@) =~= r@.map_values(
            |t: String| t@,
        ).push(seg@));
        assert(r@.map_values(|t: String| t@) + seq![cur] =~= r@.map_values(
            |t: String| t@,
        ).push(cur));
    }
    r.push(seg);
    r
}

/// Whether no character of `s` is `c`.
pub open spec fn avoids(s: Seq<char>, c: char) -> bool {
    forall|j: int| 0 <= j < s.len() ==> s[j] != c
}

/// Trimming cannot introduce a character.
pub proof fn lemma_trim_avoids(s: Seq<char>, c: char)
    requires
        avoids(s, c),
    ensures
        avoids(trim_spec(s), c),
{
    lemma_drop_leading_avoids(s, c);
    lemma_drop_trailing_avoids(drop_leading_ws(s), c);
}

proof fn lemma_drop_leading_avoids(s: Seq<char>, c: char)
    requires
        avoids(s, c),
    ensures
        avoids(drop_leading_ws(s), c),
    decreases s.len(),
{
    if s.len() > 0 && is_ws(s[0]) {
        assert(avoids(s.drop_first(), c)) by {
            assert(forall|j: int| 0 <= j < s.drop_first().len() ==> s.drop_first()[j] == s[j + 1]);
        }
        lemma_drop_leading_avoids(s.drop_first(), c);
    }
}

proof fn lemma_drop_trailing_avoids(s: Seq<char>, c: char)
    requires
        avoids(s, c),
    ensures
        avoids(drop_trailing_ws(s), c),
    decreases s.len(),
{
    if s.len() > 0 && is_ws(s[s.len() - 1]) {
        assert(avoids(s.drop_last(), c)) by {
            assert(forall|j: int| 0 <= j < s.drop_last().len() ==> s.drop_last()[j] == s[j]);
        }
        lemma_drop_trailing_avoids(s.drop_last(), c);
    }
}

/// Splitting cannot introduce a character into a segment.
pub proof fn lemma_split_parts_avoid(s: Seq<char>, c: char, c2: char)
    requires
        avoids(s, c2),
    ensures
        forall|k: int|
            0 <= k < split_spec(s, c).len() ==> avoids(#[trigger] split_spec(s, c)[k], c2),
    decreases s.len(),
{
    lemma_char_index_of(s, c);
    let i = char_index_of(s, c);
    let p = split_spec(s, c);
    if i < s.len() {
        let rest = s.subrange(i as int + 1, s.len() as int);
        assert(avoids(rest, c2));
        lemma_split_parts_avoid(rest, c, c2);
        assert forall|k: int| 0 <= k < p.len() implies avoids(#[trigger] p[k], c2) by {
            if k == 0 {
                assert(p[0] == s.subrange(0, i as int));
            } else {
                assert(p[k] == split_spec(rest, c)[k - 1]);
            }
        }
    } else {
        assert forall|k: int| 0 <= k < p.len() implies avoids(#[trigger] p[k], c2) by {
            assert(p[k] == s);
        }
    }
}

/// Whether `c` is a decimal digit.
pub open spec fn is_digit_char(c: char) -> bool {
    '0' as int <= c as int && c as int <= '9' as int
}

/// The numeric value of a digit character.
pub open spec fn digit_val(c: char) -> int {
    c as int - '0' as int
}

/// Whether every character of `s` is a decimal digit.
pub open spec fn all_digits(s: Seq<char>) -> bool {
    forall|i: int| 0 <= i < s.len() ==> is_digit_char(s[i])
}

/// The number denoted by a sequence of decimal digits.
pub open spec fn dec_val(s: Seq<char>) -> int
    decreases s.len(),
{
    if s.len() == 0 {
        0
    } else {
        dec_val(s.drop_last()) * 10 + digit_val(s.last())
    }
}

/// A digit string denotes a non-negative number.
pub proof fn lemma_dec_val_nonneg(s: Seq<char>)
    requires
        all_digits(s),
    ensures
        dec_val(s) >= 0,
    decreases s.len(),
{
    if s.len() > 0 {
        assert(all_digits(s.drop_last()));
        lemma_dec_val_nonneg(s.drop_last());
    }
}

/// A digit string denotes at least as much as any of its prefixes.
pub proof fn lemma_dec_val_prefix(s: Seq<char>, k: int)
    requires
        all_digits(s),
        0 <= k <= s.len(),
    ensures
        dec_val(s) >= dec_val(s.subrange(0, k)),
    decreases s.len() - k,
{
    if k < s.len() {
        let p = s.subrange(0, k);
        let q = s.subrange(0, k + 1);
        assert(q.drop_last() =~= p);
        assert(all_digits(p));
        lemma_dec_val_nonneg(p);
        assert(dec_val(q) == dec_val(p) * 10 + digit_val(q.last()));
        lemma_dec_val_prefix(s, k + 1);
    } else {
        assert(s.subrange(0, k) =~= s);
    }
}

/// The digits of `s` once an optional leading plus sign is removed.
pub open spec fn digits_part(s: Seq<char>) -> Seq<char> {
    if s.len() > 0 && s[0] == '+' {
        s.drop_first()
    } else {
        s
    }
}

/// The number a guess string denotes: an optional `+`, then decimal
/// digits whose value fits in a `u32`; anything else is rejected.
pub open spec fn parse_u32_spec(s: Seq<char>) -> Option<u32> {
    let d = digits_part(s);
    if d.len() > 0 && all_digits(d) && dec_val(d) <= u32::MAX {
        Some(dec_val(d) as u32)
    } else {
        None
    }
}

/// Executable counterpart of [`is_digit_char`].
pub fn is_digit(c: char) -> (r: bool)
    ensures
        r == is_digit_char(c),
{
    let u = c as u32;
    48 <= u && u <= 57
}

/// Parse a `u32` from decimal text, as the round engine validates guesses.
pub fn parse_u32(s: &str) -> (r: Option<u32>)
    ensures
        r == parse_u32_spec(s@),
{
    let len = s.unicode_len();
    let start: usize = if len > 0 && s.get_char(0) == '+' {
        1
    } else {
        0
    };
    let ghost d = digits_part(s@);
    proof {
        assert(d =~= s@.subrange(start as int, len as int));
    }
    if start == len {
        return None;
    }
    let mut acc: u64 = 0;
    let mut i: usize = start;
    while i < len
        invariant
            len == s@.len(),
            start <= i <= len,
            d == digits_part(s@),
            d == s@.subrange(start as int, len as int),
            all_digits(d.subrange(0, i - start)),
            acc == dec_val(d.subrange(0, i - start)),
            acc <= u32::MAX,
        decreases len - i,
    {
        let c = s.get_char(i);
        let ghost processed = d.subrange(0, i - start);
        if !is_digit(c) {
            proof {
                assert(d[i - start] == s@[i as int]);
                assert(!all_digits(d));
            }
            return None;
        }
        let digit: u64 = (c as u32 - 48) as u64;
        let next: u64 = acc * 10 + digit;
        proof {
            let q = d.subrange(0, i - start + 1);
            assert(q.drop_last() =~= processed);
            assert(q.last() == s@[i as int]);
            assert(next == dec_val(q));
        }
        if next > u32::MAX as u64 {
            proof {
                if all_digits(d) {
                    lemma_dec_val_prefix(d, i - start + 1);
                }
            }
            return None;
        }
        acc = next;
        i = i + 1;
    }
    proof {
        assert(d.subrange(0, d.len() as int) =~= d);
    }
    Some(acc as u32)
}

/// The character for the digit `d`.
pub open spec fn digit_char(d: int) -> char {
    if d == 0 {
        '0'
    } else if d == 1 {
        '1'
    } else if d == 2 {
        '2'
    } else if d == 3 {
        '3'
    } else if d == 4 {
        '4'
    } else if d == 5 {
        '5'
    } else if d == 6 {
        '6'
    } else if d == 7 {
        '7'
    } else if d == 8 {
        '8'
    } else {
        '9'
    }
}

/// The decimal rendering of a non-negative number, without leading zeros.
pub open spec fn dec_repr(n: int) -> Seq<char>
    decreases n,
{
    if n < 10 {
        seq![digit_char(n)]
    } else {
        dec_repr(n / 10).push(digit_char(n % 10))
    }
}

/// The rendering of a number consists of digits.
pub proof fn lemma_dec_repr_digits(n: int)
    requires
        n >= 0,
    ensures
        dec_repr(n).len() >= 1,
        all_digits(dec_repr(n)),
    decreases n,
{
    if n >= 10 {
        lemma_dec_repr_digits(n / 10);
        let r = dec_repr(n);
        let p = dec_repr(n / 10);
        assert forall|i: int| 0 <= i < r.len() implies is_digit_char(r[i]) by {
            if i < p.len() {
                assert(r[i] == p[i]);
            }
        }
    }
}

/// Rendering then reading a number gives it back.
pub proof fn lemma_dec_val_of_repr(n: int)
    requires
        n >= 0,
    ensures
        dec_val(dec_repr(n)) == n,
    decreases n,
{
    if n < 10 {
        let r = dec_repr(n);
        assert(r.drop_last() =~= Seq::<char>::empty());
        assert(dec_val(Seq::<char>::empty()) == 0);
        assert(dec_val(r) == digit_val(digit_char(n)));
    } else {
        lemma_dec_val_of_repr(n / 10);
        let r = dec_repr(n);
        let p = dec_repr(n / 10);
        assert(r.drop_last() =~= p);
        assert(dec_val(r) == (n / 10) * 10 + n % 10);
        vstd::arithmetic::div_mod::lemma_fundamental_div_mod(n, 10);
    }
}

/// The full parse of a rendered `u32` succeeds and gives the number back.
pub proof fn lemma_parse_of_repr(n: u32)
    ensures
        parse_u32_spec(dec_repr(n as int)) == Some(n),
{
    let r = dec_repr(n as int);
    lemma_dec_repr_digits(n as int);
    lemma_dec_val_of_repr(n as int);
    assert(is_digit_char(r[0]));
    assert(r[0] != '+');
    assert(digits_part(r) == r);
}

/// The single-character string for the digit `d`.
pub fn digit_str(d: u32) -> (r: &'static str)
    requires
        d < 10,
    ensures
        r@ == seq![digit_char(d as int)],
{
    proof {
        reveal_strlit("0");
        reveal_strlit("1");
        reveal_strlit("2");
        reveal_strlit("3");
        reveal_strlit("4");
        reveal_strlit("5");
        reveal_strlit("6");
        reveal_strlit("7");
        reveal_strlit("8");
        reveal_strlit("9");
    }
    let r = match d {
        0 => "0",
        1 => "1",
        2 => "2",
        3 => "3",
        4 => "4",
        5 => "5",
        6 => "6",
        7 => "7",
        8 => "8",
        _ => "9",
    };
    proof {
        assert(r@ =~= seq![digit_char(d as int)]);
    }
    r
}

/// Render `n` in decimal, as the leaderboard stores attempt counts.
pub fn u32_string(n: u32) -> (r: String)
    ensures
        r@ == dec_repr(n as int),
    decreases n,
{
    if n < 10 {
        String::from_str(digit_str(n))
    } else {
        let mut prefix = u32_string(n / 10);
        prefix.append(digit_str(n % 10));
        proof {
            assert(dec_repr(n as int / 10) + seq![digit_char(n as int % 10)] =~= dec_repr(
                n as int / 10,
            ).push(digit_char(n as int % 10)));
        }
        prefix
    }
}

/// The guesses of a round joined with a separator, most recent last.
pub open spec fn join_spec(v: Seq<u32>, sep: Seq<char>) -> Seq<char>
    decreases v.len(),
{
    if v.len() == 0 {
        Seq::empty()
    } else if v.len() == 1 {
        dec_repr(v[0] as int)
    } else {
        join_spec(v.drop_last(), sep) + sep + dec_repr(v.last() as int)
    }
}

/// Render a guess history, separating entries with `sep`.
pub fn join_u32(v: &Vec<u32>, sep: &str) -> (r: String)
    ensures
        r@ == join_spec(v@, sep@),
{
    let mut r = String::new();
    let mut i: usize = 0;
    while i < v.len()
        invariant
            i <= v@.len(),
            r@ == join_spec(v@.subrange(0, i as int), sep@),
        decreases v@.len() - i,
    {
        if i > 0 {
            r.append(sep);
        }
        let num = u32_string(v[i]);
        r.append(num.as_str());
        proof {
            let p = v@.subrange(0, i as int);
            let q = v@.subrange(0, i as int + 1);
            assert(q.drop_last() =~= p);
            assert(q.last() == v@[i as int]);
        }
        i = i + 1;
    }
    proof {
        assert(v@.subrange(0, v@.len() as int) =~= v@);
    }
    r
}

/// Executable counterpart of [`is_ws`].
pub fn is_ws_char(c: char) -> (r: bool)
    ensures
        r == is_ws(c),
{
    c == ' ' || c == '\t' || c == '\r' || c == '\n'
}

} // verus!
