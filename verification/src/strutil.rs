//! Character-level string helpers shared by the whole library.
//!
//! All contracts are stated over the `Seq<char>` views of `&str` and
//! `String`, so the rest of the library can describe path and rule
//! handling mathematically.

use vstd::prelude::*;
use vstd::string::StrSliceExecFns;
use vstd::string::StringExecFns;

verus! {

/// `pat` occurs in `text` at character position `i`.
pub open spec fn occurs_at(text: Seq<char>, pat: Seq<char>, i: int) -> bool {
    &&& 0 <= i
    &&& i + pat.len() <= text.len()
    &&& text.subrange(i, i + pat.len() as int) == pat
}

/// `pat` occurs somewhere in `text`.
pub open spec fn has_substring(text: Seq<char>, pat: Seq<char>) -> bool {
    exists|i: int| occurs_at(text, pat, i)
}

/// Whether `pat` occurs in `text` at position `i`.
pub fn match_at(text: &str, pat: &str, i: usize) -> (r: bool)
    requires
        i + pat@.len() <= text@.len(),
    ensures
        r == occurs_at(text@, pat@, i as int),
{
    let m = pat.unicode_len();
    let n = text.unicode_len();
    let mut j: usize = 0;
    while j < m
        invariant
            j <= m,
            m == pat@.len(),
            n == text@.len(),
            i + m <= n,
            forall|k: int| 0 <= k < j ==> text@[i + k] == pat@[k],
        decreases m - j,
    {
        if text.get_char(i + j) != pat.get_char(j) {
            assert(text@.subrange(i as int, i + m as int)[j as int] != pat@[j as int]);
            return false;
        }
        j += 1;
    }
    assert(text@.subrange(i as int, i + m as int) =~= pat@);
    true
}

/// Whether two string slices hold the same characters.
pub fn str_eq(a: &str, b: &str) -> (r: bool)
    ensures
        r == (a@ == b@),
{
    let n = a.unicode_len();
    if n != b.unicode_len() {
        assert(a@ != b@) by {
            assert(a@.len() != b@.len());
        }
        return false;
    }
    let r = match_at(a, b, 0);
    proof {
        assert(a@.subrange(0, a@.len() as int) =~= a@);
    }
    r
}

/// Whether `text` starts with `pat`.
pub fn starts_with(text: &str, pat: &str) -> (r: bool)
    ensures
        r == pat@.is_prefix_of(text@),
{
    let m = pat.unicode_len();
    if m > text.unicode_len() {
        return false;
    }
    match_at(text, pat, 0)
}

/// Whether `text` ends with `pat`.
pub fn ends_with(text: &str, pat: &str) -> (r: bool)
    ensures
        r == pat@.is_suffix_of(text@),
{
    let m = pat.unicode_len();
    let n = text.unicode_len();
    if m > n {
        return false;
    }
    let r = match_at(text, pat, n - m);
    proof {
        assert(text@.subrange(n - m, n - m + m as int) =~= text@.subrange(
            text@.len() - m,
            text@.len() as int,
        ));
    }
    r
}

/// First position at or after `from` where `pat` occurs in `text`.
pub fn find_sub(text: &str, pat: &str, from: usize) -> (r: Option<usize>)
    requires
        from <= text@.len(),
    ensures
        match r {
            Some(i) => {
                &&& from <= i
                &&& occurs_at(text@, pat@, i as int)
                &&& forall|j: int| from <= j < i ==> !occurs_at(text@, pat@, j)
            },
            None => forall|j: int| from <= j ==> !occurs_at(text@, pat@, j),
        },
{
    let n = text.unicode_len();
    let m = pat.unicode_len();
    if m > n || from > n - m {
        return None;
    }
    if m == 0 {
        assert(text@.subrange(from as int, from as int) =~= pat@);
        return Some(from);
    }
    let mut i: usize = from;
    while i <= n - m
        invariant
            from <= i <= n - m + 1,
            1 <= m == pat@.len(),
            n == text@.len(),
            m <= n,
            forall|j: int| from <= j < i ==> !occurs_at(text@, pat@, j),
        decreases n - i,
    {
        if match_at(text, pat, i) {
            return Some(i);
        }
        i += 1;
    }
    None
}

/// Whether `pat` occurs anywhere in `text`.
pub fn contains_sub(text: &str, pat: &str) -> (r: bool)
    ensures
        r == has_substring(text@, pat@),
{
    match find_sub(text, pat, 0) {
        Some(_) => true,
        None => false,
    }
}

/// First position at or after `from` where the character `c` stands in `s`.
pub fn find_char(s: &str, c: char, from: usize) -> (r: Option<usize>)
    requires
        from <= s@.len(),
    ensures
        match r {
            Some(i) => {
                &&& from <= i < s@.len()
                &&& s@[i as int] == c
                &&& forall|j: int| from <= j < i ==> s@[j] != c
            },
            None => forall|j: int| from <= j < s@.len() ==> s@[j] != c,
        },
{
    let n = s.unicode_len();
    let mut i: usize = from;
    while i < n
        invariant
            from <= i <= n,
            n == s@.len(),
            forall|j: int| from <= j < i ==> s@[j] != c,
        decreases n - i,
    {
        if s.get_char(i) == c {
            return Some(i);
        }
        i += 1;
    }
    None
}

/// Whether `s` holds the character `c`.
pub fn contains_char(s: &str, c: char) -> (r: bool)
    ensures
        r == s@.contains(c),
{
    let r = find_char(s, c, 0);
    proof {
        if s@.contains(c) {
            let w = choose|j: int| 0 <= j < s@.len() && s@[j] == c;
            assert(0 <= w < s@.len() && s@[w] == c);
        }
    }
    match r {
        Some(_) => true,
        None => false,
    }
}

/// The characters of `s` from `from` (inclusive) to `to` (exclusive), owned.
pub fn substr(s: &str, from: usize, to: usize) -> (r: String)
    requires
        from <= to <= s@.len(),
    ensures
        r@ == s@.subrange(from as int, to as int),
{
    s.substring_char(from, to).to_owned()
}

/// `s` with `add` appended.
pub fn concat_str(s: String, add: &str) -> (r: String)
    ensures
        r@ == s@ + add@,
{
    s.concat(add)
}

/// An owned copy of `s`.
pub fn copy_str(s: &str) -> (r: String)
    ensures
        r@ == s@,
{
    s.to_owned()
}

/// The pieces of `s` between occurrences of the separator `c`.
///
/// Splitting the empty string yields one empty piece, as `str::split` does.
pub open spec fn split_chars(s: Seq<char>, c: char) -> Seq<Seq<char>>
    decreases s.len(),
{
    if s.len() == 0 {
        seq![Seq::<char>::empty()]
    } else {
        let rest = split_chars(s.drop_first(), c);
        if s[0] == c {
            seq![Seq::<char>::empty()] + rest
        } else {
            seq![seq![s[0]] + rest[0]] + rest.skip(1)
        }
    }
}

pub proof fn lemma_split_chars_len(s: Seq<char>, c: char)
    ensures
        split_chars(s, c).len() >= 1,
    decreases s.len(),
{
    if s.len() > 0 {
        lemma_split_chars_len(s.drop_first(), c);
    }
}

/// Appending one character either opens a new piece (separator) or
/// extends the last piece.
pub proof fn lemma_split_chars_push(s: Seq<char>, c: char, x: char)
    ensures
        split_chars(s.push(x), c) == if x == c {
            split_chars(s, c).push(Seq::<char>::empty())
        } else {
            split_chars(s, c).update(
                split_chars(s, c).len() - 1,
                split_chars(s, c).last().push(x),
            )
        },
    decreases s.len(),
{
    lemma_split_chars_len(s, c);
    let t = s.push(x);
    if s.len() == 0 {
        assert(t.len() == 1);
        assert(t[0] == x);
        assert(s =~= Seq::<char>::empty());
        assert(t.drop_first() =~= s);
        assert(split_chars(t.drop_first(), c) == split_chars(s, c));
        assert(split_chars(s, c) == seq![Seq::<char>::empty()]);
        if x == c {
            assert(split_chars(t, c) == seq![Seq::<char>::empty()] + split_chars(
                t.drop_first(),
                c,
            ));
            assert(split_chars(t, c) =~= split_chars(s, c).push(Seq::<char>::empty()));
        } else {
            assert(seq![t[0]] + split_chars(t.drop_first(), c)[0] =~= seq![x]);
            assert(split_chars(t, c) =~= split_chars(s, c).update(
                0,
                split_chars(s, c).last().push(x),
            ));
        }
    } else {
        assert(t.len() == s.len() + 1);
        assert(t[0] == s[0]);
        assert(t.drop_first() =~= s.drop_first().push(x));
        lemma_split_chars_push(s.drop_first(), c, x);
        lemma_split_chars_len(s.drop_first(), c);
        let rest = split_chars(s.drop_first(), c);
        let trest = split_chars(t.drop_first(), c);
        assert(trest == if x == c {
            rest.push(Seq::<char>::empty())
        } else {
            rest.update(rest.len() - 1, rest.last().push(x))
        });
        if s[0] == c {
            if x == c {
                assert(split_chars(t, c) =~= split_chars(s, c).push(Seq::<char>::empty()));
            } else {
                assert(split_chars(t, c) =~= split_chars(s, c).update(
                    split_chars(s, c).len() - 1,
                    split_chars(s, c).last().push(x),
                ));
            }
        } else {
            if x == c {
                assert(trest[0] == rest[0]);
                assert(trest.skip(1) =~= rest.skip(1).push(Seq::<char>::empty()));
                assert(split_chars(t, c) =~= split_chars(s, c).push(Seq::<char>::empty()));
            } else {
                if rest.len() == 1 {
                    assert(trest[0] == rest[0].push(x));
                    assert(trest.skip(1) =~= rest.skip(1));
                    assert(split_chars(s, c).last() == seq![s[0]] + rest[0]);
                    assert((seq![t[0]] + trest[0]) =~= (seq![s[0]] + rest[0]).push(x));
                    assert(split_chars(t, c) =~= split_chars(s, c).update(
                        split_chars(s, c).len() - 1,
                        split_chars(s, c).last().push(x),
                    ));
                } else {
                    assert(trest[0] == rest[0]);
                    assert(trest.skip(1) =~= rest.skip(1).update(
                        rest.skip(1).len() - 1,
                        rest.skip(1).last().push(x),
                    ));
                    assert(split_chars(s, c).last() == rest.last());
                    assert(split_chars(t, c) =~= split_chars(s, c).update(
                        split_chars(s, c).len() - 1,
                        split_chars(s, c).last().push(x),
                    ));
                }
            }
        }
    }
}

/// Split `s` at every occurrence of `c`.
pub fn split_on(s: &str, c: char) -> (parts: Vec<String>)
    ensures
        parts@.map_values(|p: String| p@) == split_chars(s@, c),
{
    let n = s.unicode_len();
    let mut parts: Vec<String> = Vec::new();
    let mut start: usize = 0;
    let mut i: usize = 0;
    proof {
        assert(s@.take(0) =~= Seq::<char>::empty());
        assert(parts@.map_values(|p: String| p@).push(s@.subrange(0, 0)) =~= split_chars(
            s@.take(0),
            c,
        ));
    }
    while i < n
        invariant
            start <= i <= n,
            n == s@.len(),
            parts@.map_values(|p: String| p@).push(s@.subrange(start as int, i as int))
                == split_chars(s@.take(i as int), c),
        decreases n - i,
    {
        let x = s.get_char(i);
        proof {
            lemma_split_chars_push(s@.take(i as int), c, x);
            assert(s@.take(i as int).push(x) =~= s@.take(i + 1));
        }
        if x == c {
            let ghost before = parts@;
            let piece = substr(s, start, i);
            parts.push(piece);
            start = i + 1;
            proof {
                assert(parts@.map_values(|p: String| p@) =~= before.map_values(
                    |p: String| p@,
                ).push(piece@));
                assert(s@.subrange(start as int, i + 1) =~= Seq::<char>::empty());
                assert(parts@.map_values(|p: String| p@).push(
                    s@.subrange(start as int, i + 1),
                ) =~= split_chars(s@.take(i + 1), c));
            }
        } else {
            proof {
                let prev = split_chars(s@.take(i as int), c);
                assert(prev.last() == s@.subrange(start as int, i as int));
                assert(s@.subrange(start as int, i as int).push(x) =~= s@.subrange(
                    start as int,
                    i + 1,
                ));
                assert(parts@.map_values(|p: String| p@).push(
                    s@.subrange(start as int, i + 1),
                ) =~= split_chars(s@.take(i + 1), c));
            }
        }
        i += 1;
    }
    let piece = substr(s, start, n);
    parts.push(piece);
    proof {
        assert(s@.take(n as int) =~= s@);
        assert(parts@.map_values(|p: String| p@) =~= split_chars(s@, c));
    }
    parts
}

/// The whitespace characters that trimming removes.
pub open spec fn is_wspace(c: char) -> bool {
    c == ' ' || c == '\t' || c == '\n' || c == '\r'
}

/// `s` without leading whitespace.
pub open spec fn trim_front_chars(s: Seq<char>) -> Seq<char>
    decreases s.len(),
{
    if s.len() > 0 && is_wspace(s[0]) {
        trim_front_chars(s.drop_first())
    } else {
        s
    }
}

/// `s` without trailing whitespace.
pub open spec fn trim_back_chars(s: Seq<char>) -> Seq<char>
    decreases s.len(),
{
    if s.len() > 0 && is_wspace(s.last()) {
        trim_back_chars(s.drop_last())
    } else {
        s
    }
}

/// `s` without leading and trailing whitespace.
pub open spec fn trim_chars(s: Seq<char>) -> Seq<char> {
    trim_back_chars(trim_front_chars(s))
}

proof fn lemma_trim_front_skip(s: Seq<char>, k: int)
    requires
        0 <= k <= s.len(),
        forall|j: int| 0 <= j < k ==> is_wspace(s[j]),
        k == s.len() || !is_wspace(s[k]),
    ensures
        trim_front_chars(s) == s.skip(k),
    decreases k,
{
    if k == 0 {
        assert(s.skip(0) =~= s);
    } else {
        assert(is_wspace(s[0]));
        assert(s.drop_first().skip(k - 1) =~= s.skip(k));
        lemma_trim_front_skip(s.drop_first(), k - 1);
    }
}

proof fn lemma_trim_back_take(s: Seq<char>, k: int)
    requires
        0 <= k <= s.len(),
        forall|j: int| k <= j < s.len() ==> is_wspace(s[j]),
        k == 0 || !is_wspace(s[k - 1]),
    ensures
        trim_back_chars(s) == s.take(k),
    decreases s.len() - k,
{
    if k == s.len() {
        assert(s.take(k) =~= s);
    } else {
        assert(is_wspace(s.last()));
        assert(s.drop_last().take(k) =~= s.take(k));
        lemma_trim_back_take(s.drop_last(), k);
    }
}

/// `s` with surrounding whitespace removed.
pub fn trim(s: &str) -> (r: String)
    ensures
        r@ == trim_chars(s@),
{
    let n = s.unicode_len();
    let mut a: usize = 0;
    while a < n && is_wspace_char(s.get_char(a))
        invariant
            a <= n,
            n == s@.len(),
            forall|j: int| 0 <= j < a ==> is_wspace(s@[j]),
        decreases n - a,
    {
        a += 1;
    }
    proof {
        lemma_trim_front_skip(s@, a as int);
    }
    let mut b: usize = n;
    while b > a && is_wspace_char(s.get_char(b - 1))
        invariant
            a <= b <= n,
            n == s@.len(),
            forall|j: int| b <= j < n ==> is_wspace(s@[j]),
        decreases b,
    {
        b -= 1;
    }
    proof {
        let f = s@.skip(a as int);
        lemma_trim_back_take(f, b - a);
        assert(trim_chars(s@) == f.take(b - a));
        assert(f.take(b - a) =~= s@.subrange(a as int, b as int));
    }
    substr(s, a, b)
}

/// Executable test for the whitespace characters of `is_wspace`.
pub fn is_wspace_char(c: char) -> (r: bool)
    ensures
        r == is_wspace(c),
{
    c == ' ' || c == '\t' || c == '\n' || c == '\r'
}

/// Whether every character of `s` is a decimal digit.
pub open spec fn all_digits(s: Seq<char>) -> bool {
    forall|j: int| 0 <= j < s.len() ==> '0' <= #[trigger] s[j] <= '9'
}

/// The number denoted by the decimal digit string `s`.
pub open spec fn digits_value(s: Seq<char>) -> nat
    decreases s.len(),
{
    if s.len() == 0 {
        0
    } else {
        digits_value(s.drop_last()) * 10 + ((s.last() as int - '0' as int) as nat)
    }
}

proof fn lemma_digits_value_mono(s: Seq<char>, i: int)
    requires
        0 <= i <= s.len(),
        all_digits(s),
    ensures
        digits_value(s.take(i)) <= digits_value(s),
    decreases s.len() - i,
{
    if i < s.len() {
        lemma_digits_value_mono(s, i + 1);
        assert(s.take(i + 1).drop_last() =~= s.take(i));
        assert(digits_value(s.take(i)) <= digits_value(s.take(i + 1)));
    } else {
        assert(s.take(i) =~= s);
    }
}

/// Read `s` as a decimal `u32`, as `str::parse::<u32>` does.
pub fn parse_u32(s: &str) -> (r: Option<u32>)
    ensures
        match r {
            Some(v) => {
                &&& s@.len() > 0
                &&& all_digits(s@)
                &&& v == digits_value(s@)
            },
            None => s@.len() == 0 || !all_digits(s@) || digits_value(s@) > u32::MAX,
        },
{
    let n = s.unicode_len();
    if n == 0 {
        return None;
    }
    let mut acc: u64 = 0;
    let mut i: usize = 0;
    while i < n
        invariant
            i <= n,
            n == s@.len(),
            all_digits(s@.take(i as int)),
            acc == digits_value(s@.take(i as int)),
            acc <= u32::MAX,
        decreases n - i,
    {
        let ch = s.get_char(i);
        if !('0' <= ch && ch <= '9') {
            assert(!all_digits(s@)) by {
                assert(s@[i as int] == ch);
            }
            return None;
        }
        let d: u64 = (ch as u32 as u64) - ('0' as u32 as u64);
        proof {
            assert(s@.take(i + 1).drop_last() =~= s@.take(i as int));
            assert(s@.take(i + 1).last() == ch);
        }
        acc = acc * 10 + d;
        i += 1;
        if acc > 0xFFFF_FFFF {
            proof {
                if all_digits(s@) {
                    lemma_digits_value_mono(s@, i as int);
                    assert(digits_value(s@) > u32::MAX);
                }
            }
            return None;
        }
        assert(forall|j: int|
            0 <= j < i ==> '0' <= #[trigger] s@.take(i as int)[j] <= '9');
    }
    proof {
        assert(s@.take(n as int) =~= s@);
    }
    Some(acc as u32)
}

/// Index of the first occurrence of the character `c` in `s`; the
/// length of `s` when it does not occur.
pub open spec fn first_index_of(s: Seq<char>, c: char) -> int
    decreases s.len(),
{
    if s.len() == 0 {
        0
    } else if s[0] == c {
        0
    } else {
        1 + first_index_of(s.drop_first(), c)
    }
}

/// `first_index_of` indeed names the first occurrence.
pub proof fn lemma_first_index_of(s: Seq<char>, c: char, i: int)
    requires
        0 <= i < s.len(),
        s[i] == c,
        forall|j: int| 0 <= j < i ==> s[j] != c,
    ensures
        first_index_of(s, c) == i,
    decreases i,
{
    if i > 0 {
        assert(forall|j: int| 0 <= j < i - 1 ==> s.drop_first()[j] == s[j + 1]);
        lemma_first_index_of(s.drop_first(), c, i - 1);
    }
}

/// `s` without leading copies of the character `c`.
pub open spec fn trim_start_char(s: Seq<char>, c: char) -> Seq<char>
    decreases s.len(),
{
    if s.len() > 0 && s[0] == c {
        trim_start_char(s.drop_first(), c)
    } else {
        s
    }
}

/// `s` without trailing copies of the character `c`.
pub open spec fn trim_end_char(s: Seq<char>, c: char) -> Seq<char>
    decreases s.len(),
{
    if s.len() > 0 && s.last() == c {
        trim_end_char(s.drop_last(), c)
    } else {
        s
    }
}

proof fn lemma_trim_start_char_skip(s: Seq<char>, c: char, k: int)
    requires
        0 <= k <= s.len(),
        forall|j: int| 0 <= j < k ==> s[j] == c,
        k == s.len() || s[k] != c,
    ensures
        trim_start_char(s, c) == s.skip(k),
    decreases k,
{
    if k == 0 {
        assert(s.skip(0) =~= s);
    } else {
        assert(s.drop_first().skip(k - 1) =~= s.skip(k));
        lemma_trim_start_char_skip(s.drop_first(), c, k - 1);
    }
}

proof fn lemma_trim_end_char_take(s: Seq<char>, c: char, k: int)
    requires
        0 <= k <= s.len(),
        forall|j: int| k <= j < s.len() ==> s[j] == c,
        k == 0 || s[k - 1] != c,
    ensures
        trim_end_char(s, c) == s.take(k),
    decreases s.len() - k,
{
    if k == s.len() {
        assert(s.take(k) =~= s);
    } else {
        assert(s.drop_last().take(k) =~= s.take(k));
        lemma_trim_end_char_take(s.drop_last(), c, k);
    }
}

/// Strip every leading copy of `c` from `s`.
pub fn strip_leading(s: &str, c: char) -> (r: String)
    ensures
        r@ == trim_start_char(s@, c),
{
    let n = s.unicode_len();
    let mut a: usize = 0;
    while a < n && s.get_char(a) == c
        invariant
            a <= n,
            n == s@.len(),
            forall|j: int| 0 <= j < a ==> s@[j] == c,
        decreases n - a,
    {
        a += 1;
    }
    proof {
        lemma_trim_start_char_skip(s@, c, a as int);
        assert(s@.skip(a as int) =~= s@.subrange(a as int, n as int));
    }
    substr(s, a, n)
}

/// Strip every trailing copy of `c` from `s`.
pub fn strip_trailing(s: &str, c: char) -> (r: String)
    ensures
        r@ == trim_end_char(s@, c),
{
    let n = s.unicode_len();
    let mut b: usize = n;
    while b > 0 && s.get_char(b - 1) == c
        invariant
            b <= n,
            n == s@.len(),
            forall|j: int| b <= j < n ==> s@[j] == c,
        decreases b,
    {
        b -= 1;
    }
    proof {
        lemma_trim_end_char_take(s@, c, b as int);
        assert(s@.take(b as int) =~= s@.subrange(0, b as int));
    }
    substr(s, 0, b)
}

/// The character of one decimal digit.
pub open spec fn digit_char(d: int) -> char {
    if d == 0 {
        '0'
    } else if d == 1 {
        '1'
    } else if d == 2 {
        '2'
    } else if d == 3 {
        '3'
    } else if d == 4 {
        '4'
    } else if d == 5 {
        '5'
    } else if d == 6 {
        '6'
    } else if d == 7 {
        '7'
    } else if d == 8 {
        '8'
    } else {
        '9'
    }
}

/// The decimal digit string of `n`.
pub open spec fn dec_chars(n: int) -> Seq<char>
    decreases n,
{
    if n < 10 {
        seq![digit_char(n)]
    } else {
        dec_chars(n / 10).push(digit_char(n % 10))
    }
}

/// One decimal digit as a string slice.
pub fn digit_str(d: u64) -> (r: &'static str)
    requires
        d < 10,
    ensures
        r@ == seq![digit_char(d as int)],
{
    proof {
        reveal_strlit("0");
        reveal_strlit("1");
        reveal_strlit("2");
        reveal_strlit("3");
        reveal_strlit("4");
        reveal_strlit("5");
        reveal_strlit("6");
        reveal_strlit("7");
        reveal_strlit("8");
        reveal_strlit("9");
    }
    let r = match d {
        0 => "0",
        1 => "1",
        2 => "2",
        3 => "3",
        4 => "4",
        5 => "5",
        6 => "6",
        7 => "7",
        8 => "8",
        _ => "9",
    };
    assert(r@ =~= seq![digit_char(d as int)]);
    r
}

/// The decimal digit string of `n`.
pub fn u64_to_string(n: u64) -> (r: String)
    ensures
        r@ == dec_chars(n as int),
    decreases n,
{
    if n < 10 {
        copy_str(digit_str(n))
    } else {
        let r = concat_str(u64_to_string(n / 10), digit_str(n % 10));
        proof {
            assert(dec_chars(n as int / 10) + seq![digit_char(n as int % 10)] =~= dec_chars(
                n as int / 10,
            ).push(digit_char(n as int % 10)));
        }
        r
    }
}

/// The decimal string of a signed number.
pub fn i32_to_string(n: i32) -> (r: String)
    ensures
        n >= 0 ==> r@ == dec_chars(n as int),
        n < 0 ==> r@ == "-"@ + dec_chars(-(n as int)),
{
    if n >= 0 {
        u64_to_string(n as u64)
    } else {
        let mag: u64 = (-(n as i64)) as u64;
        concat_str(copy_str("-"), u64_to_string(mag).as_str())
    }
}

/// The two-digit decimal string of `n`, zero padded.
pub fn two_digits(n: u64) -> (r: String)
    requires
        n < 100,
    ensures
        r@ == seq![digit_char(n as int / 10), digit_char(n as int % 10)],
{
    let r = concat_str(copy_str(digit_str(n / 10)), digit_str(n % 10));
    proof {
        assert(seq![digit_char(n as int / 10)] + seq![digit_char(n as int % 10)] =~= seq![
            digit_char(n as int / 10),
            digit_char(n as int % 10),
        ]);
    }
    r
}

/// Position of the first occurrence of `pat` in `text`, or -1.
pub open spec fn first_occ(text: Seq<char>, pat: Seq<char>) -> int
    decreases text.len(),
{
    if occurs_at(text, pat, 0) {
        0
    } else if text.len() == 0 {
        -1
    } else {
        let r = first_occ(text.drop_first(), pat);
        if r < 0 {
            -1
        } else {
            r + 1
        }
    }
}

proof fn lemma_occurs_drop_first(text: Seq<char>, pat: Seq<char>, j: int)
    requires
        text.len() > 0,
        0 <= j,
    ensures
        occurs_at(text.drop_first(), pat, j) <==> occurs_at(text, pat, j + 1),
{
    if j + 1 + pat.len() <= text.len() {
        assert(text.drop_first().subrange(j, j + pat.len() as int) =~= text.subrange(
            j + 1,
            j + 1 + pat.len() as int,
        ));
    }
}

/// `first_occ` indeed names the first occurrence.
pub proof fn lemma_first_occ(text: Seq<char>, pat: Seq<char>)
    ensures
        first_occ(text, pat) >= 0 ==> {
            &&& occurs_at(text, pat, first_occ(text, pat))
            &&& forall|j: int| 0 <= j < first_occ(text, pat) ==> !occurs_at(text, pat, j)
        },
        first_occ(text, pat) < 0 ==> forall|j: int| !occurs_at(text, pat, j),
    decreases text.len(),
{
    if !occurs_at(text, pat, 0) && text.len() > 0 {
        lemma_first_occ(text.drop_first(), pat);
        let r = first_occ(text.drop_first(), pat);
        if r >= 0 {
            lemma_occurs_drop_first(text, pat, r);
            assert forall|j: int| 0 <= j < r + 1 implies !occurs_at(text, pat, j) by {
                if j > 0 {
                    lemma_occurs_drop_first(text, pat, j - 1);
                }
            }
        } else {
            assert forall|j: int| 0 <= j implies !occurs_at(text, pat, j) by {
                if j > 0 {
                    lemma_occurs_drop_first(text, pat, j - 1);
                }
            }
        }
    }
}

pub proof fn lemma_occurs_shift(text: Seq<char>, pat: Seq<char>, pos: int, j: int)
    requires
        0 <= pos <= text.len(),
        0 <= j,
    ensures
        occurs_at(text.skip(pos), pat, j) <==> occurs_at(text, pat, pos + j),
{
    if pos + j + pat.len() <= text.len() {
        assert(text.skip(pos).subrange(j, j + pat.len() as int) =~= text.subrange(
            pos + j,
            pos + j + pat.len() as int,
        ));
    }
}

/// The first occurrence within a suffix of `text`, named by `find_sub`,
/// is the `first_occ` of that suffix.
pub proof fn lemma_first_occ_shift(text: Seq<char>, pat: Seq<char>, pos: int, found: int)
    requires
        0 <= pos <= text.len(),
        pos <= found,
        occurs_at(text, pat, found),
        forall|j: int| pos <= j < found ==> !occurs_at(text, pat, j),
    ensures
        first_occ(text.skip(pos), pat) == found - pos,
{
    lemma_first_occ(text.skip(pos), pat);
    lemma_occurs_shift(text, pat, pos, found - pos);
    let r = first_occ(text.skip(pos), pat);
    if r >= 0 {
        lemma_occurs_shift(text, pat, pos, r);
        if r < found - pos {
            assert(occurs_at(text, pat, pos + r));
        }
    }
}

pub proof fn lemma_no_occ_shift(text: Seq<char>, pat: Seq<char>, pos: int)
    requires
        0 <= pos <= text.len(),
        forall|j: int| pos <= j ==> !occurs_at(text, pat, j),
    ensures
        first_occ(text.skip(pos), pat) < 0,
{
    lemma_first_occ(text.skip(pos), pat);
    let r = first_occ(text.skip(pos), pat);
    if r >= 0 {
        lemma_occurs_shift(text, pat, pos, r);
    }
}

/// `s` with every occurrence of `pat` replaced by `rep`, left to
/// right, as `str::replace` does.
pub open spec fn replace_chars(s: Seq<char>, pat: Seq<char>, rep: Seq<char>) -> Seq<char>
    decreases s.len(),
    via replace_chars_dec
{
    if pat.len() == 0 {
        s
    } else {
        let r = first_occ(s, pat);
        if r < 0 {
            s
        } else {
            s.take(r) + rep + replace_chars(s.skip(r + pat.len() as int), pat, rep)
        }
    }
}

#[via_fn]
proof fn replace_chars_dec(s: Seq<char>, pat: Seq<char>, rep: Seq<char>) {
    if pat.len() > 0 {
        lemma_first_occ(s, pat);
    }
}

pub fn replace_sub(s: &str, pat: &str, rep: &str) -> (r: String)
    ensures
        r@ == replace_chars(s@, pat@, rep@),
{
    let m = pat.unicode_len();
    if m == 0 {
        return copy_str(s);
    }
    let n = s.unicode_len();
    let mut out = String::new();
    let mut pos: usize = 0;
    let mut more = true;
    proof {
        assert(s@.skip(0) =~= s@);
        assert(Seq::<char>::empty() + replace_chars(s@, pat@, rep@) =~= replace_chars(
            s@,
            pat@,
            rep@,
        ));
    }
    while more
        invariant
            m == pat@.len(),
            m >= 1,
            n == s@.len(),
            pos <= n,
            more ==> replace_chars(s@, pat@, rep@) == out@ + replace_chars(
                s@.skip(pos as int),
                pat@,
                rep@,
            ),
            !more ==> out@ == replace_chars(s@, pat@, rep@),
        decreases n - pos + (if more { 1int } else { 0int }),
    {
        match find_sub(s, pat, pos) {
            Some(p) => {
                let ghost before = out@;
                let ghost pos0 = pos as int;
                proof {
                    lemma_first_occ_shift(s@, pat@, pos0, p as int);
                    assert(s@.skip(pos0).take(p - pos0) =~= s@.subrange(pos0, p as int));
                    assert(s@.skip(pos0).skip(p - pos0 + m as int) =~= s@.skip(p + m as int));
                }
                let piece = substr(s, pos, p);
                out = concat_str(concat_str(out, piece.as_str()), rep);
                pos = p + m;
                proof {
                    assert(before + (s@.subrange(pos0, p as int) + rep@ + replace_chars(
                        s@.skip(p + m as int),
                        pat@,
                        rep@,
                    )) =~= out@ + replace_chars(s@.skip(p + m as int), pat@, rep@));
                }
            }
            None => {
                proof {
                    lemma_no_occ_shift(s@, pat@, pos as int);
                    assert(s@.skip(pos as int) =~= s@.subrange(pos as int, n as int));
                }
                let piece = substr(s, pos, n);
                out = concat_str(out, piece.as_str());
                more = false;
            }
        }
    }
    out
}

} // verus!
