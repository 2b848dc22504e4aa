//! The ignore matcher: evaluates a relative path against a package's
//! ignore rules.
//!
//! A rule without a wildcard matches when it is a substring of the path
//! or equals the path's final segment.  A rule with wildcards is a
//! minimal glob: the pieces between `*` are looked for in order, the
//! first anchored at the start and the last at the end.

use vstd::prelude::*;
use vstd::string::StrSliceExecFns;
use crate::strutil::{
    contains_char, contains_sub, find_sub, first_occ, has_substring, lemma_first_occ,
    lemma_first_occ_shift, lemma_no_occ_shift, lemma_split_chars_len, match_at, occurs_at,
    split_chars, split_on, starts_with, str_eq, substr,
};

verus! {

/// Greedy matching of the remaining glob pieces against the remaining
/// text: pieces are found left to right, and a final non-empty piece
/// must close the text.
pub open spec fn glob_tail_match(text: Seq<char>, parts: Seq<Seq<char>>) -> bool
    decreases parts.len(),
{
    if parts.len() == 0 {
        true
    } else if parts[0].len() == 0 {
        glob_tail_match(text, parts.drop_first())
    } else if parts.len() == 1 {
        parts[0].is_suffix_of(text)
    } else {
        let r = first_occ(text, parts[0]);
        r >= 0 && glob_tail_match(text.skip(r + parts[0].len()), parts.drop_first())
    }
}

/// Whether `text` matches the wildcard pattern `pattern`: the pieces of
/// `pattern` between `*` occur in `text` in order, the first anchored at
/// the start and the last at the end.
pub open spec fn glob_match_spec(text: Seq<char>, pattern: Seq<char>) -> bool {
    let parts = split_chars(pattern, '*');
    if parts[0].len() == 0 {
        glob_tail_match(text, parts.drop_first())
    } else if parts.len() == 1 {
        parts[0].is_prefix_of(text)
    } else {
        parts[0].is_prefix_of(text) && glob_tail_match(
            text.skip(parts[0].len() as int),
            parts.drop_first(),
        )
    }
}

/// Match `text` against the wildcard pattern `pattern`.
pub fn glob_match(text: &str, pattern: &str) -> (r: bool)
    ensures
        r == glob_match_spec(text@, pattern@),
{
    let parts = split_on(pattern, '*');
    let ghost sparts = parts@.map_values(|p: String| p@);
    proof {
        lemma_split_chars_len(pattern@, '*');
    }
    let n = text.unicode_len();
    let k = parts.len();
    let mut pos: usize = 0;
    let mut i: usize = 0;

    let first_len = parts[0].as_str().unicode_len();
    if first_len > 0 {
        if !starts_with(text, parts[0].as_str()) {
            return false;
        }
        if k == 1 {
            return true;
        }
        pos = first_len;
        i = 1;
    } else {
        i = 1;
        if k == 1 {
            return true;
        }
    }
    proof {
        assert(sparts[0] == parts@.map_values(|p: String| p@)[0]);
        assert(sparts.skip(1) =~= sparts.drop_first());
        assert(text@.skip(0) =~= text@);
        if first_len > 0 {
            assert(sparts[0].is_prefix_of(text@));
        }
    }
    while i < k
        invariant
            1 <= i <= k,
            k == sparts.len(),
            sparts == parts@.map_values(|p: String| p@),
            pos <= n,
            n == text@.len(),
            glob_match_spec(text@, pattern@) == glob_tail_match(
                text@.skip(pos as int),
                sparts.skip(i as int),
            ),
        decreases k - i,
    {
        let part = &parts[i];
        let m = part.as_str().unicode_len();
        proof {
            assert(sparts.skip(i as int)[0] == sparts[i as int]);
            assert(sparts.skip(i as int).drop_first() =~= sparts.skip(i + 1));
        }
        if m == 0 {
            i += 1;
        } else if i == k - 1 {
            let ok = if m <= n - pos {
                match_at(text, part.as_str(), n - m)
            } else {
                false
            };
            proof {
                let rem = text@.skip(pos as int);
                if m <= n - pos {
                    assert(rem.subrange(rem.len() - m, rem.len() as int) =~= text@.subrange(
                        n - m,
                        n as int,
                    ));
                }
                assert(sparts.skip(i as int).len() == 1);
            }
            return ok;
        } else {
            match find_sub(text, part.as_str(), pos) {
                Some(p) => {
                    proof {
                        lemma_first_occ_shift(text@, sparts[i as int], pos as int, p as int);
                        assert(text@.skip(pos as int).skip(p - pos + m) =~= text@.skip(
                            p + m as int,
                        ));
                    }
                    pos = p + m;
                    i += 1;
                }
                None => {
                    proof {
                        lemma_no_occ_shift(text@, sparts[i as int], pos as int);
                    }
                    return false;
                }
            }
        }
    }
    proof {
        assert(sparts.skip(k as int) =~= Seq::<Seq<char>>::empty());
    }
    true
}

/// The path's final segment: everything after the last `/`.
pub open spec fn file_name_of(p: Seq<char>) -> Seq<char>
    decreases p.len(),
{
    if p.len() > 0 && p.contains('/') {
        file_name_of(p.drop_first())
    } else {
        p
    }
}

proof fn lemma_file_name_no_slash(p: Seq<char>)
    requires
        !p.contains('/'),
    ensures
        file_name_of(p) == p,
{
}

proof fn lemma_file_name_after(p: Seq<char>, i: int)
    requires
        0 <= i < p.len(),
        p[i] == '/',
        forall|j: int| i < j < p.len() ==> p[j] != '/',
    ensures
        file_name_of(p) == p.skip(i + 1),
    decreases p.len(),
{
    assert(p.contains('/'));
    if i == 0 {
        let q = p.drop_first();
        assert(forall|j: int| 0 <= j < q.len() ==> q[j] == p[j + 1]);
        assert(!q.contains('/')) by {
            if q.contains('/') {
                let w = choose|w: int| 0 <= w < q.len() && q[w] == '/';
                assert(p[w + 1] == '/');
            }
        }
        lemma_file_name_no_slash(q);
        assert(file_name_of(p) == q);
        assert(q =~= p.skip(1));
    } else {
        let q = p.drop_first();
        assert(q[i - 1] == '/');
        assert forall|j: int| i - 1 < j < q.len() implies q[j] != '/' by {
            assert(q[j] == p[j + 1]);
        }
        lemma_file_name_after(q, i - 1);
        assert(q.skip(i) =~= p.skip(i + 1));
    }
}

/// The path's final segment, as `Path::file_name` names it for the
/// relative paths this library handles.
pub fn file_name(path: &str) -> (r: String)
    ensures
        r@ == file_name_of(path@),
{
    let n = path.unicode_len();
    let mut b: usize = n;
    while b > 0 && path.get_char(b - 1) != '/'
        invariant
            b <= n,
            n == path@.len(),
            forall|j: int| b <= j < n ==> path@[j] != '/',
        decreases b,
    {
        b -= 1;
    }
    proof {
        if b == 0 {
            assert(!path@.contains('/')) by {
                if path@.contains('/') {
                    let w = choose|w: int| 0 <= w < path@.len() && path@[w] == '/';
                    assert(path@[w] != '/');
                }
            }
            lemma_file_name_no_slash(path@);
            assert(path@.subrange(0, n as int) =~= path@);
        } else {
            lemma_file_name_after(path@, b - 1);
            assert(path@.skip(b as int) =~= path@.subrange(b as int, n as int));
        }
    }
    substr(path, b, n)
}

/// Whether one ignore rule matches a relative path.
pub open spec fn rule_matches(path: Seq<char>, rule: Seq<char>) -> bool {
    ||| if rule.contains('*') {
        glob_match_spec(path, rule)
    } else {
        has_substring(path, rule)
    }
    ||| file_name_of(path) == rule
}

/// Whether any rule of the set matches the path.
pub open spec fn is_ignored_spec(path: Seq<char>, rules: Seq<Seq<char>>) -> bool {
    exists|k: int| 0 <= k < rules.len() && rule_matches(path, #[trigger] rules[k])
}

/// Evaluate `path` against the ignore rules.  Unmatched paths are never
/// ignored.
pub fn is_ignored(path: &str, rules: &Vec<String>) -> (r: bool)
    ensures
        r == is_ignored_spec(path@, rules@.map_values(|p: String| p@)),
{
    let ghost srules = rules@.map_values(|p: String| p@);
    let name = file_name(path);
    let mut k: usize = 0;
    while k < rules.len()
        invariant
            k <= rules.len(),
            srules == rules@.map_values(|p: String| p@),
            name@ == file_name_of(path@),
            forall|j: int| 0 <= j < k ==> !rule_matches(path@, #[trigger] srules[j]),
        decreases rules.len() - k,
    {
        let rule = &rules[k];
        let hit = if contains_char(rule.as_str(), '*') {
            glob_match(path, rule.as_str())
        } else {
            contains_sub(path, rule.as_str())
        };
        if hit || str_eq(name.as_str(), rule.as_str()) {
            assert(rule_matches(path@, srules[k as int]));
            return true;
        }
        k += 1;
    }
    false
}

} // verus!
