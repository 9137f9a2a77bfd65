//! A verified model of the path strings the backup tree works with.
//!
//! Paths are plain strings; `/` and `\` are both treated as separators. The
//! helpers here mirror the handful of path operations the backup logic
//! needs: the final component, the parent, joining, and the stem/extension
//! split of a file name.

use vstd::prelude::*;

verus! {

/// `c` separates path components.
pub open spec fn is_sep(c: char) -> bool {
    c == '/' || c == '\\'
}

/// The predicate for separator characters, as a spec closure.
pub open spec fn sep_fn() -> spec_fn(char) -> bool {
    |c: char| is_sep(c)
}

/// The predicate for the `.` character, as a spec closure.
pub open spec fn dot_fn() -> spec_fn(char) -> bool {
    |c: char| c == '.'
}

/// The largest index of a character satisfying `p`, or `-1` if none does.
pub open spec fn last_match(s: Seq<char>, p: spec_fn(char) -> bool) -> int
    decreases s.len(),
{
    if s.len() == 0 {
        -1
    } else if p(s.last()) {
        s.len() - 1
    } else {
        last_match(s.drop_last(), p)
    }
}

proof fn lemma_last_match_at(s: Seq<char>, p: spec_fn(char) -> bool, k: int)
    requires
        0 <= k < s.len(),
        p(s[k]),
        forall|m: int| k < m < s.len() ==> !p(s[m]),
    ensures
        last_match(s, p) == k,
    decreases s.len(),
{
    if k == s.len() - 1 {
    } else {
        assert(!p(s.last()));
        lemma_last_match_at(s.drop_last(), p, k);
    }
}

proof fn lemma_last_match_none(s: Seq<char>, p: spec_fn(char) -> bool)
    requires
        forall|m: int| 0 <= m < s.len() ==> !p(s[m]),
    ensures
        last_match(s, p) == -1,
    decreases s.len(),
{
    if s.len() > 0 {
        lemma_last_match_none(s.drop_last(), p);
    }
}

/// The position found is a real match with nothing after it.
pub proof fn lemma_last_match_props(s: Seq<char>, p: spec_fn(char) -> bool)
    ensures
        last_match(s, p) >= 0 ==> last_match(s, p) < s.len() && p(s[last_match(s, p)]) && (
        forall|m: int| last_match(s, p) < m < s.len() ==> !p(s[m])),
        last_match(s, p) == -1 ==> forall|m: int| 0 <= m < s.len() ==> !p(s[m]),
        -1 <= last_match(s, p) < s.len(),
    decreases s.len(),
{
    if s.len() > 0 && !p(s.last()) {
        lemma_last_match_props(s.drop_last(), p);
        assert(forall|m: int| 0 <= m < s.len() - 1 ==> s.drop_last()[m] == s[m]);
        assert(s.drop_last().len() == s.len() - 1);
    }
}

/// The position of the last separator in `s`, if any.
pub fn last_sep_pos(s: &str) -> (r: Option<usize>)
    ensures
        match r {
            Some(i) => last_match(s@, sep_fn()) == i,
            None => last_match(s@, sep_fn()) == -1,
        },
{
    let len = s.unicode_len();
    let mut k: usize = len;
    while k > 0
        invariant
            len == s@.len(),
            k <= len,
            forall|m: int| k <= m < len ==> !(sep_fn())(s@[m]),
        decreases k,
    {
        let c = s.get_char(k - 1);
        if c == '/' || c == '\\' {
            proof {
                lemma_last_match_at(s@, sep_fn(), k - 1);
            }
            return Some(k - 1);
        }
        k = k - 1;
    }
    proof {
        lemma_last_match_none(s@, sep_fn());
    }
    None
}

/// The position of the last `.` in `s`, if any.
pub fn last_dot_pos(s: &str) -> (r: Option<usize>)
    ensures
        match r {
            Some(i) => last_match(s@, dot_fn()) == i,
            None => last_match(s@, dot_fn()) == -1,
        },
{
    let len = s.unicode_len();
    let mut k: usize = len;
    while k > 0
        invariant
            len == s@.len(),
            k <= len,
            forall|m: int| k <= m < len ==> !(dot_fn())(s@[m]),
        decreases k,
    {
        let c = s.get_char(k - 1);
        if c == '.' {
            proof {
                lemma_last_match_at(s@, dot_fn(), k - 1);
            }
            return Some(k - 1);
        }
        k = k - 1;
    }
    proof {
        lemma_last_match_none(s@, dot_fn());
    }
    None
}

/// The final path component: everything after the last separator.
pub open spec fn spec_basename(s: Seq<char>) -> Seq<char> {
    s.subrange(last_match(s, sep_fn()) + 1, s.len() as int)
}

/// The final path component of `s`. Empty when `s` ends in a separator or
/// is itself empty.
pub fn basename(s: &str) -> (r: String)
    ensures
        r@ == spec_basename(s@),
{
    let len = s.unicode_len();
    proof {
        lemma_last_match_props(s@, sep_fn());
    }
    match last_sep_pos(s) {
        Some(i) => {
            let sub = s.substring_char(i + 1, len);
            String::from_str(sub)
        },
        None => {
            let r = String::from_str(s);
            proof {
                assert(r@ =~= spec_basename(s@));
            }
            r
        },
    }
}

/// The parent of `s`: everything before the last separator; a lone leading
/// separator is kept, and a path with no separator has the empty parent.
pub open spec fn spec_parent(s: Seq<char>) -> Seq<char> {
    let i = last_match(s, sep_fn());
    if i == -1 {
        Seq::<char>::empty()
    } else if i == 0 {
        s.take(1)
    } else {
        s.take(i)
    }
}

/// The parent directory of `s`.
pub fn parent_dir(s: &str) -> (r: String)
    ensures
        r@ == spec_parent(s@),
{
    proof {
        lemma_last_match_props(s@, sep_fn());
    }
    match last_sep_pos(s) {
        Some(i) => {
            if i == 0 {
                let sub = s.substring_char(0, 1);
                proof {
                    assert(sub@ =~= spec_parent(s@));
                }
                String::from_str(sub)
            } else {
                let sub = s.substring_char(0, i);
                proof {
                    assert(sub@ =~= spec_parent(s@));
                }
                String::from_str(sub)
            }
        },
        None => {
            let r = String::new();
            proof {
                assert(r@ =~= spec_parent(s@));
            }
            r
        },
    }
}

/// Joining `name` onto directory `dir`: a separator is inserted unless the
/// directory is empty or already ends in one.
pub open spec fn spec_join(dir: Seq<char>, name: Seq<char>) -> Seq<char> {
    if dir.len() == 0 {
        name
    } else if is_sep(dir.last()) {
        dir + name
    } else {
        dir + seq!['/'] + name
    }
}

/// Join a file or directory name onto a directory path.
pub fn path_join(dir: &str, name: &str) -> (r: String)
    ensures
        r@ == spec_join(dir@, name@),
{
    let dlen = dir.unicode_len();
    if dlen == 0 {
        return String::from_str(name);
    }
    let c = dir.get_char(dlen - 1);
    let mut r = String::from_str(dir);
    if c == '/' || c == '\\' {
        r.append(name);
        r
    } else {
        r.append("/");
        r.append(name);
        proof {
            reveal_strlit("/");
            assert(r@ =~= spec_join(dir@, name@));
        }
        r
    }
}

/// `s` with all trailing separators removed.
pub open spec fn spec_trim_trailing_seps(s: Seq<char>) -> Seq<char>
    decreases s.len(),
{
    if s.len() > 0 && is_sep(s.last()) {
        spec_trim_trailing_seps(s.drop_last())
    } else {
        s
    }
}

proof fn lemma_trim_take(s: Seq<char>, k: int)
    requires
        0 <= k <= s.len(),
        forall|m: int| k <= m < s.len() ==> is_sep(s[m]),
        k == 0 || !is_sep(s[k - 1]),
    ensures
        spec_trim_trailing_seps(s) == s.take(k),
    decreases s.len(),
{
    if k < s.len() {
        lemma_trim_take(s.drop_last(), k);
        assert(s.drop_last().take(k) =~= s.take(k));
    } else {
        assert(s.take(k) =~= s);
    }
}

/// Remove every trailing separator from `s`.
pub fn trim_trailing_seps(s: &str) -> (r: String)
    ensures
        r@ == spec_trim_trailing_seps(s@),
{
    let len = s.unicode_len();
    let mut k: usize = len;
    let mut stopped = false;
    while k > 0 && !stopped
        invariant
            len == s@.len(),
            k <= len,
            forall|m: int| k <= m < len ==> is_sep(s@[m]),
            stopped ==> k > 0 && !is_sep(s@[k - 1]),
        decreases 2 * k + (if stopped {
            0int
        } else {
            1int
        }),
    {
        let c = s.get_char(k - 1);
        if c == '/' || c == '\\' {
            k = k - 1;
        } else {
            stopped = true;
        }
    }
    proof {
        lemma_trim_take(s@, k as int);
    }
    let sub = s.substring_char(0, k);
    let r = String::from_str(sub);
    proof {
        assert(r@ =~= spec_trim_trailing_seps(s@));
    }
    r
}

/// The stem of the final component: everything before its last `.`, or the
/// whole component when the only `.` leads it or there is none.
pub open spec fn spec_file_stem(s: Seq<char>) -> Seq<char> {
    let b = spec_basename(s);
    let d = last_match(b, dot_fn());
    if d <= 0 {
        b
    } else {
        b.take(d)
    }
}

/// The extension of the final component: everything after its last `.`, or
/// empty when that `.` leads the component or there is none.
pub open spec fn spec_extension(s: Seq<char>) -> Seq<char> {
    let b = spec_basename(s);
    let d = last_match(b, dot_fn());
    if d <= 0 {
        Seq::<char>::empty()
    } else {
        b.subrange(d + 1, b.len() as int)
    }
}

/// The stem and extension of the final component of `s`.
pub fn split_stem_extension(s: &str) -> (r: (String, String))
    ensures
        r.0@ == spec_file_stem(s@),
        r.1@ == spec_extension(s@),
{
    let b = basename(s);
    let blen = b.as_str().unicode_len();
    proof {
        lemma_last_match_props(b@, dot_fn());
    }
    match last_dot_pos(b.as_str()) {
        Some(d) => {
            if d == 0 {
                let ext = String::new();
                proof {
                    assert(ext@ =~= spec_extension(s@));
                }
                (b, ext)
            } else {
                let stem = String::from_str(b.as_str().substring_char(0, d));
                let ext = String::from_str(b.as_str().substring_char(d + 1, blen));
                proof {
                    assert(stem@ =~= spec_file_stem(s@));
                    assert(ext@ =~= spec_extension(s@));
                }
                (stem, ext)
            }
        },
        None => {
            let ext = String::new();
            proof {
                assert(ext@ =~= spec_extension(s@));
            }
            (b, ext)
        },
    }
}

} // verus!
