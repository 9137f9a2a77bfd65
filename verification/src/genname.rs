//! The generation-directory naming grammar.
//!
//! A generation directory is named `base<index>_<timestamp>`: the literal
//! `base`, the decimal index, an underscore, then the creation timestamp.
//! Scanning recognises exactly that shape; the manual route also accepts a
//! bare `base<index>` prefix with no underscore. Artifact names inside a
//! generation are built here as well.

use vstd::prelude::*;

use crate::strutil::{
    char_digit, digit_run_len, digits_val, is_digit_char, spec_dec, dec_string,
    lemma_spec_dec_shape, lemma_spec_dec_val,
};

verus! {

/// The name begins with the literal `base`.
pub open spec fn has_base_prefix(s: Seq<char>) -> bool {
    s.len() >= 4 && s[0] == 'b' && s[1] == 'a' && s[2] == 's' && s[3] == 'e'
}

/// The index parsed from a full generation-directory name, `base<digits>_`
/// followed by anything: the digit run after `base`, terminated by `_`, read
/// as a decimal number that fits an `i32`. Anything else does not scan.
pub open spec fn spec_parse_gen_name(s: Seq<char>) -> Option<i32> {
    if has_base_prefix(s) {
        let run = digit_run_len(s, 4);
        if run >= 1 && 4 + run < s.len() && s[4 + run] == '_' && digits_val(
            s.subrange(4, 4 + run),
        ) <= i32::MAX {
            Some(digits_val(s.subrange(4, 4 + run)) as i32)
        } else {
            None
        }
    } else {
        None
    }
}

/// The index read from a manually chosen directory name: the digit run
/// right after a leading `base`, with no underscore required; `0` when the
/// digits are missing or do not fit an `i32`.
pub open spec fn spec_parse_base_prefix(s: Seq<char>) -> i32 {
    if has_base_prefix(s) {
        let run = digit_run_len(s, 4);
        if run >= 1 && digits_val(s.subrange(4, 4 + run)) <= i32::MAX {
            digits_val(s.subrange(4, 4 + run)) as i32
        } else {
            0
        }
    } else {
        0
    }
}

/// The full name of a generation directory with the given index and
/// creation timestamp.
pub open spec fn spec_gen_dir_name(idx: int, ts: Seq<char>) -> Seq<char> {
    seq!['b', 'a', 's', 'e'] + spec_dec(idx as nat) + seq!['_'] + ts
}

/// The name begins with the literal `base`.
pub fn name_has_base_prefix(s: &str) -> (r: bool)
    ensures
        r == has_base_prefix(s@),
{
    let len = s.unicode_len();
    if len < 4 {
        return false;
    }
    s.get_char(0) == 'b' && s.get_char(1) == 'a' && s.get_char(2) == 's' && s.get_char(3) == 'e'
}

proof fn lemma_digit_run_exact(s: Seq<char>, lo: int, k: int)
    requires
        0 <= lo,
        0 <= k,
        lo + k <= s.len(),
        forall|m: int| lo <= m < lo + k ==> is_digit_char(s[m]),
        lo + k == s.len() || !is_digit_char(s[lo + k]),
    ensures
        digit_run_len(s, lo) == k,
    decreases k,
{
    if k > 0 {
        lemma_digit_run_exact(s, lo + 1, k - 1);
    }
}

proof fn lemma_digits_val_step(s: Seq<char>, lo: int, i: int)
    requires
        0 <= lo <= i < s.len(),
    ensures
        digits_val(s.subrange(lo, i + 1)) == digits_val(s.subrange(lo, i)) * 10 + char_digit(
            s[i],
        ),
{
    let w = s.subrange(lo, i + 1);
    assert(w.drop_last() =~= s.subrange(lo, i));
    assert(w.last() == s[i]);
}

proof fn lemma_digits_val_grows(s: Seq<char>, lo: int, i: int)
    requires
        0 <= lo <= i < s.len(),
    ensures
        digits_val(s.subrange(lo, i + 1)) >= digits_val(s.subrange(lo, i)),
{
    lemma_digits_val_step(s, lo, i);
    let v = digits_val(s.subrange(lo, i));
    assert(v * 10 >= v) by (nonlinear_arith);
}

/// Scan the digit run following the 4-character `base` prefix. Returns the
/// position one past the run, and the run's value when it fits an `i32`.
fn scan_index_digits(s: &str) -> (r: (usize, Option<i32>))
    requires
        has_base_prefix(s@),
    ensures
        r.0 == 4 + digit_run_len(s@, 4),
        r.0 <= s@.len(),
        match r.1 {
            Some(v) => digit_run_len(s@, 4) >= 1 && digits_val(
                s@.subrange(4, 4 + digit_run_len(s@, 4)),
            ) == v,
            None => digit_run_len(s@, 4) == 0 || digits_val(
                s@.subrange(4, 4 + digit_run_len(s@, 4)),
            ) > i32::MAX,
        },
{
    let len = s.unicode_len();
    let mut i: usize = 4;
    let mut acc: u64 = 0;
    let mut over: bool = false;
    let mut stopped: bool = false;
    while i < len && !stopped
        invariant
            len == s@.len(),
            4 <= i <= len,
            forall|m: int| 4 <= m < i ==> is_digit_char(s@[m]),
            !over ==> acc == digits_val(s@.subrange(4, i as int)) && acc <= i32::MAX,
            over ==> digits_val(s@.subrange(4, i as int)) > i32::MAX,
            stopped ==> i < len && !is_digit_char(s@[i as int]),
        decreases 2 * (len - i) + (if stopped {
            0int
        } else {
            1int
        }),
    {
        let c = s.get_char(i);
        if !(48 <= c as u32 && c as u32 <= 57) {
            stopped = true;
        } else {
            let d: u64 = (c as u32 - 48) as u64;
            proof {
                lemma_digits_val_step(s@, 4, i as int);
            }
            if over {
                proof {
                    lemma_digits_val_grows(s@, 4, i as int);
                }
            } else {
                let next: u64 = acc * 10 + d;
                if next > i32::MAX as u64 {
                    over = true;
                } else {
                    acc = next;
                }
            }
            i = i + 1;
        }
    }
    proof {
        lemma_digit_run_exact(s@, 4, i - 4);
    }
    if i == 4 || over {
        (i, None)
    } else {
        (i, Some(acc as i32))
    }
}

/// Parse a directory name against the generation pattern: `base`, a decimal
/// index, an underscore. Names that do not match, or whose index does not
/// fit, yield nothing and are ignored by scans.
pub fn parse_generation_name(name: &str) -> (r: Option<i32>)
    ensures
        r == spec_parse_gen_name(name@),
        r matches Some(v) ==> v >= 0,
{
    if !name_has_base_prefix(name) {
        return None;
    }
    let len = name.unicode_len();
    let (end, val) = scan_index_digits(name);
    match val {
        Some(v) => {
            if end < len && name.get_char(end) == '_' {
                Some(v)
            } else {
                None
            }
        },
        None => None,
    }
}

/// Read the index from a manually selected directory name: the digits right
/// after the leading `base`; `0` when absent or unparseable, never an error.
pub fn parse_base_prefix(name: &str) -> (r: i32)
    ensures
        r == spec_parse_base_prefix(name@),
        r >= 0,
{
    if !name_has_base_prefix(name) {
        return 0;
    }
    let (_, val) = scan_index_digits(name);
    match val {
        Some(v) => v,
        None => 0,
    }
}

/// The index a generation directory is listed under in the backup
/// history: the whole segment between the `base` prefix and the first `_`
/// (or the end), read as a decimal number; `0` when it is empty, mixed
/// with other characters, or does not fit an `i32`.
pub open spec fn spec_parse_gen_list_index(s: Seq<char>) -> i32 {
    if has_base_prefix(s) {
        let run = digit_run_len(s, 4);
        if run >= 1 && (4 + run == s.len() || s[4 + run] == '_') && digits_val(
            s.subrange(4, 4 + run),
        ) <= i32::MAX {
            digits_val(s.subrange(4, 4 + run)) as i32
        } else {
            0
        }
    } else {
        0
    }
}

/// Read the index a generation directory is listed under: the segment
/// between `base` and the first `_`, as a decimal number; `0` otherwise.
pub fn parse_generation_list_index(name: &str) -> (r: i32)
    ensures
        r == spec_parse_gen_list_index(name@),
        r >= 0,
{
    if !name_has_base_prefix(name) {
        return 0;
    }
    let len = name.unicode_len();
    let (end, val) = scan_index_digits(name);
    match val {
        Some(v) => {
            if end == len || name.get_char(end) == '_' {
                v
            } else {
                0
            }
        },
        None => 0,
    }
}

/// Build the directory name `base<idx>_<ts>` for a new generation.
pub fn generation_dir_name(idx: i32, ts: &str) -> (r: String)
    requires
        idx >= 0,
    ensures
        r@ == spec_gen_dir_name(idx as int, ts@),
{
    let mut r = String::from_str("base");
    let digits = dec_string(idx as u64);
    r.append(digits.as_str());
    r.append("_");
    r.append(ts);
    proof {
        reveal_strlit("base");
        reveal_strlit("_");
        assert(r@ =~= spec_gen_dir_name(idx as int, ts@));
    }
    r
}

/// The name of the immutable baseline file inside a generation:
/// `<file_name>.base`.
pub open spec fn spec_baseline_name(file_name: Seq<char>) -> Seq<char> {
    file_name + seq!['.', 'b', 'a', 's', 'e']
}

/// Build `<file_name>.base`.
pub fn baseline_name(file_name: &str) -> (r: String)
    ensures
        r@ == spec_baseline_name(file_name@),
{
    let mut r = String::from_str(file_name);
    r.append(".base");
    proof {
        reveal_strlit(".base");
        assert(r@ =~= spec_baseline_name(file_name@));
    }
    r
}

/// The finalized name of a diff artifact:
/// `<file_name>.<ts>.<algo>.diff`.
pub open spec fn spec_diff_artifact_name(file_name: Seq<char>, ts: Seq<char>, algo: Seq<char>)
    -> Seq<char> {
    file_name + seq!['.'] + ts + seq!['.'] + algo + seq!['.', 'd', 'i', 'f', 'f']
}

/// Build `<file_name>.<ts>.<algo>.diff`.
pub fn diff_artifact_name(file_name: &str, ts: &str, algo: &str) -> (r: String)
    ensures
        r@ == spec_diff_artifact_name(file_name@, ts@, algo@),
{
    let mut r = String::from_str(file_name);
    r.append(".");
    r.append(ts);
    r.append(".");
    r.append(algo);
    r.append(".diff");
    proof {
        reveal_strlit(".");
        reveal_strlit(".diff");
        assert(r@ =~= spec_diff_artifact_name(file_name@, ts@, algo@));
    }
    r
}

/// The name of a speculative diff while it still lives outside the backup
/// tree: `<file_name>.<ts>.tmp`.
pub open spec fn spec_temp_diff_name(file_name: Seq<char>, ts: Seq<char>) -> Seq<char> {
    file_name + seq!['.'] + ts + seq!['.', 't', 'm', 'p']
}

/// Build `<file_name>.<ts>.tmp`.
pub fn temp_diff_name(file_name: &str, ts: &str) -> (r: String)
    ensures
        r@ == spec_temp_diff_name(file_name@, ts@),
{
    let mut r = String::from_str(file_name);
    r.append(".");
    r.append(ts);
    r.append(".tmp");
    proof {
        reveal_strlit(".");
        reveal_strlit(".tmp");
        assert(r@ =~= spec_temp_diff_name(file_name@, ts@));
    }
    r
}

/// A generation directory's own name always scans back to the index it was
/// built with, whatever the timestamp holds.
pub proof fn lemma_gen_dir_name_parses(idx: i32, ts: Seq<char>)
    requires
        idx >= 0,
    ensures
        spec_parse_gen_name(spec_gen_dir_name(idx as int, ts)) == Some(idx),
{
    let s = spec_gen_dir_name(idx as int, ts);
    let d = spec_dec(idx as nat);
    lemma_spec_dec_shape(idx as nat);
    assert(has_base_prefix(s));
    assert(forall|m: int| 4 <= m < 4 + d.len() as int ==> is_digit_char(#[trigger] s[m]));
    assert(s[4 + d.len() as int] == '_');
    assert(!is_digit_char('_'));
    lemma_digit_run_exact(s, 4, d.len() as int);
    assert(s.subrange(4, 4 + d.len() as int) =~= d);
    lemma_spec_dec_val(idx as nat);
    assert(digits_val(d) == idx);
}

} // verus!
