//! The textual substitution that carries a new version into a file's content.

use vstd::prelude::*;
use crate::text::{chars_of, push_all, string_of};

verus! {

/// Whether `pattern` stands in `text` at the place `at`.
pub open spec fn occurs_at(text: Seq<char>, at: int, pattern: Seq<char>) -> bool {
    &&& 0 <= at
    &&& at + pattern.len() <= text.len()
    &&& text.subrange(at, at + pattern.len()) == pattern
}

/// `text` from the place `from` on, with `new` in place of every occurrence of
/// `old`. Occurrences are taken from the left and do not overlap. An empty
/// `old` occurs before every character and at the end.
pub open spec fn replaced_from(text: Seq<char>, from: int, old: Seq<char>, new: Seq<char>) -> Seq<char>
    decreases text.len() - from,
{
    if from < 0 || from >= text.len() {
        if from == text.len() && old.len() == 0 {
            new
        } else {
            Seq::empty()
        }
    } else if occurs_at(text, from, old) {
        if old.len() == 0 {
            new + seq![text[from]] + replaced_from(text, from + 1, old, new)
        } else {
            new + replaced_from(text, from + old.len(), old, new)
        }
    } else {
        seq![text[from]] + replaced_from(text, from + 1, old, new)
    }
}

/// `text` with `new` in place of every occurrence of `old`.
pub open spec fn replaced(text: Seq<char>, old: Seq<char>, new: Seq<char>) -> Seq<char> {
    replaced_from(text, 0, old, new)
}

fn is_at(text: &Vec<char>, at: usize, pattern: &Vec<char>) -> (b: bool)
    requires
        at <= text.len(),
    ensures
        b == occurs_at(text@, at as int, pattern@),
{
    if pattern.len() > text.len() - at {
        return false;
    }
    let mut j: usize = 0;
    while j < pattern.len()
        invariant
            j <= pattern.len(),
            at + pattern.len() <= text.len(),
            forall|k: int| 0 <= k < j ==> text@[at + k] == pattern@[k],
        decreases pattern.len() - j,
    {
        if text[at + j] != pattern[j] {
            assert(text@.subrange(at as int, at + pattern.len())[j as int] != pattern@[j as int]);
            return false;
        }
        j += 1;
    }
    assert(text@.subrange(at as int, at + pattern.len()) =~= pattern@);
    true
}

/// `text` with `new` in place of every occurrence of `old`, as characters.
pub fn replace_chars(text: &Vec<char>, old: &Vec<char>, new: &Vec<char>) -> (out: Vec<char>)
    ensures
        out@ == replaced(text@, old@, new@),
{
    let n = text.len();
    let m = old.len();
    let mut out: Vec<char> = Vec::new();
    let mut i: usize = 0;
    assert(out@ + replaced_from(text@, 0, old@, new@) =~= replaced(text@, old@, new@));
    while i < n
        invariant
            i <= n == text.len(),
            m == old.len(),
            out@ + replaced_from(text@, i as int, old@, new@) == replaced(text@, old@, new@),
        decreases n - i,
    {
        let ghost before = out@;
        if is_at(text, i, old) {
            push_all(&mut out, new);
            if m == 0 {
                out.push(text[i]);
                assert(out@ + replaced_from(text@, i + 1, old@, new@) =~= before + replaced_from(
                    text@,
                    i as int,
                    old@,
                    new@,
                ));
                i += 1;
            } else {
                assert(out@ + replaced_from(text@, i + m, old@, new@) =~= before + replaced_from(
                    text@,
                    i as int,
                    old@,
                    new@,
                ));
                i += m;
            }
        } else {
            out.push(text[i]);
            assert(out@ + replaced_from(text@, i + 1, old@, new@) =~= before + replaced_from(
                text@,
                i as int,
                old@,
                new@,
            ));
            i += 1;
        }
    }
    let ghost before = out@;
    if m == 0 {
        push_all(&mut out, new);
    }
    assert(out@ =~= before + replaced_from(text@, n as int, old@, new@));
    out
}

/// The content of the file after the bump: `contents` with `next_version` in
/// place of every occurrence of `old_version`, and nothing else changed.
pub fn patch_contents(contents: &str, old_version: &str, next_version: &str) -> (patched: String)
    ensures
        patched@ == replaced(contents@, old_version@, next_version@),
{
    let text = chars_of(contents);
    let old = chars_of(old_version);
    let new = chars_of(next_version);
    let out = replace_chars(&text, &old, &new);
    string_of(&out)
}

} // verus!
