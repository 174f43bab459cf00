//! Reading a version out of a tag name of the shape `<anything>-<major>.<minor>.<patch>`.

use vstd::prelude::*;
use crate::text::{chars_of, digit_value, digits_value, is_digit, is_digit_char};
use crate::error::BumpError;
use crate::version::Version;

verus! {

/// Whether `s[from..to]` is a non-empty run of decimal digits.
pub open spec fn digits_between(s: Seq<char>, from: int, to: int) -> bool {
    &&& 0 <= from < to <= s.len()
    &&& forall|i: int| from <= i < to ==> is_digit(#[trigger] s[i])
}

/// Whether `name` ends in a hyphen at `h` followed by three runs of digits,
/// parted by full stops at `d1` and `d2`, and nothing more.
pub open spec fn has_shape(name: Seq<char>, h: int, d1: int, d2: int) -> bool {
    &&& 0 <= h < d1 < d2 < name.len()
    &&& name[h] == '-'
    &&& name[d1] == '.'
    &&& name[d2] == '.'
    &&& digits_between(name, h + 1, d1)
    &&& digits_between(name, d1 + 1, d2)
    &&& digits_between(name, d2 + 1, name.len() as int)
}

/// Whether `name` is a hyphen-delimited prefix followed by `X.Y.Z`.
pub open spec fn is_version_tag(name: Seq<char>) -> bool {
    exists|h: int, d1: int, d2: int| has_shape(name, h, d1, d2)
}

/// Where the hyphen and the two full stops of a version tag stand.
pub open spec fn shape_of(name: Seq<char>) -> (int, int, int) {
    choose|p: (int, int, int)| has_shape(name, p.0, p.1, p.2)
}

/// The three numbers that a version tag spells, whatever their size.
pub open spec fn tag_numbers(name: Seq<char>) -> (nat, nat, nat) {
    let (h, d1, d2) = shape_of(name);
    (
        digits_value(name.subrange(h + 1, d1)),
        digits_value(name.subrange(d1 + 1, d2)),
        digits_value(name.subrange(d2 + 1, name.len() as int)),
    )
}

/// The version that a tag name stands for: `None` where the name has not the
/// shape of a version tag, or one of its numbers is beyond `i32`.
pub open spec fn tag_version(name: Seq<char>) -> Option<(int, int, int)> {
    if is_version_tag(name) {
        let n = tag_numbers(name);
        if n.0 <= i32::MAX && n.1 <= i32::MAX && n.2 <= i32::MAX {
            Some((n.0 as int, n.1 as int, n.2 as int))
        } else {
            None
        }
    } else {
        None
    }
}

/// A version tag has the shape that `shape_of` picks.
pub proof fn lemma_shape_of(name: Seq<char>)
    requires
        is_version_tag(name),
    ensures
        ({
            let p = shape_of(name);
            has_shape(name, p.0, p.1, p.2)
        }),
{
    let (h, d1, d2) = choose|h: int, d1: int, d2: int| has_shape(name, h, d1, d2);
    let w = (h, d1, d2);
    assert(has_shape(name, w.0, w.1, w.2));
}

/// A name has at most one shape.
pub proof fn lemma_shape_unique(name: Seq<char>, h: int, d1: int, d2: int, k: int, e1: int, e2: int)
    requires
        has_shape(name, h, d1, d2),
        has_shape(name, k, e1, e2),
    ensures
        h == k,
        d1 == e1,
        d2 == e2,
{
    assert(forall|i: int| h < i < name.len() ==> i == d1 || i == d2 || is_digit(#[trigger] name[i]));
    assert(forall|i: int| k < i < name.len() ==> i == e1 || i == e2 || is_digit(#[trigger] name[i]));
    if h < k {
        assert(name[k] == '-');
    }
    if k < h {
        assert(name[h] == '-');
    }
    if d1 < e1 {
        assert(is_digit(name[d1]));
    }
    if e1 < d1 {
        assert(is_digit(name[e1]));
    }
    if d2 < e2 {
        assert(is_digit(name[d2]));
    }
    if e2 < d2 {
        assert(is_digit(name[e2]));
    }
}

/// The shape that a name is found to have is the one that `shape_of` picks.
pub proof fn lemma_shape_found(name: Seq<char>, h: int, d1: int, d2: int)
    requires
        has_shape(name, h, d1, d2),
    ensures
        is_version_tag(name),
        shape_of(name) == (h, d1, d2),
{
    let w = (h, d1, d2);
    assert(has_shape(name, w.0, w.1, w.2));
    let p = shape_of(name);
    lemma_shape_unique(name, h, d1, d2, p.0, p.1, p.2);
}

/// A run of digits stands for no less than any of its prefixes.
pub proof fn lemma_prefix_value(s: Seq<char>, k: int)
    requires
        0 <= k <= s.len(),
        forall|i: int| 0 <= i < s.len() ==> is_digit(#[trigger] s[i]),
    ensures
        digits_value(s.take(k)) <= digits_value(s),
    decreases s.len() - k,
{
    if k == s.len() {
        assert(s.take(k) =~= s);
    } else {
        lemma_prefix_value(s.drop_last(), k);
        assert(s.drop_last().take(k) =~= s.take(k));
        assert(is_digit(s.last()));
    }
}

/// The end of the run of digits that starts at `from`.
fn scan_digits(s: &Vec<char>, from: usize) -> (to: usize)
    requires
        from <= s.len(),
    ensures
        is_run(s@, from as int, to as int),
{
    let mut i: usize = from;
    while i < s.len() && is_digit_char(s[i])
        invariant
            from <= i <= s.len(),
            forall|j: int| from <= j < i ==> is_digit(#[trigger] s@[j]),
        decreases s.len() - i,
    {
        i += 1;
    }
    i
}

/// The number that the digits `s[from..to]` stand for, if it fits in `i32`.
fn read_number(s: &Vec<char>, from: usize, to: usize) -> (r: Option<i32>)
    requires
        digits_between(s@, from as int, to as int),
    ensures
        r is Some <==> digits_value(s@.subrange(from as int, to as int)) <= i32::MAX,
        r is Some ==> r->0 == digits_value(s@.subrange(from as int, to as int)),
{
    let ghost run = s@.subrange(from as int, to as int);
    let mut acc: i32 = 0;
    let mut i: usize = from;
    while i < to
        invariant
            from <= i <= to <= s.len(),
            run == s@.subrange(from as int, to as int),
            forall|j: int| 0 <= j < run.len() ==> is_digit(#[trigger] run[j]),
            0 <= acc,
            acc == digits_value(run.take(i - from)),
        decreases to - i,
    {
        let c = s[i];
        proof {
            assert(run[i - from] == c);
            assert(is_digit(run[i - from]));
        }
        let d: i32 = (c as u32 - 48) as i32;
        proof {
            assert(d == digit_value(c));
            assert(run.take(i - from + 1).drop_last() =~= run.take(i - from));
            assert(run.take(i - from + 1).last() == c);
            lemma_prefix_value(run, i - from + 1);
        }
        if acc > (i32::MAX - d) / 10 {
            return None;
        }
        acc = acc * 10 + d;
        i += 1;
    }
    proof {
        assert(run.take(to - from) =~= run);
    }
    Some(acc)
}

/// Whether the digits that start at `from` run up to `to` and no further.
pub open spec fn is_run(s: Seq<char>, from: int, to: int) -> bool {
    &&& 0 <= from <= to <= s.len()
    &&& forall|i: int| from <= i < to ==> is_digit(#[trigger] s[i])
    &&& to < s.len() ==> !is_digit(s[to])
}

/// The shape of a version tag is where a scan from its last hyphen finds it:
/// the runs of digits after the hyphen at `h` end at `d1`, `d2` and the end
/// of the name.
pub proof fn lemma_shape_scanned(name: Seq<char>, h: int, d1: int, d2: int, end: int, k: int, e1: int, e2: int)
    requires
        has_shape(name, k, e1, e2),
        0 <= h < name.len(),
        name[h] == '-',
        forall|j: int| h < j < name.len() ==> name[j] != '-',
        is_run(name, h + 1, d1),
        d1 < name.len() ==> is_run(name, d1 + 1, d2),
        d1 < name.len() && d2 < name.len() ==> is_run(name, d2 + 1, end),
    ensures
        k == h,
        e1 == d1,
        e2 == d2,
        end == name.len(),
{
    assert(forall|i: int| k < i < name.len() ==> i == e1 || i == e2 || is_digit(#[trigger] name[i]));
    if k < h {
        assert(name[h] == '-');
    }
    if h < k {
        assert(name[k] == '-');
    }
    if e1 < d1 {
        assert(is_digit(name[e1]));
    }
    if d1 < e1 {
        assert(is_digit(name[d1]));
    }
    if e2 < d2 {
        assert(is_digit(name[e2]));
    }
    if d2 < e2 {
        assert(is_digit(name[d2]));
    }
    if end < name.len() {
        assert(is_digit(name[end]));
    }
}

/// Where the hyphen and the two full stops of a version tag stand in `s`, if
/// it is one.
fn find_shape(s: &Vec<char>) -> (r: Option<(usize, usize, usize)>)
    ensures
        match r {
            Some((h, d1, d2)) => has_shape(s@, h as int, d1 as int, d2 as int),
            None => !is_version_tag(s@),
        },
{
    let n = s.len();
    let mut h: usize = n;
    while h > 0 && s[h - 1] != '-'
        invariant
            h <= n == s.len(),
            forall|j: int| h <= j < n ==> s@[j] != '-',
        decreases h,
    {
        h -= 1;
    }
    if h == 0 {
        assert(!is_version_tag(s@));
        return None;
    }
    let h: usize = h - 1;
    let d1 = scan_digits(s, h + 1);
    let d2 = if d1 < n {
        scan_digits(s, d1 + 1)
    } else {
        n
    };
    let end = if d2 < n {
        scan_digits(s, d2 + 1)
    } else {
        n
    };
    proof {
        if is_version_tag(s@) {
            lemma_shape_of(s@);
            let (k, e1, e2) = shape_of(s@);
            lemma_shape_scanned(s@, h as int, d1 as int, d2 as int, end as int, k, e1, e2);
        }
    }
    if h + 1 < d1 && d1 < n && s[d1] == '.' && d1 + 1 < d2 && d2 < n && s[d2] == '.' && d2 + 1 < end
        && end == n {
        Some((h, d1, d2))
    } else {
        None
    }
}

impl Version {
    /// Reads the version at the end of a tag name: the three numbers after
    /// its last hyphen. Fails with `MalformedTag` where the name does not end
    /// in a hyphen and `X.Y.Z`, or one of the numbers is beyond `i32`.
    pub fn parse_tag(name: &str) -> (r: Result<Version, BumpError>)
        ensures
            r is Ok <==> tag_version(name@) is Some,
            r is Ok ==> r->Ok_0.wf() && r->Ok_0@ == tag_version(name@)->0,
            r is Err ==> r->Err_0 is MalformedTag,
    {
        let s = chars_of(name);
        match find_shape(&s) {
            None => Err(BumpError::MalformedTag),
            Some((h, d1, d2)) => {
                proof {
                    lemma_shape_found(s@, h as int, d1 as int, d2 as int);
                }
                let major = read_number(&s, h + 1, d1);
                let minor = read_number(&s, d1 + 1, d2);
                let patch = read_number(&s, d2 + 1, s.len());
                match (major, minor, patch) {
                    (Some(major), Some(minor), Some(patch)) => Ok(Version { major, minor, patch }),
                    _ => Err(BumpError::MalformedTag),
                }
            },
        }
    }
}

} // verus!
