//! What holds between the functions of the library.

use vstd::prelude::*;
use crate::error::BumpError;
use crate::index::{is_first_tagged, none_tagged, CommitId, TagIndex};
use crate::patch::{occurs_at, replaced, replaced_from};
use crate::plan::{is_next_versions, is_plan_for, primary_branch, BumpPlan};
use crate::run::{expects, is_step, Action, Event, Stage};
use crate::tag::{has_shape, lemma_shape_found, tag_version};
use crate::text::{decimal, digit_char, digit_value, digits_value, is_canonical, is_digit};
use crate::version::{version_text, BumpType};

verus! {

/// A digit and the number it stands for determine one another.
pub proof fn lemma_digit(c: char, d: int)
    ensures
        is_digit(c) ==> 0 <= digit_value(c) <= 9 && digit_char(digit_value(c)) == c,
        0 <= d <= 9 ==> is_digit(digit_char(d)) && digit_value(digit_char(d)) == d,
{
}

/// The decimal numeral of a number is canonical and stands for that number.
pub proof fn lemma_decimal_value(n: nat)
    ensures
        is_canonical(decimal(n)),
        digits_value(decimal(n)) == n,
        n >= 1 ==> decimal(n)[0] != '0',
    decreases n,
{
    if n < 10 {
        lemma_digit('0', n as int);
        let s = decimal(n);
        assert(s.drop_last() =~= Seq::<char>::empty());
        assert(digits_value(s.drop_last()) == 0);
    } else {
        lemma_decimal_value(n / 10);
        lemma_digit('0', (n % 10) as int);
        let s = decimal(n);
        assert(s.drop_last() =~= decimal(n / 10));
        assert(s[0] == decimal(n / 10)[0]);
    }
}

/// A run of digits that does not start with a zero stands for a positive number.
pub proof fn lemma_value_positive(s: Seq<char>)
    requires
        s.len() > 0,
        forall|i: int| 0 <= i < s.len() ==> is_digit(#[trigger] s[i]),
        s[0] != '0',
    ensures
        digits_value(s) >= 1,
    decreases s.len(),
{
    assert(is_digit(s.last()));
    if s.len() == 1 {
        assert(s.drop_last() =~= Seq::<char>::empty());
        assert(digits_value(s.drop_last()) == 0);
        assert(is_digit(s[0]));
    } else {
        lemma_value_positive(s.drop_last());
    }
}

/// A canonical numeral is the decimal numeral of the number it stands for.
pub proof fn lemma_canonical_numeral(s: Seq<char>)
    requires
        is_canonical(s),
    ensures
        decimal(digits_value(s)) == s,
    decreases s.len(),
{
    assert(is_digit(s.last()));
    lemma_digit(s.last(), 0);
    if s.len() == 1 {
        assert(s.drop_last() =~= Seq::<char>::empty());
        assert(digits_value(s.drop_last()) == 0);
        assert(decimal(digits_value(s)) =~= s);
    } else {
        let t = s.drop_last();
        assert(t[0] == s[0]);
        lemma_canonical_numeral(t);
        lemma_value_positive(t);
        assert(decimal(digits_value(s)) =~= s);
    }
}

/// Parsing a tag name and formatting the version read gives back the text
/// after the name's last hyphen, where each of the three numbers is written
/// without leading zeros.
pub proof fn lemma_parse_then_format(name: Seq<char>, h: int, d1: int, d2: int)
    requires
        has_shape(name, h, d1, d2),
        is_canonical(name.subrange(h + 1, d1)),
        is_canonical(name.subrange(d1 + 1, d2)),
        is_canonical(name.subrange(d2 + 1, name.len() as int)),
        tag_version(name) is Some,
    ensures
        version_text(tag_version(name)->0) == name.subrange(h + 1, name.len() as int),
{
    lemma_shape_found(name, h, d1, d2);
    lemma_canonical_numeral(name.subrange(h + 1, d1));
    lemma_canonical_numeral(name.subrange(d1 + 1, d2));
    lemma_canonical_numeral(name.subrange(d2 + 1, name.len() as int));
    assert(version_text(tag_version(name)->0) =~= name.subrange(h + 1, name.len() as int));
}

/// Formatting a version and parsing any tag name that ends in a hyphen and
/// that text gives the version back.
pub proof fn lemma_format_then_parse(prefix: Seq<char>, v: (int, int, int))
    requires
        0 <= v.0 <= i32::MAX,
        0 <= v.1 <= i32::MAX,
        0 <= v.2 <= i32::MAX,
    ensures
        tag_version(prefix + seq!['-'] + version_text(v)) == Some(v),
{
    let a = decimal(v.0 as nat);
    let b = decimal(v.1 as nat);
    let c = decimal(v.2 as nat);
    lemma_decimal_value(v.0 as nat);
    lemma_decimal_value(v.1 as nat);
    lemma_decimal_value(v.2 as nat);
    let name = prefix + seq!['-'] + version_text(v);
    let h = prefix.len() as int;
    let d1 = h + 1 + a.len();
    let d2 = d1 + 1 + b.len();
    assert(name.len() == d2 + 1 + c.len());
    assert(name[h] == '-');
    assert(name[d1] == '.');
    assert(name[d2] == '.');
    assert(name.subrange(h + 1, d1) =~= a);
    assert(name.subrange(d1 + 1, d2) =~= b);
    assert(name.subrange(d2 + 1, name.len() as int) =~= c);
    assert forall|i: int| h + 1 <= i < d1 implies is_digit(#[trigger] name[i]) by {
        assert(name[i] == a[i - h - 1]);
    }
    assert forall|i: int| d1 + 1 <= i < d2 implies is_digit(#[trigger] name[i]) by {
        assert(name[i] == b[i - d1 - 1]);
    }
    assert forall|i: int| d2 + 1 <= i < name.len() implies is_digit(#[trigger] name[i]) by {
        assert(name[i] == c[i - d2 - 1]);
    }
    assert(has_shape(name, h, d1, d2));
    lemma_shape_found(name, h, d1, d2);
}

/// Whether two outcomes are the same failure or the same two texts.
pub open spec fn same_outcome(a: Result<BumpPlan, BumpError>, b: Result<BumpPlan, BumpError>) -> bool {
    match (a, b) {
        (Ok(p), Ok(q)) => p.old_version@ == q.old_version@ && p.next_version@ == q.next_version@,
        (Err(BumpError::NoPreviousTag), Err(BumpError::NoPreviousTag)) => true,
        (Err(BumpError::MalformedTag), Err(BumpError::MalformedTag)) => true,
        (Err(BumpError::VersionOverflow), Err(BumpError::VersionOverflow)) => true,
        _ => false,
    }
}

/// Where some commit of the walk has a tag, one of them is the first.
pub proof fn lemma_first_tagged(walk: Seq<CommitId>, index: Map<Seq<u8>, Seq<char>>, from: int) -> (i: int)
    requires
        0 <= from <= walk.len(),
        forall|j: int| 0 <= j < from ==> !index.contains_key(#[trigger] walk[j]@),
        !none_tagged(walk, index),
    ensures
        is_first_tagged(walk, index, i),
    decreases walk.len() - from,
{
    if from < walk.len() && !index.contains_key(walk[from]@) {
        lemma_first_tagged(walk, index, from + 1)
    } else {
        from
    }
}

/// A second run over the same history, the same tags and the same kind of
/// bump comes to what the first came to: the same failure, or the same old
/// and next version. Whatever was done to the file in between has no part in it.
pub proof fn lemma_second_run_agrees(
    walk: Seq<CommitId>,
    index: Map<Seq<u8>, Seq<char>>,
    kind: BumpType,
    first: Result<BumpPlan, BumpError>,
    second: Result<BumpPlan, BumpError>,
)
    requires
        is_next_versions(first, walk, index, kind),
        is_next_versions(second, walk, index, kind),
    ensures
        same_outcome(first, second),
{
    if !none_tagged(walk, index) {
        let i = lemma_first_tagged(walk, index, 0);
        assert(is_plan_for(first, index[walk[i]@], kind));
        assert(is_plan_for(second, index[walk[i]@], kind));
    }
}

/// Where the old version occurs nowhere in the text, the substitution leaves
/// the text as it is.
pub proof fn lemma_replace_absent(text: Seq<char>, old: Seq<char>, new: Seq<char>, from: int)
    requires
        old.len() > 0,
        0 <= from <= text.len(),
        forall|at: int| from <= at <= text.len() ==> !occurs_at(text, at, old),
    ensures
        replaced_from(text, from, old, new) == text.subrange(from, text.len() as int),
    decreases text.len() - from,
{
    if from < text.len() {
        lemma_replace_absent(text, old, new, from + 1);
        assert(!occurs_at(text, from, old));
        assert(seq![text[from]] + text.subrange(from + 1, text.len() as int) =~= text.subrange(
            from,
            text.len() as int,
        ));
    } else {
        assert(text.subrange(from, text.len() as int) =~= Seq::<char>::empty());
    }
}

/// Where the next version is the old one, the substitution leaves the text as it is.
pub proof fn lemma_replace_same(text: Seq<char>, old: Seq<char>, from: int)
    requires
        old.len() > 0,
        0 <= from <= text.len(),
    ensures
        replaced_from(text, from, old, old) == text.subrange(from, text.len() as int),
    decreases text.len() - from,
{
    if from < text.len() {
        if occurs_at(text, from, old) {
            lemma_replace_same(text, old, from + old.len());
            assert(old + text.subrange(from + old.len(), text.len() as int) =~= text.subrange(
                from,
                text.len() as int,
            ));
        } else {
            lemma_replace_same(text, old, from + 1);
            assert(seq![text[from]] + text.subrange(from + 1, text.len() as int) =~= text.subrange(
                from,
                text.len() as int,
            ));
        }
    } else {
        assert(text.subrange(from, text.len() as int) =~= Seq::<char>::empty());
    }
}

/// Where the old version occurs at one place of the text and nowhere else,
/// the substitution puts the next version there and changes nothing else.
pub proof fn lemma_replace_one(text: Seq<char>, old: Seq<char>, new: Seq<char>, at: int)
    requires
        old.len() > 0,
        occurs_at(text, at, old),
        forall|k: int| 0 <= k <= text.len() && k != at ==> !occurs_at(text, k, old),
    ensures
        replaced(text, old, new) == text.subrange(0, at) + new + text.subrange(
            at + old.len(),
            text.len() as int,
        ),
{
    lemma_replace_up_to(text, old, new, at, 0);
}

/// The substitution from `from` on, where the old version occurs at `at` and
/// nowhere else.
pub proof fn lemma_replace_up_to(text: Seq<char>, old: Seq<char>, new: Seq<char>, at: int, from: int)
    requires
        old.len() > 0,
        occurs_at(text, at, old),
        forall|k: int| 0 <= k <= text.len() && k != at ==> !occurs_at(text, k, old),
        0 <= from <= at,
    ensures
        replaced_from(text, from, old, new) == text.subrange(from, at) + new + text.subrange(
            at + old.len(),
            text.len() as int,
        ),
    decreases at - from,
{
    let rest = text.subrange(at + old.len(), text.len() as int);
    if from == at {
        lemma_replace_absent(text, old, new, at + old.len());
        assert(text.subrange(from, at) =~= Seq::<char>::empty());
        assert(replaced_from(text, from, old, new) =~= text.subrange(from, at) + new + rest);
    } else {
        lemma_replace_up_to(text, old, new, at, from + 1);
        assert(!occurs_at(text, from, old));
        assert(seq![text[from]] + text.subrange(from + 1, at) =~= text.subrange(from, at));
        assert(replaced_from(text, from, old, new) =~= text.subrange(from, at) + new + rest);
    }
}

/// A run whose HEAD is not on the primary branch fails at its first step,
/// before any tag is looked at.
pub proof fn lemma_wrong_branch_ends_run(
    shorthand: Option<String>,
    kind: BumpType,
    next: Stage,
    action: Action,
)
    requires
        is_step(Stage::Head, (Event::Head { shorthand }), kind, next, action),
        !(shorthand is Some && shorthand->0@ == primary_branch()),
    ensures
        next is Finished,
        action is Fail,
        action->error is WrongBranch,
{
}

/// A run over a history without a tag fails with `NoPreviousTag`, and asks
/// for no write.
pub proof fn lemma_no_tag_ends_run(
    index: TagIndex,
    walk: Vec<CommitId>,
    kind: BumpType,
    next: Stage,
    action: Action,
)
    requires
        is_step(Stage::History, (Event::History { index, walk }), kind, next, action),
        none_tagged(walk@, index@),
    ensures
        next is Finished,
        action is Fail,
        action->error is NoPreviousTag,
{
}

/// A write is asked for only in answer to the content of the version file,
/// and a run that has failed or written waits for nothing more.
pub proof fn lemma_write_comes_last(stage: Stage, event: Event, kind: BumpType, next: Stage, action: Action)
    requires
        expects(stage, event),
        is_step(stage, event, kind, next, action),
    ensures
        action is Write ==> stage is Contents,
        action is Write || action is Fail ==> next is Finished,
        next is Finished ==> forall|e: Event| !expects(next, e),
{
}

} // verus!
