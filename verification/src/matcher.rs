//! Picking the lines of interest out of the verbose diagnostics: the lines in
//! which the header text of an active output occurs, or the brightness marker.
//! The texts are escaped and compiled into one set of patterns by the `regex`
//! crate, which also does the matching; what is believed of it stands on the
//! items with a body that Verus does not read, and is not proved.

use crate::text::texts;
use regex::RegexSet;
use vstd::prelude::*;

verus! {

#[verifier::external_type_specification]
#[verifier::external_body]
pub struct ExRegexSet(regex::RegexSet);

#[verifier::external_type_specification]
#[verifier::external_body]
pub struct ExRegexError(regex::Error);

/// Whether the regular expression `pattern`, read with the default options,
/// matches somewhere in `haystack`.
pub uninterp spec fn pattern_matches(pattern: Seq<char>, haystack: Seq<char>) -> bool;

/// Whether `patterns` can be compiled into one set with the default options.
pub uninterp spec fn patterns_compile(patterns: Seq<Seq<char>>) -> bool;

/// Whether one of the patterns of `set` matches somewhere in `haystack`.
pub uninterp spec fn set_accepts(set: RegexSet, haystack: Seq<char>) -> bool;

/// The characters that mean something in a pattern.
pub open spec fn is_meta(c: char) -> bool {
    ||| c == '\\'
    ||| c == '.'
    ||| c == '+'
    ||| c == '*'
    ||| c == '?'
    ||| c == '('
    ||| c == ')'
    ||| c == '|'
    ||| c == '['
    ||| c == ']'
    ||| c == '{'
    ||| c == '}'
    ||| c == '^'
    ||| c == '$'
    ||| c == '#'
    ||| c == '&'
    ||| c == '-'
    ||| c == '~'
}

/// `text` with a backslash before each character that means something in a
/// pattern.
pub open spec fn escaped(text: Seq<char>) -> Seq<char>
    decreases text.len(),
{
    if text.len() == 0 {
        text
    } else if is_meta(text.last()) {
        escaped(text.drop_last()).push('\\').push(text.last())
    } else {
        escaped(text.drop_last()).push(text.last())
    }
}

/// Whether `needle` stands somewhere in `haystack`, character for character.
pub open spec fn occurs_in(needle: Seq<char>, haystack: Seq<char>) -> bool {
    exists|i: int|
        0 <= i && i + needle.len() <= haystack.len() && #[trigger] haystack.subrange(
            i,
            i + needle.len(),
        ) == needle
}

/// Whether one of `patterns` matches somewhere in `haystack`.
pub open spec fn any_matches(patterns: Seq<Seq<char>>, haystack: Seq<char>) -> bool {
    exists|i: int| 0 <= i < patterns.len() && pattern_matches(#[trigger] patterns[i], haystack)
}

/// `regex::escape`: puts a backslash before each character that means
/// something in a pattern, so that the result, used as a pattern, stands for
/// the text itself: it matches where the text occurs and nowhere else.
#[verifier::external_body]
pub(crate) fn escape_literal(text: &str) -> (r: String)
    ensures
        r@ == escaped(text@),
        forall|h: Seq<char>| #[trigger] pattern_matches(r@, h) == occurs_in(text@, h),
{
    regex::escape(text)
}

/// `RegexSet::new`: compiles the patterns into one set, with the default
/// options. It fails where a pattern is no valid regular expression or the
/// compiled set is too large. The set it gives accepts a haystack if and only
/// if one of the patterns matches somewhere in it.
#[verifier::external_body]
pub(crate) fn compile_set(patterns: &Vec<String>) -> (r: Result<RegexSet, regex::Error>)
    ensures
        r is Ok <==> patterns_compile(texts(patterns@)),
        r is Ok ==> forall|h: Seq<char>| #[trigger]
            set_accepts(r->Ok_0, h) == any_matches(texts(patterns@), h),
{
    RegexSet::new(patterns)
}

/// `RegexSet::is_match`: whether one of the set's patterns matches somewhere
/// in the haystack. The answer depends on the set and the haystack alone.
#[verifier::external_body]
pub(crate) fn set_is_match(set: &RegexSet, haystack: &str) -> (r: bool)
    ensures
        r == set_accepts(*set, haystack@),
{
    set.is_match(haystack)
}

/// The texts that mark a line of interest for the given output names: for
/// each name, the name followed by `" connected"`; then the brightness marker.
pub open spec fn literals(names: Seq<Seq<char>>) -> Seq<Seq<char>> {
    Seq::new(
        names.len() + 1,
        |i: int|
            if i < names.len() {
                names[i] + " connected"@
            } else {
                "Brightness:"@
            },
    )
}

/// The patterns for the given output names: each marking text, escaped.
pub open spec fn monitor_patterns(names: Seq<Seq<char>>) -> Seq<Seq<char>> {
    Seq::new(literals(names).len(), |i: int| escaped(literals(names)[i]))
}

/// Whether a line is of interest: one of the marking texts occurs in it.
pub open spec fn of_interest(names: Seq<Seq<char>>, line: Seq<char>) -> bool {
    exists|k: int| 0 <= k < literals(names).len() && occurs_in(#[trigger] literals(names)[k], line)
}

/// The lines of interest among `lines`, in order.
pub open spec fn selected(names: Seq<Seq<char>>, lines: Seq<Seq<char>>) -> Seq<Seq<char>>
    decreases lines.len(),
{
    if lines.len() == 0 {
        lines
    } else if of_interest(names, lines.last()) {
        selected(names, lines.drop_last()).push(lines.last())
    } else {
        selected(names, lines.drop_last())
    }
}

/// The members of `lines` that `set` accepts, in order.
pub open spec fn accepted(set: RegexSet, lines: Seq<Seq<char>>) -> Seq<Seq<char>>
    decreases lines.len(),
{
    if lines.len() == 0 {
        lines
    } else if set_accepts(set, lines.last()) {
        accepted(set, lines.drop_last()).push(lines.last())
    } else {
        accepted(set, lines.drop_last())
    }
}

/// Whether a set accepts exactly the lines of interest for `names`.
pub open spec fn selects_for(set: RegexSet, names: Seq<Seq<char>>) -> bool {
    forall|h: Seq<char>| #[trigger] set_accepts(set, h) == of_interest(names, h)
}

/// A set that accepts exactly the lines of interest picks exactly them.
pub proof fn lemma_accepted_is_selected(set: RegexSet, names: Seq<Seq<char>>, lines: Seq<Seq<char>>)
    requires
        selects_for(set, names),
    ensures
        accepted(set, lines) == selected(names, lines),
    decreases lines.len(),
{
    if lines.len() > 0 {
        lemma_accepted_is_selected(set, names, lines.drop_last());
    }
}

/// Builds the patterns for the given output names. Each pattern matches where
/// its marking text occurs.
pub fn build_patterns(names: &Vec<String>) -> (out: Vec<String>)
    ensures
        texts(out@) == monitor_patterns(texts(names@)),
        forall|j: int, h: Seq<char>|
            0 <= j < out.len() ==> #[trigger] pattern_matches(texts(out@)[j], h) == occurs_in(
                literals(texts(names@))[j],
                h,
            ),
{
    let ghost marks = literals(texts(names@));
    let mut out: Vec<String> = Vec::new();
    let mut i: usize = 0;
    while i < names.len()
        invariant
            i <= names.len(),
            out.len() == i,
            marks == literals(texts(names@)),
            forall|j: int| 0 <= j < i ==> (#[trigger] out[j])@ == escaped(marks[j]),
            forall|j: int, h: Seq<char>|
                0 <= j < i ==> #[trigger] pattern_matches(out[j]@, h) == occurs_in(marks[j], h),
        decreases names.len() - i,
    {
        let mut mark = names[i].clone();
        mark.append(" connected");
        assert(mark@ == marks[i as int]);
        out.push(escape_literal(mark.as_str()));
        i += 1;
    }
    out.push(escape_literal("Brightness:"));
    assert(texts(out@) =~= monitor_patterns(texts(names@)));
    out
}

/// Keeps the lines that the set accepts, in their order.
pub fn select_lines(set: &RegexSet, lines: &Vec<String>) -> (out: Vec<String>)
    ensures
        texts(out@) == accepted(*set, texts(lines@)),
{
    let ghost all = texts(lines@);
    let mut out: Vec<String> = Vec::new();
    let mut i: usize = 0;
    assert(texts(out@) =~= accepted(*set, all.take(0)));
    while i < lines.len()
        invariant
            i <= lines.len(),
            all == texts(lines@),
            texts(out@) == accepted(*set, all.take(i as int)),
        decreases lines.len() - i,
    {
        let ghost before_push = texts(out@);
        proof {
            assert(all.take(i + 1).drop_last() =~= all.take(i as int));
            assert(all.take(i + 1).last() == lines[i as int]@);
        }
        if set_is_match(set, lines[i].as_str()) {
            let line = lines[i].clone();
            out.push(line);
            assert(texts(out@) =~= before_push.push(line@));
        }
        i += 1;
    }
    assert(all.take(lines.len() as int) =~= all);
    out
}

} // verus!
