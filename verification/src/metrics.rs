//! From the text of the two queries to the list of monitor records.

use crate::matcher::{
    accepted, any_matches, build_patterns, compile_set, lemma_accepted_is_selected, literals,
    monitor_patterns, occurs_in, of_interest, pattern_matches, patterns_compile, select_lines,
    selected, set_accepts,
};
use crate::monitor::{models, Monitor, MonitorModel};
use crate::text::{
    before, contains_char, split, split_text, split_words, text_before, texts, trim, trim_text,
    words, Separator,
};
use regex::RegexSet;
use vstd::prelude::*;

verus! {

/// Why no list of records could be made.
#[derive(Debug, Clone, Copy, PartialEq, Eq, Structural)]
pub enum XrandrError {
    /// The set of patterns for the output names could not be compiled.
    MatcherNotCompiled,
    /// A brightness line did not hold a number.
    UnparsableBrightness,
}

/// The names that the first `k` lines of an active-output listing give: of each
/// line that holds a word, the last word.
pub open spec fn names_upto(lines: Seq<Seq<char>>, k: nat) -> Seq<Seq<char>>
    decreases k,
{
    if k == 0 {
        Seq::empty()
    } else {
        let w = words(lines[k - 1]);
        if w.len() > 0 {
            names_upto(lines, (k - 1) as nat).push(w.last())
        } else {
            names_upto(lines, (k - 1) as nat)
        }
    }
}

/// The output names that an active-output listing gives.
pub open spec fn active_names(listing: Seq<char>) -> Seq<Seq<char>> {
    let lines = split(listing, Separator::Char('\n'));
    names_upto(lines, lines.len())
}

/// Reads the output names off an active-output listing. A listing that gives
/// no name gives `None`, never an empty list.
pub fn get_active_monitors(listing: &str) -> (r: Option<Vec<String>>)
    ensures
        r is None <==> active_names(listing@).len() == 0,
        r is Some ==> texts(r->Some_0@) == active_names(listing@),
{
    let lines = split_text(listing, Separator::Char('\n'));
    let mut names: Vec<String> = Vec::new();
    let mut k: usize = 0;
    assert(texts(names@) =~= names_upto(texts(lines@), 0));
    while k < lines.len()
        invariant
            k <= lines.len(),
            texts(names@) == names_upto(texts(lines@), k as nat),
        decreases lines.len() - k,
    {
        let ghost before_push = texts(names@);
        let w = split_words(lines[k].as_str());
        if w.len() > 0 {
            let name = w[w.len() - 1].clone();
            names.push(name);
            assert(texts(names@) =~= before_push.push(name@));
        }
        k += 1;
    }
    if names.len() > 0 {
        Some(names)
    } else {
        None
    }
}

/// Picks the lines out of the verbose diagnostics with the compiled
/// patterns: each line that the set accepts, in order. Where the patterns
/// could not be compiled there is nothing to pick with.
pub fn select_with(compiled: Result<RegexSet, regex::Error>, diagnostics: &str) -> (r: Result<
    Vec<String>,
    XrandrError,
>)
    ensures
        r is Err <==> compiled is Err,
        r is Err ==> r == Err::<Vec<String>, XrandrError>(XrandrError::MatcherNotCompiled),
        r is Ok ==> texts(r->Ok_0@) == accepted(
            compiled->Ok_0,
            split(diagnostics@, Separator::Char('\n')),
        ),
{
    match compiled {
        Ok(set) => {
            let lines = split_text(diagnostics, Separator::Char('\n'));
            Ok(select_lines(&set, &lines))
        },
        Err(_) => Err(XrandrError::MatcherNotCompiled),
    }
}

/// The lines of the verbose diagnostics that matter for the given names, in
/// order: each line in which a name followed by `" connected"` occurs, or the
/// brightness marker. A name is taken letter for letter. It fails only where
/// the set of patterns for the names cannot be compiled.
pub fn metric_lines(names: &Vec<String>, diagnostics: &str) -> (r: Result<Vec<String>, XrandrError>)
    ensures
        r is Ok <==> patterns_compile(monitor_patterns(texts(names@))),
        r is Err ==> r == Err::<Vec<String>, XrandrError>(XrandrError::MatcherNotCompiled),
        r is Ok ==> texts(r->Ok_0@) == selected(
            texts(names@),
            split(diagnostics@, Separator::Char('\n')),
        ),
{
    let patterns = build_patterns(names);
    let compiled = compile_set(&patterns);
    proof {
        if compiled is Ok {
            let set = compiled->Ok_0;
            let marks = literals(texts(names@));
            let found = texts(patterns@);
            assert forall|h: Seq<char>| #[trigger]
                set_accepts(set, h) == of_interest(texts(names@), h) by {
                if any_matches(found, h) {
                    let i = choose|i: int|
                        0 <= i < found.len() && pattern_matches(#[trigger] found[i], h);
                    assert(occurs_in(marks[i], h));
                }
                if of_interest(texts(names@), h) {
                    let k = choose|k: int|
                        0 <= k < marks.len() && occurs_in(#[trigger] marks[k], h);
                    assert(pattern_matches(found[k], h));
                }
            }
            lemma_accepted_is_selected(
                set,
                texts(names@),
                split(diagnostics@, Separator::Char('\n')),
            );
        }
    }
    select_with(compiled, diagnostics)
}

/// The geometry token among the words of a header line: the word at position
/// two where it holds a `+`, else the word at position three.
pub open spec fn geometry(w: Seq<Seq<char>>) -> Option<Seq<char>> {
    if w.len() > 2 && w[2].contains('+') {
        Some(w[2])
    } else if w.len() > 3 {
        Some(w[3])
    } else {
        None
    }
}

/// The record that a header line gives with the brightness `brightness`: the
/// first word is the name, and what stands before the first `+` of the
/// geometry token is the resolution. Without a geometry token there is none.
pub open spec fn record_of(header: Seq<char>, brightness: u32) -> Option<MonitorModel> {
    let w = words(header);
    match geometry(w) {
        Some(g) => Some(MonitorModel { name: w[0], brightness, resolution: before(g, '+') }),
        None => None,
    }
}

/// The text of a pair of lines that is to be read as a number: the second
/// field of the brightness line, trimmed. A pair whose header holds no word, or
/// whose brightness line holds no colon, has none.
pub open spec fn brightness_field(header: Seq<char>, line: Seq<char>) -> Option<Seq<char>> {
    let fields = split(line, Separator::Char(':'));
    if words(header).len() > 0 && fields.len() > 1 {
        Some(trim(fields[1]))
    } else {
        None
    }
}

/// What reading pair `k` was given: none where the list is too short.
pub open spec fn reading_of(readings: Seq<Option<u32>>, k: int) -> Option<u32> {
    if 0 <= k < readings.len() {
        readings[k]
    } else {
        None
    }
}

/// Pair `k` has a text to be read as a number, and no number was read off it.
pub open spec fn pair_fails(lines: Seq<Seq<char>>, readings: Seq<Option<u32>>, k: int) -> bool {
    brightness_field(lines[2 * k], lines[2 * k + 1]) is Some && reading_of(readings, k) is None
}

/// The brightness of pair `k`: its reading, or zero where it has no text to read.
pub open spec fn pair_brightness(lines: Seq<Seq<char>>, readings: Seq<Option<u32>>, k: int) -> u32 {
    match (brightness_field(lines[2 * k], lines[2 * k + 1]), reading_of(readings, k)) {
        (Some(_), Some(v)) => v,
        _ => 0,
    }
}

/// The records of the first `k` pairs, in order. A pair without geometry
/// token gives none.
pub open spec fn records_upto(lines: Seq<Seq<char>>, readings: Seq<Option<u32>>, k: nat) -> Seq<
    MonitorModel,
>
    decreases k,
{
    if k == 0 {
        Seq::empty()
    } else {
        let earlier = records_upto(lines, readings, (k - 1) as nat);
        match record_of(lines[2 * (k - 1)], pair_brightness(lines, readings, k - 1)) {
            Some(m) => earlier.push(m),
            None => earlier,
        }
    }
}

/// The text of one pair of lines that is to be read as a number.
pub fn brightness_text(header: &str, line: &str) -> (r: Option<String>)
    ensures
        r is Some <==> brightness_field(header@, line@) is Some,
        r is Some ==> r->Some_0@ == brightness_field(header@, line@)->Some_0,
{
    let w = split_words(header);
    if w.len() == 0 {
        return None;
    }
    let fields = split_text(line, Separator::Char(':'));
    if fields.len() > 1 {
        Some(trim_text(fields[1].as_str()))
    } else {
        None
    }
}

/// For each pair of selected lines, header then brightness line, the text that
/// is to be read as a number. A last line without partner belongs to no pair.
pub fn brightness_texts(lines: &Vec<String>) -> (out: Vec<Option<String>>)
    ensures
        out.len() == lines.len() / 2,
        forall|k: int|
            0 <= k < out.len() ==> {
                let field = brightness_field(texts(lines@)[2 * k], texts(lines@)[2 * k + 1]);
                &&& (#[trigger] out[k] is Some <==> field is Some)
                &&& out[k] is Some ==> out[k]->Some_0@ == field->Some_0
            },
{
    let pairs: usize = lines.len() / 2;
    let mut out: Vec<Option<String>> = Vec::new();
    let mut k: usize = 0;
    while k < pairs
        invariant
            k <= pairs,
            pairs == lines.len() / 2,
            out.len() == k,
            forall|j: int|
                0 <= j < k ==> {
                    let field = brightness_field(texts(lines@)[2 * j], texts(lines@)[2 * j + 1]);
                    &&& (#[trigger] out[j] is Some <==> field is Some)
                    &&& out[j] is Some ==> out[j]->Some_0@ == field->Some_0
                },
        decreases pairs - k,
    {
        out.push(brightness_text(lines[2 * k].as_str(), lines[2 * k + 1].as_str()));
        k += 1;
    }
    out
}

/// The record that one header line gives, if it holds a geometry token.
pub fn monitor_from_header(header: &str, brightness: u32) -> (r: Option<Monitor>)
    ensures
        r is Some <==> record_of(header@, brightness) is Some,
        r is Some ==> r->Some_0@ == record_of(header@, brightness)->Some_0,
{
    let w = split_words(header);
    if w.len() > 2 && contains_char(w[2].as_str(), '+') {
        let resolution = text_before(w[2].as_str(), '+');
        Some(Monitor::new(w[0].as_str(), brightness, resolution.as_str()))
    } else if w.len() > 3 {
        let resolution = text_before(w[3].as_str(), '+');
        Some(Monitor::new(w[0].as_str(), brightness, resolution.as_str()))
    } else {
        None
    }
}

/// Makes the monitor records from the selected lines of the diagnostics and
/// from the numbers read off their brightness texts: `readings[k]` is the
/// percentage read off the text of pair `k`, or `None` where that text is no
/// number.
///
/// The lines are taken in pairs, header then brightness line. A pair whose
/// text is no number fails the whole extraction; a pair without geometry token
/// is passed over. No record at all gives `None`.
pub fn get_monitor_metrics(lines: &Vec<String>, readings: &Vec<Option<u32>>) -> (r: Result<
    Option<Vec<Monitor>>,
    XrandrError,
>)
    ensures
        r is Err <==> exists|k: int|
            0 <= k < lines.len() / 2 && #[trigger] pair_fails(texts(lines@), readings@, k),
        r is Err ==> r == Err::<Option<Vec<Monitor>>, XrandrError>(
            XrandrError::UnparsableBrightness,
        ),
        r is Ok ==> {
            let all = records_upto(texts(lines@), readings@, (lines.len() / 2) as nat);
            match r->Ok_0 {
                Some(found) => found.len() > 0 && models(found@) == all,
                None => all.len() == 0,
            }
        },
{
    let pairs: usize = lines.len() / 2;
    let mut found: Vec<Monitor> = Vec::new();
    let mut k: usize = 0;
    assert(models(found@) =~= records_upto(texts(lines@), readings@, 0));
    while k < pairs
        invariant
            k <= pairs,
            pairs == lines.len() / 2,
            forall|j: int| 0 <= j < k ==> !#[trigger] pair_fails(texts(lines@), readings@, j),
            models(found@) == records_upto(texts(lines@), readings@, k as nat),
        decreases pairs - k,
    {
        let ghost earlier = models(found@);
        let header = lines[2 * k].as_str();
        let mut brightness: u32 = 0;
        if brightness_text(header, lines[2 * k + 1].as_str()).is_some() {
            let reading: Option<u32> = if k < readings.len() {
                readings[k]
            } else {
                None
            };
            match reading {
                Some(v) => {
                    brightness = v;
                },
                None => {
                    assert(pair_fails(texts(lines@), readings@, k as int));
                    return Err(XrandrError::UnparsableBrightness);
                },
            }
        }
        assert(brightness == pair_brightness(texts(lines@), readings@, k as int));
        match monitor_from_header(header, brightness) {
            Some(m) => {
                found.push(m);
                assert(models(found@) =~= earlier.push(m@));
            },
            None => {},
        }
        k += 1;
    }
    if found.len() > 0 {
        Ok(Some(found))
    } else {
        Ok(None)
    }
}

/// Where the word at position two holds no `+`, the word at position three is
/// the geometry token: the resolution is read off it.
pub proof fn lemma_geometry_falls_back(header: Seq<char>, brightness: u32)
    requires
        words(header).len() > 3,
        !words(header)[2].contains('+'),
    ensures
        record_of(header, brightness) == Some(
            MonitorModel {
                name: words(header)[0],
                brightness,
                resolution: before(words(header)[3], '+'),
            },
        ),
{
}

/// A listing without a single word gives no name.
pub proof fn lemma_no_words_no_names(listing: Seq<char>)
    requires
        forall|i: int|
            0 <= i < split(listing, Separator::Char('\n')).len() ==> words(
                #[trigger] split(listing, Separator::Char('\n'))[i],
            ).len() == 0,
    ensures
        active_names(listing).len() == 0,
{
    let lines = split(listing, Separator::Char('\n'));
    lemma_names_upto_empty(lines, lines.len());
}

proof fn lemma_names_upto_empty(lines: Seq<Seq<char>>, k: nat)
    requires
        k <= lines.len(),
        forall|i: int| 0 <= i < lines.len() ==> words(#[trigger] lines[i]).len() == 0,
    ensures
        names_upto(lines, k).len() == 0,
    decreases k,
{
    if k > 0 {
        lemma_names_upto_empty(lines, (k - 1) as nat);
    }
}

} // verus!
