//! Splitting and trimming of text, stated over sequences of characters.

use vstd::prelude::*;

verus! {

/// Whether Unicode counts `c` as white space.
pub open spec fn is_space(c: char) -> bool {
    let n = c as u32;
    ||| 0x09 <= n <= 0x0D
    ||| n == 0x20
    ||| n == 0x85
    ||| n == 0xA0
    ||| n == 0x1680
    ||| 0x2000 <= n <= 0x200A
    ||| n == 0x2028
    ||| n == 0x2029
    ||| n == 0x202F
    ||| n == 0x205F
    ||| n == 0x3000
}

/// What separates the fields of a text: one given character, or any white space.
#[derive(Clone, Copy, Debug)]
pub enum Separator {
    Char(char),
    Space,
}

impl Separator {
    pub open spec fn separates(self, c: char) -> bool {
        match self {
            Separator::Char(d) => c == d,
            Separator::Space => is_space(c),
        }
    }

    pub fn test(&self, c: char) -> (r: bool)
        ensures
            r == self.separates(c),
    {
        match self {
            Separator::Char(d) => c == *d,
            Separator::Space => {
                let n: u32 = c as u32;
                (0x09 <= n && n <= 0x0D) || n == 0x20 || n == 0x85 || n == 0xA0 || n == 0x1680
                    || (0x2000 <= n && n <= 0x200A) || n == 0x2028 || n == 0x2029 || n == 0x202F
                    || n == 0x205F || n == 0x3000
            },
        }
    }
}

/// The views of a list of strings.
pub open spec fn texts(v: Seq<String>) -> Seq<Seq<char>> {
    Seq::new(v.len(), |i: int| v[i]@)
}

/// How many characters stand before the first separator of `s` (all of them
/// where it holds none).
pub open spec fn run_len(s: Seq<char>, sep: Separator) -> nat
    decreases s.len(),
{
    if s.len() == 0 || sep.separates(s[0]) {
        0
    } else {
        1 + run_len(s.drop_first(), sep)
    }
}

/// The fields of `s`: what stands between its separators, empty fields
/// included. A text without separator is one field.
pub open spec fn split(s: Seq<char>, sep: Separator) -> Seq<Seq<char>>
    decreases s.len(),
{
    let n = run_len(s, sep) as int;
    if n >= s.len() {
        seq![s]
    } else {
        seq![s.take(n)] + split(s.skip(n + 1), sep)
    }
}

/// The members of `parts` that are not empty, in order.
pub open spec fn non_empty(parts: Seq<Seq<char>>) -> Seq<Seq<char>>
    decreases parts.len(),
{
    if parts.len() == 0 {
        parts
    } else if parts.last().len() == 0 {
        non_empty(parts.drop_last())
    } else {
        non_empty(parts.drop_last()).push(parts.last())
    }
}

/// The words of `s`: its maximal runs of characters that are not white space.
pub open spec fn words(s: Seq<char>) -> Seq<Seq<char>> {
    non_empty(split(s, Separator::Space))
}

/// `s` without its leading white space.
pub open spec fn trim_start(s: Seq<char>) -> Seq<char>
    decreases s.len(),
{
    if s.len() > 0 && is_space(s[0]) {
        trim_start(s.drop_first())
    } else {
        s
    }
}

/// `s` without its trailing white space.
pub open spec fn trim_end(s: Seq<char>) -> Seq<char>
    decreases s.len(),
{
    if s.len() > 0 && is_space(s.last()) {
        trim_end(s.drop_last())
    } else {
        s
    }
}

/// `s` without the white space at either end.
pub open spec fn trim(s: Seq<char>) -> Seq<char> {
    trim_end(trim_start(s))
}

/// What stands in `s` before the first `c` (all of `s` where it holds none).
pub open spec fn before(s: Seq<char>, c: char) -> Seq<char> {
    s.take(run_len(s, Separator::Char(c)) as int)
}

/// A run that ends at a separator, or at the end of the text, has the length `k`.
pub proof fn lemma_run_len(s: Seq<char>, sep: Separator, k: nat)
    requires
        k <= s.len(),
        forall|j: int| 0 <= j < k ==> !sep.separates(#[trigger] s[j]),
        k == s.len() || sep.separates(s[k as int]),
    ensures
        run_len(s, sep) == k,
    decreases k,
{
    if k > 0 {
        lemma_run_len(s.drop_first(), sep, (k - 1) as nat);
    }
}

/// The run before the first separator holds no separator, and a separator
/// follows it unless the text ends there.
pub proof fn lemma_run_len_bound(s: Seq<char>, sep: Separator)
    ensures
        run_len(s, sep) <= s.len(),
        forall|j: int| 0 <= j < run_len(s, sep) ==> !sep.separates(#[trigger] s[j]),
        run_len(s, sep) < s.len() ==> sep.separates(s[run_len(s, sep) as int]),
    decreases s.len(),
{
    if !(s.len() == 0 || sep.separates(s[0])) {
        let t = s.drop_first();
        lemma_run_len_bound(t, sep);
        assert forall|j: int| 0 <= j < run_len(s, sep) implies !sep.separates(#[trigger] s[j]) by {
            if j > 0 {
                assert(s[j] == t[j - 1]);
            }
        }
        if run_len(t, sep) < t.len() {
            assert(s[run_len(s, sep) as int] == t[run_len(t, sep) as int]);
        }
    }
}

/// The fields of `parts` with `c` between each two of them.
pub open spec fn join(parts: Seq<Seq<char>>, c: char) -> Seq<char>
    decreases parts.len(),
{
    if parts.len() == 0 {
        Seq::empty()
    } else if parts.len() == 1 {
        parts[0]
    } else {
        parts[0] + seq![c] + join(parts.drop_first(), c)
    }
}

/// A text has at least one field, and no field holds a separator.
pub proof fn lemma_fields_hold_no_separator(s: Seq<char>, sep: Separator)
    ensures
        split(s, sep).len() >= 1,
        forall|i: int, j: int|
            0 <= i < split(s, sep).len() && 0 <= j < split(s, sep)[i].len() ==> !sep.separates(
                #[trigger] split(s, sep)[i][j],
            ),
    decreases s.len(),
{
    let n = run_len(s, sep) as int;
    lemma_run_len_bound(s, sep);
    if n < s.len() {
        let rest = split(s.skip(n + 1), sep);
        lemma_fields_hold_no_separator(s.skip(n + 1), sep);
        assert forall|i: int, j: int|
            0 <= i < split(s, sep).len() && 0 <= j < split(s, sep)[i].len() implies !sep.separates(
            #[trigger] split(s, sep)[i][j],
        ) by {
            if i > 0 {
                assert(split(s, sep)[i] == rest[i - 1]);
            }
        }
    }
}

/// Splitting at a character loses nothing: the fields, joined by that
/// character, are the text again.
pub proof fn lemma_split_joins_back(s: Seq<char>, c: char)
    ensures
        join(split(s, Separator::Char(c)), c) == s,
    decreases s.len(),
{
    let sep = Separator::Char(c);
    let n = run_len(s, sep) as int;
    lemma_run_len_bound(s, sep);
    if n < s.len() {
        let rest = split(s.skip(n + 1), sep);
        lemma_split_joins_back(s.skip(n + 1), c);
        lemma_fields_hold_no_separator(s.skip(n + 1), sep);
        assert(split(s, sep).drop_first() =~= rest);
        assert(s =~= s.take(n) + seq![c] + s.skip(n + 1));
    }
}

/// Every member of `non_empty(parts)` is a member of `parts` that is not empty.
pub proof fn lemma_non_empty_members(parts: Seq<Seq<char>>)
    ensures
        forall|i: int|
            0 <= i < non_empty(parts).len() ==> (#[trigger] non_empty(parts)[i]).len() > 0
                && parts.contains(non_empty(parts)[i]),
    decreases parts.len(),
{
    if parts.len() > 0 {
        let head = parts.drop_last();
        lemma_non_empty_members(head);
        assert forall|i: int| 0 <= i < non_empty(parts).len() implies (#[trigger] non_empty(
            parts,
        )[i]).len() > 0 && parts.contains(non_empty(parts)[i]) by {
            if i < non_empty(head).len() {
                let w = non_empty(head)[i];
                let k = choose|k: int| 0 <= k < head.len() && head[k] == w;
                assert(parts[k] == w);
            } else {
                assert(parts[parts.len() - 1] == non_empty(parts)[i]);
            }
        }
    }
}

/// A word is not empty and holds no white space, so trimming a word changes
/// nothing.
pub proof fn lemma_words_hold_no_space(s: Seq<char>, i: int)
    requires
        0 <= i < words(s).len(),
    ensures
        words(s)[i].len() > 0,
        forall|j: int| 0 <= j < words(s)[i].len() ==> !is_space(#[trigger] words(s)[i][j]),
        trim(words(s)[i]) == words(s)[i],
{
    let fields = split(s, Separator::Space);
    let w = words(s)[i];
    lemma_non_empty_members(fields);
    lemma_fields_hold_no_separator(s, Separator::Space);
    let k = choose|k: int| 0 <= k < fields.len() && fields[k] == w;
    assert forall|j: int| 0 <= j < w.len() implies !is_space(#[trigger] w[j]) by {
        assert(!Separator::Space.separates(fields[k][j]));
    }
    assert(!is_space(w[0]));
    assert(!is_space(w.last()));
}

/// The characters of `s`, one by one.
pub fn chars_of(s: &str) -> (cs: Vec<char>)
    ensures
        cs@ == s@,
{
    broadcast use vstd::string::group_string_axioms;

    let mut cs: Vec<char> = Vec::new();
    for c in it: s.chars()
        invariant
            it.seq() == s@,
            cs@ == s@.take(it.index() as int),
    {
        cs.push(c);
    }
    assert(cs@ =~= s@);
    cs
}

/// Splits `s` at each separator.
pub fn split_text(s: &str, sep: Separator) -> (out: Vec<String>)
    ensures
        texts(out@) == split(s@, sep),
        out.len() >= 1,
{
    let cs = chars_of(s);
    let n: usize = cs.len();
    let mut out: Vec<String> = Vec::new();
    let mut start: usize = 0;
    let mut i: usize = 0;
    assert(s@.skip(0) =~= s@);
    assert(texts(out@) =~= Seq::<Seq<char>>::empty());
    while i < n
        invariant
            start <= i <= n,
            n == s@.len(),
            cs@ == s@,
            forall|j: int| start <= j < i ==> !sep.separates(#[trigger] s@[j]),
            texts(out@) + split(s@.skip(start as int), sep) == split(s@, sep),
        decreases n - i,
    {
        if sep.test(cs[i]) {
            let ghost rest = s@.skip(start as int);
            let ghost before_push = texts(out@);
            let field = s.substring_char(start, i).to_owned();
            proof {
                lemma_run_len(rest, sep, (i - start) as nat);
                assert(rest.take(i - start) =~= field@);
                assert(rest.skip(i - start + 1) =~= s@.skip(i + 1));
            }
            out.push(field);
            proof {
                assert(texts(out@) =~= before_push + seq![field@]);
                assert((before_push + seq![field@]) + split(s@.skip(i + 1), sep) =~= before_push
                    + (seq![field@] + split(s@.skip(i + 1), sep)));
            }
            start = i + 1;
        }
        i += 1;
    }
    let ghost rest = s@.skip(start as int);
    let ghost before_push = texts(out@);
    let field = s.substring_char(start, n).to_owned();
    proof {
        lemma_run_len(rest, sep, (n - start) as nat);
        assert(rest =~= field@);
    }
    out.push(field);
    assert(texts(out@) =~= before_push + seq![field@]);
    out
}

/// The words of `s`, in order.
pub fn split_words(s: &str) -> (out: Vec<String>)
    ensures
        texts(out@) == words(s@),
{
    let mut parts = split_text(s, Separator::Space);
    let total: usize = parts.len();
    let ghost all = texts(parts@);
    let mut out: Vec<String> = Vec::new();
    let mut i: usize = 0;
    assert(texts(out@) =~= non_empty(all.take(0)));
    while i < total
        invariant
            i <= total,
            total == parts.len(),
            all == texts(parts@),
            texts(out@) == non_empty(all.take(i as int)),
        decreases total - i,
    {
        let ghost before_push = texts(out@);
        let part = parts[i].clone();
        proof {
            assert(all.take(i + 1).drop_last() =~= all.take(i as int));
            assert(all.take(i + 1).last() == part@);
        }
        if part.as_str().unicode_len() > 0 {
            out.push(part);
            assert(texts(out@) =~= before_push.push(part@));
        }
        i += 1;
    }
    assert(all.take(total as int) =~= all);
    out
}

/// Whether `c` occurs in `s`.
pub fn contains_char(s: &str, c: char) -> (r: bool)
    ensures
        r == s@.contains(c),
{
    let cs = chars_of(s);
    let mut i: usize = 0;
    while i < cs.len()
        invariant
            i <= cs.len(),
            cs@ == s@,
            forall|j: int| 0 <= j < i ==> s@[j] != c,
        decreases cs.len() - i,
    {
        if cs[i] == c {
            return true;
        }
        i += 1;
    }
    false
}

/// What stands in `s` before the first `c`.
pub fn text_before(s: &str, c: char) -> (r: String)
    ensures
        r@ == before(s@, c),
{
    let cs = chars_of(s);
    let mut i: usize = 0;
    while i < cs.len() && cs[i] != c
        invariant
            i <= cs.len(),
            cs@ == s@,
            forall|j: int| 0 <= j < i ==> !Separator::Char(c).separates(#[trigger] s@[j]),
        decreases cs.len() - i,
    {
        i += 1;
    }
    proof {
        lemma_run_len(s@, Separator::Char(c), i as nat);
    }
    s.substring_char(0, i).to_owned()
}

/// `s` without the white space at either end.
pub fn trim_text(s: &str) -> (r: String)
    ensures
        r@ == trim(s@),
{
    let cs = chars_of(s);
    let n: usize = cs.len();
    let mut a: usize = 0;
    assert(s@.skip(0) =~= s@);
    while a < n && Separator::Space.test(cs[a])
        invariant
            a <= n,
            n == s@.len(),
            cs@ == s@,
            trim_start(s@.skip(a as int)) == trim_start(s@),
        decreases n - a,
    {
        assert(s@.skip(a as int).drop_first() =~= s@.skip(a + 1));
        a += 1;
    }
    let mut b: usize = n;
    assert(s@.subrange(a as int, n as int) =~= s@.skip(a as int));
    while b > a && Separator::Space.test(cs[b - 1])
        invariant
            a <= b <= n,
            n == s@.len(),
            cs@ == s@,
            trim_start(s@) == s@.skip(a as int),
            trim_end(s@.subrange(a as int, b as int)) == trim(s@),
        decreases b,
    {
        assert(s@.subrange(a as int, b as int).drop_last() =~= s@.subrange(a as int, b - 1));
        b -= 1;
    }
    s.substring_char(a, b).to_owned()
}

} // verus!
