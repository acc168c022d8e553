//! Reading what the package tool's queries print.

use vstd::prelude::*;
use vstd::std_specs::iter::IteratorSpec;
use vstd::string::StrSliceExecFns;

verus! {

/// The text that `String::from_utf8_lossy` makes of `bytes`.
pub uninterp spec fn utf8_lossy(bytes: Seq<u8>) -> Seq<char>;

/// Whether `char::is_whitespace` holds of `c`.
pub uninterp spec fn white_space(c: char) -> bool;

/// Calls `String::from_utf8_lossy`, which decodes `bytes` as UTF-8 and puts a
/// replacement character in the place of each ill-formed sequence. Nothing is
/// claimed of the text but that it depends on the bytes alone.
#[verifier::external_body]
pub(crate) fn decode_lossy(bytes: &[u8]) -> (text: String)
    ensures
        text@ == utf8_lossy(bytes@),
{
    String::from_utf8_lossy(bytes).into_owned()
}

/// Calls `char::is_whitespace`, which says whether `c` is white space in the
/// sense of Unicode. Nothing is claimed of the answer but that it depends on
/// the character alone.
#[verifier::external_body]
fn is_whitespace(c: char) -> (b: bool)
    ensures
        b == white_space(c),
{
    c.is_whitespace()
}

/// How many characters `text` has before its first line feed, or in all if it
/// has none.
pub open spec fn line_end(text: Seq<char>) -> nat
    decreases text.len(),
{
    if text.len() == 0 || text.first() == '\n' {
        0
    } else {
        1 + line_end(text.drop_first())
    }
}

/// `line` without the characters at its two ends that `spaces` marks;
/// `spaces[k]` says whether `line[k]` is white space.
pub open spec fn trimmed_by(line: Seq<char>, spaces: Seq<bool>) -> Seq<char>
    decreases line.len(),
{
    if line.len() == 0 {
        line
    } else if spaces.first() {
        trimmed_by(line.drop_first(), spaces.drop_first())
    } else if spaces.last() {
        trimmed_by(line.drop_last(), spaces.drop_last())
    } else {
        line
    }
}

/// The names that `text` lists, where `spaces[k]` says whether `text[k]` is
/// white space: the lines of the text, cut at each line feed, each without the
/// white space at its ends, those left out of which nothing remains.
pub open spec fn listed_by(text: Seq<char>, spaces: Seq<bool>) -> Seq<Seq<char>>
    decreases text.len(),
{
    let end = line_end(text) as int;
    let name = trimmed_by(text.take(end), spaces.take(end));
    let here = if name.len() > 0 {
        seq![name]
    } else {
        Seq::empty()
    };
    if end >= text.len() {
        here
    } else {
        here + listed_by(text.skip(end + 1), spaces.skip(end + 1))
    }
}

/// For each character of `text`, whether it is white space.
pub open spec fn spaces_of(text: Seq<char>) -> Seq<bool> {
    Seq::new(text.len(), |k: int| white_space(text[k]))
}

/// `line` without the white space at its two ends.
pub open spec fn trimmed(line: Seq<char>) -> Seq<char> {
    trimmed_by(line, spaces_of(line))
}

/// The names that `text` lists, one to a line: each line without the white
/// space at its ends, blank lines left out.
pub open spec fn listed_names(text: Seq<char>) -> Seq<Seq<char>> {
    listed_by(text, spaces_of(text))
}

/// The first line of a text ends where its first line feed stands.
proof fn lemma_line_end(text: Seq<char>, n: int)
    requires
        0 <= n <= text.len(),
        forall|k: int| 0 <= k < n ==> text[k] != '\n',
        n < text.len() ==> text[n] == '\n',
    ensures
        line_end(text) == n,
    decreases n,
{
    if n > 0 {
        let rest = text.drop_first();
        assert(text.first() == text[0]);
        assert forall|k: int| 0 <= k < n - 1 implies rest[k] != '\n' by {
            assert(rest[k] == text[k + 1]);
        }
        if n - 1 < rest.len() {
            assert(rest[n - 1] == text[n]);
        }
        lemma_line_end(rest, n - 1);
    }
}

/// A line with white space up to `from` and from `to` on, and none at `from`
/// and just before `to`, is trimmed to what lies between the two.
proof fn lemma_trimmed(line: Seq<char>, spaces: Seq<bool>, from: int, to: int)
    requires
        spaces.len() == line.len(),
        0 <= from <= to <= line.len(),
        forall|k: int| 0 <= k < from ==> spaces[k],
        forall|k: int| to <= k < line.len() ==> spaces[k],
        from < to ==> !spaces[from] && !spaces[to - 1],
    ensures
        trimmed_by(line, spaces) == line.subrange(from, to),
    decreases line.len(),
{
    if line.len() == 0 {
        assert(line.subrange(from, to) =~= line);
    } else if spaces.first() {
        let rest = line.drop_first();
        let marks = spaces.drop_first();
        assert forall|k: int| 0 <= k < marks.len() implies marks[k] == spaces[k + 1] by {}
        if from > 0 {
            lemma_trimmed(rest, marks, from - 1, to - 1);
            assert(rest.subrange(from - 1, to - 1) =~= line.subrange(from, to));
        } else {
            assert(to == 0);
            lemma_trimmed(rest, marks, 0, 0);
            assert(rest.subrange(0, 0) =~= line.subrange(from, to));
        }
    } else if spaces.last() {
        let rest = line.drop_last();
        let marks = spaces.drop_last();
        assert(from == 0);
        assert(to < line.len());
        assert forall|k: int| 0 <= k < marks.len() implies marks[k] == spaces[k] by {}
        lemma_trimmed(rest, marks, from, to);
        assert(rest.subrange(from, to) =~= line.subrange(from, to));
    } else {
        assert(from == 0 && to == line.len());
        assert(line.subrange(from, to) =~= line);
    }
}

/// The characters of `text`, in order.
pub fn chars_of(text: &str) -> (chars: Vec<char>)
    ensures
        chars@ == text@,
{
    broadcast use vstd::string::group_string_axioms;

    let mut chars: Vec<char> = Vec::new();
    let mut it = text.chars();
    loop
        invariant
            it.obeys_prophetic_iter_laws(),
            chars@ + it.remaining() == text@,
        ensures
            chars@ == text@,
        decreases text@.len() - chars@.len(),
    {
        match it.next() {
            Some(c) => {
                chars.push(c);
            },
            None => {
                break ;
            },
        }
    }
    chars
}

/// For each character of `text`, whether it is white space.
pub fn mark_spaces(text: &str) -> (spaces: Vec<bool>)
    ensures
        spaces@ == spaces_of(text@),
{
    let chars = chars_of(text);
    let mut spaces: Vec<bool> = Vec::new();
    let mut k: usize = 0;
    while k < chars.len()
        invariant
            k <= chars.len(),
            chars@ == text@,
            spaces.len() == k,
            forall|j: int| 0 <= j < k ==> spaces[j] == white_space(text@[j]),
        decreases chars.len() - k,
    {
        spaces.push(is_whitespace(chars[k]));
        k += 1;
    }
    assert(spaces@ =~= spaces_of(text@));
    spaces
}

/// Where the part of `spaces` between `start` and `end` that is left after
/// trimming begins and ends.
fn trim_bounds(spaces: &Vec<bool>, start: usize, end: usize) -> (r: (usize, usize))
    requires
        start <= end <= spaces.len(),
    ensures
        start <= r.0 <= r.1 <= end,
        forall|k: int| start <= k < r.0 ==> spaces[k],
        forall|k: int| r.1 <= k < end ==> spaces[k],
        r.0 < r.1 ==> !spaces[r.0 as int] && !spaces[r.1 - 1],
{
    let mut from: usize = start;
    while from < end && spaces[from]
        invariant
            start <= from <= end <= spaces.len(),
            forall|k: int| start <= k < from ==> spaces[k],
        decreases end - from,
    {
        from += 1;
    }
    let mut to: usize = end;
    while to > from && spaces[to - 1]
        invariant
            from <= to <= end <= spaces.len(),
            forall|k: int| to <= k < end ==> spaces[k],
        decreases to - from,
    {
        to -= 1;
    }
    (from, to)
}

/// `text` without the characters at its two ends that `spaces` marks as white
/// space. There is none where `spaces` does not hold one mark for each
/// character of `text`.
pub fn trim_by(text: &str, spaces: &Vec<bool>) -> (r: Option<String>)
    ensures
        r is Some <==> spaces.len() == text@.len(),
        r matches Some(kept) ==> kept@ == trimmed_by(text@, spaces@),
{
    if text.unicode_len() != spaces.len() {
        return None;
    }
    let (from, to) = trim_bounds(spaces, 0, spaces.len());
    proof {
        lemma_trimmed(text@, spaces@, from as int, to as int);
    }
    Some(text.substring_char(from, to).to_owned())
}

/// The names that `text` lists, one to a line, where `spaces` marks the
/// characters that are white space: each line without the white space at its
/// ends, blank lines left out. There is none where `spaces` does not hold one
/// mark for each character of `text`.
pub fn names_in(text: &str, spaces: &Vec<bool>) -> (r: Option<Vec<String>>)
    ensures
        r is Some <==> spaces.len() == text@.len(),
        r matches Some(names) ==> names.deep_view() == listed_by(text@, spaces@),
{
    let chars = chars_of(text);
    let n = chars.len();
    if n != spaces.len() {
        return None;
    }
    let mut names: Vec<String> = Vec::new();
    let mut start: usize = 0;
    proof {
        assert(text@.skip(0) =~= text@);
        assert(spaces@.skip(0) =~= spaces@);
        assert(names.deep_view() + listed_by(text@, spaces@) =~= listed_by(text@, spaces@));
    }
    loop
        invariant_except_break
            start <= n,
            listed_by(text@, spaces@) == names.deep_view() + listed_by(
                text@.skip(start as int),
                spaces@.skip(start as int),
            ),
        invariant
            chars@ == text@,
            n == chars.len(),
            n == spaces.len(),
        ensures
            names.deep_view() == listed_by(text@, spaces@),
        decreases n - start,
    {
        let ghost rest = text@.skip(start as int);
        let ghost marks = spaces@.skip(start as int);
        let mut end: usize = start;
        while end < n && chars[end] != '\n'
            invariant
                chars@ == text@,
                n == chars.len(),
                start <= end <= n,
                forall|k: int| start <= k < end ==> text@[k] != '\n',
            decreases n - end,
        {
            end += 1;
        }
        let (from, to) = trim_bounds(spaces, start, end);
        let ghost line = text@.subrange(start as int, end as int);
        let ghost line_marks = spaces@.subrange(start as int, end as int);
        let ghost before = names.deep_view();
        proof {
            assert forall|k: int| 0 <= k < end - start implies rest[k] != '\n' by {
                assert(rest[k] == text@[start + k]);
            }
            lemma_line_end(rest, end - start);
            assert(rest.take(end - start) =~= line);
            assert(marks.take(end - start) =~= line_marks);
            assert forall|k: int| 0 <= k < line_marks.len() implies line_marks[k] == spaces@[start
                + k] by {}
            lemma_trimmed(line, line_marks, from - start, to - start);
            assert(line.subrange(from - start, to - start) =~= text@.subrange(
                from as int,
                to as int,
            ));
        }
        if from < to {
            let name = text.substring_char(from, to).to_owned();
            names.push(name);
            assert(names.deep_view() =~= before + seq![text@.subrange(from as int, to as int)]);
        } else {
            assert(names.deep_view() + Seq::<Seq<char>>::empty() =~= before);
        }
        if end >= n {
            break ;
        }
        proof {
            assert(rest.skip(end - start + 1) =~= text@.skip(end + 1));
            assert(marks.skip(end - start + 1) =~= spaces@.skip(end + 1));
            let here = if from < to {
                seq![text@.subrange(from as int, to as int)]
            } else {
                Seq::<Seq<char>>::empty()
            };
            let later = listed_by(text@.skip(end + 1), spaces@.skip(end + 1));
            assert(before + (here + later) =~= (before + here) + later);
        }
        start = end + 1;
    }
    Some(names)
}

/// `text` without the white space at its two ends.
pub fn trim_text(text: &str) -> (r: String)
    ensures
        r@ == trimmed(text@),
{
    let spaces = mark_spaces(text);
    match trim_by(text, &spaces) {
        Some(kept) => kept,
        None => String::new(),
    }
}

/// The package names that `text` lists, one to a line: each line without the
/// white space at its ends, blank lines left out.
pub fn installed_from_text(text: &str) -> (names: Vec<String>)
    ensures
        names.deep_view() == listed_names(text@),
{
    let spaces = mark_spaces(text);
    match names_in(text, &spaces) {
        Some(names) => names,
        None => Vec::new(),
    }
}

/// The package names that the installed-list query printed: `stdout` read as
/// text, ill-formed bytes replaced, and then the names that the text lists.
pub fn parse_installed(stdout: &[u8]) -> (names: Vec<String>)
    ensures
        names.deep_view() == listed_names(utf8_lossy(stdout@)),
{
    let text = decode_lossy(stdout);
    installed_from_text(text.as_str())
}

/// One entry of the outdated query's answer.
#[derive(Clone, Debug, PartialEq, Eq)]
pub struct Package {
    pub name: String,
}

impl DeepView for Package {
    type V = Seq<char>;

    open spec fn deep_view(&self) -> Seq<char> {
        self.name@
    }
}

/// The answer of the outdated query: the outdated formulae and the outdated casks.
#[derive(Clone, Debug, PartialEq, Eq)]
pub struct OutdatedPackages {
    pub formulae: Vec<Package>,
    pub casks: Vec<Package>,
}

impl OutdatedPackages {
    /// The names of the outdated packages: the formulae in their order, then
    /// the casks in theirs.
    pub open spec fn spec_names(self) -> Seq<Seq<char>> {
        self.formulae.deep_view() + self.casks.deep_view()
    }

    /// The names of the outdated packages: the formulae in their order, then
    /// the casks in theirs.
    pub fn names(&self) -> (names: Vec<String>)
        ensures
            names.deep_view() == self.spec_names(),
    {
        let mut names: Vec<String> = Vec::new();
        let mut i: usize = 0;
        while i < self.formulae.len()
            invariant
                i <= self.formulae.len(),
                names.len() == i,
                forall|k: int| 0 <= k < i ==> names[k]@ == self.formulae[k].name@,
            decreases self.formulae.len() - i,
        {
            names.push(self.formulae[i].name.clone());
            i += 1;
        }
        let mut j: usize = 0;
        while j < self.casks.len()
            invariant
                j <= self.casks.len(),
                names.len() == self.formulae.len() + j,
                forall|k: int|
                    0 <= k < self.formulae.len() ==> names[k]@ == self.formulae[k].name@,
                forall|k: int|
                    0 <= k < j ==> names[self.formulae.len() + k]@ == self.casks[k].name@,
            decreases self.casks.len() - j,
        {
            names.push(self.casks[j].name.clone());
            j += 1;
        }
        assert(names.deep_view() =~= self.spec_names());
        names
    }
}

} // verus!
