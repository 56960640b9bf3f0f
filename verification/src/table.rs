//! Parser for whitespace-delimited tables: one name per data row, taken from
//! the first column.

use crate::order::{ascending, lemma_ascending_unique, sort_names};
use crate::text::{
    chars_of, is_space, lemma_run_length_bounds, lemma_run_length_is, row_texts, run_end,
    run_length, string_of, CharClass,
};
use vstd::prelude::*;
use vstd::seq_lib::to_multiset_len;
use vstd::slice::{slice_subrange, slice_to_vec};

verus! {

/// A line is blank when it holds nothing but whitespace.
pub open spec fn is_blank(line: Seq<char>) -> bool {
    forall|i: int| 0 <= i < line.len() ==> is_space(#[trigger] line[i])
}

/// The first whitespace-delimited token of `line`; empty when the line is
/// blank.
pub open spec fn first_token(line: Seq<char>) -> Seq<char> {
    let rest = line.skip(run_length(line, CharClass::Space) as int);
    rest.take(run_length(rest, CharClass::Word) as int)
}

/// `token` without one trailing occurrence of `suffix`.
pub open spec fn without_suffix(token: Seq<char>, suffix: Seq<char>) -> Seq<char> {
    if suffix.is_suffix_of(token) {
        token.take(token.len() - suffix.len())
    } else {
        token
    }
}

/// The name that a line contributes, if any: none for a header line (one that
/// starts with `header_prefix`), for a blank line, and for a row whose first
/// token is nothing but `strip_suffix`.
pub open spec fn row_name(line: Seq<char>, header_prefix: Seq<char>, strip_suffix: Seq<char>)
    -> Option<Seq<char>> {
    let name = without_suffix(first_token(line), strip_suffix);
    if header_prefix.is_prefix_of(line) || is_blank(line) || name.len() == 0 {
        None
    } else {
        Some(name)
    }
}

/// Whether `line` starts with `prefix`.
pub fn starts_with(line: &[char], prefix: &[char]) -> (r: bool)
    ensures
        r == prefix@.is_prefix_of(line@),
{
    if prefix.len() > line.len() {
        return false;
    }
    let mut i: usize = 0;
    while i < prefix.len()
        invariant
            i <= prefix@.len() <= line@.len(),
            forall|j: int| 0 <= j < i ==> prefix@[j] == line@[j],
        decreases prefix@.len() - i,
    {
        if prefix[i] != line[i] {
            return false;
        }
        i += 1;
    }
    true
}

/// Whether `token` ends with `suffix`.
pub fn ends_with(token: &[char], suffix: &[char]) -> (r: bool)
    ensures
        r == suffix@.is_suffix_of(token@),
{
    if suffix.len() > token.len() {
        return false;
    }
    let shift: usize = token.len() - suffix.len();
    let mut i: usize = 0;
    while i < suffix.len()
        invariant
            i <= suffix@.len(),
            shift + suffix@.len() == token@.len() <= usize::MAX,
            forall|j: int| 0 <= j < i ==> suffix@[j] == token@[shift + j],
        decreases suffix@.len() - i,
    {
        if suffix[i] != token[shift + i] {
            return false;
        }
        i += 1;
    }
    true
}

/// The first token of `line`, as a sub-slice of it.
pub fn token_of(line: &[char]) -> (token: &[char])
    ensures
        token@ == first_token(line@),
        (token@.len() == 0) == is_blank(line@),
{
    let start = run_end(line, 0, CharClass::Space);
    let end = run_end(line, start, CharClass::Word);
    let token = slice_subrange(line, start, end);
    proof {
        assert(line@.skip(0) =~= line@);
        let rest = line@.skip(start as int);
        lemma_run_length_bounds(line@, CharClass::Space);
        lemma_run_length_bounds(rest, CharClass::Word);
    }
    token
}

/// `token` without one trailing occurrence of `suffix`, as a sub-slice of it.
pub fn trim_suffix<'a>(token: &'a [char], suffix: &[char]) -> (name: &'a [char])
    ensures
        name@ == without_suffix(token@, suffix@),
{
    if ends_with(token, suffix) {
        slice_subrange(token, 0, token.len() - suffix.len())
    } else {
        token
    }
}

/// The name that `line` contributes, if any.
pub fn name_in_row<'a>(line: &'a [char], header_prefix: &[char], strip_suffix: &[char]) -> (name:
    Option<&'a [char]>)
    ensures
        match name {
            Some(n) => row_name(line@, header_prefix@, strip_suffix@) == Some(n@),
            None => row_name(line@, header_prefix@, strip_suffix@).is_none(),
        },
{
    if starts_with(line, header_prefix) {
        return None;
    }
    let token = token_of(line);
    if token.len() == 0 {
        return None;
    }
    let name = trim_suffix(token, strip_suffix);
    if name.len() == 0 {
        None
    } else {
        Some(name)
    }
}

/// `line` without one trailing carriage return.
pub open spec fn without_carriage_return(line: Seq<char>) -> Seq<char> {
    if line.len() > 0 && line.last() == '\r' {
        line.drop_last()
    } else {
        line
    }
}

/// The lines of `text`. A line ends at a line feed; a carriage return directly
/// before that line feed belongs to the line ending. Text after the last line
/// feed is a line of its own, kept as it is; when nothing follows the last
/// line feed, no further line is counted.
pub open spec fn lines(text: Seq<char>) -> Seq<Seq<char>>
    decreases text.len(),
{
    let body = run_length(text, CharClass::LineBody) as int;
    if text.len() == 0 {
        seq![]
    } else if body >= text.len() {
        seq![text]
    } else {
        seq![without_carriage_return(text.take(body))] + lines(text.skip(body + 1))
    }
}

/// The names that `rows` contribute, in the order of the rows.
pub open spec fn row_names(rows: Seq<Seq<char>>, header_prefix: Seq<char>, strip_suffix: Seq<char>)
    -> Seq<Seq<char>>
    decreases rows.len(),
{
    if rows.len() == 0 {
        seq![]
    } else {
        let rest = row_names(rows.drop_first(), header_prefix, strip_suffix);
        match row_name(rows[0], header_prefix, strip_suffix) {
            Some(name) => seq![name] + rest,
            None => rest,
        }
    }
}

/// The names listed in `text`, in the order of its lines.
pub open spec fn listed_names(text: Seq<char>, header_prefix: Seq<char>, strip_suffix: Seq<char>)
    -> Seq<Seq<char>> {
    row_names(lines(text), header_prefix, strip_suffix)
}

/// The names listed in `text`, in the order of its lines.
pub fn collect_names(text: &[char], header_prefix: &[char], strip_suffix: &[char]) -> (names: Vec<
    Vec<char>,
>)
    ensures
        row_texts(names@) == listed_names(text@, header_prefix@, strip_suffix@),
{
    let mut names: Vec<Vec<char>> = Vec::new();
    let mut pos: usize = 0;
    assert(text@.skip(0) =~= text@);
    while pos < text.len()
        invariant
            pos <= text@.len(),
            listed_names(text@, header_prefix@, strip_suffix@) == row_texts(names@) + listed_names(
                text@.skip(pos as int),
                header_prefix@,
                strip_suffix@,
            ),
        decreases text@.len() - pos,
    {
        let ghost rest = text@.skip(pos as int);
        let feed = run_end(text, pos, CharClass::LineBody);
        let mut end = feed;
        if feed < text.len() && pos < feed && text[feed - 1] == '\r' {
            end = feed - 1;
        }
        let line = slice_subrange(text, pos, end);
        let next: usize = if feed < text.len() {
            feed + 1
        } else {
            feed
        };
        proof {
            let body = feed - pos;
            if feed < text@.len() {
                assert(rest.skip(body + 1) =~= text@.skip(next as int));
                assert(line@ =~= without_carriage_return(rest.take(body)));
            }
            assert(lines(rest).drop_first() =~= lines(text@.skip(next as int)));
        }
        if let Some(name) = name_in_row(line, header_prefix, strip_suffix) {
            names.push(slice_to_vec(name));
        }
        pos = next;
    }
    names
}

/// What each string of `names` holds.
pub open spec fn name_texts(names: Seq<String>) -> Seq<Seq<char>> {
    names.map_values(|name: String| name@)
}

/// Whether `names` is the parse of `text`: the names listed in `text`, each as
/// often as it is listed, in ascending order.
pub open spec fn is_name_list(
    text: Seq<char>,
    header_prefix: Seq<char>,
    strip_suffix: Seq<char>,
    names: Seq<Seq<char>>,
) -> bool {
    &&& ascending(names)
    &&& names.to_multiset() == listed_names(text, header_prefix, strip_suffix).to_multiset()
}

/// A text without characters lists no names.
pub proof fn law_empty_text_lists_nothing(header_prefix: Seq<char>, strip_suffix: Seq<char>)
    ensures
        listed_names(Seq::<char>::empty(), header_prefix, strip_suffix)
            == Seq::<Seq<char>>::empty(),
{
}

/// A text that is one header line and nothing else lists no names, whether or
/// not a line feed ends the line.
pub proof fn law_header_alone_lists_nothing(
    header: Seq<char>,
    header_prefix: Seq<char>,
    strip_suffix: Seq<char>,
)
    requires
        header_prefix.is_prefix_of(header),
        forall|i: int| 0 <= i < header.len() ==> header[i] != '\n' && header[i] != '\r',
    ensures
        listed_names(header, header_prefix, strip_suffix) == Seq::<Seq<char>>::empty(),
        listed_names(header + seq!['\n'], header_prefix, strip_suffix) == Seq::<Seq<char>>::empty(),
{
    let ended = header + seq!['\n'];
    lemma_run_length_is(header, CharClass::LineBody, header.len() as int);
    lemma_run_length_is(ended, CharClass::LineBody, header.len() as int);
    assert(ended.take(header.len() as int) =~= header);
    assert(ended.skip(header.len() as int + 1) =~= Seq::<char>::empty());
    assert(lines(Seq::<char>::empty()) =~= Seq::<Seq<char>>::empty());
    reveal_with_fuel(row_names, 2);
}

/// Whitespace around the first token does not change it: a token after
/// leading whitespace is the line's first token, whatever follows the
/// whitespace after it.
pub proof fn law_first_token_ignores_what_surrounds_it(
    before: Seq<char>,
    token: Seq<char>,
    gap: Seq<char>,
    rest: Seq<char>,
)
    requires
        forall|i: int| 0 <= i < before.len() ==> is_space(before[i]),
        token.len() > 0,
        forall|i: int| 0 <= i < token.len() ==> !is_space(token[i]),
        forall|i: int| 0 <= i < gap.len() ==> is_space(gap[i]),
        gap.len() > 0 || rest.len() == 0,
    ensures
        first_token(before + token + gap + rest) == token,
{
    let line = before + token + gap + rest;
    let tail = token + gap + rest;
    lemma_run_length_is(line, CharClass::Space, before.len() as int);
    assert(line.skip(before.len() as int) =~= tail);
    lemma_run_length_is(tail, CharClass::Word, token.len() as int);
}

/// Parsing is a function of its input: any two parses of the same text, with
/// the same header prefix and suffix, are the same sequence of names.
pub proof fn law_parse_is_deterministic(
    text: Seq<char>,
    header_prefix: Seq<char>,
    strip_suffix: Seq<char>,
    first: Seq<Seq<char>>,
    second: Seq<Seq<char>>,
)
    requires
        is_name_list(text, header_prefix, strip_suffix, first),
        is_name_list(text, header_prefix, strip_suffix, second),
    ensures
        first == second,
{
    lemma_ascending_unique(first, second);
}

/// The names in the first column of the table `text`, in ascending order.
///
/// Lines that start with `header_prefix` and blank lines are skipped. Of each
/// other line the first whitespace-delimited token is taken, one trailing
/// `strip_suffix` is removed from it, and what is left is a name unless it is
/// empty. A name listed more than once is returned as often.
pub fn parse_names(text: &str, header_prefix: &str, strip_suffix: &str) -> (names: Vec<String>)
    ensures
        is_name_list(text@, header_prefix@, strip_suffix@, name_texts(names@)),
        names@.len() == listed_names(text@, header_prefix@, strip_suffix@).len(),
{
    let text_chars = chars_of(text);
    let prefix_chars = chars_of(header_prefix);
    let suffix_chars = chars_of(strip_suffix);
    let listed = collect_names(
        text_chars.as_slice(),
        prefix_chars.as_slice(),
        suffix_chars.as_slice(),
    );
    let sorted = sort_names(listed);
    let mut names: Vec<String> = Vec::new();
    let mut i: usize = 0;
    while i < sorted.len()
        invariant
            i <= sorted@.len(),
            name_texts(names@) == row_texts(sorted@).take(i as int),
        decreases sorted@.len() - i,
    {
        let ghost before = name_texts(names@);
        let name = string_of(sorted[i].as_slice());
        names.push(name);
        assert(row_texts(sorted@).take(i + 1) =~= before.push(sorted@[i as int]@));
        i += 1;
    }
    proof {
        assert(row_texts(sorted@).take(i as int) =~= row_texts(sorted@));
        to_multiset_len(name_texts(names@));
        to_multiset_len(listed_names(text@, header_prefix@, strip_suffix@));
    }
    names
}

} // verus!
