//! The parser: line-oriented block segmentation of the input into markdown
//! constructs, and a single-pass inline tokenizer for each construct's text.
//!
//! The grammar is stated by the `spec_` functions; the executable parser is
//! proved to return exactly what they describe. Parsing fails only when the
//! input does not end with a line terminator or when a fenced code block is
//! never closed; every malformed inline sequence degrades to plaintext.

use vstd::prelude::*;
use vstd::string::*;

use crate::{
    doc_model, items_model, text_model, BlockModel, HeadingLevel, InlineModel, Markdown,
    MarkdownInline, MarkdownText,
};

verus! {

/// The single failure signal of `parse`: the input did not end with a line
/// terminator, or a fenced code block was never closed.
#[derive(Debug)]
pub struct ParseFailure;

/// The smallest index at or after `from` holding `c`.
pub open spec fn spec_find(s: Seq<char>, from: int, c: char) -> Option<int>
    decreases s.len() - from,
{
    if from >= s.len() {
        None
    } else if s[from] == c {
        Some(from)
    } else {
        spec_find(s, from + 1, c)
    }
}

pub proof fn lemma_spec_find(s: Seq<char>, from: int, c: char)
    ensures
        spec_find(s, from, c) matches Some(j) ==> from <= j < s.len() && s[j] == c,
    decreases s.len() - from,
{
    if from < s.len() && s[from] != c {
        lemma_spec_find(s, from + 1, c);
    }
}

/// The smallest index at or after `from` where a bold delimiter (two stars)
/// begins.
pub open spec fn spec_find_bold(s: Seq<char>, from: int) -> Option<int>
    decreases s.len() - from,
{
    if from + 1 >= s.len() {
        None
    } else if s[from] == '*' && s[from + 1] == '*' {
        Some(from)
    } else {
        spec_find_bold(s, from + 1)
    }
}

pub proof fn lemma_spec_find_bold(s: Seq<char>, from: int)
    ensures
        spec_find_bold(s, from) matches Some(j) ==> from <= j && j + 1 < s.len() && s[j] == '*'
            && s[j + 1] == '*',
    decreases s.len() - from,
{
    if from + 1 < s.len() && !(s[from] == '*' && s[from + 1] == '*') {
        lemma_spec_find_bold(s, from + 1);
    }
}

/// What follows an opening bracket at `p`: a label up to the first closing
/// bracket, which must be followed by a parenthesized url. `None` when any
/// part is missing before end of line.
pub open spec fn spec_link_tail(s: Seq<char>, p: int) -> Option<(Seq<char>, Seq<char>, int)> {
    match spec_find(s, p, ']') {
        None => None,
        Some(j) => if j + 1 < s.len() && s[j + 1] == '(' {
            match spec_find(s, j + 2, ')') {
                None => None,
                Some(k) => Some((s.subrange(p, j), s.subrange(j + 2, k), k + 1)),
            }
        } else {
            None
        },
    }
}

pub proof fn lemma_spec_link_tail(s: Seq<char>, p: int)
    ensures
        spec_link_tail(s, p) matches Some((label, url, nx)) ==> p + 3 <= nx <= s.len(),
{
    lemma_spec_find(s, p, ']');
    match spec_find(s, p, ']') {
        None => {},
        Some(j) => {
            lemma_spec_find(s, j + 2, ')');
        },
    }
}

/// Whether the character at `i` opens a delimited construct: a link or image
/// opener, a bold or italic delimiter, or an inline-code delimiter. A `!` not
/// followed by `[` opens nothing.
pub open spec fn is_delimiter_attempt(s: Seq<char>, i: int) -> bool {
    s[i] == '[' || s[i] == '*' || s[i] == '`' || (s[i] == '!' && i + 1 < s.len() && s[i + 1]
        == '[')
}

/// The construct that matches exactly at `i`, with the position just past it.
/// Disambiguation order: image before link before bold before italic before
/// inline code. `None` when the opened construct has no closer on the line.
pub open spec fn spec_try_delim(s: Seq<char>, i: int) -> Option<(InlineModel, int)> {
    if s[i] == '!' && i + 1 < s.len() && s[i + 1] == '[' {
        match spec_link_tail(s, i + 2) {
            None => None,
            Some((alt, url, nx)) => Some((InlineModel::Image { alt, url }, nx)),
        }
    } else if s[i] == '[' {
        match spec_link_tail(s, i + 1) {
            None => None,
            Some((label, url, nx)) => Some((InlineModel::Link { label, url }, nx)),
        }
    } else if s[i] == '*' && i + 1 < s.len() && s[i + 1] == '*' {
        match spec_find_bold(s, i + 2) {
            None => None,
            Some(j) => Some((InlineModel::Bold(s.subrange(i + 2, j)), j + 2)),
        }
    } else if s[i] == '*' {
        match spec_find(s, i + 1, '*') {
            None => None,
            Some(j) => Some((InlineModel::Italic(s.subrange(i + 1, j)), j + 1)),
        }
    } else if s[i] == '`' {
        match spec_find(s, i + 1, '`') {
            None => None,
            Some(j) => Some((InlineModel::InlineCode(s.subrange(i + 1, j)), j + 1)),
        }
    } else {
        None
    }
}

pub proof fn lemma_spec_try_delim(s: Seq<char>, i: int)
    ensures
        spec_try_delim(s, i) matches Some((tok, nx)) ==> i + 2 <= nx <= s.len(),
{
    lemma_spec_link_tail(s, i + 2);
    lemma_spec_link_tail(s, i + 1);
    lemma_spec_find_bold(s, i + 2);
    lemma_spec_find(s, i + 1, '*');
    lemma_spec_find(s, i + 1, '`');
}

/// The plaintext run gathered between `r` and `i`, as a span when non-empty.
pub open spec fn pending_plaintext(s: Seq<char>, r: int, i: int) -> Seq<InlineModel> {
    if r < i {
        seq![InlineModel::Plaintext(s.subrange(r, i))]
    } else {
        Seq::empty()
    }
}

/// The inline scan from position `i`, with the current plaintext run starting
/// at `r`. A matched construct closes the run and emits a span; an opened
/// construct without a closer degrades the run and the whole rest of the line
/// to one plaintext span; any other character extends the run. Adjacent
/// plaintext is thereby always coalesced.
pub open spec fn spec_scan_text(s: Seq<char>, r: int, i: int) -> Seq<InlineModel>
    decreases s.len() - i,
    via scan_text_decreases
{
    if i >= s.len() {
        pending_plaintext(s, r, s.len() as int)
    } else if is_delimiter_attempt(s, i) {
        match spec_try_delim(s, i) {
            Some((tok, nx)) => pending_plaintext(s, r, i) + seq![tok] + spec_scan_text(s, nx, nx),
            None => seq![InlineModel::Plaintext(s.subrange(r, s.len() as int))],
        }
    } else {
        spec_scan_text(s, r, i + 1)
    }
}

#[via_fn]
proof fn scan_text_decreases(s: Seq<char>, r: int, i: int) {
    lemma_spec_try_delim(s, i);
}

/// The inline spans of one line of text.
pub open spec fn spec_tokenize(s: Seq<char>) -> Seq<InlineModel> {
    spec_scan_text(s, 0, 0)
}

/// The end of the run of `c` starting at `i`.
pub open spec fn spec_run_end(s: Seq<char>, i: int, c: char) -> int
    decreases s.len() - i,
{
    if i < s.len() && s[i] == c {
        spec_run_end(s, i + 1, c)
    } else {
        i
    }
}

pub proof fn lemma_spec_run_end(s: Seq<char>, i: int, c: char)
    ensures
        i <= spec_run_end(s, i, c),
        i <= s.len() ==> spec_run_end(s, i, c) <= s.len(),
    decreases s.len() - i,
{
    if i < s.len() && s[i] == c {
        lemma_spec_run_end(s, i + 1, c);
    }
}

/// Whether `c` is a decimal digit.
pub open spec fn is_digit(c: char) -> bool {
    48 <= c as u32 <= 57
}

/// The end of the digit run starting at `i`.
pub open spec fn spec_digit_end(s: Seq<char>, i: int) -> int
    decreases s.len() - i,
{
    if i < s.len() && is_digit(s[i]) {
        spec_digit_end(s, i + 1)
    } else {
        i
    }
}

pub proof fn lemma_spec_digit_end(s: Seq<char>, i: int)
    ensures
        i <= spec_digit_end(s, i),
        i <= s.len() ==> spec_digit_end(s, i) <= s.len(),
    decreases s.len() - i,
{
    if i < s.len() && is_digit(s[i]) {
        lemma_spec_digit_end(s, i + 1);
    }
}

/// A heading line: one to six hash marks, then a space separator.
pub open spec fn is_heading_line(l: Seq<char>) -> bool {
    let h = spec_run_end(l, 0, '#');
    1 <= h <= 6 && h < l.len() && l[h] == ' '
}

/// The rank a heading line sets: the length of its hash run.
pub open spec fn heading_level(l: Seq<char>) -> int {
    spec_run_end(l, 0, '#')
}

/// The text of a heading line: everything after the separator.
pub open spec fn heading_text(l: Seq<char>) -> Seq<char> {
    l.subrange(spec_run_end(l, 0, '#') + 1, l.len() as int)
}

/// A fence line: three backticks at the start of the line.
pub open spec fn is_fence_line(l: Seq<char>) -> bool {
    l.len() >= 3 && l[0] == '`' && l[1] == '`' && l[2] == '`'
}

/// The info-string of an opening fence: everything after the backticks;
/// empty when absent.
pub open spec fn fence_info(l: Seq<char>) -> Seq<char> {
    l.subrange(3, l.len() as int)
}

/// An unordered-list item line: its marker, then a space.
pub open spec fn is_unordered_item(l: Seq<char>) -> bool {
    l.len() >= 2 && l[0] == '-' && l[1] == ' '
}

/// An ordered-list item line: one or more digits, a period, then a space.
pub open spec fn is_ordered_item(l: Seq<char>) -> bool {
    let d = spec_digit_end(l, 0);
    d >= 1 && d + 1 < l.len() && l[d] == '.' && l[d + 1] == ' '
}

/// A list item line of either kind.
pub open spec fn is_list_item(l: Seq<char>, ordered: bool) -> bool {
    if ordered {
        is_ordered_item(l)
    } else {
        is_unordered_item(l)
    }
}

/// The item text after a list marker.
pub open spec fn spec_item_text(l: Seq<char>, ordered: bool) -> Seq<char> {
    if ordered {
        l.subrange(spec_digit_end(l, 0) + 2, l.len() as int)
    } else {
        l.subrange(2, l.len() as int)
    }
}

/// The raw body of a code block opened just before line `j`: the lines up to
/// (not including) the next fence line, each with its terminator, and the
/// index just past that closing fence. `None` when no closing fence exists.
pub open spec fn spec_fence_scan(lines: Seq<Seq<char>>, j: int) -> Option<(Seq<char>, int)>
    decreases lines.len() - j,
{
    if j >= lines.len() {
        None
    } else if is_fence_line(lines[j]) {
        Some((Seq::empty(), j + 1))
    } else {
        match spec_fence_scan(lines, j + 1) {
            None => None,
            Some((body, nx)) => Some((lines[j] + seq!['\n'] + body, nx)),
        }
    }
}

pub proof fn lemma_spec_fence_scan(lines: Seq<Seq<char>>, j: int)
    ensures
        spec_fence_scan(lines, j) matches Some((body, nx)) ==> j < nx <= lines.len(),
    decreases lines.len() - j,
{
    if j < lines.len() && !is_fence_line(lines[j]) {
        lemma_spec_fence_scan(lines, j + 1);
    }
}

pub proof fn lemma_spec_fence_scan_none(lines: Seq<Seq<char>>, j: int)
    requires
        forall|k: int| j <= k < lines.len() ==> !is_fence_line(#[trigger] lines[k]),
    ensures
        spec_fence_scan(lines, j) is None,
    decreases lines.len() - j,
{
    if j < lines.len() {
        lemma_spec_fence_scan_none(lines, j + 1);
    }
}

/// The end of the contiguous run of list items (of one kind) starting at `i`.
pub open spec fn spec_list_run_end(lines: Seq<Seq<char>>, i: int, ordered: bool) -> int
    decreases lines.len() - i,
{
    if i < lines.len() && is_list_item(lines[i], ordered) {
        spec_list_run_end(lines, i + 1, ordered)
    } else {
        i
    }
}

pub proof fn lemma_spec_list_run_end(lines: Seq<Seq<char>>, i: int, ordered: bool)
    ensures
        i <= spec_list_run_end(lines, i, ordered),
        i <= lines.len() ==> spec_list_run_end(lines, i, ordered) <= lines.len(),
        (i < lines.len() && is_list_item(lines[i], ordered)) ==> spec_list_run_end(
            lines,
            i,
            ordered,
        ) >= i + 1,
        forall|k: int|
            i <= k < spec_list_run_end(lines, i, ordered) ==> is_list_item(
                #[trigger] lines[k],
                ordered,
            ),
    decreases lines.len() - i,
{
    if i < lines.len() && is_list_item(lines[i], ordered) {
        lemma_spec_list_run_end(lines, i + 1, ordered);
    }
}

/// The items of the list run `[i, end)`, each inline-tokenized.
pub open spec fn spec_list_items(
    lines: Seq<Seq<char>>,
    i: int,
    end: int,
    ordered: bool,
) -> Seq<Seq<InlineModel>>
    decreases end - i,
{
    if i >= end {
        Seq::empty()
    } else {
        seq![spec_tokenize(spec_item_text(lines[i], ordered))] + spec_list_items(
            lines,
            i + 1,
            end,
            ordered,
        )
    }
}

/// A block prepended to the rest of a parse, which fails if the rest fails.
pub open spec fn cons_block(b: BlockModel, rest: Option<Seq<BlockModel>>) -> Option<
    Seq<BlockModel>,
> {
    match rest {
        None => None,
        Some(r) => Some(seq![b] + r),
    }
}

/// The blocks of the lines from `i` on, top to bottom: a heading line gives a
/// heading; a fence line opens a code block, which fails without a closing
/// fence; a list item line opens a list absorbing the whole contiguous run of
/// items of its kind; any other line is a paragraph line, empty when blank.
pub open spec fn spec_parse_lines(lines: Seq<Seq<char>>, i: int) -> Option<Seq<BlockModel>>
    decreases lines.len() - i,
    via parse_lines_decreases
{
    if i >= lines.len() {
        Some(Seq::empty())
    } else {
        let l = lines[i];
        if is_heading_line(l) {
            cons_block(
                BlockModel::Heading { level: heading_level(l), text: spec_tokenize(heading_text(l)) },
                spec_parse_lines(lines, i + 1),
            )
        } else if is_fence_line(l) {
            match spec_fence_scan(lines, i + 1) {
                None => None,
                Some((body, nx)) => cons_block(
                    BlockModel::Codeblock { language: fence_info(l), body },
                    spec_parse_lines(lines, nx),
                ),
            }
        } else if is_unordered_item(l) {
            let e = spec_list_run_end(lines, i, false);
            cons_block(
                BlockModel::UnorderedList { items: spec_list_items(lines, i, e, false) },
                spec_parse_lines(lines, e),
            )
        } else if is_ordered_item(l) {
            let e = spec_list_run_end(lines, i, true);
            cons_block(
                BlockModel::OrderedList { items: spec_list_items(lines, i, e, true) },
                spec_parse_lines(lines, e),
            )
        } else {
            cons_block(
                BlockModel::Line { text: spec_tokenize(l) },
                spec_parse_lines(lines, i + 1),
            )
        }
    }
}

#[via_fn]
proof fn parse_lines_decreases(lines: Seq<Seq<char>>, i: int) {
    lemma_spec_fence_scan(lines, i + 1);
    lemma_spec_list_run_end(lines, i, false);
    lemma_spec_list_run_end(lines, i, true);
}

/// The input split at line terminators, terminators excluded.
pub open spec fn spec_split_lines(s: Seq<char>) -> Seq<Seq<char>>
    decreases s.len(),
    via split_lines_decreases
{
    if s.len() == 0 {
        Seq::empty()
    } else {
        match spec_find(s, 0, '\n') {
            None => seq![s],
            Some(j) => seq![s.subrange(0, j)] + spec_split_lines(
                s.subrange(j + 1, s.len() as int),
            ),
        }
    }
}

#[via_fn]
proof fn split_lines_decreases(s: Seq<char>) {
    lemma_spec_find(s, 0, '\n');
}

/// The required terminator: the input must end with a newline.
pub open spec fn ends_with_newline(s: Seq<char>) -> bool {
    s.len() > 0 && s[s.len() - 1] == '\n'
}

/// What parsing the whole input yields: `None` exactly when the input does
/// not end with a line terminator or an opened fence is never closed.
pub open spec fn spec_parse(s: Seq<char>) -> Option<Seq<BlockModel>> {
    if !ends_with_newline(s) {
        None
    } else {
        spec_parse_lines(spec_split_lines(s), 0)
    }
}

/// The model of a split input: each line as its character sequence.
pub open spec fn lines_model(ls: Seq<String>) -> Seq<Seq<char>> {
    ls.map(|i: int, s: String| s@)
}

fn find_char(s: &str, from: usize, c: char) -> (r: Option<usize>)
    ensures
        r matches Some(j) ==> spec_find(s@, from as int, c) == Some(j as int),
        r is None ==> spec_find(s@, from as int, c) is None,
    decreases s@.len() - from,
{
    let len: usize = s.unicode_len();
    if from >= len {
        None
    } else if s.get_char(from) == c {
        Some(from)
    } else {
        find_char(s, from + 1, c)
    }
}

fn find_bold(s: &str, from: usize) -> (r: Option<usize>)
    ensures
        r matches Some(j) ==> spec_find_bold(s@, from as int) == Some(j as int),
        r is None ==> spec_find_bold(s@, from as int) is None,
    decreases s@.len() - from,
{
    let len: usize = s.unicode_len();
    if from >= len || from + 1 >= len {
        None
    } else if s.get_char(from) == '*' && s.get_char(from + 1) == '*' {
        Some(from)
    } else {
        find_bold(s, from + 1)
    }
}

fn link_tail(s: &str, p: usize) -> (r: Option<(String, String, usize)>)
    requires
        p <= s@.len(),
    ensures
        r matches Some((label, url, nx)) ==> spec_link_tail(s@, p as int) == Some(
            (label@, url@, nx as int),
        ) && p < nx <= s@.len(),
        r is None ==> spec_link_tail(s@, p as int) is None,
{
    let len: usize = s.unicode_len();
    match find_char(s, p, ']') {
        None => None,
        Some(j) => {
            proof {
                lemma_spec_find(s@, p as int, ']');
            }
            if j + 1 < len && s.get_char(j + 1) == '(' {
                match find_char(s, j + 2, ')') {
                    None => None,
                    Some(k) => {
                        proof {
                            lemma_spec_find(s@, (j + 2) as int, ')');
                        }
                        let label = s.substring_char(p, j).to_owned();
                        let url = s.substring_char(j + 2, k).to_owned();
                        Some((label, url, k + 1))
                    },
                }
            } else {
                None
            }
        },
    }
}

fn try_delim(s: &str, i: usize) -> (r: Option<(MarkdownInline, usize)>)
    requires
        i < s@.len(),
    ensures
        r matches Some((tok, nx)) ==> spec_try_delim(s@, i as int) == Some((tok@, nx as int)) && i
            < nx <= s@.len(),
        r is None ==> spec_try_delim(s@, i as int) is None,
{
    let len: usize = s.unicode_len();
    let c = s.get_char(i);
    if c == '!' && i + 1 < len && s.get_char(i + 1) == '[' {
        match link_tail(s, i + 2) {
            None => None,
            Some((alt, url, nx)) => Some((MarkdownInline::Image(alt, url), nx)),
        }
    } else if c == '[' {
        match link_tail(s, i + 1) {
            None => None,
            Some((label, url, nx)) => Some((MarkdownInline::Link(label, url), nx)),
        }
    } else if c == '*' && i + 1 < len && s.get_char(i + 1) == '*' {
        match find_bold(s, i + 2) {
            None => None,
            Some(j) => {
                proof {
                    lemma_spec_find_bold(s@, (i + 2) as int);
                }
                let t = s.substring_char(i + 2, j).to_owned();
                Some((MarkdownInline::Bold(t), j + 2))
            },
        }
    } else if c == '*' {
        match find_char(s, i + 1, '*') {
            None => None,
            Some(j) => {
                proof {
                    lemma_spec_find(s@, (i + 1) as int, '*');
                }
                let t = s.substring_char(i + 1, j).to_owned();
                Some((MarkdownInline::Italic(t), j + 1))
            },
        }
    } else if c == '`' {
        match find_char(s, i + 1, '`') {
            None => None,
            Some(j) => {
                proof {
                    lemma_spec_find(s@, (i + 1) as int, '`');
                }
                let t = s.substring_char(i + 1, j).to_owned();
                Some((MarkdownInline::InlineCode(t), j + 1))
            },
        }
    } else {
        None
    }
}

fn scan_from(s: &str, run_start: usize, i: usize) -> (r: Vec<MarkdownInline>)
    requires
        run_start <= i,
        i <= s@.len(),
    ensures
        text_model(r@) == spec_scan_text(s@, run_start as int, i as int),
    decreases s@.len() - i,
{
    let len: usize = s.unicode_len();
    if i >= len {
        let mut v: Vec<MarkdownInline> = Vec::new();
        if run_start < len {
            let t = s.substring_char(run_start, len).to_owned();
            v.push(MarkdownInline::Plaintext(t));
        }
        proof {
            assert(text_model(v@) =~= spec_scan_text(s@, run_start as int, i as int));
        }
        v
    } else {
        let c = s.get_char(i);
        let attempt = c == '[' || c == '*' || c == '`' || (c == '!' && i + 1 < len && s.get_char(
            i + 1,
        ) == '[');
        if attempt {
            match try_delim(s, i) {
                Some((tok, nx)) => {
                    let ghost tok_model = tok@;
                    let mut v: Vec<MarkdownInline> = Vec::new();
                    if run_start < i {
                        let t = s.substring_char(run_start, i).to_owned();
                        v.push(MarkdownInline::Plaintext(t));
                    }
                    v.push(tok);
                    let mut rest = scan_from(s, nx, nx);
                    let ghost rest0 = rest@;
                    v.append(&mut rest);
                    proof {
                        assert(text_model(v@) =~= pending_plaintext(
                            s@,
                            run_start as int,
                            i as int,
                        ) + seq![tok_model] + text_model(rest0));
                        assert(text_model(v@) =~= spec_scan_text(
                            s@,
                            run_start as int,
                            i as int,
                        ));
                    }
                    v
                },
                None => {
                    let t = s.substring_char(run_start, len).to_owned();
                    let mut v: Vec<MarkdownInline> = Vec::new();
                    v.push(MarkdownInline::Plaintext(t));
                    proof {
                        assert(text_model(v@) =~= spec_scan_text(
                            s@,
                            run_start as int,
                            i as int,
                        ));
                    }
                    v
                },
            }
        } else {
            scan_from(s, run_start, i + 1)
        }
    }
}

/// The inline spans of one line of text: a single left-to-right scan that
/// matches a construct where one closes on the line and otherwise degrades to
/// literal text, never failing.
pub fn tokenize(s: &str) -> (r: Vec<MarkdownInline>)
    ensures
        text_model(r@) == spec_tokenize(s@),
{
    scan_from(s, 0, 0)
}

fn run_end(s: &str, i: usize, c: char) -> (r: usize)
    ensures
        r as int == spec_run_end(s@, i as int, c),
    decreases s@.len() - i,
{
    let len: usize = s.unicode_len();
    if i < len && s.get_char(i) == c {
        run_end(s, i + 1, c)
    } else {
        i
    }
}

fn digit_end(s: &str, i: usize) -> (r: usize)
    ensures
        r as int == spec_digit_end(s@, i as int),
    decreases s@.len() - i,
{
    let len: usize = s.unicode_len();
    if i < len {
        let c = s.get_char(i);
        let u: u32 = c as u32;
        if 48 <= u && u <= 57 {
            return digit_end(s, i + 1);
        }
    }
    i
}

fn line_is_heading(s: &str) -> (r: bool)
    ensures
        r == is_heading_line(s@),
{
    let len: usize = s.unicode_len();
    let h = run_end(s, 0, '#');
    proof {
        lemma_spec_run_end(s@, 0, '#');
    }
    1 <= h && h <= 6 && h < len && s.get_char(h) == ' '
}

fn line_is_fence(s: &str) -> (r: bool)
    ensures
        r == is_fence_line(s@),
{
    let len: usize = s.unicode_len();
    len >= 3 && s.get_char(0) == '`' && s.get_char(1) == '`' && s.get_char(2) == '`'
}

fn line_is_unordered(s: &str) -> (r: bool)
    ensures
        r == is_unordered_item(s@),
{
    let len: usize = s.unicode_len();
    len >= 2 && s.get_char(0) == '-' && s.get_char(1) == ' '
}

fn line_is_ordered(s: &str) -> (r: bool)
    ensures
        r == is_ordered_item(s@),
{
    let len: usize = s.unicode_len();
    let d = digit_end(s, 0);
    proof {
        lemma_spec_digit_end(s@, 0);
    }
    d >= 1 && d < len && d + 1 < len && s.get_char(d) == '.' && s.get_char(d + 1) == ' '
}

fn fence_collect(lines: &Vec<String>, j: usize) -> (r: Option<(String, usize)>)
    requires
        j <= lines@.len(),
    ensures
        r matches Some((body, nx)) ==> spec_fence_scan(lines_model(lines@), j as int) == Some(
            (body@, nx as int),
        ) && j < nx <= lines@.len(),
        r is None ==> spec_fence_scan(lines_model(lines@), j as int) is None,
    decreases lines@.len() - j,
{
    if j == lines.len() {
        None
    } else {
        if line_is_fence(lines[j].as_str()) {
            Some((String::new(), j + 1))
        } else {
            match fence_collect(lines, j + 1) {
                None => None,
                Some((rest_body, nx)) => {
                    let mut body = lines[j].clone();
                    body.append("\n");
                    body.append(rest_body.as_str());
                    proof {
                        reveal_strlit("\n");
                        assert(body@ =~= lines_model(lines@)[j as int] + seq!['\n']
                            + rest_body@);
                    }
                    Some((body, nx))
                },
            }
        }
    }
}

fn list_run(lines: &Vec<String>, i: usize, ordered: bool) -> (r: usize)
    requires
        i <= lines@.len(),
    ensures
        r as int == spec_list_run_end(lines_model(lines@), i as int, ordered),
        i <= r <= lines@.len(),
    decreases lines@.len() - i,
{
    if i < lines.len() {
        let item = if ordered {
            line_is_ordered(lines[i].as_str())
        } else {
            line_is_unordered(lines[i].as_str())
        };
        if item {
            list_run(lines, i + 1, ordered)
        } else {
            i
        }
    } else {
        i
    }
}

fn collect_items(lines: &Vec<String>, i: usize, e: usize, ordered: bool) -> (r: Vec<MarkdownText>)
    requires
        i <= e <= lines@.len(),
        forall|k: int| i <= k < e ==> is_list_item(#[trigger] lines_model(lines@)[k], ordered),
    ensures
        items_model(r@) == spec_list_items(lines_model(lines@), i as int, e as int, ordered),
    decreases e - i,
{
    if i == e {
        let v: Vec<MarkdownText> = Vec::new();
        proof {
            assert(items_model(v@) =~= spec_list_items(
                lines_model(lines@),
                i as int,
                e as int,
                ordered,
            ));
        }
        v
    } else {
        let ls = lines[i].as_str();
        let len: usize = ls.unicode_len();
        assert(is_list_item(lines_model(lines@)[i as int], ordered));
        let t: &str = if ordered {
            let d = digit_end(ls, 0);
            proof {
                lemma_spec_digit_end(ls@, 0);
            }
            ls.substring_char(d + 2, len)
        } else {
            ls.substring_char(2, len)
        };
        let spans = tokenize(t);
        let mut v: Vec<MarkdownText> = Vec::new();
        v.push(spans);
        let mut rest = collect_items(lines, i + 1, e, ordered);
        v.append(&mut rest);
        proof {
            assert(items_model(v@) =~= spec_list_items(
                lines_model(lines@),
                i as int,
                e as int,
                ordered,
            ));
        }
        v
    }
}

fn cons_doc(block: Markdown, rest: Result<Vec<Markdown>, ParseFailure>) -> (r: Result<
    Vec<Markdown>,
    ParseFailure,
>)
    ensures
        r matches Ok(doc) ==> (rest matches Ok(rv) && doc_model(doc@) == seq![block@] + doc_model(
            rv@,
        )),
        r is Err <==> rest is Err,
{
    match rest {
        Err(e) => Err(e),
        Ok(mut rv) => {
            let ghost rv0 = rv@;
            let mut v: Vec<Markdown> = Vec::new();
            v.push(block);
            v.append(&mut rv);
            proof {
                assert(doc_model(v@) =~= seq![block@] + doc_model(rv0));
            }
            Ok(v)
        },
    }
}

fn parse_blocks(lines: &Vec<String>, i: usize) -> (r: Result<Vec<Markdown>, ParseFailure>)
    requires
        i <= lines@.len(),
    ensures
        r matches Ok(doc) ==> spec_parse_lines(lines_model(lines@), i as int) == Some(
            doc_model(doc@),
        ),
        r is Err ==> spec_parse_lines(lines_model(lines@), i as int) is None,
    decreases lines@.len() - i,
{
    let ghost lm = lines_model(lines@);
    if i == lines.len() {
        let v: Vec<Markdown> = Vec::new();
        proof {
            assert(doc_model(v@) =~= Seq::<BlockModel>::empty());
        }
        Ok(v)
    } else {
        let ls = lines[i].as_str();
        let len: usize = ls.unicode_len();
        if line_is_heading(ls) {
            let h = run_end(ls, 0, '#');
            proof {
                lemma_spec_run_end(ls@, 0, '#');
            }
            let lvl = HeadingLevel::of_rank(h as u8);
            let text = ls.substring_char(h + 1, len);
            let spans = tokenize(text);
            let block = Markdown::Heading(lvl, spans);
            proof {
                assert(block@ == (BlockModel::Heading {
                    level: heading_level(lm[i as int]),
                    text: spec_tokenize(heading_text(lm[i as int])),
                }));
            }
            cons_doc(block, parse_blocks(lines, i + 1))
        } else if line_is_fence(ls) {
            match fence_collect(lines, i + 1) {
                None => Err(ParseFailure),
                Some((body, nx)) => {
                    let lang = ls.substring_char(3, len).to_owned();
                    let block = Markdown::Codeblock(lang, body);
                    proof {
                        assert(spec_fence_scan(lm, i + 1) matches Some((b, n)) && block@
                            == (BlockModel::Codeblock {
                            language: fence_info(lm[i as int]),
                            body: b,
                        }));
                    }
                    cons_doc(block, parse_blocks(lines, nx))
                },
            }
        } else if line_is_unordered(ls) {
            let e = list_run(lines, i, false);
            proof {
                lemma_spec_list_run_end(lm, i as int, false);
            }
            let items = collect_items(lines, i, e, false);
            let block = Markdown::UnorderedList(items);
            proof {
                assert(block@ == (BlockModel::UnorderedList {
                    items: spec_list_items(lm, i as int, e as int, false),
                }));
            }
            cons_doc(block, parse_blocks(lines, e))
        } else if line_is_ordered(ls) {
            let e = list_run(lines, i, true);
            proof {
                lemma_spec_list_run_end(lm, i as int, true);
            }
            let items = collect_items(lines, i, e, true);
            let block = Markdown::OrderedList(items);
            proof {
                assert(block@ == (BlockModel::OrderedList {
                    items: spec_list_items(lm, i as int, e as int, true),
                }));
            }
            cons_doc(block, parse_blocks(lines, e))
        } else {
            let spans = tokenize(ls);
            let block = Markdown::Line(spans);
            proof {
                assert(block@ == (BlockModel::Line { text: spec_tokenize(lm[i as int]) }));
            }
            cons_doc(block, parse_blocks(lines, i + 1))
        }
    }
}

fn split_lines(s: &str) -> (r: Vec<String>)
    ensures
        lines_model(r@) == spec_split_lines(s@),
    decreases s@.len(),
{
    let len: usize = s.unicode_len();
    if len == 0 {
        let v: Vec<String> = Vec::new();
        proof {
            assert(lines_model(v@) =~= spec_split_lines(s@));
        }
        v
    } else {
        match find_char(s, 0, '\n') {
            None => {
                let mut v: Vec<String> = Vec::new();
                v.push(s.to_owned());
                proof {
                    assert(lines_model(v@) =~= spec_split_lines(s@));
                }
                v
            },
            Some(j) => {
                proof {
                    lemma_spec_find(s@, 0, '\n');
                }
                let head = s.substring_char(0, j).to_owned();
                let tail = s.substring_char(j + 1, len);
                let mut v: Vec<String> = Vec::new();
                v.push(head);
                let mut rest = split_lines(tail);
                let ghost rest0 = rest@;
                v.append(&mut rest);
                proof {
                    assert(lines_model(v@) =~= seq![s@.subrange(0, j as int)] + lines_model(
                        rest0,
                    ));
                    assert(lines_model(v@) =~= spec_split_lines(s@));
                }
                v
            },
        }
    }
}

/// Parse one input into its document: all of the input is consumed, in line
/// order. Returns the failure signal exactly when the input does not end
/// with a line terminator or a fenced code block is never closed; all other
/// malformed input degrades to plaintext and parses.
pub fn parse(input: &str) -> (r: Result<Vec<Markdown>, ParseFailure>)
    ensures
        r matches Ok(doc) ==> spec_parse(input@) == Some(doc_model(doc@)),
        r is Err ==> spec_parse(input@) is None,
{
    let len: usize = input.unicode_len();
    if len == 0 {
        return Err(ParseFailure);
    }
    let last = input.get_char(len - 1);
    if last != '\n' {
        return Err(ParseFailure);
    }
    let lines = split_lines(input);
    parse_blocks(&lines, 0)
}

/// Whether every heading of a document carries a rank in 1..=6.
pub open spec fn headings_in_range(d: Seq<BlockModel>) -> bool {
    forall|i: int|
        0 <= i < d.len() ==> ((#[trigger] d[i]) matches BlockModel::Heading { level, .. } ==> 1
            <= level <= 6)
}

proof fn lemma_parse_blocks_heading_levels(lines: Seq<Seq<char>>, i: int)
    ensures
        spec_parse_lines(lines, i) matches Some(d) ==> headings_in_range(d),
    decreases lines.len() - i,
{
    lemma_spec_fence_scan(lines, i + 1);
    lemma_spec_list_run_end(lines, i, false);
    lemma_spec_list_run_end(lines, i, true);
    if i >= lines.len() {
    } else {
        let l = lines[i];
        if is_heading_line(l) {
            lemma_parse_blocks_heading_levels(lines, i + 1);
        } else if is_fence_line(l) {
            match spec_fence_scan(lines, i + 1) {
                None => {},
                Some((body, nx)) => {
                    lemma_parse_blocks_heading_levels(lines, nx);
                },
            }
        } else if is_unordered_item(l) {
            lemma_parse_blocks_heading_levels(lines, spec_list_run_end(lines, i, false));
        } else if is_ordered_item(l) {
            lemma_parse_blocks_heading_levels(lines, spec_list_run_end(lines, i, true));
        } else {
            lemma_parse_blocks_heading_levels(lines, i + 1);
        }
    }
}

/// No heading of any rank outside 1..=6 is constructible by the parser:
/// every heading in a parsed document carries a rank in 1..=6.
pub proof fn lemma_parse_heading_levels(s: Seq<char>)
    ensures
        spec_parse(s) matches Some(d) ==> headings_in_range(d),
{
    if ends_with_newline(s) {
        lemma_parse_blocks_heading_levels(spec_split_lines(s), 0);
    }
}

/// An opened fence with no closing fence after it makes the whole parse
/// fail: no partial document is produced.
pub proof fn lemma_unterminated_fence_fails(lines: Seq<Seq<char>>, i: int)
    requires
        0 <= i < lines.len(),
        is_fence_line(lines[i]),
        forall|j: int| i < j < lines.len() ==> !is_fence_line(#[trigger] lines[j]),
    ensures
        spec_parse_lines(lines, i) is None,
{
    assert(spec_run_end(lines[i], 0, '#') == 0);
    lemma_spec_fence_scan_none(lines, i + 1);
}

proof fn lemma_parse_blocks_failure(lines: Seq<Seq<char>>, i: int)
    ensures
        spec_parse_lines(lines, i) is None ==> exists|j: int|
            i <= j < lines.len() && is_fence_line(#[trigger] lines[j]) && spec_fence_scan(
                lines,
                j + 1,
            ) is None,
    decreases lines.len() - i,
{
    lemma_spec_fence_scan(lines, i + 1);
    lemma_spec_list_run_end(lines, i, false);
    lemma_spec_list_run_end(lines, i, true);
    if i >= lines.len() {
    } else {
        let l = lines[i];
        if is_heading_line(l) {
            lemma_parse_blocks_failure(lines, i + 1);
        } else if is_fence_line(l) {
            match spec_fence_scan(lines, i + 1) {
                None => {
                    assert(i <= i < lines.len() && is_fence_line(lines[i]) && spec_fence_scan(
                        lines,
                        i + 1,
                    ) is None);
                },
                Some((body, nx)) => {
                    lemma_parse_blocks_failure(lines, nx);
                },
            }
        } else if is_unordered_item(l) {
            lemma_parse_blocks_failure(lines, spec_list_run_end(lines, i, false));
        } else if is_ordered_item(l) {
            lemma_parse_blocks_failure(lines, spec_list_run_end(lines, i, true));
        } else {
            lemma_parse_blocks_failure(lines, i + 1);
        }
    }
}

/// Parsing fails for exactly two reasons: either the input does not end with
/// the required terminator, or some fence line opens a code block that no
/// later fence line closes. Nothing else is fatal.
pub proof fn lemma_parse_failure_reasons(s: Seq<char>)
    ensures
        spec_parse(s) is None ==> !ends_with_newline(s) || exists|j: int|
            0 <= j < spec_split_lines(s).len() && is_fence_line(
                #[trigger] spec_split_lines(s)[j],
            ) && spec_fence_scan(spec_split_lines(s), j + 1) is None,
{
    if ends_with_newline(s) {
        lemma_parse_blocks_failure(spec_split_lines(s), 0);
    }
}

/// A delimiter opened at `i` but never closed does not fail tokenization:
/// the pending run, the delimiter and all text up to end of line become one
/// literal plaintext span.
pub proof fn lemma_unmatched_delimiter_degrades(s: Seq<char>, r: int, i: int)
    requires
        0 <= r <= i < s.len(),
        is_delimiter_attempt(s, i),
        spec_try_delim(s, i) is None,
    ensures
        spec_scan_text(s, r, i) == seq![InlineModel::Plaintext(s.subrange(r, s.len() as int))],
{
}

} // verus!
