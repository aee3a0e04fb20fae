//! Docstrings.
use vstd::prelude::*;

use crate::ast::{Expr, Stmt};
use crate::compiler::CompileOpts;
use crate::text::{
    chars_of, lemma_split_characters, lemma_split_nonempty, lemma_split_one_more, lemma_split_whole,
    split, split_on, text_of, texts, white_space,
};

verus! {

/// The distance between tab stops.
pub const TAB_SIZE: usize = 8;

/// The column after a text whose tabs are expanded.
pub open spec fn column(s: Seq<char>) -> nat
    decreases s.len(),
{
    if s.len() == 0 || s.last() == '\n' || s.last() == '\r' {
        0
    } else if s.last() == '\t' {
        (column(s.drop_last()) / 8 + 1) * 8
    } else {
        column(s.drop_last()) + 1
    }
}

/// Some spaces.
pub open spec fn spaces(n: nat) -> Seq<char> {
    Seq::new(n, |i: int| ' ')
}

/// A text with each tab expanded to the next tab stop.
pub open spec fn expanded(s: Seq<char>) -> Seq<char>
    decreases s.len(),
{
    if s.len() == 0 {
        Seq::empty()
    } else if s.last() == '\t' {
        expanded(s.drop_last()) + spaces((8 - column(s.drop_last()) % 8) as nat)
    } else {
        expanded(s.drop_last()).push(s.last())
    }
}

/// Whether a line is nothing but white space.
pub open spec fn blank(line: Seq<char>) -> bool {
    forall|i: int| 0 <= i < line.len() ==> white_space(#[trigger] line[i])
}

/// The number of spaces that a line starts with, from character `i` on.
pub open spec fn indentation(line: Seq<char>, i: nat) -> nat
    decreases line.len() - i,
{
    if i < line.len() && line[i as int] == ' ' {
        1 + indentation(line, i + 1)
    } else {
        0
    }
}

/// The least indentation of the first `n` lines that are not blank.
pub open spec fn margin(lines: Seq<Seq<char>>, n: nat) -> Option<nat>
    decreases n,
{
    if n == 0 || n > lines.len() {
        None
    } else {
        let line = lines[n - 1];
        let before = margin(lines, (n - 1) as nat);
        if blank(line) {
            before
        } else {
            match before {
                Some(m) if m <= indentation(line, 0) => Some(m),
                _ => Some(indentation(line, 0)),
            }
        }
    }
}

/// A line without the white space it starts with.
pub open spec fn trimmed_start(line: Seq<char>) -> Seq<char>
    decreases line.len(),
{
    if line.len() > 0 && white_space(line[0]) {
        trimmed_start(line.drop_first())
    } else {
        line
    }
}

/// The first of some lines, without the carriage return that a line break may start with.
pub open spec fn first_line(lines: Seq<Seq<char>>) -> Seq<char> {
    let line = lines[0];
    if lines.len() > 1 && line.len() > 0 && line.last() == '\r' {
        line.drop_last()
    } else {
        line
    }
}

/// A line without its first `m` characters.
pub open spec fn without_margin(line: Seq<char>, m: nat) -> Seq<char> {
    if m >= line.len() {
        Seq::empty()
    } else {
        line.subrange(m as int, line.len() as int)
    }
}

/// The first `n` lines of a docstring, cleaned: the first without leading white space, the others
/// without their margin.
pub open spec fn cleaned_lines(lines: Seq<Seq<char>>, m: nat, n: nat) -> Seq<char>
    decreases n,
{
    if n <= 1 || n > lines.len() {
        trimmed_start(first_line(lines))
    } else {
        cleaned_lines(lines, m, (n - 1) as nat).push('\n') + without_margin(lines[n - 1], m)
    }
}

/// The least indentation of the lines after the first that are not blank, or 0 where there are
/// none.
pub open spec fn margin_after_first(lines: Seq<Seq<char>>) -> nat {
    match margin(lines.drop_first(), (lines.len() - 1) as nat) {
        Some(m) => m,
        None => 0,
    }
}

/// A docstring without its indentation: where there is anything but white space in it, the first
/// line loses its leading white space, and the others the least indentation of those of them that
/// are not blank.
pub open spec fn cleaned(doc: Seq<char>) -> Seq<char> {
    let d = expanded(doc);
    let lines = split_on(d, '\n');
    if margin(lines, lines.len()) is None {
        d
    } else {
        cleaned_lines(lines, margin_after_first(lines), lines.len())
    }
}

/// Whether a body starts with a docstring.
pub open spec fn starts_with_doc(body: Seq<Stmt>) -> bool {
    body.len() > 0 && match body[0] {
        Stmt::Expr(x) => *x.value is StringLiteral,
        _ => false,
    }
}

/// The docstring of a body, cleaned, unless the level of optimisation drops it.
pub open spec fn doc_of(body: Seq<Stmt>, optimize: u8) -> Option<Seq<char>> {
    if body.len() > 0 && optimize < 2 {
        match body[0] {
            Stmt::Expr(x) => match *x.value {
                Expr::StringLiteral(doc) => Some(cleaned(doc.value@)),
                _ => None,
            },
            _ => None,
        }
    } else {
        None
    }
}

/// Where the statements of a body start that are not its docstring.
pub open spec fn body_start(body: Seq<Stmt>) -> nat {
    if starts_with_doc(body) {
        1
    } else {
        0
    }
}

/// Expands tabs.
pub fn expandtabs(input: &str) -> (r: String)
    ensures
        r@ == expanded(input@),
{
    let chars = chars_of(input);
    let n: usize = chars.len();
    let mut r: String = String::new();
    // the column, but for a multiple of the tab size
    let mut col: usize = 0;
    let mut i: usize = 0;
    assert(chars@.take(0) =~= Seq::empty());
    while i < n
        invariant
            i <= n,
            n == chars@.len(),
            col == column(chars@.take(i as int)) % 8,
            r@ == expanded(chars@.take(i as int)),
        decreases n - i,
    {
        let ghost before = r@;
        assert(chars@.take(i + 1).drop_last() =~= chars@.take(i as int));
        let c = chars[i];
        if c == '\t' {
            let count: usize = TAB_SIZE - col;
            let mut k: usize = 0;
            assert(before + spaces(0) =~= before);
            while k < count
                invariant
                    k <= count,
                    r@ == before + spaces(k as nat),
                decreases count - k,
            {
                r.push(' ');
                assert((before + spaces(k as nat)).push(' ') =~= before + spaces((k + 1) as nat));
                k += 1;
            }
            col = 0;
        } else {
            r.push(c);
            if c == '\n' || c == '\r' {
                col = 0;
            } else {
                col = (col + 1) % TAB_SIZE;
            }
        }
        i += 1;
    }
    assert(chars@.take(n as int) =~= chars@);
    r
}

fn is_blank(line: &Vec<char>) -> (r: bool)
    ensures
        r == blank(line@),
{
    let n: usize = line.len();
    let mut i: usize = 0;
    while i < n
        invariant
            i <= n,
            n == line@.len(),
            forall|j: int| 0 <= j < i ==> white_space(#[trigger] line@[j]),
        decreases n - i,
    {
        if !line[i].is_whitespace() {
            return false;
        }
        i += 1;
    }
    true
}

fn indentation_of(line: &Vec<char>) -> (r: usize)
    ensures
        r == indentation(line@, 0),
{
    let n: usize = line.len();
    let mut i: usize = 0;
    while i < n && line[i] == ' '
        invariant
            i <= n,
            n == line@.len(),
            i + indentation(line@, i as nat) == indentation(line@, 0),
        decreases n - i,
    {
        i += 1;
    }
    i
}

fn trim_start(line: &Vec<char>, n: usize) -> (r: String)
    requires
        n <= line@.len(),
    ensures
        r@ == trimmed_start(line@.take(n as int)),
{
    let mut i: usize = 0;
    let ghost whole = line@.take(n as int);
    assert(line@.subrange(0, n as int) =~= whole);
    while i < n && line[i].is_whitespace()
        invariant
            i <= n,
            n <= line@.len(),
            trimmed_start(whole) == trimmed_start(line@.subrange(i as int, n as int)),
        decreases n - i,
    {
        assert(line@.subrange(i as int, n as int).drop_first() =~= line@.subrange(i + 1, n as int));
        i += 1;
    }
    text_of(line, i, n)
}

/// Strips leading whitespace from a docstring.
pub fn clean_doc(doc: &str) -> (r: String)
    ensures
        r@ == cleaned(doc@),
{
    let doc = expandtabs(doc);
    let lines = split(doc.as_str(), '\n');
    let n: usize = lines.len();
    let ghost all = texts(lines@);
    let ghost after = all.drop_first();
    let line = chars_of(lines[0].as_str());
    assert(line@ == all[0]);
    let mut blank = is_blank(&line);
    // First pass: find minimum indentation of any non-blank lines
    // after first line.
    let mut least: Option<usize> = None;
    let mut i: usize = 1;
    assert(margin(all, 0) is None);
    while i < n
        invariant
            1 <= i <= n,
            n == lines@.len(),
            all == texts(lines@),
            after == all.drop_first(),
            blank == (margin(all, i as nat) is None),
            match least {
                Some(m) => margin(after, (i - 1) as nat) == Some(m as nat),
                None => margin(after, (i - 1) as nat) is None,
            },
        decreases n - i,
    {
        let line = chars_of(lines[i].as_str());
        assert(line@ == all[i as int]);
        assert(line@ == after[i - 1]);
        if !is_blank(&line) {
            blank = false;
            let indent: usize = indentation_of(&line);
            match least {
                Some(m) if m <= indent => {},
                _ => {
                    least = Some(indent);
                },
            }
        }
        i += 1;
    }
    if blank {
        return doc;
    }
    let m: usize = match least {
        Some(m) => m,
        None => 0,
    };
    // copy first line without leading whitespace
    let k: usize = line.len();
    let end: usize = if n > 1 && k > 0 && line[k - 1] == '\r' {
        k - 1
    } else {
        k
    };
    assert(line@.take(end as int) =~= first_line(all));
    let mut cleaned = trim_start(&line, end);
    // copy subsequent lines without margin.
    let mut i: usize = 1;
    while i < n
        invariant
            1 <= i <= n,
            n == lines@.len(),
            all == texts(lines@),
            cleaned@ == cleaned_lines(all, m as nat, i as nat),
        decreases n - i,
    {
        cleaned.push('\n');
        let line = chars_of(lines[i].as_str());
        assert(line@ == all[i as int]);
        let from: usize = if m < line.len() {
            m
        } else {
            line.len()
        };
        let rest = text_of(&line, from, line.len());
        assert(rest@ =~= without_margin(all[i as int], m as nat));
        cleaned.append(rest.as_str());
        i += 1;
    }
    cleaned
}

/// The docstring of a body, and where its other statements start.
pub fn split_doc(body: &Vec<Stmt>, opts: &CompileOpts) -> (r: (Option<String>, usize))
    ensures
        match r.0 {
            Some(doc) => doc_of(body@, opts.optimize) == Some(doc@),
            None => doc_of(body@, opts.optimize) is None,
        },
        r.1 == body_start(body@),
        r.1 <= body@.len(),
{
    if body.len() == 0 {
        return (None, 0);
    }
    if let Stmt::Expr(x) = &body[0] {
        if let Expr::StringLiteral(doc) = &*x.value {
            return if opts.optimize < 2 {
                (Some(clean_doc(doc.value.as_str())), 1)
            } else {
                (None, 1)
            };
        }
    }
    (None, 0)
}

/// A line of a docstring, cleaned.
pub open spec fn cleaned_line(lines: Seq<Seq<char>>, m: nat, i: int) -> Seq<char> {
    if i == 0 {
        trimmed_start(first_line(lines))
    } else {
        without_margin(lines[i], m)
    }
}

/// Whether no line holds a line break.
pub open spec fn are_lines(lines: Seq<Seq<char>>) -> bool {
    forall|i: int| 0 <= i < lines.len() ==> !(#[trigger] lines[i]).contains('\n')
}

proof fn lemma_are_lines(s: Seq<char>)
    ensures
        are_lines(split_on(s, '\n')),
        split_on(s, '\n').len() > 0,
{
    let lines = split_on(s, '\n');
    lemma_split_nonempty(s, '\n');
    assert forall|i: int| 0 <= i < lines.len() implies !(#[trigger] lines[i]).contains('\n') by {
        assert forall|j: int| 0 <= j < lines[i].len() implies lines[i][j] != '\n' by {
            lemma_split_characters(s, '\n', i, j);
        }
    }
}

/// What is left of a line without its leading white space: all from some character on.
proof fn lemma_trimmed(line: Seq<char>) -> (k: int)
    ensures
        0 <= k <= line.len(),
        trimmed_start(line) == line.skip(k),
        forall|i: int| 0 <= i < k ==> white_space(#[trigger] line[i]),
        k < line.len() ==> !white_space(line[k]),
    decreases line.len(),
{
    if line.len() > 0 && white_space(line[0]) {
        let k = lemma_trimmed(line.drop_first());
        assert(line.drop_first().skip(k) =~= line.skip(k + 1));
        assert forall|i: int| 0 <= i < k + 1 implies white_space(#[trigger] line[i]) by {
            if i > 0 {
                assert(line.drop_first()[i - 1] == line[i]);
            }
        }
        k + 1
    } else {
        assert(line.skip(0) =~= line);
        0
    }
}

/// White space at the start of a line does not count for what is left without it.
proof fn lemma_trimmed_skip(line: Seq<char>, m: int)
    requires
        0 <= m <= line.len(),
        forall|i: int| 0 <= i < m ==> white_space(#[trigger] line[i]),
    ensures
        trimmed_start(line.skip(m)) == trimmed_start(line),
    decreases m,
{
    if m == 0 {
        assert(line.skip(0) =~= line);
    } else {
        assert(line.drop_first().skip(m - 1) =~= line.skip(m));
        lemma_trimmed_skip(line.drop_first(), m - 1);
    }
}

/// A line is blank if nothing is left of it without its leading white space.
proof fn lemma_trimmed_blank(line: Seq<char>)
    ensures
        blank(line) <==> trimmed_start(line).len() == 0,
{
    let k = lemma_trimmed(line);
    if k < line.len() {
        assert(!white_space(line[k]));
    }
}

/// A line is indented up to the first character that is no space.
proof fn lemma_indentation(line: Seq<char>, i: nat)
    requires
        i <= line.len(),
    ensures
        i + indentation(line, i) <= line.len(),
        forall|j: int| i <= j < i + indentation(line, i) ==> line[j] == ' ',
        i + indentation(line, i) < line.len() ==> line[(i + indentation(line, i)) as int] != ' ',
    decreases line.len() - i,
{
    if i < line.len() && line[i as int] == ' ' {
        lemma_indentation(line, i + 1);
    }
}

/// The margin is the least indentation of a line that is not blank.
proof fn lemma_margin(lines: Seq<Seq<char>>, n: nat) -> (least: int)
    requires
        n <= lines.len(),
    ensures
        match margin(lines, n) {
            Some(m) => {
                &&& 0 <= least < n
                &&& !blank(lines[least])
                &&& indentation(lines[least], 0) == m
                &&& forall|i: int|
                    0 <= i < n && !blank(#[trigger] lines[i]) ==> m <= indentation(lines[i], 0)
            },
            None => forall|i: int| 0 <= i < n ==> blank(#[trigger] lines[i]),
        },
    decreases n,
{
    if n == 0 {
        0
    } else {
        let before = lemma_margin(lines, (n - 1) as nat);
        if margin(lines, n) == margin(lines, (n - 1) as nat) {
            before
        } else {
            n - 1
        }
    }
}

/// What a line loses with its margin is white space.
proof fn lemma_without_margin(lines: Seq<Seq<char>>, i: int)
    requires
        1 <= i < lines.len(),
    ensures
        trimmed_start(without_margin(lines[i], margin_after_first(lines))) == trimmed_start(
            lines[i],
        ),
{
    let after = lines.drop_first();
    let m = margin_after_first(lines);
    let line = lines[i];
    assert(after[i - 1] == line);
    let _ = lemma_margin(after, after.len());
    lemma_indentation(line, 0);
    let k = if m <= line.len() {
        m as int
    } else {
        line.len() as int
    };
    assert forall|j: int| 0 <= j < k implies white_space(#[trigger] line[j]) by {
        if !blank(line) {
            assert(m <= indentation(line, 0));
            assert(line[j] == ' ');
        }
    }
    lemma_trimmed_skip(line, k);
    assert(without_margin(line, m) =~= line.skip(k));
}

/// The lines of a cleaned docstring.
proof fn lemma_cleaned_split(lines: Seq<Seq<char>>, m: nat, n: nat)
    requires
        1 <= n <= lines.len(),
        are_lines(lines),
    ensures
        split_on(cleaned_lines(lines, m, n), '\n') == Seq::new(
            n,
            |i: int| cleaned_line(lines, m, i),
        ),
    decreases n,
{
    let all = Seq::new(n, |i: int| cleaned_line(lines, m, i));
    if n == 1 {
        let first = first_line(lines);
        let k = lemma_trimmed(first);
        assert forall|i: int| 0 <= i < first.len() - k implies first.skip(k)[i] != '\n' by {
            assert(first[i + k] == lines[0][i + k]);
            assert(lines[0].contains(lines[0][i + k]));
        }
        lemma_split_whole(trimmed_start(first), '\n');
        assert(all =~= seq![trimmed_start(first)]);
    } else {
        let line = lines[n - 1];
        let rest = without_margin(line, m);
        assert forall|i: int| 0 <= i < rest.len() implies rest[i] != '\n' by {
            assert(line.contains(line[i + m]));
        }
        lemma_cleaned_split(lines, m, (n - 1) as nat);
        lemma_split_one_more(cleaned_lines(lines, m, (n - 1) as nat), '\n', rest);
        assert(all =~= Seq::new((n - 1) as nat, |i: int| cleaned_line(lines, m, i)).push(rest));
    }
}

/// Lines that are cleaned alike give the same docstring.
proof fn lemma_cleaned_alike(
    lines: Seq<Seq<char>>,
    m: nat,
    other: Seq<Seq<char>>,
    l: nat,
    n: nat,
)
    requires
        1 <= n <= lines.len(),
        n <= other.len(),
        forall|i: int|
            #![auto]
            0 <= i < n ==> cleaned_line(lines, m, i) == cleaned_line(other, l, i),
    ensures
        cleaned_lines(lines, m, n) == cleaned_lines(other, l, n),
    decreases n,
{
    assert(cleaned_line(lines, m, n - 1) == cleaned_line(other, l, n - 1));
    if n > 1 {
        lemma_cleaned_alike(lines, m, other, l, (n - 1) as nat);
    }
}

/// A text whose lines are all blank is blank.
proof fn lemma_blank_lines(s: Seq<char>)
    requires
        forall|i: int| 0 <= i < split_on(s, '\n').len() ==> blank(#[trigger] split_on(s, '\n')[i]),
    ensures
        blank(s),
    decreases s.len(),
{
    if s.len() > 0 {
        let all = split_on(s, '\n');
        let before = split_on(s.drop_last(), '\n');
        lemma_split_nonempty(s.drop_last(), '\n');
        let last = before.len() - 1;
        assert(blank(all[last]));
        assert forall|i: int| 0 <= i < before.len() implies blank(#[trigger] before[i]) by {
            assert(blank(all[i]));
            assert forall|j: int| 0 <= j < before[i].len() implies white_space(
                #[trigger] before[i][j],
            ) by {
                assert(all[i][j] == before[i][j]);
            }
        }
        lemma_blank_lines(s.drop_last());
        assert(white_space(s.last())) by {
            if s.last() != '\n' {
                assert(all[last][before[last].len() as int] == s.last());
            }
        }
        assert forall|i: int| 0 <= i < s.len() implies white_space(#[trigger] s[i]) by {
            if i < s.len() - 1 {
                assert(s.drop_last()[i] == s[i]);
            }
        }
    }
}

/// Spaces go to the last part.
proof fn lemma_split_spaces(s: Seq<char>, n: nat)
    ensures
        split_on(s + spaces(n), '\n').len() == split_on(s, '\n').len(),
    decreases n,
{
    if n == 0 {
        assert(s + spaces(0) =~= s);
    } else {
        assert((s + spaces(n)).drop_last() =~= s + spaces((n - 1) as nat));
        lemma_split_nonempty(s + spaces((n - 1) as nat), '\n');
        assert((s + spaces(n)).last() == ' ');
        lemma_split_spaces(s, (n - 1) as nat);
    }
}

/// An expanded text has no tab, no other characters than the text and spaces, and its line breaks.
proof fn lemma_expanded(s: Seq<char>)
    ensures
        !expanded(s).contains('\t'),
        forall|c: char| c != ' ' && #[trigger] expanded(s).contains(c) ==> s.contains(c),
        split_on(expanded(s), '\n').len() == split_on(s, '\n').len(),
        blank(expanded(s)) ==> blank(s),
    decreases s.len(),
{
    if s.len() > 0 {
        let before = expanded(s.drop_last());
        let all = expanded(s);
        let last = s.last();
        lemma_expanded(s.drop_last());
        lemma_split_nonempty(before, '\n');
        lemma_split_nonempty(s.drop_last(), '\n');
        if last == '\t' {
            lemma_split_spaces(before, (8 - column(s.drop_last()) % 8) as nat);
        } else {
            assert(all.drop_last() =~= before);
        }
        assert forall|i: int| 0 <= i < all.len() && all[i] != ' ' implies s.contains(
            #[trigger] all[i],
        ) && all[i] != '\t' by {
            if i < before.len() {
                assert(all[i] == before[i]);
                assert(before.contains(before[i]));
                let k = choose|k: int| 0 <= k < s.len() - 1 && s.drop_last()[k] == before[i];
                assert(s[k] == before[i]);
            } else {
                assert(s[s.len() - 1] == last);
            }
        }
        if blank(all) {
            assert forall|i: int| 0 <= i < before.len() implies white_space(
                #[trigger] before[i],
            ) by {
                assert(all[i] == before[i]);
            }
            assert(blank(s.drop_last()));
            assert(white_space(last)) by {
                if last != '\t' {
                    assert(all[before.len() as int] == last);
                }
            }
            assert forall|i: int| 0 <= i < s.len() implies white_space(#[trigger] s[i]) by {
                if i < s.len() - 1 {
                    assert(s.drop_last()[i] == s[i]);
                }
            }
        }
    }
}

/// A text without a tab stays as it is.
proof fn lemma_expanded_same(s: Seq<char>)
    requires
        !s.contains('\t'),
    ensures
        expanded(s) == s,
    decreases s.len(),
{
    if s.len() > 0 {
        assert forall|i: int| 0 <= i < s.len() - 1 implies s.drop_last()[i] != '\t' by {
            assert(s.contains(s[i]));
        }
        assert(s.contains(s.last()));
        lemma_expanded_same(s.drop_last());
    }
    assert(expanded(s) =~= s);
}

/// Where a docstring is not blank, its lines are cleaned one by one.
proof fn lemma_cleaned(doc: Seq<char>)
    requires
        margin(split_on(expanded(doc), '\n'), split_on(expanded(doc), '\n').len()) is Some,
    ensures
        ({
            let lines = split_on(expanded(doc), '\n');
            split_on(cleaned(doc), '\n') == Seq::new(
                lines.len(),
                |i: int| cleaned_line(lines, margin_after_first(lines), i),
            )
        }),
{
    let lines = split_on(expanded(doc), '\n');
    lemma_are_lines(expanded(doc));
    lemma_cleaned_split(lines, margin_after_first(lines), lines.len());
}

/// A cleaned docstring has as many lines as the docstring.
pub proof fn cleaning_keeps_the_line_breaks(doc: Seq<char>)
    ensures
        split_on(cleaned(doc), '\n').len() == split_on(doc, '\n').len(),
{
    let lines = split_on(expanded(doc), '\n');
    lemma_expanded(doc);
    if margin(lines, lines.len()) is Some {
        lemma_cleaned(doc);
    }
}

/// Cleaning takes nothing from a line but white space at its start, and from the first line the
/// carriage return that a line break starts with.
pub proof fn cleaning_takes_leading_white_space(doc: Seq<char>, i: int)
    requires
        0 <= i < split_on(doc, '\n').len(),
        i == 0 ==> !doc.contains('\r'),
    ensures
        trimmed_start(split_on(cleaned(doc), '\n')[i]) == trimmed_start(
            split_on(expanded(doc), '\n')[i],
        ),
{
    let lines = split_on(expanded(doc), '\n');
    lemma_expanded(doc);
    if margin(lines, lines.len()) is Some {
        lemma_cleaned(doc);
        if i > 0 {
            lemma_without_margin(lines, i);
        } else {
            lemma_first_line(doc);
            let k = lemma_trimmed(lines[0]);
            lemma_trimmed_skip(lines[0], k);
        }
    }
}

/// Without carriage returns, the first line is that of the text.
proof fn lemma_first_line(doc: Seq<char>)
    requires
        !doc.contains('\r'),
    ensures
        first_line(split_on(expanded(doc), '\n')) == split_on(expanded(doc), '\n')[0],
{
    let lines = split_on(expanded(doc), '\n');
    lemma_expanded(doc);
    if lines.len() > 1 && lines[0].len() > 0 {
        lemma_split_characters(expanded(doc), '\n', 0, lines[0].len() - 1);
        assert(lines[0].last() == lines[0][lines[0].len() - 1]);
    }
}

/// A docstring that is not blank starts, when it is cleaned, with an empty line or with a
/// character that is no white space.
pub proof fn cleaned_docstring_is_not_indented(doc: Seq<char>)
    requires
        !blank(doc),
    ensures
        ({
            let first = split_on(cleaned(doc), '\n')[0];
            first.len() > 0 ==> !white_space(first[0])
        }),
{
    let lines = split_on(expanded(doc), '\n');
    lemma_expanded(doc);
    lemma_are_lines(expanded(doc));
    if margin(lines, lines.len()) is None {
        let _ = lemma_margin(lines, lines.len());
        lemma_blank_lines(expanded(doc));
    } else {
        lemma_cleaned(doc);
        let k = lemma_trimmed(first_line(lines));
    }
}

/// A cleaned docstring has no tabs.
pub proof fn cleaning_leaves_no_tab(doc: Seq<char>)
    ensures
        !cleaned(doc).contains('\t'),
{
    let d = expanded(doc);
    let lines = split_on(d, '\n');
    lemma_expanded(doc);
    if margin(lines, lines.len()) is Some {
        lemma_are_lines(d);
        lemma_cleaned_characters(d, margin_after_first(lines), lines.len());
        if cleaned(doc).contains('\t') {
            assert(d.contains('\t'));
        }
    }
}

/// The characters of a cleaned docstring are line breaks and characters of the docstring.
proof fn lemma_cleaned_characters(d: Seq<char>, m: nat, n: nat)
    requires
        1 <= n <= split_on(d, '\n').len(),
    ensures
        forall|c: char|
            c != '\n' && #[trigger] cleaned_lines(split_on(d, '\n'), m, n).contains(c)
                ==> d.contains(c),
    decreases n,
{
    let lines = split_on(d, '\n');
    let all = cleaned_lines(lines, m, n);
    if n == 1 {
        let first = first_line(lines);
        let k = lemma_trimmed(first);
        assert forall|i: int| 0 <= i < all.len() implies d.contains(#[trigger] all[i]) by {
            assert(all[i] == lines[0][i + k]);
            lemma_split_characters(d, '\n', 0, i + k);
        }
    } else {
        let before = cleaned_lines(lines, m, (n - 1) as nat);
        lemma_cleaned_characters(d, m, (n - 1) as nat);
        assert forall|i: int| 0 <= i < all.len() && all[i] != '\n' implies d.contains(
            #[trigger] all[i],
        ) by {
            if i < before.len() {
                assert(before.contains(before[i]));
                assert(all[i] == before[i]);
            } else {
                let j = i - before.len() - 1 + m;
                assert(all[i] == lines[n - 1][j]);
                lemma_split_characters(d, '\n', n - 1, j);
            }
        }
    }
}

/// To clean a docstring twice is to clean it once.
pub proof fn cleaning_twice_changes_nothing(doc: Seq<char>)
    requires
        !doc.contains('\r'),
    ensures
        cleaned(cleaned(doc)) == cleaned(doc),
{
    let lines = split_on(expanded(doc), '\n');
    let n = lines.len();
    let m = margin_after_first(lines);
    let result = cleaned(doc);
    lemma_expanded(doc);
    cleaning_leaves_no_tab(doc);
    lemma_expanded_same(result);
    if margin(lines, n) is Some {
        lemma_are_lines(expanded(doc));
        lemma_cleaned(doc);
        lemma_first_line(doc);
        let again = split_on(result, '\n');
        assert forall|i: int| 0 <= i < n implies blank(#[trigger] again[i]) == blank(lines[i]) by {
            cleaning_takes_leading_white_space(doc, i);
            lemma_trimmed_blank(again[i]);
            lemma_trimmed_blank(lines[i]);
        }
        let some = lemma_margin(lines, n);
        assert(!blank(again[some]));
        let _ = lemma_margin(again, n);
        lemma_no_margin(lines, again);
        lemma_first_line_again(doc);
        assert forall|i: int| #![auto] 0 <= i < n implies cleaned_line(lines, m, i) == cleaned_line(
            again,
            0,
            i,
        ) by {
            assert(again[i] == cleaned_line(lines, m, i));
            if i == 0 {
                let k = lemma_trimmed(lines[0]);
                lemma_trimmed_skip(lines[0], k);
            } else {
                assert(without_margin(again[i], 0) =~= again[i]);
            }
        }
        lemma_cleaned_alike(lines, m, again, 0, n);
    }
}

/// The first line of a cleaned docstring without carriage returns has none.
proof fn lemma_first_line_again(doc: Seq<char>)
    requires
        !doc.contains('\r'),
        margin(split_on(expanded(doc), '\n'), split_on(expanded(doc), '\n').len()) is Some,
    ensures
        first_line(split_on(cleaned(doc), '\n')) == split_on(cleaned(doc), '\n')[0],
{
    let lines = split_on(expanded(doc), '\n');
    let again = split_on(cleaned(doc), '\n');
    lemma_are_lines(expanded(doc));
    lemma_expanded(doc);
    lemma_cleaned_characters(expanded(doc), margin_after_first(lines), lines.len());
    if again.len() > 1 && again[0].len() > 0 {
        lemma_split_characters(cleaned(doc), '\n', 0, again[0].len() - 1);
        assert(again[0].last() == again[0][again[0].len() - 1]);
        assert(cleaned(doc).contains(again[0].last()));
    }
}

/// Lines that lost their margin have none.
proof fn lemma_no_margin(lines: Seq<Seq<char>>, again: Seq<Seq<char>>)
    requires
        lines.len() > 0,
        again.len() == lines.len(),
        forall|i: int| 0 <= i < lines.len() ==> blank(#[trigger] again[i]) == blank(lines[i]),
        forall|i: int|
            1 <= i < lines.len() ==> (#[trigger] again[i]) == without_margin(
                lines[i],
                margin_after_first(lines),
            ),
    ensures
        margin_after_first(again) == 0,
{
    let after = lines.drop_first();
    let later = again.drop_first();
    let n = after.len();
    let least = lemma_margin(after, n);
    let _ = lemma_margin(later, n);
    match margin(after, n) {
        Some(m) => {
            let line = after[least];
            lemma_indentation(line, 0);
            assert(later[least] == again[least + 1]);
            assert(line == lines[least + 1]);
            lemma_indentation_rest(line, m);
            assert(blank(again[least + 1]) == blank(lines[least + 1]));
            assert(!blank(later[least]));
        },
        None => {
            assert forall|i: int| 0 <= i < n implies blank(#[trigger] later[i]) by {
                assert(blank(after[i]));
                assert(blank(again[i + 1]) == blank(lines[i + 1]));
            }
        },
    }
}

/// A line without its indentation is not indented.
proof fn lemma_indentation_rest(line: Seq<char>, m: nat)
    requires
        m == indentation(line, 0),
    ensures
        indentation(without_margin(line, m), 0) == 0,
{
    lemma_indentation(line, 0);
}

} // verus!
