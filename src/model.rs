use vstd::prelude::*;

use crate::token::{char_kind, keyword_kind, mode_kind, Kind, Lexeme};
use crate::utility::{alphabetical, alphanumeric, escape_of, integral};

verus! {

/// The character at index `i` of `s`, or the null character past its end.
pub open spec fn char_at(s: Seq<char>, i: nat) -> char {
    if i < s.len() {
        s[i as int]
    } else {
        '\0'
    }
}

/// The (line, column) reached after consuming the first `n` characters of
/// `s`, starting at (1, 1); past the end every character counts as one column.
pub open spec fn pos_at(s: Seq<char>, n: nat) -> (nat, nat)
    decreases n,
{
    if n == 0 {
        (1, 1)
    } else {
        let p = pos_at(s, (n - 1) as nat);
        if char_at(s, (n - 1) as nat) == '\n' {
            (p.0 + 1, 1)
        } else {
            (p.0, p.1 + 1)
        }
    }
}

/// `a` is not later than `b`, by line and then column.
pub open spec fn pos_le(a: (nat, nat), b: (nat, nat)) -> bool {
    a.0 < b.0 || (a.0 == b.0 && a.1 <= b.1)
}

/// The kinds of character runs that the scanner consumes.
pub enum Run {
    /// Spaces and tabs.
    Blank,
    /// Letters, digits and `_`.
    Word,
    /// Digits and `_`.
    Digits,
    /// Anything up to a newline.
    Line,
}

pub open spec fn in_run(run: Run, c: char) -> bool {
    match run {
        Run::Blank => c == ' ' || c == '\t',
        Run::Word => alphanumeric(c),
        Run::Digits => integral(c),
        Run::Line => c != '\n',
    }
}

/// The first index at or after `i` whose character ends the run.
pub open spec fn run_end(s: Seq<char>, i: nat, run: Run) -> nat
    decreases s.len() - i,
{
    if i < s.len() && in_run(run, s[i as int]) {
        run_end(s, i + 1, run)
    } else {
        i
    }
}

/// A double quote at index `i` that no backslash precedes: it closes a
/// single-line string literal.
pub open spec fn closes_string(s: Seq<char>, i: nat) -> bool {
    s[i as int] == '"' && !(i >= 1 && s[i - 1] == '\\')
}

/// The first index at or after `i` that closes a single-line string
/// literal, or the end of the text.
pub open spec fn quote_close(s: Seq<char>, i: nat) -> nat
    decreases s.len() - i,
{
    if i < s.len() && !closes_string(s, i) {
        quote_close(s, i + 1)
    } else {
        i
    }
}

/// The first index at or after `i` where a `*/` starts, or the end of the
/// text.
pub open spec fn block_close(s: Seq<char>, i: nat) -> nat
    decreases s.len() - i,
{
    if i < s.len() && !(s[i as int] == '*' && char_at(s, i + 1) == '/') {
        block_close(s, i + 1)
    } else {
        i
    }
}

/// A diagnostic of the scanner: its message, and the index of the cursor
/// when it was recorded.
pub struct Note {
    pub message: Seq<char>,
    pub at: nat,
}

/// One call of the scanner: the token's kind, the index at which it starts,
/// the index of the cursor after it, and the diagnostics recorded.
pub struct Step {
    pub kind: Lexeme,
    pub start: nat,
    pub end: nat,
    pub notes: Seq<Note>,
}

pub open spec fn unterminated_string() -> Seq<char> {
    "Unterminated string literal"@
}

pub open spec fn unterminated_escape() -> Seq<char> {
    "Unterminated escape character"@
}

pub open spec fn unrecognized_escape() -> Seq<char> {
    "Unrecognized escape character: \\"@
}

pub open spec fn missing_delimiter() -> Seq<char> {
    "Missing start of line delimiter '|'"@
}

pub open spec fn unterminated_comment() -> Seq<char> {
    "Unterminated block comment"@
}

/// The message for a backslash at index `i` of `t` that starts no escape
/// sequence of the table.
pub open spec fn escape_message(t: Seq<char>, i: int) -> Seq<char> {
    if i + 1 < t.len() {
        unrecognized_escape().push(t[i + 1])
    } else {
        unterminated_escape()
    }
}

/// Escape processing of `t` from index `i` on, where `out` and `msgs` hold
/// the text and messages produced before `i`.
pub open spec fn unescape(t: Seq<char>, i: nat, out: Seq<char>, msgs: Seq<Seq<char>>) -> (Seq<char>, Seq<Seq<char>>)
    decreases t.len() - i,
{
    if i >= t.len() {
        (out, msgs)
    } else if t[i as int] == '\\' {
        if i + 2 <= t.len() && escape_of(t.subrange(i as int, i + 2 as int)).is_some() {
            unescape(t, i + 2, out.push(escape_of(t.subrange(i as int, i + 2 as int)).unwrap()), msgs)
        } else {
            unescape(t, i + 1, out.push('\\'), msgs.push(escape_message(t, i as int)))
        }
    } else {
        unescape(t, i + 1, out.push(t[i as int]), msgs)
    }
}

/// The text and messages of escape processing of all of `t`.
pub open spec fn unescaped(t: Seq<char>) -> (Seq<char>, Seq<Seq<char>>) {
    unescape(t, 0, Seq::empty(), Seq::empty())
}

/// Messages recorded with the cursor at `at`.
pub open spec fn notes_at(msgs: Seq<Seq<char>>, at: nat) -> Seq<Note> {
    msgs.map_values(|m: Seq<char>| Note { message: m, at })
}

/// A string literal's end: `raw` is what it holds before escapes, `end` the
/// cursor after it, and `closed` whether its closing quote was found.
pub open spec fn literal_step(start: nat, end: nat, raw: Seq<char>, closed: bool, notes: Seq<Note>) -> Step {
    let (text, msgs) = unescaped(raw);
    let unterminated = if closed {
        Seq::<Note>::empty()
    } else {
        seq![Note { message: unterminated_string(), at: end }]
    };
    Step { kind: Lexeme::Str(text), start, end, notes: notes + unterminated + notes_at(msgs, end) }
}

/// A single-line string literal whose opening quote is at `k`.
pub open spec fn string_step(s: Seq<char>, k: nat) -> Step {
    let j = quote_close(s, k + 1);
    literal_step(k, j + 1, s.subrange(k + 1 as int, j as int), j < s.len(), Seq::empty())
}

/// The body of a multi-line string literal, with the cursor at `r`: the
/// cursor where the body ends, the text, and the diagnostics so far.
pub open spec fn multiline_body(s: Seq<char>, r: nat, text: Seq<char>, notes: Seq<Note>) -> (nat, Seq<char>, Seq<Note>)
    decreases s.len() + 2 - r,
    via multiline_body_decreases
{
    let next = char_at(s, r + 1);
    if r + 1 >= s.len() || next == '"' {
        (r, text, notes)
    } else if next == '\n' {
        let line = text.push('\n');
        let q = run_end(s, r + 2, Run::Blank);
        if char_at(s, q) == '|' {
            if char_at(s, q + 1) == '"' {
                (q, line, notes)
            } else if q + 1 < s.len() {
                multiline_body(s, q + 1, line.push(s[q + 1 as int]), notes)
            } else {
                multiline_body(s, q + 1, line, notes)
            }
        } else {
            multiline_body(s, q + 1, line, notes.push(Note { message: missing_delimiter(), at: q }))
        }
    } else {
        multiline_body(s, r + 1, text.push(next), notes)
    }
}

/// A multi-line string literal whose opening `"|` is at `k`.
pub open spec fn multiline_step(s: Seq<char>, k: nat) -> Step {
    let (r, raw, notes) = multiline_body(s, k + 1, Seq::empty(), Seq::empty());
    literal_step(k, r + 2, raw, char_at(s, r + 1) == '"', notes)
}

/// A word starting at `k`: a keyword, a mode, or else a tag.
pub open spec fn word_step(s: Seq<char>, k: nat) -> Step {
    let e = run_end(s, k, Run::Word);
    let w = s.subrange(k as int, e as int);
    let kind = match keyword_kind(w) {
        Some(kw) => kw@,
        None => match mode_kind(w) {
            Some(m) => m@,
            None => Lexeme::Tag(w),
        },
    };
    Step { kind, start: k, end: e, notes: Seq::empty() }
}

/// A number starting at `k`: digits and `_`, then, after a `.`, a fraction.
pub open spec fn number_step(s: Seq<char>, k: nat) -> Step {
    let j = run_end(s, k, Run::Digits);
    if char_at(s, j) == '.' {
        let e = run_end(s, j + 1, Run::Digits);
        Step { kind: Lexeme::Float(s.subrange(k as int, e as int)), start: k, end: e, notes: Seq::empty() }
    } else {
        Step { kind: Lexeme::Integer(s.subrange(k as int, j as int)), start: k, end: j, notes: Seq::empty() }
    }
}

/// The compound operators that start with `c`, each with its length and
/// kind, longest first where two share a prefix.
pub open spec fn compound_candidates(c: char) -> Seq<(usize, &'static str, Kind)> {
    if c == '=' {
        seq![(2usize, "=>", Kind::WideArrow), (2usize, "==", Kind::Equal)]
    } else if c == ':' {
        seq![(2usize, ":=", Kind::AssignExp)]
    } else if c == '>' {
        seq![(2usize, ">=", Kind::GreaterEq), (2usize, ">>", Kind::RightShift)]
    } else if c == '<' {
        seq![
            (2usize, "<=", Kind::LesserEq),
            (2usize, "<<", Kind::LeftShift),
            (2usize, "<|", Kind::ForwardApp),
            (2usize, "<>", Kind::Concat),
        ]
    } else if c == '-' {
        seq![(2usize, "->", Kind::Arrow), (2usize, "--", Kind::Decrement)]
    } else if c == '+' {
        seq![(2usize, "++", Kind::Increment)]
    } else if c == '*' {
        seq![(2usize, "**", Kind::Power)]
    } else if c == '.' {
        seq![(3usize, "..=", Kind::RangeInc), (2usize, "..", Kind::RangeExc)]
    } else if c == '!' {
        seq![(2usize, "!=", Kind::NotEqual)]
    } else if c == '|' {
        seq![(2usize, "|>", Kind::ReverseApp)]
    } else {
        Seq::empty()
    }
}

/// `s` holds the text `op`, of `n` characters, at index `k`.
pub open spec fn text_at(s: Seq<char>, k: nat, n: nat, op: Seq<char>) -> bool {
    k + n <= s.len() && s.subrange(k as int, k + n as int) == op
}

/// The first candidate from index `i` on whose text stands at `k`.
pub open spec fn first_match(s: Seq<char>, k: nat, cands: Seq<(usize, &'static str, Kind)>, i: nat) -> Option<(usize, Kind)>
    decreases cands.len() - i,
{
    if i >= cands.len() {
        None
    } else if text_at(s, k, cands[i as int].0 as nat, cands[i as int].1@) {
        Some((cands[i as int].0, cands[i as int].2))
    } else {
        first_match(s, k, cands, i + 1)
    }
}

/// How far the cursor moves when asked to move `n`: at most three.
pub open spec fn clamped(n: nat) -> nat {
    if n > 3 {
        3
    } else {
        n
    }
}

/// The kind of a single character inside the text: that of the character
/// table, but a null character there is no end of the text.
pub open spec fn single_kind(c: char) -> Kind {
    if c == '\0' {
        Kind::Illegal
    } else {
        char_kind(c)
    }
}

/// A punctuation or operator token whose first character is at `k`.
pub open spec fn symbol_step(s: Seq<char>, k: nat) -> Step {
    match first_match(s, k, compound_candidates(char_at(s, k)), 0) {
        Some((n, kind)) => Step { kind: kind@, start: k, end: k + clamped(n as nat), notes: Seq::empty() },
        None => Step { kind: single_kind(char_at(s, k))@, start: k, end: k + 1, notes: Seq::empty() },
    }
}

/// Where a block comment whose `/*` is at `k` leaves the cursor: after the
/// first `*/` that follows the opener, or at the end of the text with a
/// diagnostic.
pub open spec fn block_comment_end(s: Seq<char>, k: nat) -> (nat, Seq<Note>) {
    let i = block_close(s, k + 2);
    if i < s.len() {
        (i + 2, Seq::empty())
    } else {
        (i, seq![Note { message: unterminated_comment(), at: i }])
    }
}

/// One call of the scanner with the cursor at `r`: skip spaces, tabs and
/// comments, then read one token.
pub open spec fn step_from(s: Seq<char>, r: nat) -> Step
    decreases s.len() + 1 - r,
    via step_from_decreases
{
    let k = run_end(s, r, Run::Blank);
    let c = char_at(s, k);
    if k >= s.len() {
        Step { kind: Kind::Eof@, start: k, end: k, notes: Seq::empty() }
    } else if alphabetical(c) {
        word_step(s, k)
    } else if integral(c) {
        number_step(s, k)
    } else if c == '"' {
        if char_at(s, k + 1) == '|' {
            multiline_step(s, k)
        } else {
            string_step(s, k)
        }
    } else if c == '/' && char_at(s, k + 1) == '/' {
        step_from(s, run_end(s, k, Run::Line))
    } else if c == '/' && char_at(s, k + 1) == '*' {
        let (e, notes) = block_comment_end(s, k);
        let rest = step_from(s, e);
        Step { kind: rest.kind, start: rest.start, end: rest.end, notes: notes + rest.notes }
    } else {
        symbol_step(s, k)
    }
}

pub proof fn lemma_run_end(s: Seq<char>, i: nat, run: Run)
    ensures
        i <= run_end(s, i, run),
        i <= s.len() ==> run_end(s, i, run) <= s.len(),
        run_end(s, i, run) < s.len() ==> !in_run(run, s[run_end(s, i, run) as int]),
        forall|j: int| i <= j < run_end(s, i, run) ==> j < s.len() && in_run(run, #[trigger] s[j]),
    decreases s.len() - i,
{
    if i < s.len() && in_run(run, s[i as int]) {
        lemma_run_end(s, i + 1, run);
    }
}

pub proof fn lemma_run_step(s: Seq<char>, i: nat, run: Run)
    ensures
        i < s.len() && in_run(run, char_at(s, i)) ==> run_end(s, i, run) == run_end(s, i + 1, run),
        !(i < s.len() && in_run(run, char_at(s, i))) ==> run_end(s, i, run) == i,
{
}

pub proof fn lemma_block_close(s: Seq<char>, i: nat)
    ensures
        i <= block_close(s, i),
        i <= s.len() ==> block_close(s, i) <= s.len(),
        block_close(s, i) < s.len() ==> block_close(s, i) + 1 < s.len() && s[block_close(s, i) as int] == '*'
            && s[block_close(s, i) + 1 as int] == '/',
    decreases s.len() - i,
{
    if i < s.len() && !(s[i as int] == '*' && char_at(s, i + 1) == '/') {
        lemma_block_close(s, i + 1);
    }
}

pub proof fn lemma_quote_close(s: Seq<char>, i: nat)
    ensures
        i <= quote_close(s, i),
        i <= s.len() ==> quote_close(s, i) <= s.len(),
        quote_close(s, i) < s.len() ==> closes_string(s, quote_close(s, i)),
    decreases s.len() - i,
{
    if i < s.len() && !closes_string(s, i) {
        lemma_quote_close(s, i + 1);
    }
}

pub proof fn lemma_pos_bounds(s: Seq<char>, n: nat)
    ensures
        1 <= pos_at(s, n).0 <= n + 1,
        1 <= pos_at(s, n).1 <= n + 1,
    decreases n,
{
    if n > 0 {
        lemma_pos_bounds(s, (n - 1) as nat);
    }
}

/// A comment starting with the `/` at `k` ends after `k`, and not past the
/// end of the text.
pub proof fn lemma_comment_progress(s: Seq<char>, k: nat)
    requires
        k < s.len(),
        s[k as int] == '/',
    ensures
        k < run_end(s, k, Run::Line) <= s.len(),
        char_at(s, k + 1) == '*' ==> k < block_comment_end(s, k).0 <= s.len(),
{
    lemma_run_end(s, k + 1, Run::Line);
    if char_at(s, k + 1) == '*' {
        lemma_block_close(s, k + 2);
    }
}

#[via_fn]
proof fn multiline_body_decreases(s: Seq<char>, r: nat, text: Seq<char>, notes: Seq<Note>) {
    lemma_run_end(s, r + 2, Run::Blank);
}

#[via_fn]
proof fn step_from_decreases(s: Seq<char>, r: nat) {
    let k = run_end(s, r, Run::Blank);
    lemma_run_end(s, r, Run::Blank);
    if char_at(s, k) == '/' {
        lemma_run_end(s, k, Run::Line);
        if char_at(s, k + 1) == '*' {
            lemma_block_close(s, k + 2);
        }
    }
}

} // verus!
