use vstd::prelude::*;

use crate::model::{
    block_close, block_comment_end, char_at, compound_candidates, first_match, lemma_comment_progress, lemma_quote_close,
    lemma_run_end, lemma_run_step, missing_delimiter, single_kind, multiline_body, multiline_step, notes_at, unescape, pos_at, pos_le, run_end, step_from,
    unterminated_comment, word_step, Note, Run, Step,
};
use crate::token::{keyword_kind, mode_kind, Kind, Lexeme};
use crate::utility::{alphabetical, alphanumeric, integral};

verus! {

/// The cursor after `n` calls of the scanner from cursor `r`.
pub open spec fn cursor_after(s: Seq<char>, r: nat, n: nat) -> nat
    decreases n,
{
    if n == 0 {
        r
    } else {
        cursor_after(s, step_from(s, r).end, (n - 1) as nat)
    }
}

/// The diagnostics of the first `n` calls of the scanner from cursor `r`.
pub open spec fn notes_after(s: Seq<char>, r: nat, n: nat) -> Seq<Note>
    decreases n,
{
    if n == 0 {
        Seq::empty()
    } else {
        step_from(s, r).notes + notes_after(s, step_from(s, r).end, (n - 1) as nat)
    }
}

pub proof fn lemma_one_more_call(s: Seq<char>, r: nat, n: nat)
    ensures
        cursor_after(s, r, n + 1) == step_from(s, cursor_after(s, r, n)).end,
        notes_after(s, r, n + 1) == notes_after(s, r, n) + step_from(s, cursor_after(s, r, n)).notes,
    decreases n,
{
    let e = step_from(s, r).end;
    assert(cursor_after(s, r, n + 1) == cursor_after(s, e, n));
    assert(notes_after(s, r, n + 1) == step_from(s, r).notes + notes_after(s, e, n));
    if n > 0 {
        lemma_one_more_call(s, e, (n - 1) as nat);
        assert(cursor_after(s, r, n) == cursor_after(s, e, (n - 1) as nat));
        let a = step_from(s, r).notes;
        let b = notes_after(s, step_from(s, r).end, (n - 1) as nat);
        let c = step_from(s, cursor_after(s, r, n)).notes;
        assert(a + (b + c) =~= (a + b) + c);
    } else {
        let a = step_from(s, r).notes;
        assert(cursor_after(s, e, 0) == e);
        assert(notes_after(s, e, 0) == Seq::<Note>::empty());
        assert(a + Seq::<Note>::empty() =~= Seq::<Note>::empty() + a);
    }
}

/// Every call from the `n`-th on, starting at cursor `r`, gives `Eof`.
pub open spec fn eof_from(s: Seq<char>, r: nat, n: nat) -> bool {
    forall|m: nat| m >= n ==> (#[trigger] step_from(s, cursor_after(s, r, m))).kind == Kind::Eof@
}

proof fn lemma_multiline_body_bounds(s: Seq<char>, r: nat, text: Seq<char>, notes: Seq<Note>)
    requires
        r <= s.len() + 1,
    ensures
        r <= multiline_body(s, r, text, notes).0 <= s.len() + 1,
    decreases s.len() + 2 - r,
{
    let next = char_at(s, r + 1);
    if r + 1 >= s.len() || next == '"' {
    } else if next == '\n' {
        let line = text.push('\n');
        let q = run_end(s, r + 2, Run::Blank);
        lemma_run_end(s, r + 2, Run::Blank);
        if char_at(s, q) == '|' {
            if char_at(s, q + 1) != '"' {
                if q + 1 < s.len() {
                    lemma_multiline_body_bounds(s, q + 1, line.push(s[q + 1 as int]), notes);
                } else {
                    lemma_multiline_body_bounds(s, q + 1, line, notes);
                }
            }
        } else {
            lemma_multiline_body_bounds(
                s,
                q + 1,
                line,
                notes.push(Note { message: missing_delimiter(), at: q }),
            );
        }
    } else {
        lemma_multiline_body_bounds(s, r + 1, text.push(next), notes);
    }
}

proof fn lemma_first_match(s: Seq<char>, k: nat, cands: Seq<(usize, &'static str, Kind)>, i: nat)
    requires
        forall|j: int| 0 <= j < cands.len() ==> 1 <= (#[trigger] cands[j]).0 <= 3 && cands[j].2 != Kind::Eof,
    ensures
        first_match(s, k, cands, i) matches Some((n, kind)) ==> 1 <= n <= 3 && kind != Kind::Eof,
    decreases cands.len() - i,
{
    if i < cands.len() {
        assert(1 <= cands[i as int].0 <= 3);
        lemma_first_match(s, k, cands, i + 1);
    }
}

proof fn lemma_candidates(c: char)
    ensures
        forall|j: int|
            0 <= j < compound_candidates(c).len() ==> 1 <= (#[trigger] compound_candidates(c)[j]).0 <= 3
                && compound_candidates(c)[j].2 != Kind::Eof,
{
}

proof fn lemma_word_kind(w: Seq<char>)
    ensures
        word_kind_of(w) != Kind::Eof@,
{
}

spec fn word_kind_of(w: Seq<char>) -> Lexeme {
    match keyword_kind(w) {
        Some(kw) => kw@,
        None => match mode_kind(w) {
            Some(m) => m@,
            None => Lexeme::Tag(w),
        },
    }
}

/// What every call of the scanner does to the cursor: it never moves back,
/// a token other than `Eof` consumes at least one character of the text, and
/// `Eof` is read only at or past the end of the text, consuming nothing.
pub proof fn lemma_step_facts(s: Seq<char>, r: nat)
    requires
        r <= s.len() + 3,
    ensures
        r <= step_from(s, r).start <= step_from(s, r).end <= s.len() + 3,
        step_from(s, r).kind == Kind::Eof@ ==> step_from(s, r).start == step_from(s, r).end
            && step_from(s, r).end >= s.len(),
        step_from(s, r).kind != Kind::Eof@ ==> step_from(s, r).start < step_from(s, r).end
            && step_from(s, r).start < s.len(),
    decreases s.len() + 4 - r,
{
    let k = run_end(s, r, Run::Blank);
    lemma_run_end(s, r, Run::Blank);
    let c = char_at(s, k);
    if k >= s.len() {
    } else if alphabetical(c) {
        lemma_run_step(s, k, Run::Word);
        lemma_run_end(s, k + 1, Run::Word);
        let e = run_end(s, k, Run::Word);
        lemma_word_kind(s.subrange(k as int, e as int));
        assert(word_step(s, k).kind == word_kind_of(s.subrange(k as int, e as int)));
    } else if integral(c) {
        lemma_run_step(s, k, Run::Digits);
        lemma_run_end(s, k + 1, Run::Digits);
        let j = run_end(s, k, Run::Digits);
        lemma_run_end(s, j + 1, Run::Digits);
    } else if c == '"' {
        if char_at(s, k + 1) == '|' {
            lemma_multiline_body_bounds(s, k + 1, Seq::empty(), Seq::empty());
        } else {
            lemma_quote_close(s, k + 1);
        }
    } else if c == '/' && char_at(s, k + 1) == '/' {
        lemma_comment_progress(s, k);
        lemma_step_facts(s, run_end(s, k, Run::Line));
    } else if c == '/' && char_at(s, k + 1) == '*' {
        lemma_comment_progress(s, k);
        lemma_step_facts(s, block_comment_end(s, k).0);
    } else {
        lemma_candidates(c);
        lemma_first_match(s, k, compound_candidates(c), 0);
    }
}

/// A call after `Eof` gives `Eof` again, at the same place, with the cursor
/// left where it was and no diagnostic.
pub proof fn lemma_eof_repeats(s: Seq<char>, r: nat)
    requires
        r <= s.len() + 3,
        step_from(s, r).kind == Kind::Eof@,
    ensures
        step_from(s, step_from(s, r).end) == (Step {
            kind: Kind::Eof@,
            start: step_from(s, r).end,
            end: step_from(s, r).end,
            notes: Seq::empty(),
        }),
{
    lemma_step_facts(s, r);
    let e = step_from(s, r).end;
    lemma_run_step(s, e, Run::Blank);
}

/// The most calls that can read a token other than `Eof` from cursor `r`:
/// the number of characters left.
pub open spec fn chars_left(s: Seq<char>, r: nat) -> nat {
    if r <= s.len() {
        (s.len() - r) as nat
    } else {
        0
    }
}

/// Scanning reaches the end: from any cursor, the `n`-th call gives `Eof`
/// for some `n` no larger than the number of characters left (so from the
/// start, within the text's length plus one calls), and every call after
/// that gives `Eof` too.
pub proof fn lemma_eof_reached(s: Seq<char>, r: nat)
    requires
        r <= s.len() + 3,
    ensures
        exists|n: nat| n <= chars_left(s, r) && #[trigger] eof_from(s, r, n),
    decreases s.len() + 3 - r,
{
    lemma_step_facts(s, r);
    let st = step_from(s, r);
    if st.kind == Kind::Eof@ {
        assert forall|m: nat| m >= 0 implies (#[trigger] step_from(s, cursor_after(s, r, m))).kind == Kind::Eof@ by {
            lemma_eof_stays(s, r, m);
        }
        assert(eof_from(s, r, 0));
    } else {
        lemma_eof_reached(s, st.end);
        let n = choose|n: nat| n <= chars_left(s, st.end) && #[trigger] eof_from(s, st.end, n);
        assert forall|m: nat| m >= n + 1 implies (#[trigger] step_from(s, cursor_after(s, r, m))).kind
            == Kind::Eof@ by {
            assert(cursor_after(s, r, m) == cursor_after(s, st.end, (m - 1) as nat));
            assert(step_from(s, cursor_after(s, st.end, (m - 1) as nat)).kind == Kind::Eof@);
        }
        assert(eof_from(s, r, n + 1));
    }
}

proof fn lemma_eof_stays(s: Seq<char>, r: nat, m: nat)
    requires
        r <= s.len() + 3,
        step_from(s, r).kind == Kind::Eof@,
    ensures
        cursor_after(s, r, m) == step_from(s, r).end || cursor_after(s, r, m) == r,
        step_from(s, cursor_after(s, r, m)).kind == Kind::Eof@,
        step_from(s, cursor_after(s, r, m)).end == step_from(s, r).end,
    decreases m,
{
    lemma_step_facts(s, r);
    lemma_eof_repeats(s, r);
    if m > 0 {
        let e = step_from(s, r).end;
        lemma_eof_stays(s, e, (m - 1) as nat);
    }
}

/// Positions never decrease as the cursor moves forward.
pub proof fn lemma_pos_monotone(s: Seq<char>, i: nat, j: nat)
    requires
        i <= j,
    ensures
        pos_le(pos_at(s, i), pos_at(s, j)),
    decreases j - i,
{
    if i < j {
        lemma_pos_monotone(s, i, (j - 1) as nat);
    }
}

/// Of two consecutive tokens, the second never starts before the first, by
/// line and then column.
pub proof fn lemma_token_positions_ordered(s: Seq<char>, r: nat)
    requires
        r <= s.len() + 3,
    ensures
        pos_le(pos_at(s, step_from(s, r).start), pos_at(s, step_from(s, step_from(s, r).end).start)),
{
    lemma_step_facts(s, r);
    lemma_step_facts(s, step_from(s, r).end);
    lemma_pos_monotone(s, step_from(s, r).start, step_from(s, step_from(s, r).end).start);
}

/// A line comment contributes no token: the call reads what follows the end
/// of its line.
pub proof fn lemma_line_comment_skipped(s: Seq<char>, r: nat)
    requires
        char_at(s, run_end(s, r, Run::Blank)) == '/',
        char_at(s, run_end(s, r, Run::Blank) + 1) == '/',
    ensures
        step_from(s, r) == step_from(s, run_end(s, run_end(s, r, Run::Blank), Run::Line)),
{
}

/// A closed block comment contributes no token and no diagnostic: the call
/// reads what follows the first `*/` after its `/*`.
pub proof fn lemma_block_comment_skipped(s: Seq<char>, r: nat)
    requires
        char_at(s, run_end(s, r, Run::Blank)) == '/',
        char_at(s, run_end(s, r, Run::Blank) + 1) == '*',
        block_close(s, run_end(s, r, Run::Blank) + 2) < s.len(),
    ensures
        step_from(s, r) == step_from(s, block_close(s, run_end(s, r, Run::Blank) + 2) + 2),
{
    let k = run_end(s, r, Run::Blank);
    let rest = step_from(s, block_close(s, k + 2) + 2);
    assert(Seq::<Note>::empty() + rest.notes =~= rest.notes);
}

/// A block comment that the text ends in gives exactly one diagnostic, at
/// the end of the text, and the call reads `Eof`.
pub proof fn lemma_unterminated_block_comment(s: Seq<char>, r: nat)
    requires
        r <= s.len(),
        char_at(s, run_end(s, r, Run::Blank)) == '/',
        char_at(s, run_end(s, r, Run::Blank) + 1) == '*',
        block_close(s, run_end(s, r, Run::Blank) + 2) == s.len(),
    ensures
        step_from(s, r).kind == Kind::Eof@,
        step_from(s, r).notes == seq![Note { message: unterminated_comment(), at: s.len() }],
{
    let k = run_end(s, r, Run::Blank);
    let e = s.len();
    lemma_run_step(s, e, Run::Blank);
    let rest = step_from(s, e);
    assert(rest.notes == Seq::<Note>::empty());
    assert(seq![Note { message: unterminated_comment(), at: s.len() }] + rest.notes =~= seq![
        Note { message: unterminated_comment(), at: s.len() },
    ]);
}

/// A character that no rule covers, a null character inside the text among
/// them, is one `Illegal` token of exactly that character, with no
/// diagnostic.
pub proof fn lemma_unknown_character(s: Seq<char>, r: nat)
    requires
        run_end(s, r, Run::Blank) < s.len(),
        single_kind(s[run_end(s, r, Run::Blank) as int]) == Kind::Illegal,
        !alphanumeric(s[run_end(s, r, Run::Blank) as int]),
    ensures
        step_from(s, r) == (Step {
            kind: Kind::Illegal@,
            start: run_end(s, r, Run::Blank),
            end: run_end(s, r, Run::Blank) + 1,
            notes: Seq::empty(),
        }),
{
    let k = run_end(s, r, Run::Blank);
    assert(compound_candidates(s[k as int]) == Seq::<(usize, &'static str, Kind)>::empty());
}

/// All of `s[(i..j) as int]` are spaces or tabs, and `s[(j) as int]` is not.
pub open spec fn blanks_to(s: Seq<char>, i: nat, j: nat) -> bool {
    &&& i <= j < s.len()
    &&& forall|x: int| i <= x < j ==> #[trigger] s[x] == ' ' || s[x] == '\t'
    &&& s[j as int] != ' ' && s[j as int] != '\t'
}

proof fn lemma_blanks_to(s: Seq<char>, i: nat, j: nat)
    requires
        blanks_to(s, i, j),
    ensures
        run_end(s, i, Run::Blank) == j,
    decreases j - i,
{
    if i < j {
        assert(s[i as int] == ' ' || s[i as int] == '\t');
        lemma_blanks_to(s, i + 1, j);
    }
}

proof fn lemma_multiline_plain(s: Seq<char>, r: nat, m: nat, text: Seq<char>, notes: Seq<Note>)
    requires
        r + 1 <= m < s.len(),
        forall|x: int| r + 1 <= x < m ==> #[trigger] s[x] != '\n' && s[x] != '"',
    ensures
        multiline_body(s, r, text, notes) == multiline_body(s, (m - 1) as nat, text + s.subrange((r + 1) as int, m as int), notes),
    decreases m - r,
{
    if r + 1 < m {
        let c = s[(r + 1) as int];
        assert(c != '\n' && c != '"');
        lemma_multiline_plain(s, r + 1, m, text.push(c), notes);
        assert(text.push(c) + s.subrange((r + 2) as int, m as int) =~= text + s.subrange((r + 1) as int, m as int));
    } else {
        assert(text + s.subrange((r + 1) as int, m as int) =~= text);
    }
}

proof fn lemma_unescape_plain(t: Seq<char>, i: nat, out: Seq<char>, msgs: Seq<Seq<char>>)
    requires
        i <= t.len(),
        forall|x: int| 0 <= x < t.len() ==> #[trigger] t[x] != '\\',
    ensures
        unescape(t, i, out, msgs) == (out + t.subrange(i as int, t.len() as int), msgs),
    decreases t.len() - i,
{
    if i < t.len() {
        lemma_unescape_plain(t, i + 1, out.push(t[i as int]), msgs);
        assert(out.push(t[i as int]) + t.subrange((i + 1) as int, t.len() as int) =~= out + t.subrange(i as int, t.len() as int));
    } else {
        assert(out + t.subrange(i as int, t.len() as int) =~= out);
    }
}

/// A multi-line string literal `"|`, newline, then for each later line any
/// spaces and tabs and a `|`, is read as one `String` token holding a
/// newline, the text of the middle line and a newline, with no diagnostic;
/// the cursor stops right after the closing `|"`, where a text that ends
/// there reads `Eof`. Here `w1` and `w2` are the spaces and tabs before the
/// `|` of the middle and of the closing line, and `middle` is the middle line
/// after its `|`.
pub proof fn lemma_multiline_continuation(s: Seq<char>, k: nat, w1: Seq<char>, middle: Seq<char>, w2: Seq<char>)
    requires
        s.len() >= k + 3 + w1.len() + 1 + middle.len() + 1 + w2.len() + 2,
        s[k as int] == '"',
        s[(k + 1) as int] == '|',
        s[(k + 2) as int] == '\n',
        s.subrange((k + 3) as int, (k + 3 + w1.len()) as int) == w1,
        s[(k + 3 + w1.len()) as int] == '|',
        s.subrange((k + 4 + w1.len()) as int, (k + 4 + w1.len() + middle.len()) as int) == middle,
        s[(k + 4 + w1.len() + middle.len()) as int] == '\n',
        s.subrange((k + 5 + w1.len() + middle.len()) as int, (k + 5 + w1.len() + middle.len() + w2.len()) as int) == w2,
        s[(k + 5 + w1.len() + middle.len() + w2.len()) as int] == '|',
        s[(k + 6 + w1.len() + middle.len() + w2.len()) as int] == '"',
        forall|x: int| 0 <= x < w1.len() ==> #[trigger] w1[x] == ' ' || w1[x] == '\t',
        forall|x: int| 0 <= x < w2.len() ==> #[trigger] w2[x] == ' ' || w2[x] == '\t',
        middle.len() >= 1,
        forall|x: int| 0 <= x < middle.len() ==> #[trigger] middle[x] != '\n' && middle[x] != '"' && middle[x] != '\\',
    ensures
        multiline_step(s, k) == (Step {
            kind: Lexeme::Str(seq!['\n'] + middle + seq!['\n']),
            start: k,
            end: k + 7 + w1.len() + middle.len() + w2.len(),
            notes: Seq::empty(),
        }),
        step_from(s, k) == multiline_step(s, k),
        s.len() == k + 7 + w1.len() + middle.len() + w2.len() ==> step_from(s, multiline_step(s, k).end)
            == (Step { kind: Kind::Eof@, start: s.len(), end: s.len(), notes: Seq::empty() }),
{
    let a = k + 3 + w1.len();
    let m = a + 1 + middle.len();
    let b = m + 1 + w2.len();
    assert forall|x: int| k + 3 <= x < a implies #[trigger] s[x] == ' ' || s[x] == '\t' by {
        assert(s[x] == s.subrange((k + 3) as int, a as int)[x - (k + 3)]);
    }
    lemma_blanks_to(s, k + 3, a);
    assert forall|x: int| m + 1 <= x < b implies #[trigger] s[x] == ' ' || s[x] == '\t' by {
        assert(s[x] == s.subrange((m + 1) as int, b as int)[x - (m + 1)]);
    }
    lemma_blanks_to(s, m + 1, b);
    assert forall|x: int| a + 1 <= x < m implies #[trigger] s[x] != '\n' && s[x] != '"' by {
        assert(s[x] == s.subrange((a + 1) as int, m as int)[x - (a + 1)]);
    }
    assert(middle[(0) as int] == s[(a + 1) as int]);
    let t1 = seq!['\n'].push(s[(a + 1) as int]);
    assert(multiline_body(s, k + 1, Seq::empty(), Seq::empty()) == multiline_body(s, a + 1, t1, Seq::empty()));
    lemma_multiline_plain(s, a + 1, m, t1, Seq::empty());
    let t2 = t1 + s.subrange((a + 2) as int, m as int);
    assert(t2 =~= seq!['\n'] + middle);
    let raw = t2.push('\n');
    assert(multiline_body(s, (m - 1) as nat, t2, Seq::empty()) == (b, raw, Seq::<Note>::empty()));
    assert(raw =~= seq!['\n'] + middle + seq!['\n']);
    assert forall|x: int| 0 <= x < raw.len() implies #[trigger] raw[x] != '\\' by {
        if 1 <= x < raw.len() - 1 {
            assert(raw[x] == middle[x - 1]);
        }
    }
    lemma_unescape_plain(raw, 0, Seq::empty(), Seq::empty());
    assert(Seq::<char>::empty() + raw.subrange((0) as int, raw.len() as int) =~= raw);
    let st = multiline_step(s, k);
    assert(notes_at(Seq::<Seq<char>>::empty(), b + 2) =~= Seq::<Note>::empty());
    assert(st.notes =~= Seq::<Note>::empty());
    lemma_run_step(s, k, Run::Blank);
    lemma_run_step(s, s.len(), Run::Blank);
}

} // verus!
