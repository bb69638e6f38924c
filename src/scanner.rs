use vstd::prelude::*;
use vstd::string::*;

use crate::compiler::Compiler;
use crate::error::{reports, Error, Report};
use crate::model::{
    block_close, block_comment_end, char_at, clamped, compound_candidates, escape_message, first_match,
    lemma_block_close, lemma_comment_progress, lemma_pos_bounds, lemma_run_end, lemma_run_step,
    missing_delimiter, multiline_body, multiline_step, quote_close, lemma_quote_close, notes_at, number_step, pos_at, run_end, step_from,
    string_step, symbol_step, text_at, unescape, unescaped, unterminated_string, word_step, Note, Run,
};
use crate::laws::{cursor_after, lemma_one_more_call, lemma_step_facts, notes_after};
use crate::position::Position;
use crate::text::{chars_of, collect, push_char};
use crate::token::{Kind, Token};
use crate::utility::{is_alphabetical, is_alphanumeric, is_integral, is_numeric, try_escape_char};

verus! {

/// `p` is the (line, column) pair `q`.
pub open spec fn pos_is(p: Position, q: (nat, nat)) -> bool {
    p.line == q.0 && p.column == q.1
}

/// The report of a scanner diagnostic in `file`, whose text is `s`.
pub open spec fn note_report(file: Seq<char>, s: Seq<char>, n: Note) -> Report {
    Report {
        file,
        category: "Scanning error"@,
        message: n.message,
        line: pos_at(s, n.at).0,
        column: pos_at(s, n.at).1,
    }
}

pub open spec fn note_reports(file: Seq<char>, s: Seq<char>, notes: Seq<Note>) -> Seq<Report> {
    notes.map_values(|n: Note| note_report(file, s, n))
}

proof fn lemma_note_reports_concat(file: Seq<char>, s: Seq<char>, a: Seq<Note>, b: Seq<Note>)
    ensures
        note_reports(file, s, a + b) == note_reports(file, s, a) + note_reports(file, s, b),
{
    assert(note_reports(file, s, a + b) =~= note_reports(file, s, a) + note_reports(file, s, b));
}

proof fn lemma_notes_at_push(msgs: Seq<Seq<char>>, m: Seq<char>, at: nat)
    ensures
        notes_at(msgs.push(m), at) == notes_at(msgs, at) + seq![Note { message: m, at }],
{
    assert(notes_at(msgs.push(m), at) =~= notes_at(msgs, at) + seq![Note { message: m, at }]);
}

/// Turns the text of a compilation unit into tokens, one per call of
/// `next_token`, recording diagnostics in the unit as it goes.
pub struct Scanner {
    current_pos: Position,
    token_pos: Position,
    compiler: Compiler,
    chars: Vec<char>,
    read: usize,
}

impl Scanner {
    /// The text being scanned.
    pub closed spec fn source(&self) -> Seq<char> {
        self.chars@
    }

    /// The index of the character under the cursor.
    pub closed spec fn cursor(&self) -> nat {
        self.read as nat
    }

    /// The compilation unit being scanned.
    pub closed spec fn unit(&self) -> Compiler {
        self.compiler
    }

    pub closed spec fn wf(&self) -> bool {
        &&& self.chars@ == self.compiler.contents@
        &&& self.chars@.len() + 8 <= usize::MAX
        &&& self.read <= self.chars@.len() + 3
        &&& pos_is(self.current_pos, pos_at(self.chars@, self.read as nat))
    }

    /// `self` and `other` scan the same text of the same file.
    pub closed spec fn same_text(&self, other: &Scanner) -> bool {
        &&& self.chars@ == other.chars@
        &&& self.compiler.input == other.compiler.input
        &&& self.compiler.contents == other.compiler.contents
    }

    /// The diagnostics recorded so far, as reports.
    pub closed spec fn reported(&self) -> Seq<Report> {
        reports(self.compiler.errors@)
    }

    /// A scanner at the start of the text of `compiler`.
    pub fn new(compiler: Compiler) -> (r: Scanner)
        requires
            compiler.contents@.len() + 8 <= usize::MAX,
        ensures
            r.wf(),
            r.unit() == compiler,
            r.source() == compiler.contents@,
            r.cursor() == 0,
            r.reported() == reports(compiler.errors@),
    {
        let chars = chars_of(compiler.contents.as_str());
        let current_pos = Position::new(1, 1);
        Scanner { current_pos, token_pos: current_pos, compiler, chars, read: 0 }
    }

    /// The cursor of a well-formed scanner is at most three past the end of
    /// its text.
    pub proof fn lemma_cursor_bound(&self)
        requires
            self.wf(),
        ensures
            self.cursor() <= self.source().len() + 3,
    {
    }

    /// The compilation unit being scanned, with the diagnostics recorded so far.
    pub fn compiler(&self) -> (r: &Compiler)
        ensures
            *r == self.unit(),
            reports(r.errors@) == self.reported(),
    {
        &self.compiler
    }

    /// Ends the scan, handing back the compilation unit.
    pub fn into_compiler(self) -> (r: Compiler)
        ensures
            r == self.unit(),
            reports(r.errors@) == self.reported(),
    {
        self.compiler
    }

    // Moves the cursor by `count`, at most three, keeping line and column.
    fn advance(&mut self, count: usize)
        requires
            old(self).wf(),
            old(self).read + clamped(count as nat) <= old(self).chars@.len() + 3,
        ensures
            final(self).wf(),
            final(self).read == old(self).read + clamped(count as nat),
            final(self).same_text(old(self)),
            final(self).compiler.errors == old(self).compiler.errors,
            final(self).token_pos == old(self).token_pos,
    {
        let count = if count > 3 { 3 } else { count };
        let mut i: usize = 0;
        while i < count
            invariant
                self.wf(),
                i <= count <= 3,
                self.read == old(self).read + i,
                old(self).read + count <= old(self).chars@.len() + 3,
                self.same_text(old(self)),
                self.compiler.errors == old(self).compiler.errors,
                self.token_pos == old(self).token_pos,
            decreases count - i,
        {
            proof {
                lemma_pos_bounds(self.chars@, self.read as nat);
            }
            self.read = self.read + 1;
            self.current_pos.column = self.current_pos.column + 1;
            if self.prev() == '\n' {
                self.current_pos.line = self.current_pos.line + 1;
                self.current_pos.column = 1;
            }
            i = i + 1;
        }
    }

    // The character under the cursor, or the null character past the end.
    fn read(&self) -> (c: char)
        ensures
            c == char_at(self.chars@, self.read as nat),
    {
        if self.read >= self.chars.len() {
            '\0'
        } else {
            self.chars[self.read]
        }
    }

    // The character after the cursor, or the null character past the end.
    fn peek(&self) -> (c: char)
        requires
            self.wf(),
        ensures
            c == char_at(self.chars@, self.read as nat + 1),
    {
        if self.read + 1 >= self.chars.len() {
            '\0'
        } else {
            self.chars[self.read + 1]
        }
    }

    // The character before the cursor.
    fn prev(&self) -> (c: char)
        requires
            self.read >= 1,
        ensures
            c == char_at(self.chars@, (self.read - 1) as nat),
    {
        if self.read - 1 >= self.chars.len() {
            '\0'
        } else {
            self.chars[self.read - 1]
        }
    }

    // Records a scanning diagnostic at the cursor.
    fn report(&mut self, message: String)
        requires
            old(self).wf(),
        ensures
            final(self).wf(),
            final(self).read == old(self).read,
            final(self).same_text(old(self)),
            final(self).token_pos == old(self).token_pos,
            final(self).reported() == old(self).reported() + note_reports(
                old(self).compiler.input@,
                old(self).chars@,
                seq![Note { message: message@, at: old(self).read as nat }],
            ),
    {
        let error = Error::new(
            self.compiler.input.clone(),
            String::from_str("Scanning error"),
            message,
            self.current_pos,
        );
        self.compiler.errors.push(error);
        proof {
            let file = old(self).compiler.input@;
            let s = old(self).chars@;
            let n = seq![Note { message: message@, at: old(self).read as nat }];
            assert(self.reported() =~= old(self).reported() + note_reports(file, s, n));
        }
    }

    // Skips spaces and tabs.
    fn skip_whitespace(&mut self)
        requires
            old(self).wf(),
        ensures
            final(self).wf(),
            final(self).read == run_end(old(self).chars@, old(self).read as nat, Run::Blank),
            final(self).same_text(old(self)),
            final(self).compiler.errors == old(self).compiler.errors,
            final(self).token_pos == old(self).token_pos,
    {
        let ghost s = self.chars@;
        let ghost end = run_end(s, self.read as nat, Run::Blank);
        proof {
            lemma_run_end(s, self.read as nat, Run::Blank);
        }
        loop
            invariant
                self.wf(),
                self.chars@ == s,
                self.read <= end,
                run_end(s, self.read as nat, Run::Blank) == end,
                s == old(self).chars@,
                end == run_end(s, old(self).read as nat, Run::Blank),
                self.same_text(old(self)),
                self.compiler.errors == old(self).compiler.errors,
                self.token_pos == old(self).token_pos,
            decreases end - self.read,
        {
            let c = self.read();
            proof {
                lemma_run_step(s, self.read as nat, Run::Blank);
                lemma_run_end(s, self.read as nat + 1, Run::Blank);
            }
            if c != ' ' && c != '\t' {
                return;
            }
            self.advance(1);
        }
    }

    // Skips a comment up to the end of the line or of the text.
    fn skip_single_comment(&mut self)
        requires
            old(self).wf(),
            old(self).read <= old(self).chars@.len(),
        ensures
            final(self).wf(),
            final(self).read == run_end(old(self).chars@, old(self).read as nat, Run::Line),
            final(self).same_text(old(self)),
            final(self).compiler.errors == old(self).compiler.errors,
            final(self).token_pos == old(self).token_pos,
    {
        let ghost s = self.chars@;
        let ghost end = run_end(s, self.read as nat, Run::Line);
        proof {
            lemma_run_end(s, self.read as nat, Run::Line);
        }
        loop
            invariant
                self.wf(),
                self.chars@ == s,
                self.read <= end <= s.len(),
                run_end(s, self.read as nat, Run::Line) == end,
                s == old(self).chars@,
                end == run_end(s, old(self).read as nat, Run::Line),
                self.same_text(old(self)),
                self.compiler.errors == old(self).compiler.errors,
                self.token_pos == old(self).token_pos,
            decreases end - self.read,
        {
            let c = self.read();
            proof {
                lemma_run_step(s, self.read as nat, Run::Line);
                lemma_run_end(s, self.read as nat + 1, Run::Line);
            }
            if self.read >= self.chars.len() || c == '\n' {
                return;
            }
            self.advance(1);
        }
    }

    // Skips a block comment whose `/*` is under the cursor, up to the first
    // `*/` after the opener, recording a diagnostic where the text ends first.
    fn skip_multi_comment(&mut self)
        requires
            old(self).wf(),
            old(self).read + 1 < old(self).chars@.len(),
            char_at(old(self).chars@, old(self).read as nat) == '/',
            char_at(old(self).chars@, old(self).read as nat + 1) == '*',
        ensures
            final(self).wf(),
            final(self).read == block_comment_end(old(self).chars@, old(self).read as nat).0,
            final(self).read <= final(self).chars@.len(),
            final(self).same_text(old(self)),
            final(self).token_pos == old(self).token_pos,
            final(self).reported() == old(self).reported() + note_reports(
                old(self).compiler.input@,
                old(self).chars@,
                block_comment_end(old(self).chars@, old(self).read as nat).1,
            ),
    {
        let ghost s = self.chars@;
        let ghost i = block_close(s, self.read as nat + 2);
        proof {
            lemma_block_close(s, self.read as nat + 2);
        }
        self.advance(2);
        while self.read < self.chars.len() && !(self.read() == '*' && self.peek() == '/')
            invariant
                self.wf(),
                s == old(self).chars@,
                i == block_close(s, old(self).read as nat + 2),
                i <= s.len(),
                self.read <= i,
                block_close(s, self.read as nat) == i,
                self.same_text(old(self)),
                self.compiler.errors == old(self).compiler.errors,
                self.token_pos == old(self).token_pos,
            decreases i - self.read,
        {
            proof {
                lemma_block_close(s, self.read as nat + 1);
            }
            self.advance(1);
        }
        if self.read < self.chars.len() {
            self.advance(2);
            proof {
                assert(self.reported() =~= old(self).reported() + note_reports(
                    old(self).compiler.input@, s, Seq::empty()));
            }
        } else {
            self.report(String::from_str("Unterminated block comment"));
        }
    }

    // Reads a word: a keyword, a mode, or else a tag.
    fn read_tag_keyword_mode(&mut self) -> (token: Token)
        requires
            old(self).wf(),
            old(self).read < old(self).chars@.len(),
        ensures
            final(self).wf(),
            final(self).read == word_step(old(self).chars@, old(self).read as nat).end,
            token.kind@ == word_step(old(self).chars@, old(self).read as nat).kind,
            token.pos == old(self).token_pos,
            token.file == old(self).compiler.input,
            final(self).same_text(old(self)),
            final(self).compiler.errors == old(self).compiler.errors,
            final(self).token_pos == old(self).token_pos,
    {
        let ghost s = self.chars@;
        let ghost end = run_end(s, self.read as nat, Run::Word);
        proof {
            lemma_run_end(s, self.read as nat, Run::Word);
        }
        let start = self.read;
        let mut c = self.read();
        while is_alphanumeric(c)
            invariant
                self.wf(),
                s == old(self).chars@,
                end == run_end(s, start as nat, Run::Word),
                start == old(self).read,
                start <= self.read <= end <= s.len(),
                run_end(s, self.read as nat, Run::Word) == end,
                c == char_at(s, self.read as nat),
                self.same_text(old(self)),
                self.compiler.errors == old(self).compiler.errors,
                self.token_pos == old(self).token_pos,
            decreases end - self.read,
        {
            proof {
                lemma_run_step(s, self.read as nat, Run::Word);
                lemma_run_end(s, self.read as nat + 1, Run::Word);
            }
            self.advance(1);
            c = self.read();
        }
        proof {
            lemma_run_step(s, self.read as nat, Run::Word);
        }
        let word = collect(&self.chars, start, self.read);
        let kind = match Kind::try_keyword(word.as_str()) {
            Some(keyword) => keyword,
            None => match Kind::try_mode(word.as_str()) {
                Some(mode) => mode,
                None => Kind::Tag(word),
            },
        };
        Token::new(kind, self.compiler.input.clone(), self.token_pos)
    }

    // Reads a number: an integer, or a float where a `.` follows the digits.
    fn read_number(&mut self) -> (token: Token)
        requires
            old(self).wf(),
            old(self).read < old(self).chars@.len(),
        ensures
            final(self).wf(),
            final(self).read == number_step(old(self).chars@, old(self).read as nat).end,
            token.kind@ == number_step(old(self).chars@, old(self).read as nat).kind,
            token.pos == old(self).token_pos,
            token.file == old(self).compiler.input,
            final(self).same_text(old(self)),
            final(self).compiler.errors == old(self).compiler.errors,
            final(self).token_pos == old(self).token_pos,
    {
        let ghost s = self.chars@;
        let ghost end = run_end(s, self.read as nat, Run::Digits);
        proof {
            lemma_run_end(s, self.read as nat, Run::Digits);
        }
        let start = self.read;
        let mut is_float = false;
        let mut c = self.read();
        while !is_float && is_numeric(c)
            invariant
                self.wf(),
                s == old(self).chars@,
                end == run_end(s, start as nat, Run::Digits),
                start == old(self).read,
                !is_float ==> start <= self.read <= end <= s.len() && run_end(s, self.read as nat, Run::Digits)
                    == end && c == char_at(s, self.read as nat),
                is_float ==> end < s.len() && s[end as int] == '.' && self.read == run_end(s, end + 1, Run::Digits)
                    && start <= end < self.read <= s.len(),
                self.same_text(old(self)),
                self.compiler.errors == old(self).compiler.errors,
                self.token_pos == old(self).token_pos,
            decreases s.len() + 1 - self.read, if is_float { 0int } else { 1int },
        {
            proof {
                lemma_run_step(s, self.read as nat, Run::Digits);
                lemma_run_end(s, self.read as nat + 1, Run::Digits);
            }
            if c == '.' {
                self.read_integer();
                proof {
                    lemma_run_end(s, end + 1, Run::Digits);
                }
                is_float = true;
            } else {
                self.advance(1);
                c = self.read();
            }
        }
        proof {
            if !is_float {
                lemma_run_step(s, self.read as nat, Run::Digits);
            }
        }
        let text = collect(&self.chars, start, self.read);
        let kind = if is_float {
            Kind::Float(text)
        } else {
            Kind::Integer(text)
        };
        Token::new(kind, self.compiler.input.clone(), self.token_pos)
    }

    // Steps over a `.` and reads the digits after it.
    fn read_integer(&mut self)
        requires
            old(self).wf(),
            old(self).read < old(self).chars@.len(),
        ensures
            final(self).wf(),
            final(self).read == run_end(old(self).chars@, old(self).read as nat + 1, Run::Digits),
            final(self).read <= final(self).chars@.len(),
            final(self).same_text(old(self)),
            final(self).compiler.errors == old(self).compiler.errors,
            final(self).token_pos == old(self).token_pos,
    {
        self.advance(1);
        let ghost s = self.chars@;
        let ghost end = run_end(s, self.read as nat, Run::Digits);
        proof {
            lemma_run_end(s, self.read as nat, Run::Digits);
        }
        let mut c = self.read();
        while is_integral(c)
            invariant
                self.wf(),
                s == old(self).chars@,
                end == run_end(s, old(self).read as nat + 1, Run::Digits),
                self.read <= end <= s.len(),
                run_end(s, self.read as nat, Run::Digits) == end,
                c == char_at(s, self.read as nat),
                self.same_text(old(self)),
                self.compiler.errors == old(self).compiler.errors,
                self.token_pos == old(self).token_pos,
            decreases end - self.read,
        {
            proof {
                lemma_run_step(s, self.read as nat, Run::Digits);
                lemma_run_end(s, self.read as nat + 1, Run::Digits);
            }
            self.advance(1);
            c = self.read();
        }
        proof {
            lemma_run_step(s, self.read as nat, Run::Digits);
        }
    }

    // Whether the text `op`, of `count` characters, stands at the cursor.
    fn text_here(&self, count: usize, op: &str) -> (r: bool)
        requires
            self.wf(),
        ensures
            r == text_at(self.chars@, self.read as nat, count as nat, op@),
    {
        let n = self.chars.len();
        if self.read > n || count > n - self.read || op.unicode_len() != count {
            return false;
        }
        let mut j: usize = 0;
        while j < count
            invariant
                self.wf(),
                n == self.chars@.len(),
                self.read + count <= n,
                op@.len() == count,
                j <= count,
                self.chars@.subrange(self.read as int, self.read + j) == op@.subrange(0, j as int),
            decreases count - j,
        {
            if self.chars[self.read + j] != op.get_char(j) {
                assert(self.chars@.subrange(self.read as int, self.read + count)[j as int] != op@[j as int]);
                return false;
            }
            assert(self.chars@.subrange(self.read as int, self.read + j + 1) =~= self.chars@.subrange(
                self.read as int,
                self.read + j,
            ).push(self.chars@[self.read + j]));
            assert(op@.subrange(0, j + 1) =~= op@.subrange(0, j as int).push(op@[j as int]));
            j = j + 1;
        }
        assert(op@ =~= op@.subrange(0, count as int));
        true
    }

    // Tries each candidate in turn; the first whose text stands at the cursor
    // is consumed and its kind returned.
    fn try_compound_operator(&mut self, matches: Vec<(usize, &str, Kind)>) -> (r: Option<Kind>)
        requires
            old(self).wf(),
            old(self).read < old(self).chars@.len(),
        ensures
            final(self).wf(),
            match first_match(old(self).chars@, old(self).read as nat, matches@, 0) {
                Some((n, kind)) => r == Some(kind) && final(self).read == old(self).read + clamped(n as nat),
                None => r is None && final(self).read == old(self).read,
            },
            final(self).same_text(old(self)),
            final(self).compiler.errors == old(self).compiler.errors,
            final(self).token_pos == old(self).token_pos,
    {
        let ghost s = self.chars@;
        let ghost cands = matches@;
        let mut pending = matches;
        let mut i: usize = 0;
        while i < pending.len()
            invariant
                self.wf(),
                s == old(self).chars@,
                pending@ == cands,
                matches@ == cands,
                i <= cands.len(),
                first_match(s, old(self).read as nat, cands, i as nat) == first_match(s, old(self).read as nat, cands, 0),
                self.read == old(self).read,
                old(self).read < s.len(),
                self.same_text(old(self)),
                self.compiler.errors == old(self).compiler.errors,
                self.token_pos == old(self).token_pos,
            decreases cands.len() - i,
        {
            let count = pending[i].0;
            let op = pending[i].1;
            if self.text_here(count, op) {
                assert(first_match(s, old(self).read as nat, cands, i as nat) == Some((cands[i as int].0, cands[i as int].2)));
                self.advance(count);
                let (_, _, kind) = pending.remove(i);
                return Some(kind);
            }
            i = i + 1;
        }
        None
    }

    // Records the diagnostic for the backslash at index `i` of `raw`.
    fn create_escape_error(&mut self, i: usize, raw: &String)
        requires
            old(self).wf(),
            i < raw@.len(),
        ensures
            final(self).wf(),
            final(self).read == old(self).read,
            final(self).same_text(old(self)),
            final(self).token_pos == old(self).token_pos,
            final(self).reported() == old(self).reported() + note_reports(
                old(self).compiler.input@,
                old(self).chars@,
                seq![Note { message: escape_message(raw@, i as int), at: old(self).read as nat }],
            ),
    {
        let n = raw.as_str().unicode_len();
        if i + 1 < n {
            let mut message = String::from_str("Unrecognized escape character: \\");
            push_char(&mut message, raw.as_str().get_char(i + 1));
            self.report(message);
        } else {
            self.report(String::from_str("Unterminated escape character"));
        }
    }

    // Replaces each escape sequence of the table in `raw` by the character it
    // stands for; any other backslash stays, with a diagnostic.
    fn handle_escape_characters(&mut self, raw: &String) -> (r: String)
        requires
            old(self).wf(),
        ensures
            final(self).wf(),
            r@ == unescaped(raw@).0,
            final(self).read == old(self).read,
            final(self).same_text(old(self)),
            final(self).token_pos == old(self).token_pos,
            final(self).reported() == old(self).reported() + note_reports(
                old(self).compiler.input@,
                old(self).chars@,
                notes_at(unescaped(raw@).1, old(self).read as nat),
            ),
    {
        let ghost t = raw@;
        let ghost file = self.compiler.input@;
        let ghost s = self.chars@;
        let ghost at = self.read as nat;
        let ghost mut msgs: Seq<Seq<char>> = Seq::empty();
        let n = raw.as_str().unicode_len();
        let mut out = String::new();
        let mut i: usize = 0;
        proof {
            assert(notes_at(msgs, at) =~= Seq::empty());
            assert(old(self).reported() =~= old(self).reported() + note_reports(file, s, Seq::empty()));
        }
        while i < n
            invariant
                self.wf(),
                n == t.len(),
                t == raw@,
                i <= n,
                self.read == old(self).read,
                at == self.read,
                file == old(self).compiler.input@,
                s == old(self).chars@,
                self.same_text(old(self)),
                self.token_pos == old(self).token_pos,
                unescape(t, i as nat, out@, msgs) == unescaped(t),
                self.reported() == old(self).reported() + note_reports(file, s, notes_at(msgs, at)),
            decreases n - i,
        {
            let c = raw.as_str().get_char(i);
            if c == '\\' {
                let pair = if n - i >= 2 {
                    Some(raw.as_str().substring_char(i, i + 2))
                } else {
                    None
                };
                match try_escape_char(pair) {
                    Some(ch) => {
                        push_char(&mut out, ch);
                        i = i + 2;
                    },
                    None => {
                        self.create_escape_error(i, raw);
                        proof {
                            let m = escape_message(t, i as int);
                            lemma_notes_at_push(msgs, m, at);
                            lemma_note_reports_concat(file, s, notes_at(msgs, at), seq![Note { message: m, at }]);
                            msgs = msgs.push(m);
                        }
                        push_char(&mut out, '\\');
                        i = i + 1;
                    },
                }
            } else {
                push_char(&mut out, c);
                i = i + 1;
            }
        }
        out
    }

    // Reads a single-line string literal whose opening quote is under the cursor.
    fn read_string(&mut self) -> (token: Token)
        requires
            old(self).wf(),
            old(self).read < old(self).chars@.len(),
        ensures
            final(self).wf(),
            final(self).read == string_step(old(self).chars@, old(self).read as nat).end,
            token.kind@ == string_step(old(self).chars@, old(self).read as nat).kind,
            token.pos == old(self).token_pos,
            token.file == old(self).compiler.input,
            final(self).same_text(old(self)),
            final(self).token_pos == old(self).token_pos,
            final(self).reported() == old(self).reported() + note_reports(
                old(self).compiler.input@,
                old(self).chars@,
                string_step(old(self).chars@, old(self).read as nat).notes,
            ),
    {
        let ghost s = self.chars@;
        let ghost k = self.read as nat;
        let ghost j = quote_close(s, k + 1);
        proof {
            lemma_quote_close(s, k + 1);
        }
        let mut text = String::new();
        while self.read + 1 < self.chars.len() && !(self.peek() == '"' && self.read() != '\\')
            invariant
                self.wf(),
                s == old(self).chars@,
                k == old(self).read,
                j == quote_close(s, k + 1),
                j <= s.len(),
                k <= self.read,
                self.read + 1 <= j,
                quote_close(s, self.read as nat + 1) == j,
                text@ == s.subrange(k + 1 as int, self.read + 1),
                self.same_text(old(self)),
                self.compiler.errors == old(self).compiler.errors,
                self.token_pos == old(self).token_pos,
            decreases j - self.read,
        {
            proof {
                lemma_quote_close(s, self.read as nat + 2);
            }
            let c = self.peek();
            push_char(&mut text, c);
            assert(s.subrange(k + 1 as int, self.read + 2) =~= s.subrange(k + 1 as int, self.read + 1).push(c));
            self.advance(1);
        }
        let closed = self.read + 1 < self.chars.len();
        self.advance(2);
        if !closed {
            self.report(String::from_str("Unterminated string literal"));
        }
        let ghost unterminated = if closed {
            Seq::<Note>::empty()
        } else {
            seq![Note { message: unterminated_string(), at: self.read as nat }]
        };
        proof {
            assert(self.reported() =~= old(self).reported() + note_reports(old(self).compiler.input@, s, unterminated));
        }
        let value = self.handle_escape_characters(&text);
        proof {
            let file = old(self).compiler.input@;
            let msgs = notes_at(unescaped(text@).1, self.read as nat);
            lemma_note_reports_concat(file, s, unterminated, msgs);
            assert(Seq::<Note>::empty() + unterminated + msgs =~= unterminated + msgs);
        }
        Token::new(Kind::String(value), self.compiler.input.clone(), self.token_pos)
    }

    // Reads a multi-line string literal whose opening `"|` is under the cursor:
    // each line after the first starts, past spaces and tabs, with `|`, and
    // `|"` closes it.
    fn read_multiline_string(&mut self) -> (token: Token)
        requires
            old(self).wf(),
            old(self).read < old(self).chars@.len(),
        ensures
            final(self).wf(),
            final(self).read == multiline_step(old(self).chars@, old(self).read as nat).end,
            token.kind@ == multiline_step(old(self).chars@, old(self).read as nat).kind,
            token.pos == old(self).token_pos,
            token.file == old(self).compiler.input,
            final(self).same_text(old(self)),
            final(self).token_pos == old(self).token_pos,
            final(self).reported() == old(self).reported() + note_reports(
                old(self).compiler.input@,
                old(self).chars@,
                multiline_step(old(self).chars@, old(self).read as nat).notes,
            ),
    {
        let ghost s = self.chars@;
        let ghost file = self.compiler.input@;
        let ghost k = self.read as nat;
        let ghost res = multiline_body(s, k + 1, Seq::empty(), Seq::empty());
        let ghost mut notes: Seq<Note> = Seq::empty();
        let mut text = String::new();
        self.advance(1);
        proof {
            assert(old(self).reported() =~= old(self).reported() + note_reports(file, s, notes));
        }
        let mut done = false;
        while !done && self.read + 1 < self.chars.len() && self.peek() != '"'
            invariant
                self.wf(),
                s == old(self).chars@,
                file == old(self).compiler.input@,
                self.read <= s.len() + 1,
                self.same_text(old(self)),
                self.token_pos == old(self).token_pos,
                self.reported() == old(self).reported() + note_reports(file, s, notes),
                done ==> res == (self.read as nat, text@, notes) && self.read <= s.len(),
                !done ==> multiline_body(s, self.read as nat, text@, notes) == res,
            decreases s.len() + 2 - self.read, if done { 0int } else { 1int },
        {
            let next = self.peek();
            if next == '\n' {
                push_char(&mut text, '\n');
                self.advance(2);
                proof {
                    lemma_run_end(s, self.read as nat, Run::Blank);
                }
                self.skip_whitespace();
                if self.read() == '|' {
                    let after = self.peek();
                    if after == '"' {
                        done = true;
                    } else {
                        if self.read + 1 < self.chars.len() {
                            push_char(&mut text, after);
                        }
                        self.advance(1);
                    }
                } else {
                    let ghost at = self.read as nat;
                    self.report(String::from_str("Missing start of line delimiter '|'"));
                    proof {
                        let n = seq![Note { message: missing_delimiter(), at }];
                        lemma_note_reports_concat(file, s, notes, n);
                        notes = notes.push(Note { message: missing_delimiter(), at });
                    }
                    self.advance(1);
                }
            } else {
                push_char(&mut text, next);
                self.advance(1);
            }
        }
        self.advance(2);
        let closed = self.prev() == '"';
        if !closed {
            self.report(String::from_str("Unterminated string literal"));
        }
        let ghost unterminated = if closed {
            Seq::<Note>::empty()
        } else {
            seq![Note { message: unterminated_string(), at: self.read as nat }]
        };
        proof {
            lemma_note_reports_concat(file, s, notes, unterminated);
        }
        let value = self.handle_escape_characters(&text);
        proof {
            let msgs = notes_at(unescaped(text@).1, self.read as nat);
            lemma_note_reports_concat(file, s, notes + unterminated, msgs);
        }
        Token::new(Kind::String(value), self.compiler.input.clone(), self.token_pos)
    }

    // The compound operators that start with `c`, as `try_compound_operator`
    // takes them.
    fn candidates(c: char) -> (r: Vec<(usize, &'static str, Kind)>)
        ensures
            r@ == compound_candidates(c),
    {
        let mut r: Vec<(usize, &'static str, Kind)> = Vec::new();
        if c == '=' {
            r.push((2, "=>", Kind::WideArrow));
            r.push((2, "==", Kind::Equal));
        } else if c == ':' {
            r.push((2, ":=", Kind::AssignExp));
        } else if c == '>' {
            r.push((2, ">=", Kind::GreaterEq));
            r.push((2, ">>", Kind::RightShift));
        } else if c == '<' {
            r.push((2, "<=", Kind::LesserEq));
            r.push((2, "<<", Kind::LeftShift));
            r.push((2, "<|", Kind::ForwardApp));
            r.push((2, "<>", Kind::Concat));
        } else if c == '-' {
            r.push((2, "->", Kind::Arrow));
            r.push((2, "--", Kind::Decrement));
        } else if c == '+' {
            r.push((2, "++", Kind::Increment));
        } else if c == '*' {
            r.push((2, "**", Kind::Power));
        } else if c == '.' {
            r.push((3, "..=", Kind::RangeInc));
            r.push((2, "..", Kind::RangeExc));
        } else if c == '!' {
            r.push((2, "!=", Kind::NotEqual));
        } else if c == '|' {
            r.push((2, "|>", Kind::ReverseApp));
        }
        assert(r@ =~= compound_candidates(c));
        r
    }

    // Reads punctuation or an operator: the longest compound form that stands
    // at the cursor, or else the single character.
    fn read_symbol(&mut self) -> (token: Token)
        requires
            old(self).wf(),
            old(self).read < old(self).chars@.len(),
        ensures
            final(self).wf(),
            final(self).read == symbol_step(old(self).chars@, old(self).read as nat).end,
            token.kind@ == symbol_step(old(self).chars@, old(self).read as nat).kind,
            token.pos == old(self).token_pos,
            token.file == old(self).compiler.input,
            final(self).same_text(old(self)),
            final(self).compiler.errors == old(self).compiler.errors,
            final(self).token_pos == old(self).token_pos,
    {
        let ch = self.read();
        let kind = match self.try_compound_operator(Self::candidates(ch)) {
            Some(kind) => kind,
            None => {
                self.advance(1);
                if ch == '\0' {
                    Kind::Illegal
                } else {
                    Kind::from_char(ch)
                }
            },
        };
        Token::new(kind, self.compiler.input.clone(), self.token_pos)
    }

    /// Reads the next token: spaces, tabs and comments are skipped, and the
    /// token starts at the first character after them. At the end of the
    /// text the token is `Eof`, on this call and on every later one.
    /// Diagnostics are added to the compilation unit; none stops the scan.
    pub fn next_token(&mut self) -> (token: Token)
        requires
            old(self).wf(),
        ensures
            final(self).wf(),
            final(self).source() == old(self).source(),
            final(self).unit().input == old(self).unit().input,
            final(self).unit().contents == old(self).unit().contents,
            final(self).cursor() == step_from(old(self).source(), old(self).cursor()).end,
            token.kind@ == step_from(old(self).source(), old(self).cursor()).kind,
            pos_is(token.pos, pos_at(old(self).source(), step_from(old(self).source(), old(self).cursor()).start)),
            token.file == old(self).unit().input,
            final(self).reported() == old(self).reported() + note_reports(
                old(self).unit().input@,
                old(self).source(),
                step_from(old(self).source(), old(self).cursor()).notes,
            ),
    {
        let ghost s = self.chars@;
        let ghost file = self.compiler.input@;
        let ghost st = step_from(s, self.read as nat);
        let ghost mut acc: Seq<Note> = Seq::empty();
        proof {
            assert(st.notes =~= acc + step_from(s, self.read as nat).notes);
            assert(old(self).reported() =~= old(self).reported() + note_reports(file, s, acc));
        }
        loop
            invariant
                self.wf(),
                s == old(self).chars@,
                file == old(self).compiler.input@,
                st == step_from(s, old(self).read as nat),
                self.same_text(old(self)),
                step_from(s, self.read as nat).kind == st.kind,
                step_from(s, self.read as nat).start == st.start,
                step_from(s, self.read as nat).end == st.end,
                acc + step_from(s, self.read as nat).notes == st.notes,
                self.reported() == old(self).reported() + note_reports(file, s, acc),
            decreases s.len() + 4 - self.read,
        {
            let ghost r = self.read as nat;
            proof {
                lemma_run_end(s, r, Run::Blank);
            }
            self.skip_whitespace();
            self.token_pos = self.current_pos;
            let ch = self.read();
            let token = if self.read >= self.chars.len() {
                Token::new(Kind::Eof, self.compiler.input.clone(), self.token_pos)
            } else if is_alphabetical(ch) {
                self.read_tag_keyword_mode()
            } else if is_integral(ch) {
                self.read_number()
            } else if ch == '"' {
                if self.peek() == '|' {
                    self.read_multiline_string()
                } else {
                    self.read_string()
                }
            } else if ch == '/' && self.peek() == '/' {
                proof {
                    lemma_comment_progress(s, self.read as nat);
                }
                self.skip_single_comment();
                continue;
            } else if ch == '/' && self.peek() == '*' {
                proof {
                    lemma_comment_progress(s, self.read as nat);
                    let notes = block_comment_end(s, self.read as nat).1;
                    lemma_note_reports_concat(file, s, acc, notes);
                    assert(acc + step_from(s, r).notes =~= (acc + notes) + step_from(
                        s,
                        block_comment_end(s, self.read as nat).0,
                    ).notes);
                    acc = acc + notes;
                }
                self.skip_multi_comment();
                continue;
            } else {
                self.read_symbol()
            };
            proof {
                let notes = step_from(s, r).notes;
                lemma_note_reports_concat(file, s, acc, notes);
                assert(self.reported() =~= old(self).reported() + note_reports(file, s, acc + notes));
            }
            return token;
        }
    }

    /// Reads tokens up to and including the first `Eof`: the tokens of
    /// successive calls of `next_token`.
    pub fn scan(&mut self) -> (tokens: Vec<Token>)
        requires
            old(self).wf(),
        ensures
            final(self).wf(),
            final(self).source() == old(self).source(),
            final(self).unit().input == old(self).unit().input,
            final(self).unit().contents == old(self).unit().contents,
            tokens@.len() >= 1,
            tokens@.last().kind@ == Kind::Eof@,
            forall|i: int|
                0 <= i < tokens@.len() - 1 ==> (#[trigger] tokens@[i]).kind@ != Kind::Eof@,
            forall|i: int|
                0 <= i < tokens@.len() ==> {
                    let st = step_from(old(self).source(), cursor_after(old(self).source(), old(self).cursor(), i as nat));
                    &&& (#[trigger] tokens@[i]).kind@ == st.kind
                    &&& pos_is(tokens@[i].pos, pos_at(old(self).source(), st.start))
                    &&& tokens@[i].file == old(self).unit().input
                },
            final(self).cursor() == cursor_after(old(self).source(), old(self).cursor(), tokens@.len() as nat),
            final(self).reported() == old(self).reported() + note_reports(
                old(self).unit().input@,
                old(self).source(),
                notes_after(old(self).source(), old(self).cursor(), tokens@.len() as nat),
            ),
    {
        let ghost s = self.chars@;
        let ghost file = self.compiler.input@;
        let ghost r0 = self.read as nat;
        let mut tokens: Vec<Token> = Vec::new();
        proof {
            assert(old(self).reported() =~= old(self).reported() + note_reports(file, s, notes_after(s, r0, 0)));
        }
        loop
            invariant
                self.wf(),
                s == old(self).chars@,
                file == old(self).compiler.input@,
                r0 == old(self).read,
                self.same_text(old(self)),
                self.read == cursor_after(s, r0, tokens@.len() as nat),
                forall|i: int| 0 <= i < tokens@.len() ==> (#[trigger] tokens@[i]).kind@ != Kind::Eof@,
                forall|i: int|
                    0 <= i < tokens@.len() ==> {
                        let st = step_from(s, cursor_after(s, r0, i as nat));
                        &&& (#[trigger] tokens@[i]).kind@ == st.kind
                        &&& pos_is(tokens@[i].pos, pos_at(s, st.start))
                        &&& tokens@[i].file == old(self).compiler.input
                    },
                self.reported() == old(self).reported() + note_reports(file, s, notes_after(s, r0, tokens@.len() as nat)),
            decreases s.len() + 3 - self.read,
        {
            let ghost n = tokens@.len() as nat;
            proof {
                lemma_step_facts(s, self.read as nat);
                lemma_one_more_call(s, r0, n);
                lemma_note_reports_concat(file, s, notes_after(s, r0, n), step_from(s, self.read as nat).notes);
            }
            let token = self.next_token();
            let eof = match token.kind {
                Kind::Eof => true,
                _ => false,
            };
            tokens.push(token);
            if eof {
                return tokens;
            }
        }
    }
}

} // verus!
