//! The executable scanner.
//!
//! A `Lexer` borrows an input string for its whole lifetime and walks it one
//! character at a time. Its contract ties every call of `next_token` to the
//! spec-level scan in `crate::scan`: the token returned and the cursor after
//! it are exactly what `spec_next` says for the state before the call.

use vstd::prelude::*;

use crate::chars::digit_of;
use crate::chars::is_dec_digit;
use crate::chars::is_digit_char;
use crate::scan::digits_val;
use crate::scan::int_end;
use crate::scan::lemma_digits_val_step;
use crate::scan::lemma_progress;
use crate::scan::lemma_token_count;
use crate::scan::skip_ws;
use crate::scan::spec_next;
use crate::scan::tokens_from;
use crate::scan::word_end;
use crate::token::classify_word;
use crate::token::Tok;
use crate::token::Token;

verus! {

/// Character-by-character string equality, proved against the views.
fn str_eq(a: &str, b: &str) -> (r: bool)
    ensures
        r == (a@ == b@),
{
    let na = a.unicode_len();
    let nb = b.unicode_len();
    if na != nb {
        return false;
    }
    let mut i: usize = 0;
    while i < na
        invariant
            i <= na,
            na == a@.len(),
            na == b@.len(),
            forall|k: int| 0 <= k < i ==> a@[k] == b@[k],
        decreases na - i,
    {
        if a.get_char(i) != b.get_char(i) {
            return false;
        }
        i = i + 1;
    }
    proof {
        assert(a@ =~= b@);
    }
    true
}

/// The scanner's state: the borrowed input, the cursor, the position one
/// past the cursor, and the character under the cursor (`'\0'` once the
/// cursor stands past the end; end of input is decided by position, never
/// by that character's value).
#[derive(Debug)]
pub struct Lexer<'a> {
    input: &'a str,
    position: usize,
    read_position: usize,
    ch: char,
}

impl<'a> Lexer<'a> {
    /// The input as a character sequence.
    pub closed spec fn src(self) -> Seq<char> {
        self.input@
    }

    /// The cursor: the index of the character the next classification looks
    /// at, clamped to the input's length once everything is consumed.
    pub closed spec fn pos(self) -> int {
        self.position as int
    }

    /// Well-formedness: the cursor never passes the input's length, the
    /// character cache mirrors the input at the cursor, and the read
    /// position is one past the cursor while characters remain.
    pub closed spec fn wf(self) -> bool {
        &&& self.position <= self.input@.len()
        &&& if (self.position as int) < self.input@.len() {
            &&& self.ch == self.input@[self.position as int]
            &&& self.read_position == self.position + 1
        } else {
            &&& self.ch == '\0'
            &&& self.read_position == self.position
        }
    }

    /// A fresh scanner over `input`, with the cursor on the first character.
    pub fn new(input: &'a str) -> (l: Lexer<'a>)
        ensures
            l.wf(),
            l.src() == input@,
            l.pos() == 0,
    {
        let mut lexer = Lexer { input, position: 0, read_position: 0, ch: '\0' };
        lexer.read_char();
        lexer
    }

    /// Skip any run of whitespace, then classify the character under the
    /// cursor and return exactly one token, the cursor standing just past
    /// everything the token consumed. Past the end of the input every call
    /// returns `EOF` and moves nothing, so the scan can be pulled from
    /// forever without a panic.
    pub fn next_token(&mut self) -> (t: Token<'a>)
        requires
            old(self).wf(),
        ensures
            final(self).wf(),
            final(self).src() == old(self).src(),
            t@ == spec_next(old(self).src(), old(self).pos()).0,
            final(self).pos() == spec_next(old(self).src(), old(self).pos()).1,
    {
        let ghost s = self.src();
        let ghost i0 = self.pos();
        let n = self.input.unicode_len();
        while self.position < n && self.ch.is_whitespace()
            invariant
                self.wf(),
                s == self.src(),
                n == s.len(),
                i0 <= self.pos() <= n,
                skip_ws(s, i0) == skip_ws(s, self.pos()),
            decreases n - self.position,
        {
            self.read_char();
        }
        if self.position >= n {
            return Token::EOF;
        }
        let c = self.ch;
        if c == ',' {
            self.read_char();
            Token::Comma
        } else if c == ';' {
            self.read_char();
            Token::Semicolon
        } else if c == '(' {
            self.read_char();
            Token::LParen
        } else if c == ')' {
            self.read_char();
            Token::RParen
        } else if c == '{' {
            self.read_char();
            Token::LBrace
        } else if c == '}' {
            self.read_char();
            Token::RBrace
        } else if c == '+' {
            self.read_char();
            Token::Plus
        } else if c == '-' {
            self.read_char();
            Token::Minus
        } else if c == '*' {
            self.read_char();
            Token::Asterisk
        } else if c == '/' {
            self.read_char();
            Token::Slash
        } else if c == '>' {
            if self.peek_next() == '=' {
                self.read_char();
                self.read_char();
                Token::GTE
            } else {
                self.read_char();
                Token::GT
            }
        } else if c == '<' {
            if self.peek_next() == '=' {
                self.read_char();
                self.read_char();
                Token::LTE
            } else {
                self.read_char();
                Token::LT
            }
        } else if c == '!' {
            if self.peek_next() == '=' {
                self.read_char();
                self.read_char();
                Token::NotEq
            } else {
                self.read_char();
                Token::Bang
            }
        } else if c == '=' {
            if self.peek_next() == '=' {
                self.read_char();
                self.read_char();
                Token::Eq
            } else {
                self.read_char();
                Token::Assign
            }
        } else if c.is_alphabetic() {
            self.read_word()
        } else if is_dec_digit(c) {
            self.read_int()
        } else {
            self.read_char();
            Token::Illegal
        }
    }

    /// Advance the cursor by one character, clamping at the end of the
    /// input.
    fn read_char(&mut self)
        requires
            old(self).read_position <= old(self).input@.len(),
        ensures
            final(self).input == old(self).input,
            final(self).wf(),
            final(self).pos() == if old(self).read_position < old(self).input@.len() {
                old(self).read_position as int
            } else {
                old(self).input@.len() as int
            },
    {
        let n = self.input.unicode_len();
        if self.read_position >= n {
            self.position = n;
            self.read_position = n;
            self.ch = '\0';
        } else {
            self.ch = self.input.get_char(self.read_position);
            self.position = self.read_position;
            self.read_position = self.read_position + 1;
        }
    }

    /// The character one past the cursor, `'\0'` if none remains; the state
    /// is left untouched.
    fn peek_next(&self) -> (c: char)
        requires
            self.wf(),
        ensures
            c == if self.pos() + 1 < self.src().len() {
                self.src()[self.pos() + 1]
            } else {
                '\0'
            },
    {
        let n = self.input.unicode_len();
        if self.read_position >= n {
            '\0'
        } else {
            self.input.get_char(self.read_position)
        }
    }

    /// Scan the maximal word run under the cursor and classify it: a
    /// reserved spelling becomes its keyword token, anything else an
    /// identifier borrowing exactly that run of the input.
    fn read_word(&mut self) -> (t: Token<'a>)
        requires
            old(self).wf(),
            old(self).pos() < old(self).src().len(),
        ensures
            final(self).wf(),
            final(self).src() == old(self).src(),
            final(self).pos() == word_end(old(self).src(), old(self).pos()),
            t@ == classify_word(
                old(self).src().subrange(
                    old(self).pos(),
                    word_end(old(self).src(), old(self).pos()),
                ),
            ),
    {
        let ghost s = self.src();
        let idx = self.position;
        let n = self.input.unicode_len();
        while self.position < n && (self.ch.is_alphabetic() || self.ch == '_')
            invariant
                self.wf(),
                s == self.src(),
                n == s.len(),
                idx as int <= self.pos() <= n,
                word_end(s, idx as int) == word_end(s, self.pos()),
            decreases n - self.position,
        {
            self.read_char();
        }
        let w = self.input.substring_char(idx, self.position);
        if str_eq(w, "fn") {
            Token::Function
        } else if str_eq(w, "let") {
            Token::Let
        } else if str_eq(w, "true") {
            Token::True
        } else if str_eq(w, "if") {
            Token::If
        } else if str_eq(w, "else") {
            Token::Else
        } else if str_eq(w, "false") {
            Token::False
        } else if str_eq(w, "return") {
            Token::Return
        } else {
            Token::Ident(w)
        }
    }

    /// Scan the maximal run of decimal digits under the cursor and read it
    /// in base ten. A value beyond the 64-bit signed range yields `Illegal`
    /// instead of a number; the run is consumed either way.
    fn read_int(&mut self) -> (t: Token<'a>)
        requires
            old(self).wf(),
            old(self).pos() < old(self).src().len(),
            is_digit_char(old(self).src()[old(self).pos()]),
        ensures
            final(self).wf(),
            final(self).src() == old(self).src(),
            final(self).pos() == int_end(old(self).src(), old(self).pos()),
            t@ == ({
                let v = digits_val(
                    old(self).src().subrange(
                        old(self).pos(),
                        int_end(old(self).src(), old(self).pos()),
                    ),
                );
                if v <= i64::MAX {
                    Tok::Int(v as i64)
                } else {
                    Tok::Illegal
                }
            }),
    {
        let ghost s = self.src();
        let idx = self.position;
        let n = self.input.unicode_len();
        let mut val: i64 = 0;
        let mut fits: bool = true;
        while self.position < n && is_dec_digit(self.ch)
            invariant
                self.wf(),
                s == self.src(),
                n == s.len(),
                idx as int <= self.pos() <= n,
                int_end(s, idx as int) == int_end(s, self.pos()),
                forall|k: int| idx as int <= k < self.pos() ==> is_digit_char(s[k]),
                fits ==> 0 <= val && val as int == digits_val(
                    s.subrange(idx as int, self.pos()),
                ),
                !fits ==> digits_val(s.subrange(idx as int, self.pos())) > i64::MAX,
            decreases n - self.position,
        {
            let ghost p = self.pos();
            let u = self.ch as u32;
            let d: i64 = (u - 48) as i64;
            proof {
                lemma_digits_val_step(s, idx as int, p);
                assert(d == digit_of(s[p]));
            }
            if fits {
                match val.checked_mul(10) {
                    Some(m) => {
                        match m.checked_add(d) {
                            Some(v2) => {
                                val = v2;
                            },
                            None => {
                                fits = false;
                            },
                        }
                    },
                    None => {
                        fits = false;
                    },
                }
            }
            self.read_char();
        }
        if fits {
            Token::Int(val)
        } else {
            Token::Illegal
        }
    }

    /// Pull every token of `input` in order, the final `EOF` included.
    ///
    /// The result is exactly the spec-level stream `tokens_from(input@, 0)`,
    /// a function of the input text alone: any two calls over equal inputs
    /// return equal streams, and the stream holds at most one token more
    /// than the input has characters.
    pub fn tokenize(input: &'a str) -> (r: Vec<Token<'a>>)
        ensures
            r@.map_values(|t: Token<'a>| t@) == tokens_from(input@, 0),
            1 <= r@.len() <= input@.len() + 1,
    {
        let ghost s = input@;
        let mut lexer = Lexer::new(input);
        let mut out: Vec<Token<'a>> = Vec::new();
        let mut done = false;
        while !done
            invariant
                lexer.wf(),
                lexer.src() == s,
                s == input@,
                0 <= lexer.pos() <= s.len(),
                !done ==> tokens_from(s, 0) == out@.map_values(|t: Token<'a>| t@)
                    + tokens_from(s, lexer.pos()),
                done ==> tokens_from(s, 0) == out@.map_values(|t: Token<'a>| t@),
            decreases s.len() - lexer.pos() + (if done {
                0int
            } else {
                1int
            }),
        {
            let ghost p0 = lexer.pos();
            let ghost before = out@.map_values(|t: Token<'a>| t@);
            proof {
                lemma_progress(s, p0);
            }
            let t = lexer.next_token();
            let ghost tv = t@;
            if matches!(t, Token::EOF) {
                done = true;
            }
            out.push(t);
            proof {
                assert(out@.map_values(|t: Token<'a>| t@) =~= before + seq![tv]);
            }
        }
        proof {
            lemma_token_count(s, 0);
        }
        out
    }
}

} // verus!
