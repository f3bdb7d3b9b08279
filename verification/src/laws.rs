//! Laws of the scanner, stated over the spec-level scan and proved once and
//! for all.
//!
//! Together with the contracts of `Lexer::next_token` and `Lexer::tokenize`
//! these pin down the scan as a whole: the stream is a function of the input
//! alone, it is finite, its tail after `EOF` is `EOF` forever, keywords and
//! identifiers partition the words, two-character operators win their
//! tie-break, and integer literals round-trip.

use vstd::prelude::*;

use crate::chars::is_alpha_char;
use crate::chars::is_digit_char;
use crate::scan::digits_val;
use crate::scan::int_end;
use crate::scan::is_op_char;
use crate::scan::lemma_int_end_bounds;
use crate::scan::lemma_progress;
use crate::scan::lemma_word_end_bounds;
use crate::scan::spec_next;
use crate::scan::token_at;
use crate::scan::token_end;
use crate::scan::word_end;
use crate::token::classify_word;
use crate::token::is_keyword_spelling;
use crate::token::Tok;

verus! {

/// Idempotent tail: a step that yields `EOF` leaves the cursor at the end
/// of the input, and from there every further step yields `EOF` again
/// without moving.
pub proof fn lemma_eof_idempotent(s: Seq<char>, i: int)
    requires
        0 <= i <= s.len(),
        spec_next(s, i).0 == Tok::EOF,
    ensures
        spec_next(s, i).1 == s.len(),
        spec_next(s, spec_next(s, i).1) == (Tok::EOF, s.len() as int),
{
    lemma_progress(s, i);
}

/// Keyword/identifier partition: each of the seven reserved spellings is
/// classified as its own keyword token and never as an identifier; every
/// other word is classified as an identifier carrying exactly that word.
pub proof fn lemma_keyword_ident_partition(w: Seq<char>)
    ensures
        !is_keyword_spelling(w) ==> classify_word(w) == Tok::Ident(w),
        is_keyword_spelling(w) ==> !(classify_word(w) is Ident),
        classify_word(w) == Tok::Function <==> w == "fn"@,
        classify_word(w) == Tok::Let <==> w == "let"@,
        classify_word(w) == Tok::True <==> w == "true"@,
        classify_word(w) == Tok::If <==> w == "if"@,
        classify_word(w) == Tok::Else <==> w == "else"@,
        classify_word(w) == Tok::False <==> w == "false"@,
        classify_word(w) == Tok::Return <==> w == "return"@,
{
    reveal_strlit("fn");
    reveal_strlit("let");
    reveal_strlit("true");
    reveal_strlit("if");
    reveal_strlit("else");
    reveal_strlit("return");
    reveal_strlit("false");
    assert("fn"@.len() == 2 && "if"@.len() == 2 && "let"@.len() == 3 && "true"@.len() == 4
        && "else"@.len() == 4 && "false"@.len() == 5 && "return"@.len() == 6);
    assert("fn"@[0] == 'f' && "if"@[0] == 'i');
    assert("true"@[0] == 't' && "else"@[0] == 'e');
}

/// An alphabetic run is scanned whole: at an alphabetic character that no
/// earlier classification claims (in the real classification no operator
/// character and no digit is alphabetic, which the model cannot see and the
/// last two premises therefore state), the token is the classification of
/// the maximal word run there, and the cursor advances past exactly that
/// run.
pub proof fn lemma_word_run(s: Seq<char>, j: int)
    requires
        0 <= j < s.len(),
        is_alpha_char(s[j]),
        !is_op_char(s[j]),
        !is_digit_char(s[j]),
    ensures
        token_at(s, j) == classify_word(s.subrange(j, word_end(s, j))),
        token_end(s, j) == word_end(s, j),
{
    lemma_word_end_bounds(s, j);
}

/// Two-character operator tie-break: `<`, `>`, `!`, `=` immediately
/// followed by `=` yield the two-character token and consume both
/// characters; followed by anything else they yield the one-character token
/// and consume exactly one.
pub proof fn lemma_two_char_tiebreak(s: Seq<char>, j: int)
    requires
        0 <= j < s.len(),
        s[j] == '<' || s[j] == '>' || s[j] == '!' || s[j] == '=',
    ensures
        j + 1 < s.len() && s[j + 1] == '=' ==> ({
            &&& token_end(s, j) == j + 2
            &&& (s[j] == '<' ==> token_at(s, j) == Tok::LTE)
            &&& (s[j] == '>' ==> token_at(s, j) == Tok::GTE)
            &&& (s[j] == '!' ==> token_at(s, j) == Tok::NotEq)
            &&& (s[j] == '=' ==> token_at(s, j) == Tok::Eq)
        }),
        !(j + 1 < s.len() && s[j + 1] == '=') ==> ({
            &&& token_end(s, j) == j + 1
            &&& (s[j] == '<' ==> token_at(s, j) == Tok::LT)
            &&& (s[j] == '>' ==> token_at(s, j) == Tok::GT)
            &&& (s[j] == '!' ==> token_at(s, j) == Tok::Bang)
            &&& (s[j] == '=' ==> token_at(s, j) == Tok::Assign)
        }),
{
}

/// Integer literal round-trip: at a digit the scanner takes the maximal
/// digit run, and when the run's base-ten value fits a 64-bit signed
/// integer the token is `Int` of exactly that value, the cursor advancing
/// by exactly the run's length.
pub proof fn lemma_int_literal_round_trip(s: Seq<char>, j: int)
    requires
        0 <= j < s.len(),
        is_digit_char(s[j]),
        digits_val(s.subrange(j, int_end(s, j))) <= i64::MAX,
    ensures
        token_at(s, j) == Tok::Int(digits_val(s.subrange(j, int_end(s, j))) as i64),
        token_end(s, j) == j + s.subrange(j, int_end(s, j)).len(),
{
    lemma_int_end_bounds(s, j);
}

} // verus!
