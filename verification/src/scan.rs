//! The mathematical model of the scan.
//!
//! These spec functions say, over the input's character sequence, where a
//! token starts, which token it is, and where the cursor stands afterwards.
//! The executable scanner is proved to agree with them call by call.

use vstd::prelude::*;

use crate::chars::digit_of;
use crate::chars::is_alpha_char;
use crate::chars::is_digit_char;
use crate::chars::is_whitespace_char;
use crate::token::classify_word;
use crate::token::Tok;

verus! {

/// First position at or after `i` that is past the input or holds a
/// non-whitespace character.
pub open spec fn skip_ws(s: Seq<char>, i: int) -> int
    recommends
        0 <= i <= s.len(),
    decreases s.len() - i,
{
    if i < s.len() && is_whitespace_char(s[i]) {
        skip_ws(s, i + 1)
    } else {
        i
    }
}

/// Whether a character may continue a word: alphabetic, or an underscore.
pub open spec fn is_word_char(c: char) -> bool {
    is_alpha_char(c) || c == '_'
}

/// End of the maximal word run starting at `i`.
pub open spec fn word_end(s: Seq<char>, i: int) -> int
    recommends
        0 <= i <= s.len(),
    decreases s.len() - i,
{
    if i < s.len() && is_word_char(s[i]) {
        word_end(s, i + 1)
    } else {
        i
    }
}

/// End of the maximal run of decimal digits starting at `i`.
pub open spec fn int_end(s: Seq<char>, i: int) -> int
    recommends
        0 <= i <= s.len(),
    decreases s.len() - i,
{
    if i < s.len() && is_digit_char(s[i]) {
        int_end(s, i + 1)
    } else {
        i
    }
}

/// The value of a sequence of decimal digits read in base ten.
pub open spec fn digits_val(d: Seq<char>) -> int
    decreases d.len(),
{
    if d.len() == 0 {
        0
    } else {
        digits_val(d.drop_last()) * 10 + digit_of(d.last())
    }
}

/// Reading one more digit multiplies the value so far by ten and adds that
/// digit.
pub proof fn lemma_digits_val_step(s: Seq<char>, idx: int, k: int)
    requires
        0 <= idx <= k < s.len(),
    ensures
        digits_val(s.subrange(idx, k + 1)) == digits_val(s.subrange(idx, k)) * 10 + digit_of(
            s[k],
        ),
{
    let d1 = s.subrange(idx, k + 1);
    assert(d1.drop_last() =~= s.subrange(idx, k));
    assert(d1.last() == s[k]);
}

/// Whether a character is one of the operator or punctuation characters that
/// the scanner classifies ahead of words and numbers.
pub open spec fn is_op_char(c: char) -> bool {
    ||| c == ','
    ||| c == ';'
    ||| c == '('
    ||| c == ')'
    ||| c == '{'
    ||| c == '}'
    ||| c == '+'
    ||| c == '-'
    ||| c == '*'
    ||| c == '/'
    ||| c == '>'
    ||| c == '<'
    ||| c == '!'
    ||| c == '='
}

/// The token scanned at position `j`, with no whitespace to skip first.
///
/// Classification order: end of input, fixed single characters, the four
/// characters that may pair with `'='`, numbers, words, and last the illegal
/// fallback. Decimal digits and alphabetic characters are disjoint classes,
/// so the order of those two tests carries no weight. A run of digits whose
/// value exceeds `i64::MAX` is classified as `Illegal` rather than aborting
/// the scan.
pub open spec fn token_at(s: Seq<char>, j: int) -> Tok
    recommends
        0 <= j <= s.len(),
{
    if j >= s.len() {
        Tok::EOF
    } else {
        let c = s[j];
        if c == ',' {
            Tok::Comma
        } else if c == ';' {
            Tok::Semicolon
        } else if c == '(' {
            Tok::LParen
        } else if c == ')' {
            Tok::RParen
        } else if c == '{' {
            Tok::LBrace
        } else if c == '}' {
            Tok::RBrace
        } else if c == '+' {
            Tok::Plus
        } else if c == '-' {
            Tok::Minus
        } else if c == '*' {
            Tok::Asterisk
        } else if c == '/' {
            Tok::Slash
        } else if c == '>' {
            if j + 1 < s.len() && s[j + 1] == '=' {
                Tok::GTE
            } else {
                Tok::GT
            }
        } else if c == '<' {
            if j + 1 < s.len() && s[j + 1] == '=' {
                Tok::LTE
            } else {
                Tok::LT
            }
        } else if c == '!' {
            if j + 1 < s.len() && s[j + 1] == '=' {
                Tok::NotEq
            } else {
                Tok::Bang
            }
        } else if c == '=' {
            if j + 1 < s.len() && s[j + 1] == '=' {
                Tok::Eq
            } else {
                Tok::Assign
            }
        } else if is_digit_char(c) {
            let v = digits_val(s.subrange(j, int_end(s, j)));
            if v <= i64::MAX {
                Tok::Int(v as i64)
            } else {
                Tok::Illegal
            }
        } else if is_alpha_char(c) {
            classify_word(s.subrange(j, word_end(s, j)))
        } else {
            Tok::Illegal
        }
    }
}

/// The cursor after the token scanned at position `j`.
pub open spec fn token_end(s: Seq<char>, j: int) -> int
    recommends
        0 <= j <= s.len(),
{
    if j >= s.len() {
        j
    } else {
        let c = s[j];
        if is_op_char(c) {
            if (c == '>' || c == '<' || c == '!' || c == '=') && j + 1 < s.len() && s[j + 1]
                == '=' {
                j + 2
            } else {
                j + 1
            }
        } else if is_digit_char(c) {
            int_end(s, j)
        } else if is_alpha_char(c) {
            word_end(s, j)
        } else {
            j + 1
        }
    }
}

/// One step of the scan from position `i`: skip whitespace, then the token
/// there and the cursor after it.
pub open spec fn spec_next(s: Seq<char>, i: int) -> (Tok, int)
    recommends
        0 <= i <= s.len(),
{
    let j = skip_ws(s, i);
    (token_at(s, j), token_end(s, j))
}

/// Skipping whitespace never moves backwards nor past the end.
pub proof fn lemma_skip_ws_bounds(s: Seq<char>, i: int)
    requires
        0 <= i <= s.len(),
    ensures
        i <= skip_ws(s, i) <= s.len(),
    decreases s.len() - i,
{
    if i < s.len() && is_whitespace_char(s[i]) {
        lemma_skip_ws_bounds(s, i + 1);
    }
}

/// A word run ends at or after its start and within the input.
pub proof fn lemma_word_end_bounds(s: Seq<char>, i: int)
    requires
        0 <= i <= s.len(),
    ensures
        i <= word_end(s, i) <= s.len(),
    decreases s.len() - i,
{
    if i < s.len() && is_word_char(s[i]) {
        lemma_word_end_bounds(s, i + 1);
    }
}

/// A digit run ends at or after its start and within the input.
pub proof fn lemma_int_end_bounds(s: Seq<char>, i: int)
    requires
        0 <= i <= s.len(),
    ensures
        i <= int_end(s, i) <= s.len(),
    decreases s.len() - i,
{
    if i < s.len() && is_digit_char(s[i]) {
        lemma_int_end_bounds(s, i + 1);
    }
}

/// Progress: a step of the scan stays within the input; it yields `EOF`
/// exactly when only whitespace remains, leaving the cursor at the end, and
/// any other token moves the cursor strictly forward.
pub proof fn lemma_progress(s: Seq<char>, i: int)
    requires
        0 <= i <= s.len(),
    ensures
        spec_next(s, i).0 == Tok::EOF <==> skip_ws(s, i) == s.len(),
        spec_next(s, i).0 == Tok::EOF ==> spec_next(s, i).1 == s.len(),
        spec_next(s, i).0 != Tok::EOF ==> i < spec_next(s, i).1,
        i <= spec_next(s, i).1 <= s.len(),
{
    lemma_skip_ws_bounds(s, i);
    let j = skip_ws(s, i);
    if j < s.len() {
        let c = s[j];
        if is_op_char(c) {
        } else if is_digit_char(c) {
            lemma_int_end_bounds(s, j + 1);
        } else if is_alpha_char(c) {
            lemma_word_end_bounds(s, j + 1);
        }
    }
}

/// The whole stream of tokens scanned from position `i`: every token in
/// order, `EOF` last. A function of the input text and the start position
/// alone.
pub open spec fn tokens_from(s: Seq<char>, i: int) -> Seq<Tok>
    decreases s.len() - i
        when 0 <= i <= s.len()
        via tokens_from_dec
{
    let t = spec_next(s, i).0;
    let p = spec_next(s, i).1;
    if t == Tok::EOF {
        seq![Tok::EOF]
    } else {
        seq![t] + tokens_from(s, p)
    }
}

#[via_fn]
proof fn tokens_from_dec(s: Seq<char>, i: int) {
    lemma_progress(s, i);
}

/// The scan of a finite input is finite: counting the final `EOF`, at most
/// one token more than there are characters left.
pub proof fn lemma_token_count(s: Seq<char>, i: int)
    requires
        0 <= i <= s.len(),
    ensures
        1 <= tokens_from(s, i).len() <= s.len() - i + 1,
    decreases s.len() - i,
{
    lemma_progress(s, i);
    if spec_next(s, i).0 != Tok::EOF {
        lemma_token_count(s, spec_next(s, i).1);
    }
}

} // verus!
