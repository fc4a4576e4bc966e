//! Tokenization: classifying one input word as a typed calculator token.
//!
//! A word is matched case-insensitively against a fixed symbol table of
//! constants and operators; a word that matches no symbol is a number if it
//! parses as a 32-bit float, and `Invalid` otherwise. Because the library
//! holds no floating-point code, the caller attempts the numeric parse and
//! hands the outcome in as an `Option<u32>` bit pattern; classification
//! itself is verified here.

use vstd::prelude::*;

verus! {

/// A mathematical constant; evaluates to a fixed value without consuming
/// stack values.
#[derive(Debug, PartialEq, Eq, Structural, Clone, Copy)]
pub enum Constant {
    Pi,
    E,
}

/// An operator that consumes exactly one stack value.
#[derive(Debug, PartialEq, Eq, Structural, Clone, Copy)]
pub enum UnaryOperator {
    Ln,
    Log2,
    Log10,
    Sin,
    Cos,
    Tan,
}

/// An operator that consumes exactly two stack values: the left operand is
/// the one pushed first (popped second).
#[derive(Debug, PartialEq, Eq, Structural, Clone, Copy)]
pub enum BinaryOperator {
    Add,
    Subtract,
    Multiply,
    Divide,
    LogBase,
}

/// One classified unit of input.
///
/// `Number` holds the bit pattern of an IEEE 754 single-precision value.
/// `Invalid` marks a word that matched no symbol and did not parse as a
/// number; it is data, not an error.
#[derive(Debug, PartialEq, Eq, Structural, Clone, Copy)]
pub enum Token {
    Number(u32),
    Constant(Constant),
    UnaryOperator(UnaryOperator),
    BinaryOperator(BinaryOperator),
    Invalid,
}

/// ASCII lowercasing of one character; characters outside `A`..`Z` are kept.
pub open spec fn lower_char(c: char) -> char {
    if 65 <= c as u32 && c as u32 <= 90 {
        ((c as u32 + 32) as u8) as char
    } else {
        c
    }
}

/// ASCII lowercasing of a whole word.
pub open spec fn to_lower(s: Seq<char>) -> Seq<char> {
    s.map_values(|c: char| lower_char(c))
}

fn lower_char_exec(c: char) -> (r: char)
    ensures
        r == lower_char(c),
{
    let u = c as u32;
    if 65 <= u && u <= 90 {
        ((u + 32) as u8) as char
    } else {
        c
    }
}

/// Whether `word`, lowercased, is exactly the (already lowercase) symbol
/// `sym`.
fn matches_symbol(word: &str, sym: &str) -> (r: bool)
    ensures
        r == (to_lower(word@) == sym@),
{
    let wn = word.unicode_len();
    let sn = sym.unicode_len();
    if wn != sn {
        assert(to_lower(word@).len() == word@.len());
        return false;
    }
    let mut i: usize = 0;
    while i < wn
        invariant
            i <= wn,
            wn == word@.len(),
            wn == sym@.len(),
            forall|j: int| 0 <= j < i ==> lower_char(word@[j]) == sym@[j],
        decreases wn - i,
    {
        let wc = word.get_char(i);
        let sc = sym.get_char(i);
        if lower_char_exec(wc) != sc {
            assert(to_lower(word@)[i as int] != sym@[i as int]);
            return false;
        }
        i += 1;
    }
    assert(to_lower(word@) =~= sym@);
    true
}

/// The token, if any, that a lowercased word `l` names in the fixed symbol
/// table.
pub open spec fn symbol_token(l: Seq<char>) -> Option<Token> {
    if l == "pi"@ {
        Some(Token::Constant(Constant::Pi))
    } else if l == "e"@ {
        Some(Token::Constant(Constant::E))
    } else if l == "ln"@ {
        Some(Token::UnaryOperator(UnaryOperator::Ln))
    } else if l == "log2"@ {
        Some(Token::UnaryOperator(UnaryOperator::Log2))
    } else if l == "log10"@ {
        Some(Token::UnaryOperator(UnaryOperator::Log10))
    } else if l == "sin"@ {
        Some(Token::UnaryOperator(UnaryOperator::Sin))
    } else if l == "cos"@ {
        Some(Token::UnaryOperator(UnaryOperator::Cos))
    } else if l == "tan"@ {
        Some(Token::UnaryOperator(UnaryOperator::Tan))
    } else if l == "+"@ {
        Some(Token::BinaryOperator(BinaryOperator::Add))
    } else if l == "-"@ {
        Some(Token::BinaryOperator(BinaryOperator::Subtract))
    } else if l == "."@ {
        Some(Token::BinaryOperator(BinaryOperator::Multiply))
    } else if l == "/"@ {
        Some(Token::BinaryOperator(BinaryOperator::Divide))
    } else if l == "log"@ {
        Some(Token::BinaryOperator(BinaryOperator::LogBase))
    } else {
        None
    }
}

/// What `tokenize` returns: the symbol table is consulted first,
/// case-insensitively; otherwise the word is a number exactly when the
/// numeric parse succeeded, and `Invalid` when it failed.
pub open spec fn spec_tokenize(w: Seq<char>, numeric: Option<u32>) -> Token {
    match symbol_token(to_lower(w)) {
        Some(t) => t,
        None => match numeric {
            Some(bits) => Token::Number(bits),
            None => Token::Invalid,
        },
    }
}

/// Classify one input word as a token. Total: every word yields a token.
///
/// `numeric` is the caller's attempt to parse `word` as a 32-bit float,
/// given as the bit pattern of the parsed value; it is consulted only when
/// `word` matches no symbol.
pub fn tokenize(word: &str, numeric: Option<u32>) -> (t: Token)
    ensures
        t == spec_tokenize(word@, numeric),
{
    if matches_symbol(word, "pi") {
        Token::Constant(Constant::Pi)
    } else if matches_symbol(word, "e") {
        Token::Constant(Constant::E)
    } else if matches_symbol(word, "ln") {
        Token::UnaryOperator(UnaryOperator::Ln)
    } else if matches_symbol(word, "log2") {
        Token::UnaryOperator(UnaryOperator::Log2)
    } else if matches_symbol(word, "log10") {
        Token::UnaryOperator(UnaryOperator::Log10)
    } else if matches_symbol(word, "sin") {
        Token::UnaryOperator(UnaryOperator::Sin)
    } else if matches_symbol(word, "cos") {
        Token::UnaryOperator(UnaryOperator::Cos)
    } else if matches_symbol(word, "tan") {
        Token::UnaryOperator(UnaryOperator::Tan)
    } else if matches_symbol(word, "+") {
        Token::BinaryOperator(BinaryOperator::Add)
    } else if matches_symbol(word, "-") {
        Token::BinaryOperator(BinaryOperator::Subtract)
    } else if matches_symbol(word, ".") {
        Token::BinaryOperator(BinaryOperator::Multiply)
    } else if matches_symbol(word, "/") {
        Token::BinaryOperator(BinaryOperator::Divide)
    } else if matches_symbol(word, "log") {
        Token::BinaryOperator(BinaryOperator::LogBase)
    } else {
        match numeric {
            Some(bits) => Token::Number(bits),
            None => Token::Invalid,
        }
    }
}

/// Tokenization is total (no precondition), deterministic and idempotent:
/// classifying the same word with the same numeric parse outcome, any
/// number of times, always yields the same token.
pub proof fn lemma_tokenize_deterministic(
    w1: Seq<char>,
    n1: Option<u32>,
    w2: Seq<char>,
    n2: Option<u32>,
)
    requires
        w1 == w2,
        n1 == n2,
    ensures
        spec_tokenize(w1, n1) == spec_tokenize(w2, n2),
{
}

/// A word that names no symbol and does not parse as a number (the caller
/// hands in no bit pattern) classifies as `Invalid`.
pub proof fn lemma_unrecognized_is_invalid(w: Seq<char>)
    requires
        symbol_token(to_lower(w)) is None,
    ensures
        spec_tokenize(w, None) == Token::Invalid,
{
}

/// The positions of the `Invalid` tokens in a sequence, in increasing
/// order.
pub open spec fn spec_invalid_indices(tokens: Seq<Token>) -> Seq<usize>
    decreases tokens.len(),
{
    if tokens.len() == 0 {
        Seq::empty()
    } else if tokens.last() is Invalid {
        spec_invalid_indices(tokens.drop_last()).push((tokens.len() - 1) as usize)
    } else {
        spec_invalid_indices(tokens.drop_last())
    }
}

/// Collect the 0-based indices of the `Invalid` tokens, in increasing
/// order, for an advisory warning before evaluation.
pub fn invalid_indices(tokens: &Vec<Token>) -> (r: Vec<usize>)
    ensures
        r@ == spec_invalid_indices(tokens@),
{
    let mut r: Vec<usize> = Vec::new();
    let n = tokens.len();
    let mut i: usize = 0;
    while i < n
        invariant
            i <= n,
            n == tokens@.len(),
            r@ == spec_invalid_indices(tokens@.subrange(0, i as int)),
        decreases n - i,
    {
        if matches!(tokens[i], Token::Invalid) {
            r.push(i);
        }
        proof {
            let pre = tokens@.subrange(0, i as int);
            let cur = tokens@.subrange(0, i + 1int);
            assert(cur.drop_last() =~= pre);
            assert(cur.last() == tokens@[i as int]);
        }
        i += 1;
    }
    proof {
        assert(tokens@.subrange(0, n as int) =~= tokens@);
    }
    r
}

} // verus!
