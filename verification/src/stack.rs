//! The stack machine: tokens are consumed in order against an operand
//! stack, operators are applied the moment they arrive with exact arity
//! checking, and at end of input exactly one value must remain.
//!
//! The machine carries operand values symbolically: a [`Value`] records how
//! a result is computed from number literals and constants. Callers perform
//! the floating-point arithmetic that a finished `Value` describes; every
//! structural decision (what is popped, what is pushed, when an arity
//! failure occurs) is made and verified here.

use vstd::prelude::*;

use crate::token::BinaryOperator;
use crate::token::Constant;
use crate::token::Token;
use crate::token::UnaryOperator;

verus! {

/// A symbolic operand value: the expression that produced it.
///
/// `Number` holds the bit pattern of an IEEE 754 single-precision value.
/// `Unary` and `Binary` record an operator applied to operand values; in
/// `Binary` the left operand (the one pushed first) comes first.
#[derive(Debug, PartialEq, Eq)]
pub enum Value {
    Number(u32),
    Constant(Constant),
    Unary(UnaryOperator, Box<Value>),
    Binary(BinaryOperator, Box<Value>, Box<Value>),
}

/// The one way a push can fail: an operator found fewer operands on the
/// stack than its arity requires.
#[derive(Debug, PartialEq, Eq, Structural, Clone, Copy)]
pub enum PushError {
    InsufficientOperands,
}

/// Whether pushing `t` onto a stack holding `s` succeeds.
pub open spec fn spec_push_ok(s: Seq<Value>, t: Token) -> bool {
    match t {
        Token::Number(_) => true,
        Token::Constant(_) => true,
        Token::UnaryOperator(_) => s.len() >= 1,
        Token::BinaryOperator(_) => s.len() >= 2,
        Token::Invalid => true,
    }
}

/// The stack left after pushing `t` onto a stack holding `s`, whether the
/// push succeeds or fails.
///
/// On an arity failure the operands already popped are not restored: a
/// failed binary operator has consumed the single value a one-value stack
/// held. (Every failing case leaves the stack empty, since it can only fail
/// on fewer values than the arity.)
pub open spec fn spec_push_result(s: Seq<Value>, t: Token) -> Seq<Value> {
    match t {
        Token::Number(bits) => s.push(Value::Number(bits)),
        Token::Constant(c) => s.push(Value::Constant(c)),
        Token::UnaryOperator(k) => {
            if s.len() >= 1 {
                s.drop_last().push(Value::Unary(k, Box::new(s.last())))
            } else {
                s
            }
        },
        Token::BinaryOperator(k) => {
            if s.len() >= 2 {
                s.drop_last().drop_last().push(
                    Value::Binary(k, Box::new(s[s.len() - 2]), Box::new(s.last())),
                )
            } else {
                Seq::empty()
            }
        },
        Token::Invalid => s,
    }
}

/// The operand stack of one evaluation run.
pub struct Stack {
    values: Vec<Value>,
}

impl View for Stack {
    type V = Seq<Value>;

    closed spec fn view(&self) -> Seq<Value> {
        self.values@
    }
}

impl Stack {
    /// Create a new empty stack.
    pub fn new() -> (s: Stack)
        ensures
            s@ == Seq::<Value>::empty(),
    {
        Stack { values: Vec::new() }
    }

    /// How many values the stack currently holds.
    pub fn len(&self) -> (n: usize)
        ensures
            n == self@.len(),
    {
        self.values.len()
    }

    /// Push one token: numbers and constants are appended, operators pop
    /// their operands and push the combined value, and `Invalid` is
    /// silently ignored.
    ///
    /// Fails exactly when an operator finds fewer operands than its arity;
    /// the stack is then left as [`spec_push_result`] describes and the run
    /// should be aborted.
    pub fn push(&mut self, token: &Token) -> (r: Result<(), PushError>)
        ensures
            r is Ok <==> spec_push_ok(old(self)@, *token),
            r is Err ==> r == Result::<(), PushError>::Err(PushError::InsufficientOperands),
            final(self)@ == spec_push_result(old(self)@, *token),
    {
        match token {
            Token::Number(bits) => {
                self.values.push(Value::Number(*bits));
                Ok(())
            },
            Token::Constant(c) => {
                self.values.push(Value::Constant(*c));
                Ok(())
            },
            Token::UnaryOperator(k) => {
                match self.values.pop() {
                    Some(v) => {
                        self.values.push(Value::Unary(*k, Box::new(v)));
                        assert(final(self)@ =~= spec_push_result(old(self)@, *token));
                        Ok(())
                    },
                    None => Err(PushError::InsufficientOperands),
                }
            },
            Token::BinaryOperator(k) => {
                let right = match self.values.pop() {
                    Some(v) => v,
                    None => {
                        assert(final(self)@ =~= spec_push_result(old(self)@, *token));
                        return Err(PushError::InsufficientOperands);
                    },
                };
                let left = match self.values.pop() {
                    Some(v) => v,
                    None => {
                        assert(final(self)@ =~= spec_push_result(old(self)@, *token));
                        return Err(PushError::InsufficientOperands);
                    },
                };
                self.values.push(Value::Binary(*k, Box::new(left), Box::new(right)));
                assert(final(self)@ =~= spec_push_result(old(self)@, *token));
                Ok(())
            },
            Token::Invalid => Ok(()),
        }
    }

    /// Read off the result of a finished run: the single remaining value,
    /// which is removed, or `None` when the stack holds no value or more
    /// than one (an unbalanced expression; the stack is left unchanged).
    pub fn value(&mut self) -> (r: Option<Value>)
        ensures
            old(self)@.len() == 1 ==> r == Some(old(self)@[0]) && final(self)@
                == Seq::<Value>::empty(),
            old(self)@.len() != 1 ==> r is None && final(self)@ == old(self)@,
    {
        if self.values.len() > 1 {
            return None;
        }
        self.values.pop()
    }
}

/// How one evaluation run of a whole token sequence can fail.
#[derive(Debug, PartialEq, Eq, Structural, Clone, Copy)]
pub enum EvalError {
    /// An operator required more values than the stack held; `index` is the
    /// 0-based position of the offending token.
    InsufficientOperands { index: usize },
    /// After the whole sequence, the stack held zero values or more than
    /// one.
    UnbalancedExpression,
}

/// Running the tokens from position `i` on against a stack holding `s`:
/// either the final stack, or the index of the first token whose push
/// fails.
pub open spec fn spec_run_from(s: Seq<Value>, tokens: Seq<Token>, i: int) -> Result<
    Seq<Value>,
    int,
>
    decreases tokens.len() - i,
{
    if i < 0 || i >= tokens.len() {
        Result::Ok(s)
    } else if spec_push_ok(s, tokens[i]) {
        spec_run_from(spec_push_result(s, tokens[i]), tokens, i + 1)
    } else {
        Result::Err(i)
    }
}

/// What `evaluate` returns: the tokens are run left to right from an empty
/// stack; an arity failure aborts the run at its token's index, and
/// otherwise exactly one remaining value is the result.
pub open spec fn spec_evaluate(tokens: Seq<Token>) -> Result<Value, EvalError> {
    match spec_run_from(Seq::empty(), tokens, 0) {
        Result::Err(i) => Result::Err(EvalError::InsufficientOperands { index: i as usize }),
        Result::Ok(s) => if s.len() == 1 {
            Result::Ok(s[0])
        } else {
            Result::Err(EvalError::UnbalancedExpression)
        },
    }
}

/// Evaluate a whole token sequence against a fresh stack.
///
/// Tokens are pushed in order; the first arity failure stops the run and
/// reports that token's index. After the last token, the single remaining
/// value is the result; an empty or overfull stack is an unbalanced
/// expression.
pub fn evaluate(tokens: &Vec<Token>) -> (r: Result<Value, EvalError>)
    ensures
        r == spec_evaluate(tokens@),
{
    let mut stack = Stack::new();
    let n = tokens.len();
    let mut i: usize = 0;
    while i < n
        invariant
            i <= n,
            n == tokens@.len(),
            spec_run_from(Seq::empty(), tokens@, 0) == spec_run_from(stack@, tokens@, i as int),
        decreases n - i,
    {
        if stack.push(&tokens[i]).is_err() {
            return Err(EvalError::InsufficientOperands { index: i });
        }
        i += 1;
    }
    match stack.value() {
        Some(v) => Ok(v),
        None => Err(EvalError::UnbalancedExpression),
    }
}

/// Pushing an `Invalid` token always succeeds and leaves the stack exactly
/// as it was: neither its size nor its values change.
pub proof fn lemma_invalid_push_is_noop(s: Seq<Value>)
    ensures
        spec_push_ok(s, Token::Invalid),
        spec_push_result(s, Token::Invalid) == s,
{
}

/// Arity law for unary operators: pushing one onto an empty stack fails,
/// and onto any non-empty stack succeeds leaving the size unchanged (one
/// value popped, one pushed).
pub proof fn lemma_unary_arity(s: Seq<Value>, k: UnaryOperator)
    ensures
        spec_push_ok(s, Token::UnaryOperator(k)) <==> s.len() >= 1,
        s.len() >= 1 ==> spec_push_result(s, Token::UnaryOperator(k)).len() == s.len(),
{
}

/// Arity law for binary operators: pushing one onto a stack of fewer than
/// two values fails, and onto any larger stack succeeds shrinking the size
/// by one (two values popped, one pushed).
pub proof fn lemma_binary_arity(s: Seq<Value>, k: BinaryOperator)
    ensures
        spec_push_ok(s, Token::BinaryOperator(k)) <==> s.len() >= 2,
        s.len() >= 2 ==> spec_push_result(s, Token::BinaryOperator(k)).len() == s.len() - 1,
{
}

/// The net effect of one successfully pushed token on the stack size:
/// numbers and constants add a value, a unary operator replaces one value,
/// a binary operator turns two values into one, and `Invalid` is ignored.
pub open spec fn spec_size_delta(t: Token) -> int {
    match t {
        Token::Number(_) => 1,
        Token::Constant(_) => 1,
        Token::UnaryOperator(_) => 0,
        Token::BinaryOperator(_) => -1,
        Token::Invalid => 0,
    }
}

/// The summed size effect of the tokens from position `i` on.
pub open spec fn spec_net_delta(tokens: Seq<Token>, i: int) -> int
    decreases tokens.len() - i,
{
    if i < 0 || i >= tokens.len() {
        0
    } else {
        spec_size_delta(tokens[i]) + spec_net_delta(tokens, i + 1)
    }
}

/// Size invariant of the machine: a run that processes the tokens from
/// position `i` on without an arity failure leaves exactly as many values
/// as it started with plus each token's net effect — the stack holds just
/// what the partial expression leaves unconsumed.
pub proof fn lemma_stack_size(s: Seq<Value>, tokens: Seq<Token>, i: int)
    requires
        spec_run_from(s, tokens, i) is Ok,
    ensures
        spec_run_from(s, tokens, i)->Ok_0.len() == s.len() + spec_net_delta(tokens, i),
    decreases tokens.len() - i,
{
    if 0 <= i < tokens.len() && spec_push_ok(s, tokens[i]) {
        lemma_stack_size(spec_push_result(s, tokens[i]), tokens, i + 1);
    }
}

/// Operand order law: evaluating `[a, b, op]` yields the combination whose
/// left operand is `a`, the value pushed first, and whose right operand is
/// `b` — for subtraction, `a - b` and not `b - a`.
pub proof fn lemma_operand_order(a: u32, b: u32, k: BinaryOperator)
    ensures
        spec_evaluate(
            seq![Token::Number(a), Token::Number(b), Token::BinaryOperator(k)],
        ) == Result::<Value, EvalError>::Ok(
            Value::Binary(k, Box::new(Value::Number(a)), Box::new(Value::Number(b))),
        ),
{
    let toks = seq![Token::Number(a), Token::Number(b), Token::BinaryOperator(k)];
    let s0 = Seq::<Value>::empty();
    let s1 = s0.push(Value::Number(a));
    let s2 = s1.push(Value::Number(b));
    let v = Value::Binary(k, Box::new(Value::Number(a)), Box::new(Value::Number(b)));
    let s3 = s2.drop_last().drop_last().push(v);
    assert(toks[0] == Token::Number(a));
    assert(toks[1] == Token::Number(b));
    assert(toks[2] == Token::BinaryOperator(k));
    assert(spec_push_result(s0, toks[0]) == s1);
    assert(spec_push_result(s1, toks[1]) == s2);
    assert(s2.len() == 2);
    assert(s2[0] == Value::Number(a));
    assert(s2.last() == Value::Number(b));
    assert(spec_push_result(s2, toks[2]) == s3);
    assert(spec_run_from(s3, toks, 3) == Result::<Seq<Value>, int>::Ok(s3));
    assert(spec_run_from(s2, toks, 2) == spec_run_from(s3, toks, 3));
    assert(spec_run_from(s1, toks, 1) == spec_run_from(s2, toks, 2));
    assert(spec_run_from(s0, toks, 0) == spec_run_from(s1, toks, 1));
    assert(spec_run_from(s0, toks, 0) == Result::<Seq<Value>, int>::Ok(s3));
    assert(s3.len() == 1);
    assert(s3[0] == v);
}

} // verus!
