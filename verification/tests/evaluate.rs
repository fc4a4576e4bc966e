use rpn_calc::stack::evaluate;
use rpn_calc::stack::EvalError;
use rpn_calc::stack::PushError;
use rpn_calc::stack::Stack;
use rpn_calc::stack::Value;
use rpn_calc::token::tokenize;
use rpn_calc::token::BinaryOperator;
use rpn_calc::token::Constant;
use rpn_calc::token::Token;
use rpn_calc::token::UnaryOperator;

fn word_token(word: &str) -> Token {
    let numeric = word.to_lowercase().parse::<f32>().ok().map(f32::to_bits);
    tokenize(word, numeric)
}

fn run(words: &[&str]) -> Result<Value, EvalError> {
    let tokens: Vec<Token> = words.iter().map(|w| word_token(w)).collect();
    evaluate(&tokens)
}

/// The floating-point number a finished symbolic value describes.
fn to_f32(value: &Value) -> f32 {
    match value {
        Value::Number(bits) => f32::from_bits(*bits),
        Value::Constant(Constant::Pi) => std::f32::consts::PI,
        Value::Constant(Constant::E) => std::f32::consts::E,
        Value::Unary(op, a) => {
            let x = to_f32(a);
            match op {
                UnaryOperator::Ln => x.ln(),
                UnaryOperator::Log2 => x.log2(),
                UnaryOperator::Log10 => x.log10(),
                UnaryOperator::Sin => x.sin(),
                UnaryOperator::Cos => x.cos(),
                UnaryOperator::Tan => x.tan(),
            }
        }
        Value::Binary(op, a, b) => {
            let left = to_f32(a);
            let right = to_f32(b);
            match op {
                BinaryOperator::Add => left + right,
                BinaryOperator::Subtract => left - right,
                BinaryOperator::Multiply => left * right,
                BinaryOperator::Divide => left / right,
                BinaryOperator::LogBase => left.log(right),
            }
        }
    }
}

fn run_f32(words: &[&str]) -> f32 {
    to_f32(&run(words).expect("evaluation should succeed"))
}

#[test]
fn addition_of_two_numbers() {
    assert_eq!(run_f32(&["3", "5", "+"]), 8.0);
}

#[test]
fn leftover_value_is_unbalanced() {
    assert_eq!(run(&["3", "5", "+", "2"]), Err(EvalError::UnbalancedExpression));
}

#[test]
fn empty_input_is_unbalanced() {
    assert_eq!(run(&[]), Err(EvalError::UnbalancedExpression));
}

#[test]
fn lone_operator_reports_index_zero() {
    assert_eq!(run(&["+"]), Err(EvalError::InsufficientOperands { index: 0 }));
}

#[test]
fn binary_operator_with_one_operand_reports_its_index() {
    assert_eq!(run(&["1", "+"]), Err(EvalError::InsufficientOperands { index: 1 }));
}

#[test]
fn unary_operator_on_empty_stack_reports_its_index() {
    assert_eq!(run(&["sin"]), Err(EvalError::InsufficientOperands { index: 0 }));
}

#[test]
fn evaluation_stops_at_first_arity_failure() {
    assert_eq!(run(&["ln", "1", "2", "+"]), Err(EvalError::InsufficientOperands { index: 0 }));
}

#[test]
fn log_base_takes_base_from_the_top() {
    assert_eq!(run_f32(&["2", "10", "log"]), 2.0f32.log(10.0));
}

#[test]
fn pi_halved() {
    let result = run_f32(&["pi", "2", "/"]);
    assert_eq!(result, std::f32::consts::PI / 2.0);
    assert!((result - 1.5708).abs() < 1e-4);
}

#[test]
fn natural_log_of_e_is_near_one() {
    let result = run_f32(&["e", "ln"]);
    assert_eq!(result, std::f32::consts::E.ln());
    assert!((result - 1.0).abs() < 1e-6);
}

#[test]
fn multiplication_uses_the_dot_symbol() {
    assert_eq!(run_f32(&["6", "7", "."]), 42.0);
}

#[test]
fn invalid_tokens_are_absorbed() {
    assert_eq!(run_f32(&["foo", "3", "5", "+"]), 8.0);
}

#[test]
fn operand_order_is_left_first() {
    assert_eq!(run_f32(&["5", "3", "-"]), 2.0);
    assert_eq!(
        run(&["5", "3", "-"]),
        Ok(Value::Binary(
            BinaryOperator::Subtract,
            Box::new(Value::Number(5.0f32.to_bits())),
            Box::new(Value::Number(3.0f32.to_bits())),
        ))
    );
}

#[test]
fn division_by_zero_follows_float_semantics() {
    assert_eq!(run_f32(&["1", "0", "/"]), f32::INFINITY);
}

#[test]
fn push_invalid_changes_nothing() {
    let mut stack = Stack::new();
    assert_eq!(stack.push(&Token::Invalid), Ok(()));
    assert_eq!(stack.len(), 0);
    assert_eq!(stack.push(&Token::Number(1.0f32.to_bits())), Ok(()));
    assert_eq!(stack.push(&Token::Invalid), Ok(()));
    assert_eq!(stack.len(), 1);
}

#[test]
fn push_arity_failures() {
    let mut stack = Stack::new();
    assert_eq!(
        stack.push(&Token::UnaryOperator(UnaryOperator::Sin)),
        Err(PushError::InsufficientOperands)
    );
    assert_eq!(stack.len(), 0);
    assert_eq!(stack.push(&Token::Number(1.0f32.to_bits())), Ok(()));
    assert_eq!(
        stack.push(&Token::BinaryOperator(BinaryOperator::Add)),
        Err(PushError::InsufficientOperands)
    );
}

#[test]
fn push_unary_keeps_size_and_binary_shrinks_by_one() {
    let mut stack = Stack::new();
    assert_eq!(stack.push(&Token::Number(2.0f32.to_bits())), Ok(()));
    assert_eq!(stack.push(&Token::Number(3.0f32.to_bits())), Ok(()));
    assert_eq!(stack.len(), 2);
    assert_eq!(stack.push(&Token::UnaryOperator(UnaryOperator::Cos)), Ok(()));
    assert_eq!(stack.len(), 2);
    assert_eq!(stack.push(&Token::BinaryOperator(BinaryOperator::Multiply)), Ok(()));
    assert_eq!(stack.len(), 1);
}

#[test]
fn constants_push_one_value() {
    let mut stack = Stack::new();
    assert_eq!(stack.push(&Token::Constant(Constant::Pi)), Ok(()));
    assert_eq!(stack.push(&Token::Constant(Constant::E)), Ok(()));
    assert_eq!(stack.len(), 2);
}

#[test]
fn value_of_a_finished_run() {
    let mut stack = Stack::new();
    assert_eq!(stack.push(&Token::Number(4.0f32.to_bits())), Ok(()));
    assert_eq!(stack.value(), Some(Value::Number(4.0f32.to_bits())));
    assert_eq!(stack.len(), 0);
}

#[test]
fn value_of_an_empty_stack_is_none() {
    let mut stack = Stack::new();
    assert_eq!(stack.value(), None);
}

#[test]
fn value_with_two_values_left_is_none() {
    let mut stack = Stack::new();
    assert_eq!(stack.push(&Token::Number(1.0f32.to_bits())), Ok(()));
    assert_eq!(stack.push(&Token::Number(2.0f32.to_bits())), Ok(()));
    assert_eq!(stack.value(), None);
    assert_eq!(stack.len(), 2);
}
