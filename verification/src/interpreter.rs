//! The front end: type checking, code generation and evaluation of
//! expressions.

pub mod soundness;

use vstd::prelude::*;
use vstd::string::*;
use crate::ast::{Operator, AST};
use crate::text::{append_boolean, append_signed_decimal, boolean_text, signed_decimal};
use crate::interpreter::soundness::{
    has_type, lemma_code_computes_value, lemma_typed_unary_nodes,
};
use crate::vm::machine::{division_by_zero_message, program_view, stack_view, VirtualMachine};
use crate::vm::model::{
    lemma_outcome, lemma_run_after, quotient, remainder, wrap, MachineView, Outcome, Progress,
};
use crate::vm::opcode::{Opcode, OpcodeView};
use crate::vm::value::ValueView;

pub use crate::error::InterpreterError;
pub use crate::types::Type;

verus! {

/// The result of evaluating an expression.
#[derive(Clone, Copy, Debug, PartialEq, Eq, Structural)]
pub enum Value {
    Boolean(bool),
    Integer(i64),
}

/// How a result is shown to the user.
pub open spec fn result_text(value: Value) -> Seq<char> {
    match value {
        Value::Boolean(b) => boolean_text(b),
        Value::Integer(i) => signed_decimal(i as int),
    }
}

impl Value {
    /// The text that shows this result to the user.
    pub fn to_string(&self) -> (text: String)
        ensures
            text@ == result_text(*self),
    {
        let mut text = String::new();
        match self {
            Value::Boolean(b) => append_boolean(&mut text, *b),
            Value::Integer(i) => append_signed_decimal(&mut text, *i),
        }
        assert(text@ =~= result_text(*self));
        text
    }
}

/// The message for an operand that should have been an integer.
pub open spec fn expected_integer() -> Seq<char> {
    "Type error: expected integer."@
}

/// The message for an operand that should have been a boolean.
pub open spec fn expected_boolean() -> Seq<char> {
    "Type error: expected boolean."@
}

/// The message for operands of an equality that differ in type.
pub open spec fn type_mismatch() -> Seq<char> {
    "Type error: type mismatch."@
}

/// The message for a unary node that holds no unary operator.
pub open spec fn invalid_unary_operator() -> Seq<char> {
    "Invalid unary operator."@
}

/// The message for the absence of an expression.
pub open spec fn no_type() -> Seq<char> {
    "None has no type."@
}

/// The type that a binary operator gives to operands of the types `lhs`
/// and `rhs`, or the message of the type error.
pub open spec fn binary_type(op: Operator, lhs: Type, rhs: Type) -> Result<Type, Seq<char>>
    recommends
        op.is_binary(),
{
    match op {
        Operator::Divide | Operator::Minus | Operator::Mod | Operator::Multiply | Operator::Plus => {
            if rhs != Type::Integer || lhs != Type::Integer {
                Err(expected_integer())
            } else {
                Ok(Type::Integer)
            }
        },
        Operator::Greater | Operator::GreaterEqual | Operator::Less | Operator::LessEqual => {
            if rhs != Type::Integer || lhs != Type::Integer {
                Err(expected_integer())
            } else {
                Ok(Type::Boolean)
            }
        },
        Operator::And | Operator::Or => {
            if rhs != Type::Boolean || lhs != Type::Boolean {
                Err(expected_boolean())
            } else {
                Ok(Type::Boolean)
            }
        },
        Operator::Equal | Operator::NotEqual => {
            if rhs != lhs {
                Err(type_mismatch())
            } else {
                Ok(Type::Boolean)
            }
        },
        Operator::Not => arbitrary(),
    }
}

/// The type that a unary operator gives to an operand of type `operand`, or
/// the message of the type error.
pub open spec fn unary_type(op: Operator, operand: Type) -> Result<Type, Seq<char>> {
    match op {
        Operator::Minus => if operand == Type::Integer {
            Ok(Type::Integer)
        } else {
            Err(expected_integer())
        },
        Operator::Not => if operand == Type::Boolean {
            Ok(Type::Boolean)
        } else {
            Err(expected_boolean())
        },
        _ => Err(invalid_unary_operator()),
    }
}

/// The static type of an expression, or the message of its first type
/// error. The right operand of a binary operator is checked before the
/// left one, and both before the operator.
pub open spec fn type_of(ast: AST) -> Result<Type, Seq<char>>
    decreases ast,
{
    match ast {
        AST::BinaryOp(op, lhs, rhs) => match type_of(*rhs) {
            Ok(rhs_type) => match type_of(*lhs) {
                Ok(lhs_type) => binary_type(op, lhs_type, rhs_type),
                Err(message) => Err(message),
            },
            Err(message) => Err(message),
        },
        AST::Boolean(_) => Ok(Type::Boolean),
        AST::If(_, _) => Ok(Type::Integer),
        AST::Integer(_) => Ok(Type::Integer),
        AST::UnaryOp(op, operand) => match type_of(*operand) {
            Ok(operand_type) => unary_type(op, operand_type),
            Err(message) => Err(message),
        },
        AST::Empty => Err(no_type()),
    }
}

/// Whether type checking comes to a node with two operands that holds
/// `Not`, which is no binary operator. The checker takes the right operand
/// first and stops at the first error: a node behind an error is not come
/// to, nor is what stands under a conditional.
pub open spec fn comes_to_binary_not(ast: AST) -> bool
    decreases ast,
{
    match ast {
        AST::BinaryOp(op, lhs, rhs) => comes_to_binary_not(*rhs) || (type_of(*rhs) is Ok && (
            comes_to_binary_not(*lhs) || (type_of(*lhs) is Ok && !op.is_binary()))),
        AST::UnaryOp(_, operand) => comes_to_binary_not(*operand),
        _ => false,
    }
}

/// A tree whose binary nodes all hold binary operators can be type checked.
pub proof fn lemma_valid_nodes_can_be_checked(ast: AST)
    requires
        ast.binary_nodes_valid(),
    ensures
        !comes_to_binary_not(ast),
    decreases ast,
{
    match ast {
        AST::BinaryOp(_, lhs, rhs) => {
            lemma_valid_nodes_can_be_checked(*lhs);
            lemma_valid_nodes_can_be_checked(*rhs);
        },
        AST::UnaryOp(_, operand) => {
            lemma_valid_nodes_can_be_checked(*operand);
        },
        _ => {},
    }
}

/// The instruction that carries out a binary operator.
pub open spec fn binary_opcode(op: Operator) -> OpcodeView {
    match op {
        Operator::And => OpcodeView::And,
        Operator::Divide => OpcodeView::Div,
        Operator::Equal => OpcodeView::Equal,
        Operator::Greater => OpcodeView::Greater,
        Operator::GreaterEqual => OpcodeView::GreaterEqual,
        Operator::Less => OpcodeView::Less,
        Operator::LessEqual => OpcodeView::LessEqual,
        Operator::Minus => OpcodeView::Sub,
        Operator::Mod => OpcodeView::Mod,
        Operator::Multiply => OpcodeView::Mul,
        Operator::Not => OpcodeView::Not,
        Operator::NotEqual => OpcodeView::NotEqual,
        Operator::Or => OpcodeView::Or,
        Operator::Plus => OpcodeView::Add,
    }
}

/// The instructions that carry out a unary operator on the value on top of
/// the stack. A negation subtracts from zero.
pub open spec fn unary_code(op: Operator) -> Seq<OpcodeView>
    recommends
        op.is_unary(),
{
    match op {
        Operator::Minus => seq![OpcodeView::Iconst(0), OpcodeView::Sub],
        Operator::Not => seq![OpcodeView::Not],
        _ => arbitrary(),
    }
}

/// The code of an expression. It leaves the value of the expression on top
/// of the stack. The code of the right operand of a binary operator comes
/// before that of the left one, so that the left operand ends on top.
pub open spec fn code_of(ast: AST) -> Seq<OpcodeView>
    decreases ast,
{
    match ast {
        AST::BinaryOp(op, lhs, rhs) => code_of(*rhs) + code_of(*lhs) + seq![binary_opcode(op)],
        AST::Boolean(b) => seq![OpcodeView::Bconst(b)],
        AST::If(_, _) => Seq::empty(),
        AST::Integer(i) => seq![OpcodeView::Iconst(i)],
        AST::UnaryOp(op, operand) => code_of(*operand) + unary_code(op),
        AST::Empty => Seq::empty(),
    }
}

/// What a binary operator makes of the values `lhs` and `rhs` of its
/// operands; `None` where a division or a modulo has a zero divisor.
/// Integer arithmetic wraps; a quotient is rounded toward zero.
pub open spec fn binary_value(op: Operator, lhs: ValueView, rhs: ValueView) -> Option<ValueView>
    recommends
        op.is_binary(),
{
    let x = lhs->Integer_0;
    let y = rhs->Integer_0;
    match op {
        Operator::Plus => Some(ValueView::Integer(wrap(x + y))),
        Operator::Minus => Some(ValueView::Integer(wrap(x - y))),
        Operator::Multiply => Some(ValueView::Integer(wrap(x * y))),
        Operator::Divide => if y == 0 {
            None
        } else {
            Some(ValueView::Integer(wrap(quotient(x as int, y as int))))
        },
        Operator::Mod => if y == 0 {
            None
        } else {
            Some(ValueView::Integer(wrap(remainder(x as int, y as int))))
        },
        Operator::Greater => Some(ValueView::Boolean(x > y)),
        Operator::GreaterEqual => Some(ValueView::Boolean(x >= y)),
        Operator::Less => Some(ValueView::Boolean(x < y)),
        Operator::LessEqual => Some(ValueView::Boolean(x <= y)),
        Operator::And => Some(ValueView::Boolean(lhs->Boolean_0 && rhs->Boolean_0)),
        Operator::Or => Some(ValueView::Boolean(lhs->Boolean_0 || rhs->Boolean_0)),
        Operator::Equal => Some(ValueView::Boolean(lhs == rhs)),
        Operator::NotEqual => Some(ValueView::Boolean(lhs != rhs)),
        Operator::Not => arbitrary(),
    }
}

/// What a unary operator makes of the value of its operand.
pub open spec fn unary_value(op: Operator, operand: ValueView) -> ValueView
    recommends
        op.is_unary(),
{
    match op {
        Operator::Minus => ValueView::Integer(wrap(0 - operand->Integer_0)),
        Operator::Not => ValueView::Boolean(!operand->Boolean_0),
        _ => arbitrary(),
    }
}

/// The value of a well-typed expression; `None` where a division or a
/// modulo in it has a zero divisor. Both operands of every operator are
/// evaluated, the right one first.
pub open spec fn value_of(ast: AST) -> Option<ValueView>
    decreases ast,
{
    match ast {
        AST::BinaryOp(op, lhs, rhs) => match value_of(*rhs) {
            Some(rhs_value) => match value_of(*lhs) {
                Some(lhs_value) => binary_value(op, lhs_value, rhs_value),
                None => None,
            },
            None => None,
        },
        AST::Boolean(b) => Some(ValueView::Boolean(b)),
        AST::Integer(i) => Some(ValueView::Integer(i)),
        AST::UnaryOp(op, operand) => match value_of(*operand) {
            Some(value) => Some(unary_value(op, value)),
            None => None,
        },
        _ => arbitrary(),
    }
}

/// The static type of an expression, or the first type error in it.
///
/// The checker must not come to a binary node that holds `Not`; a tree whose
/// binary nodes all hold binary operators is always in order.
pub fn typecheck(ast: &AST) -> (result: Result<Type, InterpreterError>)
    requires
        !comes_to_binary_not(*ast),
    ensures
        match result {
            Ok(typ) => type_of(*ast) == Ok::<Type, Seq<char>>(typ),
            Err(e) => {
                &&& type_of(*ast) == Err::<Type, Seq<char>>(e.err@)
                &&& e.line == usize::MAX
                &&& e.col == usize::MAX
            },
        },
    decreases ast,
{
    match ast {
        AST::BinaryOp(op, lhs, rhs) => match typecheck(rhs) {
            Ok(rhs_type) => match typecheck(lhs) {
                Ok(lhs_type) => match op {
                    Operator::Divide
                    | Operator::Minus
                    | Operator::Mod
                    | Operator::Multiply
                    | Operator::Plus => {
                        if rhs_type != Type::Integer || lhs_type != Type::Integer {
                            Err(InterpreterError::unlocated("Type error: expected integer."))
                        } else {
                            Ok(Type::Integer)
                        }
                    },
                    Operator::Greater
                    | Operator::GreaterEqual
                    | Operator::Less
                    | Operator::LessEqual => {
                        if rhs_type != Type::Integer || lhs_type != Type::Integer {
                            Err(InterpreterError::unlocated("Type error: expected integer."))
                        } else {
                            Ok(Type::Boolean)
                        }
                    },
                    Operator::And | Operator::Or => {
                        if rhs_type != Type::Boolean || lhs_type != Type::Boolean {
                            Err(InterpreterError::unlocated("Type error: expected boolean."))
                        } else {
                            Ok(Type::Boolean)
                        }
                    },
                    Operator::Not => unreached(),
                    Operator::Equal | Operator::NotEqual => {
                        if rhs_type != lhs_type {
                            Err(InterpreterError::unlocated("Type error: type mismatch."))
                        } else {
                            Ok(Type::Boolean)
                        }
                    },
                },
                Err(e) => Err(e),
            },
            Err(e) => Err(e),
        },
        AST::Boolean(_) => Ok(Type::Boolean),
        AST::If(_, _) => Ok(Type::Integer),
        AST::Integer(_) => Ok(Type::Integer),
        AST::UnaryOp(op, operand) => match typecheck(operand) {
            Ok(operand_type) => match op {
                Operator::Minus => {
                    if operand_type == Type::Integer {
                        Ok(Type::Integer)
                    } else {
                        Err(InterpreterError::unlocated("Type error: expected integer."))
                    }
                },
                Operator::Not => {
                    if operand_type == Type::Boolean {
                        Ok(Type::Boolean)
                    } else {
                        Err(InterpreterError::unlocated("Type error: expected boolean."))
                    }
                },
                _ => Err(InterpreterError::unlocated("Invalid unary operator.")),
            },
            Err(e) => Err(e),
        },
        AST::Empty => Err(InterpreterError::unlocated("None has no type.")),
    }
}

fn emit(instr: &mut Vec<Opcode>, op: Opcode)
    ensures
        program_view(final(instr)@) == program_view(old(instr)@).push(op@),
{
    instr.push(op);
    assert(program_view(instr@) =~= program_view(old(instr)@).push(op@));
}

/// Appends the code of an expression to `instr`. The machine is not
/// touched.
pub fn generate(ast: &AST, vm: &mut VirtualMachine, instr: &mut Vec<Opcode>)
    requires
        ast.unary_nodes_valid(),
    ensures
        program_view(final(instr)@) == program_view(old(instr)@) + code_of(*ast),
        *final(vm) == *old(vm),
    decreases ast,
{
    match ast {
        AST::BinaryOp(op, lhs, rhs) => {
            generate(rhs, vm, instr);
            generate(lhs, vm, instr);
            match op {
                Operator::And => {
                    emit(instr, Opcode::And);
                },
                Operator::Divide => {
                    emit(instr, Opcode::Div);
                },
                Operator::Equal => {
                    emit(instr, Opcode::Equal);
                },
                Operator::Greater => {
                    emit(instr, Opcode::Greater);
                },
                Operator::GreaterEqual => {
                    emit(instr, Opcode::GreaterEqual);
                },
                Operator::Less => {
                    emit(instr, Opcode::Less);
                },
                Operator::LessEqual => {
                    emit(instr, Opcode::LessEqual);
                },
                Operator::Minus => {
                    emit(instr, Opcode::Sub);
                },
                Operator::Mod => {
                    emit(instr, Opcode::Mod);
                },
                Operator::Multiply => {
                    emit(instr, Opcode::Mul);
                },
                Operator::Not => {
                    emit(instr, Opcode::Not);
                },
                Operator::NotEqual => {
                    emit(instr, Opcode::NotEqual);
                },
                Operator::Or => {
                    emit(instr, Opcode::Or);
                },
                Operator::Plus => {
                    emit(instr, Opcode::Add);
                },
            }
            assert(program_view(instr@) =~= program_view(old(instr)@) + code_of(*ast));
        },
        AST::Boolean(b) => {
            emit(instr, Opcode::Bconst(*b));
            assert(program_view(instr@) =~= program_view(old(instr)@) + code_of(*ast));
        },
        AST::If(_, _) => {
            assert(program_view(instr@) =~= program_view(old(instr)@) + code_of(*ast));
        },
        AST::Integer(i) => {
            emit(instr, Opcode::Iconst(*i));
            assert(program_view(instr@) =~= program_view(old(instr)@) + code_of(*ast));
        },
        AST::UnaryOp(op, operand) => {
            generate(operand, vm, instr);
            match op {
                Operator::Minus => {
                    emit(instr, Opcode::Iconst(0));
                    emit(instr, Opcode::Sub);
                },
                Operator::Not => {
                    emit(instr, Opcode::Not);
                },
                _ => unreached(),
            }
            assert(program_view(instr@) =~= program_view(old(instr)@) + code_of(*ast));
        },
        AST::Empty => {
            assert(program_view(instr@) =~= program_view(old(instr)@) + code_of(*ast));
        },
    }
}

/// The result that a value of the machine stands for.
pub open spec fn result_of(value: ValueView) -> Value
    recommends
        value is Boolean || value is Integer,
{
    match value {
        ValueView::Boolean(b) => Value::Boolean(b),
        ValueView::Integer(i) => Value::Integer(i),
        _ => arbitrary(),
    }
}

/// The message for a run that left nothing on the stack.
pub open spec fn stack_underflow() -> Seq<char> {
    "Stack underflow."@
}

/// Whether the machine, once `code` is appended to its instructions, runs
/// from there to completion and, where it reaches the end, leaves on top of
/// the stack a value of the type `typ`, or an empty stack.
pub open spec fn runs_to_result(machine: MachineView, code: Seq<OpcodeView>, typ: Type) -> bool {
    &&& machine.load(code).completes()
    &&& machine.load(code).outcome() matches Outcome::Finished(end) ==> end.stack.len() == 0
        || has_type(end.stack.last(), typ)
}

/// Type-checks an expression, appends its code to the machine's
/// instructions, runs the machine from there and takes the result from the
/// top of the stack.
///
/// An expression with a type error fails with its message and leaves the
/// machine as it was. For a well-typed one the run decides: at its end the
/// top of the stack is removed and returned, or an empty stack is reported;
/// a zero divisor fails with the position marked last and leaves the machine
/// as the run stopped.
///
/// An expression without conditionals always runs to a result: it yields
/// its value and leaves the stack as it was. A conditional has no code, so
/// for an expression that holds one the caller answers for the run.
pub fn eval(vm: &mut VirtualMachine, ast: &AST) -> (result: Result<Value, InterpreterError>)
    requires
        !comes_to_binary_not(*ast),
        ast.has_code() || (type_of(*ast) matches Ok(typ) ==> runs_to_result(
            old(vm)@,
            code_of(*ast),
            typ,
        )),
    ensures
        match type_of(*ast) {
            Err(message) => {
                &&& result matches Err(e)
                &&& e.err@ == message
                &&& e.line == usize::MAX
                &&& e.col == usize::MAX
                &&& *final(vm) == *old(vm)
            },
            Ok(_) => match old(vm)@.load(code_of(*ast)).outcome() {
                Outcome::Finished(end) => if end.stack.len() == 0 {
                    &&& result matches Err(e)
                    &&& e.err@ == stack_underflow()
                    &&& e.line == usize::MAX
                    &&& e.col == usize::MAX
                    &&& final(vm)@ == end
                } else {
                    &&& result == Ok::<Value, InterpreterError>(result_of(end.stack.last()))
                    &&& final(vm)@ == end.pop(1)
                },
                Outcome::DivisionByZero(stopped) => {
                    &&& result matches Err(e)
                    &&& e.err@ == division_by_zero_message()
                    &&& e.line == stopped.line
                    &&& e.col == stopped.col
                    &&& final(vm)@ == stopped
                },
                _ => false,
            },
        },
        ast.has_code() ==> match type_of(*ast) {
            Err(_) => true,
            Ok(_) => match value_of(*ast) {
                Some(value) => {
                    &&& result == Ok::<Value, InterpreterError>(result_of(value))
                    &&& final(vm)@ == old(vm)@.load(code_of(*ast)).goto(
                        old(vm)@.instructions.len() + code_of(*ast).len(),
                    )
                },
                None => {
                    &&& result matches Err(e)
                    &&& e.err@ == division_by_zero_message()
                    &&& e.line == old(vm).line
                    &&& e.col == old(vm).col
                },
            },
        },
{
    match typecheck(ast) {
        Ok(typ) => {
            proof {
                lemma_typed_unary_nodes(*ast);
            }
            let mut instr: Vec<Opcode> = Vec::new();
            assert(program_view(instr@) =~= Seq::empty());
            generate(ast, vm, &mut instr);
            assert(program_view(instr@) =~= code_of(*ast));
            vm.ip = vm.instructions.len();
            vm.instructions.append(&mut instr);
            let ghost code = code_of(*ast);
            let ghost loaded = vm@;
            proof {
                assert(loaded.instructions =~= old(vm)@.instructions + code);
                assert(loaded == old(vm)@.load(code));
                if ast.has_code() {
                    assert(loaded.instructions.subrange(
                        loaded.ip as int,
                        (loaded.ip + code.len()) as int,
                    ) =~= code);
                    lemma_code_computes_value(*ast, loaded);
                    lemma_run_after(loaded, code.len(), 0);
                    if let Some(value) = value_of(*ast) {
                        let reached = loaded.push(value).goto(loaded.ip + code.len());
                        assert(loaded.after(code.len()) == Progress::Next(reached));
                        assert(reached.halted());
                        assert(reached.run(0) == Outcome::Finished(reached));
                        assert(reached.stack.last() == value);
                        assert(reached.pop(1).stack =~= loaded.stack);
                    }
                    lemma_outcome(loaded, code.len());
                }
            }
            match vm.run() {
                Ok(()) => {
                    let ghost end = vm@;
                    match vm.stack.pop() {
                        Some(value) => {
                            proof {
                                assert(end.stack.last() == value@);
                                assert(stack_view(vm.stack@) =~= end.pop(1).stack);
                            }
                            match typ {
                                Type::Boolean => match value {
                                    crate::vm::value::Value::Boolean(b) => Ok(Value::Boolean(b)),
                                    _ => unreached(),
                                },
                                Type::Integer => match value {
                                    crate::vm::value::Value::Integer(i) => Ok(Value::Integer(i)),
                                    _ => unreached(),
                                },
                            }
                        },
                        None => Err(InterpreterError::unlocated("Stack underflow.")),
                    }
                },
                Err(e) => Err(e),
            }
        },
        Err(e) => Err(e),
    }
}

} // verus!
