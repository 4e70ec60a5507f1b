//! Why the code of a well-typed expression computes its value.

use vstd::prelude::*;
use crate::ast::{Operator, AST};
use crate::interpreter::{
    binary_opcode, binary_type, binary_value, code_of, comes_to_binary_not, type_of, unary_code,
    unary_type, unary_value, value_of,
};
use crate::types::Type;
use crate::vm::model::{lemma_after_split, MachineView, Progress};
use crate::vm::value::ValueView;

verus! {

/// Whether a value is of the kind that a static type stands for.
pub open spec fn has_type(value: ValueView, typ: Type) -> bool {
    match typ {
        Type::Boolean => value is Boolean,
        Type::Integer => value is Integer,
    }
}

/// A well-typed expression holds a unary operator in each of its unary
/// nodes.
pub proof fn lemma_typed_unary_nodes(ast: AST)
    requires
        type_of(ast) is Ok,
    ensures
        ast.unary_nodes_valid(),
    decreases ast,
{
    match ast {
        AST::BinaryOp(_, lhs, rhs) => {
            lemma_typed_unary_nodes(*lhs);
            lemma_typed_unary_nodes(*rhs);
        },
        AST::UnaryOp(_, operand) => {
            lemma_typed_unary_nodes(*operand);
        },
        _ => {},
    }
}

/// What a binary operator's instruction does with the operands it was
/// typed for: it replaces them by the operator's value, or stops on a zero
/// divisor with both removed.
pub proof fn lemma_binary_step(
    op: Operator,
    machine: MachineView,
    rest: Seq<ValueView>,
    lhs: ValueView,
    rhs: ValueView,
    lhs_type: Type,
    rhs_type: Type,
)
    requires
        op.is_binary(),
        binary_type(op, lhs_type, rhs_type) is Ok,
        has_type(lhs, lhs_type),
        has_type(rhs, rhs_type),
        machine.ip < machine.instructions.len(),
        machine.instructions[machine.ip as int] == binary_opcode(op),
        machine.stack == rest.push(rhs).push(lhs),
    ensures
        machine.step() == match binary_value(op, lhs, rhs) {
            Some(value) => Progress::Next(
                MachineView { ip: machine.ip + 1, stack: rest.push(value), ..machine },
            ),
            None => Progress::DivisionByZero(MachineView { stack: rest, ..machine }),
        },
        binary_value(op, lhs, rhs) matches Some(value) ==> has_type(
            value,
            binary_type(op, lhs_type, rhs_type)->Ok_0,
        ),
{
    reveal(MachineView::step);
    assert(machine.pop(2).stack =~= rest);
    assert(machine.peek(0) == lhs);
    assert(machine.peek(1) == rhs);
}

/// What a unary operator's instructions do with the operand it was typed
/// for: they replace it by the operator's value.
pub proof fn lemma_unary_steps(
    op: Operator,
    machine: MachineView,
    rest: Seq<ValueView>,
    operand: ValueView,
    operand_type: Type,
)
    requires
        unary_type(op, operand_type) is Ok,
        has_type(operand, operand_type),
        machine.holds(unary_code(op)),
        machine.stack == rest.push(operand),
    ensures
        machine.after(unary_code(op).len()) == Progress::Next(
            MachineView {
                ip: machine.ip + unary_code(op).len(),
                stack: rest.push(unary_value(op, operand)),
                ..machine
            },
        ),
        has_type(unary_value(op, operand), unary_type(op, operand_type)->Ok_0),
{
    reveal(MachineView::step);
    let code = unary_code(op);
    let here = machine.instructions.subrange(
        machine.ip as int,
        (machine.ip + code.len()) as int,
    );
    assert(here[0] == machine.instructions[machine.ip as int]);
    if op == Operator::Not {
        assert(machine.instructions[machine.ip as int] == code[0]);
        assert(machine.pop(1).stack =~= rest);
        let next = machine.step()->Next_0;
        assert(next.after(0) == Progress::Next(next));
    } else {
        assert(machine.instructions[machine.ip as int] == code[0]);
        assert(here[1] == machine.instructions[(machine.ip + 1) as int]);
        let pushed = machine.step()->Next_0;
        assert(pushed == machine.push(ValueView::Integer(0)).advance());
        assert(pushed.pop(2).stack =~= rest);
        let next = pushed.step()->Next_0;
        assert(next.after(0) == Progress::Next(next));
        assert(pushed.after(1) == Progress::Next(next));
    }
}

/// Wherever the code of a well-typed expression stands at the program
/// counter, executing it pushes the value of the expression, which is of
/// the expression's type, and changes nothing else; or it stops on a zero
/// divisor, with the marked source position as it was.
pub proof fn lemma_code_computes_value(ast: AST, machine: MachineView)
    requires
        ast.has_code(),
        !comes_to_binary_not(ast),
        type_of(ast) is Ok,
        machine.holds(code_of(ast)),
    ensures
        match value_of(ast) {
            Some(value) => {
                &&& has_type(value, type_of(ast)->Ok_0)
                &&& machine.after(code_of(ast).len()) == Progress::Next(
                    MachineView {
                        ip: machine.ip + code_of(ast).len(),
                        stack: machine.stack.push(value),
                        ..machine
                    },
                )
            },
            None => {
                &&& machine.after(code_of(ast).len()) matches Progress::DivisionByZero(stopped)
                &&& stopped.line == machine.line
                &&& stopped.col == machine.col
            },
        },
    decreases ast,
{
    let code = code_of(ast);
    let here = machine.instructions.subrange(
        machine.ip as int,
        (machine.ip + code.len()) as int,
    );
    match ast {
        AST::BinaryOp(op, lhs, rhs) => {
            let right = code_of(*rhs);
            let left = code_of(*lhs);
            assert(code == right + left + seq![binary_opcode(op)]);
            assert(code.len() == right.len() + left.len() + 1);
            assert forall|i: int| 0 <= i < code.len() implies machine.instructions[machine.ip + i]
                == code[i] by {
                assert(here[i] == code[i]);
            }
            assert(machine.instructions.subrange(
                machine.ip as int,
                (machine.ip + right.len()) as int,
            )
                =~= right) by {
                assert forall|i: int| 0 <= i < right.len() implies machine.instructions[machine.ip
                    + i] == right[i] by {
                    assert(code[i] == right[i]);
                }
            }
            lemma_code_computes_value(*rhs, machine);
            lemma_after_split(machine, right.len(), left.len() + 1);
            if let Some(rhs_value) = value_of(*rhs) {
                let second = MachineView {
                    ip: machine.ip + right.len(),
                    stack: machine.stack.push(rhs_value),
                    ..machine
                };
                assert(second.instructions.subrange(
                    second.ip as int,
                    (second.ip + left.len()) as int,
                )
                    =~= left) by {
                    assert forall|i: int| 0 <= i < left.len() implies second.instructions[second.ip
                        + i] == left[i] by {
                        assert(code[right.len() + i] == left[i]);
                    }
                }
                lemma_code_computes_value(*lhs, second);
                lemma_after_split(second, left.len(), 1);
                if let Some(lhs_value) = value_of(*lhs) {
                    let third = MachineView {
                        ip: second.ip + left.len(),
                        stack: second.stack.push(lhs_value),
                        ..second
                    };
                    assert(third.instructions[third.ip as int] == binary_opcode(op)) by {
                        assert(code[(right.len() + left.len()) as int] == binary_opcode(op));
                    }
                    lemma_binary_step(
                        op,
                        third,
                        machine.stack,
                        lhs_value,
                        rhs_value,
                        type_of(*lhs)->Ok_0,
                        type_of(*rhs)->Ok_0,
                    );
                    assert(third.after(1) == third.step()) by {
                        if let Progress::Next(next) = third.step() {
                            assert(next.after(0) == Progress::Next(next));
                        }
                    }
                }
            }
        },
        AST::UnaryOp(op, operand) => {
            let inner = code_of(*operand);
            let outer = unary_code(op);
            assert(code == inner + outer);
            assert forall|i: int| 0 <= i < code.len() implies machine.instructions[machine.ip + i]
                == code[i] by {
                assert(here[i] == code[i]);
            }
            assert(machine.instructions.subrange(
                machine.ip as int,
                (machine.ip + inner.len()) as int,
            )
                =~= inner) by {
                assert forall|i: int| 0 <= i < inner.len() implies machine.instructions[machine.ip
                    + i] == inner[i] by {
                    assert(code[i] == inner[i]);
                }
            }
            lemma_code_computes_value(*operand, machine);
            lemma_after_split(machine, inner.len(), outer.len());
            if let Some(value) = value_of(*operand) {
                let second = MachineView {
                    ip: machine.ip + inner.len(),
                    stack: machine.stack.push(value),
                    ..machine
                };
                assert(second.instructions.subrange(
                    second.ip as int,
                    (second.ip + outer.len()) as int,
                )
                    =~= outer) by {
                    assert forall|i: int| 0 <= i < outer.len() implies second.instructions[second.ip
                        + i] == outer[i] by {
                        assert(code[inner.len() + i] == outer[i]);
                    }
                }
                lemma_unary_steps(op, second, machine.stack, value, type_of(*operand)->Ok_0);
            }
        },
        AST::Boolean(b) => {
            reveal(MachineView::step);
            assert(here[0] == code[0]);
            let next = machine.step()->Next_0;
            assert(next.after(0) == Progress::Next(next));
        },
        AST::Integer(i) => {
            reveal(MachineView::step);
            assert(here[0] == code[0]);
            let next = machine.step()->Next_0;
            assert(next.after(0) == Progress::Next(next));
        },
        _ => {},
    }
}

/// No operator short-circuits: an expression with two operands has a value
/// only where both operands have one.
pub proof fn law_both_operands_are_evaluated(op: Operator, lhs: AST, rhs: AST)
    ensures
        value_of(AST::BinaryOp(op, Box::new(lhs), Box::new(rhs))) is Some ==> value_of(lhs)
            is Some && value_of(rhs) is Some,
{
}

/// A division or a modulo whose right operand is zero has no value,
/// whatever the left operand is.
pub proof fn law_zero_divisor_has_no_value(op: Operator, lhs: AST, rhs: AST)
    requires
        op == Operator::Divide || op == Operator::Mod,
        value_of(rhs) == Some(ValueView::Integer(0)),
    ensures
        value_of(AST::BinaryOp(op, Box::new(lhs), Box::new(rhs))) is None,
{
}

/// The right operand is dealt with first: its type error is the one that
/// is reported, and its code comes first.
pub proof fn law_right_operand_comes_first(op: Operator, lhs: AST, rhs: AST)
    ensures
        type_of(rhs) is Err ==> type_of(AST::BinaryOp(op, Box::new(lhs), Box::new(rhs)))
            == type_of(rhs),
        code_of(AST::BinaryOp(op, Box::new(lhs), Box::new(rhs))).subrange(
            0,
            code_of(rhs).len() as int,
        ) == code_of(rhs),
{
    let code = code_of(AST::BinaryOp(op, Box::new(lhs), Box::new(rhs)));
    assert(code == code_of(rhs) + code_of(lhs) + seq![binary_opcode(op)]);
    assert(code.subrange(0, code_of(rhs).len() as int) =~= code_of(rhs));
}

} // verus!
