//! Laws of the machine: what holds of every state and every program.

use vstd::prelude::*;
use crate::vm::model::{capture, magnitude, quotient, remainder, wrap, MachineView, Progress};
use crate::vm::opcode::{CaptureView, OpcodeView};
use crate::vm::value::{EnvironmentView, ValueView};

verus! {

/// Whether two values are of the same kind.
pub open spec fn same_kind(a: ValueView, b: ValueView) -> bool {
    ||| a is Boolean && b is Boolean
    ||| a is Function && b is Function
    ||| a is Integer && b is Integer
    ||| a is Tuple && b is Tuple
    ||| a is Unit && b is Unit
}

/// Values of different kinds are never equal.
pub proof fn law_equal_values_have_one_kind(a: ValueView, b: ValueView)
    requires
        !same_kind(a, b),
    ensures
        a != b,
{
}

/// Two tuples are equal exactly when they have the same length and equal
/// items, place by place. Tuples of different lengths are never equal.
pub proof fn law_tuples_equal_itemwise(a: Seq<ValueView>, b: Seq<ValueView>)
    ensures
        (ValueView::Tuple(a) == ValueView::Tuple(b)) <==> (a.len() == b.len() && forall|i: int|
            0 <= i < a.len() ==> a[i] == b[i]),
{
    if a.len() == b.len() && (forall|i: int| 0 <= i < a.len() ==> a[i] == b[i]) {
        assert(a =~= b);
    }
}

/// Two closures are equal exactly when they have the same entry point and
/// equal captured environments.
pub proof fn law_closures_equal_by_content(
    entry_a: nat,
    env_a: EnvironmentView,
    entry_b: nat,
    env_b: EnvironmentView,
)
    ensures
        (ValueView::Function(entry_a, env_a) == ValueView::Function(entry_b, env_b)) <==> (entry_a
            == entry_b && env_a == env_b),
{
}

/// A wrapped number lies in the 64-bit range and is congruent to the exact
/// one; a number in the range is left as it is.
pub proof fn law_wrap_is_twos_complement(n: int)
    ensures
        (wrap(n) - n) % 0x1_0000_0000_0000_0000 == 0,
        i64::MIN <= n <= i64::MAX ==> wrap(n) == n,
{
}

/// The quotient and the remainder of a division take the dividend apart:
/// the quotient times the divisor, plus the remainder, is the dividend. The
/// remainder is smaller than the divisor in magnitude and never of the
/// opposite sign to the dividend.
pub proof fn law_quotient_and_remainder(x: int, y: int)
    requires
        y != 0,
    ensures
        quotient(x, y) * y + remainder(x, y) == x,
        magnitude(remainder(x, y)) < magnitude(y),
        x >= 0 ==> remainder(x, y) >= 0,
        x <= 0 ==> remainder(x, y) <= 0,
{
    let a = magnitude(x);
    let b = magnitude(y);
    vstd::arithmetic::div_mod::lemma_fundamental_div_mod(a, b);
    vstd::arithmetic::div_mod::lemma_mod_bound(a, b);
    let q = a / b;
    assert(a == b * q + a % b);
    assert(quotient(x, y) * y + remainder(x, y) == x) by (nonlinear_arith)
        requires
            a == b * q + a % b,
            a == magnitude(x),
            b == magnitude(y),
            y != 0,
            quotient(x, y) == (if (x < 0) == (y < 0) {
                q
            } else {
                -q
            }),
            remainder(x, y) == (if x < 0 {
                -(a % b)
            } else {
                a % b
            }),
    {
    }
}

/// Addition, subtraction and multiplication replace their two operands by
/// the 64-bit two's-complement number congruent to the exact result, the
/// top of the stack being the left operand.
pub proof fn law_arithmetic_wraps(machine: MachineView)
    requires
        machine.ip < machine.instructions.len(),
        machine.instructions[machine.ip as int] is Add || machine.instructions[machine.ip as int]
            is Sub || machine.instructions[machine.ip as int] is Mul,
        machine.has_integers(),
    ensures
        ({
            let x = machine.integer(0) as int;
            let y = machine.integer(1) as int;
            let exact = match machine.instructions[machine.ip as int] {
                OpcodeView::Add => x + y,
                OpcodeView::Sub => x - y,
                _ => x * y,
            };
            &&& machine.step() == Progress::Next(
                machine.pop(2).push(ValueView::Integer(wrap(exact))).advance(),
            )
            &&& (wrap(exact) - exact) % 0x1_0000_0000_0000_0000 == 0
        }),
{
    reveal(MachineView::step);
}

/// A division or a modulo with a nonzero divisor replaces its two operands
/// by the quotient, rounded toward zero, or by the remainder, wrapped to 64
/// bits; the top of the stack is the dividend.
pub proof fn law_division(machine: MachineView)
    requires
        machine.ip < machine.instructions.len(),
        machine.instructions[machine.ip as int] is Div || machine.instructions[machine.ip as int]
            is Mod,
        machine.has_integers(),
        machine.integer(1) != 0,
    ensures
        ({
            let x = machine.integer(0) as int;
            let y = machine.integer(1) as int;
            let exact = if machine.instructions[machine.ip as int] is Div {
                quotient(x, y)
            } else {
                remainder(x, y)
            };
            machine.step() == Progress::Next(
                machine.pop(2).push(ValueView::Integer(wrap(exact))).advance(),
            )
        }),
{
    reveal(MachineView::step);
}

/// A division or a modulo whose divisor is zero stops the machine with
/// both operands removed and nothing pushed, whatever the dividend is.
pub proof fn law_division_by_zero(machine: MachineView)
    requires
        machine.ip < machine.instructions.len(),
        machine.instructions[machine.ip as int] is Div || machine.instructions[machine.ip as int]
            is Mod,
        machine.has_integers(),
        machine.integer(1) == 0,
    ensures
        machine.step() == Progress::DivisionByZero(machine.pop(2)),
        machine.pop(2).stack.len() == machine.stack.len() - 2,
{
    reveal(MachineView::step);
}

/// The boolean operators do not short-circuit: whatever the operands are,
/// both are removed and one boolean takes their place.
pub proof fn law_boolean_operators_take_both_operands(machine: MachineView)
    requires
        machine.ip < machine.instructions.len(),
        machine.instructions[machine.ip as int] is And || machine.instructions[machine.ip as int]
            is Or,
        machine.has_booleans(),
    ensures
        ({
            let x = machine.boolean(0);
            let y = machine.boolean(1);
            let result = if machine.instructions[machine.ip as int] is And {
                x && y
            } else {
                x || y
            };
            &&& machine.step() matches Progress::Next(next)
            &&& next == machine.pop(2).push(ValueView::Boolean(result)).advance()
            &&& next.stack.len() == machine.stack.len() - 1
        }),
{
    reveal(MachineView::step);
}

/// `rotate` turns a stack that ends in `a`, `b`, `c` into one that ends in
/// `c`, `a`, `b`: the top becomes third from the top.
pub proof fn law_rotate(
    machine: MachineView,
    rest: Seq<ValueView>,
    a: ValueView,
    b: ValueView,
    c: ValueView,
)
    requires
        machine.ip < machine.instructions.len(),
        machine.instructions[machine.ip as int] is Rot,
        machine.stack == rest.push(a).push(b).push(c),
    ensures
        machine.step() == Progress::Next(
            MachineView { stack: rest.push(c).push(a).push(b), ip: machine.ip + 1, ..machine },
        ),
{
    reveal(MachineView::step);
    assert(machine.pop(3).stack =~= rest);
}

/// No instruction changes the instructions, and none leads out of them:
/// the program counter stays at one of them or at their end.
pub proof fn law_step_stays_in_program(machine: MachineView)
    ensures
        match machine.step() {
            Progress::Next(next) => {
                &&& next.instructions == machine.instructions
                &&& next.ip <= next.instructions.len()
            },
            Progress::DivisionByZero(stopped) => {
                &&& stopped.instructions == machine.instructions
                &&& stopped.ip == machine.ip
                &&& stopped.callstack == machine.callstack
                &&& stopped.line == machine.line
                &&& stopped.col == machine.col
            },
            Progress::Stuck => true,
        },
{
    reveal(MachineView::step);
}

/// Whether the instruction at the program counter is a call or a return.
pub open spec fn at_call_or_return(machine: MachineView) -> bool {
    machine.ip < machine.instructions.len() && (machine.instructions[machine.ip as int] is Call
        || machine.instructions[machine.ip as int] is Ret)
}

/// A call adds one frame, a return removes one, and no other instruction
/// changes the depth of the call stack.
pub proof fn law_depth_changes_by_call_and_return(machine: MachineView)
    requires
        machine.step() is Next,
    ensures
        machine.ip < machine.instructions.len(),
        machine.step()->Next_0.callstack.len() == (match machine.instructions[machine.ip as int] {
            OpcodeView::Call => machine.callstack.len() as int + 1,
            OpcodeView::Ret(_) => machine.callstack.len() - 1,
            _ => machine.callstack.len() as int,
        }),
{
    reveal(MachineView::step);
}

/// A tail call keeps the call stack as it is, frame by frame, and goes
/// back to the entry point of the active function.
pub proof fn law_tail_call_keeps_frames(machine: MachineView)
    requires
        machine.ip < machine.instructions.len(),
        machine.instructions[machine.ip as int] is Recur,
        machine.step() is Next,
    ensures
        machine.callstack.len() > 0,
        machine.step()->Next_0.callstack == machine.callstack,
        machine.step()->Next_0.ip == machine.callstack.last().entry,
{
    reveal(MachineView::step);
}

/// However many instructions are executed, tail calls among them, the
/// depth of the call stack stays as it was as long as none of them is a
/// call or a return.
pub proof fn law_tail_calls_keep_depth(machine: MachineView, count: nat)
    requires
        forall|k: nat|
            k < count ==> (#[trigger] machine.after(k)) is Next && !at_call_or_return(
                machine.after(k)->Next_0,
            ),
        machine.after(count) is Next,
    ensures
        machine.after(count)->Next_0.callstack.len() == machine.callstack.len(),
    decreases count,
{
    if count > 0 {
        assert(machine.after(0) == Progress::Next(machine));
        let next = machine.step()->Next_0;
        law_depth_changes_by_call_and_return(machine);
        assert forall|k: nat| k < count - 1 implies (#[trigger] next.after(k)) is Next
            && !at_call_or_return(next.after(k)->Next_0) by {
            assert(machine.after(k + 1) == next.after(k));
        }
        law_tail_calls_keep_depth(next, (count - 1) as nat);
    }
}

/// A call of a function of at most one argument, followed by its matching
/// return, leaves the stack as it was below the argument, with the
/// function's results on top: the argument and the function are gone. The
/// call stack is as before the call, and execution goes on behind the call.
///
/// `at_return` is any state in which the return is reached with the call's
/// frame on top and with `results` above what the call left on the stack.
pub proof fn law_call_then_return(
    machine: MachineView,
    below: Seq<ValueView>,
    arguments: Seq<ValueView>,
    entry: nat,
    env: EnvironmentView,
    at_return: MachineView,
    results: Seq<ValueView>,
)
    requires
        arguments.len() <= 1,
        below.len() + arguments.len() >= 1,
        machine.ip < machine.instructions.len(),
        machine.instructions[machine.ip as int] is Call,
        machine.stack == (below + arguments).push(ValueView::Function(entry, env)),
        entry <= machine.instructions.len(),
        at_return.instructions == machine.instructions,
        at_return.ip < at_return.instructions.len(),
        at_return.instructions[at_return.ip as int] == OpcodeView::Ret(arguments.len()),
        at_return.callstack == machine.step()->Next_0.callstack,
        at_return.stack == below + arguments + results,
    ensures
        machine.step() matches Progress::Next(called) && {
            &&& called.stack == below + arguments
            &&& called.ip == entry
            &&& called.callstack.len() == machine.callstack.len() + 1
        },
        at_return.step() matches Progress::Next(returned) && {
            &&& returned.stack == below + results
            &&& returned.callstack == machine.callstack
            &&& returned.ip == machine.ip + 1
        },
{
    reveal(MachineView::step);
    let called = machine.step()->Next_0;
    assert(machine.pop(1).stack =~= below + arguments);
    let base = called.callstack.last().base;
    assert(base == below.len() + arguments.len() - 1);
    let returned = at_return.step()->Next_0;
    assert(returned.stack =~= below + results);
    assert(returned.callstack =~= machine.callstack);
}

/// The environment that a capture list produces binds each captured name to
/// the value that its last capture addresses.
pub proof fn lemma_capture_binds(
    env: EnvironmentView,
    captures: Seq<CaptureView>,
    stack: Seq<ValueView>,
    base: nat,
    index: int,
)
    requires
        0 <= index < captures.len(),
        forall|j: int| index < j < captures.len() ==> (#[trigger] captures[j]).name
            != captures[index].name,
    ensures
        capture(env, captures, stack, base).values.contains_key(captures[index].name),
        capture(env, captures, stack, base).values[captures[index].name] == stack[base
            - captures[index].offset],
        capture(env, captures, stack, base).types[captures[index].name] == captures[index].typ,
    decreases captures.len(),
{
    if index < captures.len() - 1 {
        let shorter = captures.drop_last();
        assert(shorter[index] == captures[index]);
        assert forall|j: int| index < j < shorter.len() implies (#[trigger] shorter[j]).name
            != shorter[index].name by {
            assert(shorter[j] == captures[j]);
        }
        lemma_capture_binds(env, shorter, stack, base, index);
        assert(captures.last() == captures[captures.len() - 1]);
    }
}

/// A closure holds what it captured. Where a closure is created in an
/// active frame with a capture of `name`, and is called in any later state
/// whatever happened in between (the creating call may have returned, the
/// name may have been bound anew), a read of `name` at its entry point
/// yields the value that stood in the captured slot when the closure was
/// created.
pub proof fn law_closure_keeps_captured_value(
    at_creation: MachineView,
    index: int,
    at_call: MachineView,
)
    requires
        at_creation.ip < at_creation.instructions.len(),
        at_creation.instructions[at_creation.ip as int] is Fconst,
        at_creation.callstack.len() > 0,
        at_creation.step() is Next,
        ({
            let captures = at_creation.instructions[at_creation.ip as int]->Fconst_1;
            let entry = at_creation.instructions[at_creation.ip as int]->Fconst_0;
            let closure = at_creation.step()->Next_0.stack.last();
            &&& 0 <= index < captures.len()
            &&& forall|j: int|
                index < j < captures.len() ==> (#[trigger] captures[j]).name
                    != captures[index].name
            &&& at_call.ip < at_call.instructions.len()
            &&& at_call.instructions[at_call.ip as int] is Call
            &&& at_call.stack.len() >= 2
            &&& at_call.stack.last() == closure
            &&& entry < at_call.instructions.len()
            &&& at_call.instructions[entry as int] == OpcodeView::GetEnv(captures[index].name)
        }),
    ensures
        ({
            let captures = at_creation.instructions[at_creation.ip as int]->Fconst_1;
            let base = at_creation.callstack.last().base;
            &&& at_call.step() matches Progress::Next(called)
            &&& called.step() matches Progress::Next(observed)
            &&& observed.stack.last() == at_creation.stack[base - captures[index].offset]
        }),
{
    reveal(MachineView::step);
    let captures = at_creation.instructions[at_creation.ip as int]->Fconst_1;
    let frame = at_creation.callstack.last();
    lemma_capture_binds(frame.env, captures, at_creation.stack, frame.base, index);
    let called = at_call.step()->Next_0;
    assert(called.callstack.last().env == capture(
        frame.env,
        captures,
        at_creation.stack,
        frame.base,
    ));
}

/// Binding a name changes the innermost active environment and nothing
/// beside it: no value on the stack, so that a closure created before keeps
/// the environment it captured; no other frame; and, while a call is
/// active, not the global environment.
pub proof fn law_binding_is_local(machine: MachineView, name: Seq<char>)
    requires
        machine.ip < machine.instructions.len(),
        machine.instructions[machine.ip as int] == OpcodeView::SetEnv(name),
        machine.stack.len() >= 1,
    ensures
        machine.step() matches Progress::Next(next) && {
            &&& next.scope() == machine.scope().with_value(name, machine.peek(0))
            &&& next.stack == machine.stack.drop_last()
            &&& next.callstack.len() == machine.callstack.len()
            &&& forall|i: int|
                0 <= i < machine.callstack.len() - 1 ==> next.callstack[i] == machine.callstack[i]
            &&& machine.callstack.len() > 0 ==> next.env == machine.env
        },
{
    reveal(MachineView::step);
}

/// A closure copies the environment it is created in: binding a name in
/// that environment afterwards does not reach the closure.
pub proof fn law_closure_copies_environment(machine: MachineView, entry: nat)
    requires
        machine.ip < machine.instructions.len(),
        machine.instructions[machine.ip as int] == OpcodeView::Fconst(entry, Seq::empty()),
    ensures
        machine.step() matches Progress::Next(next) && next.stack.last() == ValueView::Function(
            entry,
            machine.scope(),
        ) && next.scope() == machine.scope(),
{
    reveal(MachineView::step);
}

} // verus!
