//! The execution engine.

use vstd::prelude::*;
use vstd::string::*;
use crate::error::InterpreterError;
use crate::vm::model::{
    can_rebind, capture, captures_in_bounds, lemma_outcome, lemma_run_end, lemma_run_step, quotient, rebound, remainder,
    wrap, FrameView, MachineView, Outcome, Progress,
};
use crate::vm::opcode::{captures_view, Capture, Opcode, OpcodeView};
use crate::vm::value::{Environment, Value, ValueView};

verus! {

/// A call's bookkeeping record.
#[derive(Debug)]
pub struct Frame {
    /// The first instruction of the function.
    pub entry: usize,
    /// The environment the closure captured.
    pub env: Environment,
    /// The stack index from which arguments are addressed.
    pub base: usize,
    /// The index of the call instruction to which the function returns.
    pub return_ip: usize,
}

impl View for Frame {
    type V = FrameView;

    open spec fn view(&self) -> FrameView {
        FrameView {
            entry: self.entry as nat,
            env: self.env@,
            base: self.base as nat,
            return_ip: self.return_ip as nat,
        }
    }
}

/// The engine: an instruction sequence and the state of its execution.
pub struct VirtualMachine {
    pub instructions: Vec<Opcode>,
    pub ip: usize,
    pub stack: Vec<Value>,
    pub callstack: Vec<Frame>,
    /// The environment in use while no call is active.
    pub env: Environment,
    /// The source position marked last.
    pub line: usize,
    pub col: usize,
}

/// The view of each instruction of a sequence, in order.
pub open spec fn program_view(instructions: Seq<Opcode>) -> Seq<OpcodeView> {
    instructions.map_values(|op: Opcode| op@)
}

/// The view of each value of a stack, from the bottom up.
pub open spec fn stack_view(stack: Seq<Value>) -> Seq<ValueView> {
    stack.map_values(|value: Value| value@)
}

/// The view of each frame of a call stack, outermost first.
pub open spec fn frames_view(frames: Seq<Frame>) -> Seq<FrameView> {
    frames.map_values(|frame: Frame| frame@)
}

impl View for VirtualMachine {
    type V = MachineView;

    open spec fn view(&self) -> MachineView {
        MachineView {
            instructions: program_view(self.instructions@),
            ip: self.ip as nat,
            stack: stack_view(self.stack@),
            callstack: frames_view(self.callstack@),
            env: self.env@,
            line: self.line as nat,
            col: self.col as nat,
        }
    }
}

/// The message of the failure that a zero divisor raises.
pub open spec fn division_by_zero_message() -> Seq<char> {
    "Division by zero."@
}

fn push_value(stack: &mut Vec<Value>, value: Value)
    ensures
        final(stack).len() == old(stack).len() + 1,
        stack_view(final(stack)@) == stack_view(old(stack)@).push(value@),
{
    stack.push(value);
    assert(stack_view(stack@) =~= stack_view(old(stack)@).push(value@));
}

fn pop_value(stack: &mut Vec<Value>) -> (value: Value)
    requires
        old(stack).len() >= 1,
    ensures
        final(stack).len() == old(stack).len() - 1,
        value@ == stack_view(old(stack)@).last(),
        stack_view(final(stack)@) == stack_view(old(stack)@).take(old(stack).len() - 1),
{
    match stack.pop() {
        Some(value) => {
            assert(stack_view(stack@) =~= stack_view(old(stack)@).take(old(stack).len() - 1));
            value
        },
        None => unreached(),
    }
}

fn pop_integer(stack: &mut Vec<Value>) -> (i: i64)
    requires
        old(stack).len() >= 1,
        stack_view(old(stack)@).last() is Integer,
    ensures
        final(stack).len() == old(stack).len() - 1,
        ValueView::Integer(i) == stack_view(old(stack)@).last(),
        stack_view(final(stack)@) == stack_view(old(stack)@).take(old(stack).len() - 1),
{
    match pop_value(stack) {
        Value::Integer(i) => i,
        _ => unreached(),
    }
}

fn pop_boolean(stack: &mut Vec<Value>) -> (b: bool)
    requires
        old(stack).len() >= 1,
        stack_view(old(stack)@).last() is Boolean,
    ensures
        final(stack).len() == old(stack).len() - 1,
        ValueView::Boolean(b) == stack_view(old(stack)@).last(),
        stack_view(final(stack)@) == stack_view(old(stack)@).take(old(stack).len() - 1),
{
    match pop_value(stack) {
        Value::Boolean(b) => b,
        _ => unreached(),
    }
}

fn wrapping_sum(x: i64, y: i64) -> (r: i64)
    ensures
        r == wrap(x + y),
{
    x.wrapping_add(y)
}

fn wrapping_difference(x: i64, y: i64) -> (r: i64)
    ensures
        r == wrap(x - y),
{
    x.wrapping_sub(y)
}

fn wrapping_product(x: i64, y: i64) -> (r: i64)
    ensures
        r == wrap(x * y),
{
    x.wrapping_mul(y)
}

fn wrapping_quotient(x: i64, y: i64) -> (r: i64)
    requires
        y != 0,
    ensures
        r == wrap(quotient(x as int, y as int)),
{
    match x.checked_div(y) {
        Some(q) => q,
        None => i64::MIN,
    }
}

fn wrapping_remainder(x: i64, y: i64) -> (r: i64)
    requires
        y != 0,
    ensures
        r == wrap(remainder(x as int, y as int)),
{
    match x.checked_rem(y) {
        Some(q) => q,
        None => 0,
    }
}

/// The instruction index that lies `offset` instructions from `ip`.
fn jump_target(ip: usize, offset: i64) -> (target: usize)
    requires
        0 <= ip + offset <= usize::MAX,
    ensures
        target == ip + offset,
{
    if offset >= 0 {
        ip + (offset as usize)
    } else {
        let back: i64 = -(offset + 1);
        ip - (back as usize) - 1
    }
}

/// Builds the environment of a closure created in an active frame.
fn capture_environment(
    captures: &Vec<Capture>,
    frame_env: &Environment,
    stack: &Vec<Value>,
    base: usize,
) -> (env: Environment)
    requires
        captures_in_bounds(captures_view(captures@), stack_view(stack@), base as nat),
    ensures
        env@ == capture(frame_env@, captures_view(captures@), stack_view(stack@), base as nat),
{
    let mut env = frame_env.clone();
    let mut i: usize = 0;
    while i < captures.len()
        invariant
            i <= captures.len(),
            captures_in_bounds(captures_view(captures@), stack_view(stack@), base as nat),
            env@ == capture(
                frame_env@,
                captures_view(captures@).take(i as int),
                stack_view(stack@),
                base as nat,
            ),
        decreases captures.len() - i,
    {
        let entry = &captures[i];
        proof {
            let all = captures_view(captures@);
            assert(all[i as int] == entry@);
            assert(all.take(i as int + 1).drop_last() =~= all.take(i as int));
            assert(all.take(i as int + 1).last() == entry@);
        }
        let value = stack[base - entry.offset].clone();
        env.set_value(entry.name.clone(), value);
        env.set_type(entry.name.clone(), entry.typ);
        i += 1;
    }
    proof {
        let all = captures_view(captures@);
        assert(all.take(i as int) =~= all);
    }
    env
}

/// Moves the `arity` topmost values into the slots that end at `base`.
fn rebind_arguments(stack: &mut Vec<Value>, arity: usize, base: usize)
    requires
        can_rebind(old(stack).len() as nat, arity as nat, base as nat),
    ensures
        stack_view(final(stack)@) == rebound(stack_view(old(stack)@), arity as nat, base as nat),
{
    let ghost start = stack_view(stack@);
    let mut i: usize = 0;
    while i < arity
        invariant
            i <= arity,
            can_rebind(start.len(), arity as nat, base as nat),
            start.len() == old(stack).len(),
            stack.len() == start.len() - i,
            forall|p: int|
                0 <= p < stack.len() ==> #[trigger] stack_view(stack@)[p] == (if base - arity < p
                    <= base - arity + i {
                    start[start.len() - 1 - (p - (base - arity + 1))]
                } else {
                    start[p]
                }),
        decreases arity - i,
    {
        let ghost before = stack_view(stack@);
        let value = pop_value(stack);
        let slot = base - (arity - i - 1);
        stack.set(slot, value);
        proof {
            assert(stack_view(stack@) =~= before.take(before.len() - 1).update(
                slot as int,
                value@,
            ));
            assert(value@ == start[start.len() - 1 - i]);
        }
        i += 1;
    }
    assert(stack_view(stack@) =~= rebound(start, arity as nat, base as nat));
}

/// Removes `count` values from the stack, starting at index `from`.
fn remove_slots(stack: &mut Vec<Value>, from: usize, count: usize)
    requires
        from + count <= old(stack).len(),
    ensures
        stack_view(final(stack)@) == stack_view(old(stack)@).take(from as int) + stack_view(
            old(stack)@,
        ).skip(from + count),
{
    let mut above = stack.split_off(from + count);
    stack.truncate(from);
    stack.append(&mut above);
    assert(stack_view(stack@) =~= stack_view(old(stack)@).take(from as int) + stack_view(
        old(stack)@,
    ).skip(from + count));
}

impl VirtualMachine {
    /// A machine with no instructions, empty stacks and no marked position.
    pub fn new() -> (vm: VirtualMachine)
        ensures
            vm@ == (MachineView {
                instructions: Seq::empty(),
                ip: 0,
                stack: Seq::empty(),
                callstack: Seq::empty(),
                env: crate::vm::value::EnvironmentView::empty(),
                line: usize::MAX as nat,
                col: usize::MAX as nat,
            }),
    {
        let vm = VirtualMachine {
            instructions: Vec::new(),
            ip: 0,
            stack: Vec::new(),
            callstack: Vec::new(),
            env: Environment::new(),
            line: usize::MAX,
            col: usize::MAX,
        };
        assert(program_view(vm.instructions@) =~= Seq::empty());
        assert(stack_view(vm.stack@) =~= Seq::empty());
        assert(frames_view(vm.callstack@) =~= Seq::empty());
        vm
    }

    /// Executes the instruction at the program counter.
    ///
    /// The state has to meet what the instruction requires: its operands on
    /// the stack, with their kinds; an active frame where it addresses one;
    /// a bound name where it reads one; a jump target inside the program.
    /// A zero divisor is reported as a failure, and the machine then stays
    /// as it was after the operands were removed.
    pub fn step(&mut self) -> (result: Result<(), InterpreterError>)
        requires
            old(self)@.step() !is Stuck,
        ensures
            match result {
                Ok(()) => old(self)@.step() == Progress::Next(final(self)@),
                Err(e) => {
                    &&& old(self)@.step() == Progress::DivisionByZero(final(self)@)
                    &&& e.err@ == division_by_zero_message()
                    &&& e.line == final(self).line
                    &&& e.col == final(self).col
                },
            },
    {
        reveal(MachineView::step);
        let ghost before = self@;
        assert(before.instructions.len() == self.instructions.len());
        assert(before.stack.len() == self.stack.len());
        assert(before.callstack.len() == self.callstack.len());
        assert(self.ip < self.instructions.len());
        assert(before.instructions[self.ip as int] == self.instructions@[self.ip as int]@);
        match &self.instructions[self.ip] {
            Opcode::Add => {
                let x = pop_integer(&mut self.stack);
                let y = pop_integer(&mut self.stack);
                push_value(&mut self.stack, Value::Integer(wrapping_sum(x, y)));
                self.ip += 1;
                assert(self@.stack =~= before.pop(2).push(self@.stack.last()).stack);
            },
            Opcode::Sub => {
                let x = pop_integer(&mut self.stack);
                let y = pop_integer(&mut self.stack);
                push_value(&mut self.stack, Value::Integer(wrapping_difference(x, y)));
                self.ip += 1;
                assert(self@.stack =~= before.pop(2).push(self@.stack.last()).stack);
            },
            Opcode::Mul => {
                let x = pop_integer(&mut self.stack);
                let y = pop_integer(&mut self.stack);
                push_value(&mut self.stack, Value::Integer(wrapping_product(x, y)));
                self.ip += 1;
                assert(self@.stack =~= before.pop(2).push(self@.stack.last()).stack);
            },
            Opcode::Div => {
                let x = pop_integer(&mut self.stack);
                let y = pop_integer(&mut self.stack);
                assert(self@.stack =~= before.pop(2).stack);
                if y == 0 {
                    return Err(self.division_by_zero());
                }
                push_value(&mut self.stack, Value::Integer(wrapping_quotient(x, y)));
                self.ip += 1;
            },
            Opcode::Mod => {
                let x = pop_integer(&mut self.stack);
                let y = pop_integer(&mut self.stack);
                assert(self@.stack =~= before.pop(2).stack);
                if y == 0 {
                    return Err(self.division_by_zero());
                }
                push_value(&mut self.stack, Value::Integer(wrapping_remainder(x, y)));
                self.ip += 1;
            },
            Opcode::Greater => {
                let x = pop_integer(&mut self.stack);
                let y = pop_integer(&mut self.stack);
                push_value(&mut self.stack, Value::Boolean(x > y));
                self.ip += 1;
                assert(self@.stack =~= before.pop(2).push(self@.stack.last()).stack);
            },
            Opcode::GreaterEqual => {
                let x = pop_integer(&mut self.stack);
                let y = pop_integer(&mut self.stack);
                push_value(&mut self.stack, Value::Boolean(x >= y));
                self.ip += 1;
                assert(self@.stack =~= before.pop(2).push(self@.stack.last()).stack);
            },
            Opcode::Less => {
                let x = pop_integer(&mut self.stack);
                let y = pop_integer(&mut self.stack);
                push_value(&mut self.stack, Value::Boolean(x < y));
                self.ip += 1;
                assert(self@.stack =~= before.pop(2).push(self@.stack.last()).stack);
            },
            Opcode::LessEqual => {
                let x = pop_integer(&mut self.stack);
                let y = pop_integer(&mut self.stack);
                push_value(&mut self.stack, Value::Boolean(x <= y));
                self.ip += 1;
                assert(self@.stack =~= before.pop(2).push(self@.stack.last()).stack);
            },
            Opcode::And => {
                let x = pop_boolean(&mut self.stack);
                let y = pop_boolean(&mut self.stack);
                push_value(&mut self.stack, Value::Boolean(x && y));
                self.ip += 1;
                assert(self@.stack =~= before.pop(2).push(self@.stack.last()).stack);
            },
            Opcode::Or => {
                let x = pop_boolean(&mut self.stack);
                let y = pop_boolean(&mut self.stack);
                push_value(&mut self.stack, Value::Boolean(x || y));
                self.ip += 1;
                assert(self@.stack =~= before.pop(2).push(self@.stack.last()).stack);
            },
            Opcode::Not => {
                let x = pop_boolean(&mut self.stack);
                push_value(&mut self.stack, Value::Boolean(!x));
                self.ip += 1;
            },
            Opcode::Equal => {
                let x = pop_value(&mut self.stack);
                let y = pop_value(&mut self.stack);
                push_value(&mut self.stack, Value::Boolean(x == y));
                self.ip += 1;
                assert(self@.stack =~= before.pop(2).push(self@.stack.last()).stack);
            },
            Opcode::NotEqual => {
                let x = pop_value(&mut self.stack);
                let y = pop_value(&mut self.stack);
                push_value(&mut self.stack, Value::Boolean(!(x == y)));
                self.ip += 1;
                assert(self@.stack =~= before.pop(2).push(self@.stack.last()).stack);
            },
            Opcode::Bconst(b) => {
                push_value(&mut self.stack, Value::Boolean(*b));
                self.ip += 1;
            },
            Opcode::Iconst(i) => {
                push_value(&mut self.stack, Value::Integer(*i));
                self.ip += 1;
            },
            Opcode::Uconst => {
                push_value(&mut self.stack, Value::Unit);
                self.ip += 1;
            },
            Opcode::Dup => {
                let value = self.stack[self.stack.len() - 1].clone();
                push_value(&mut self.stack, value);
                self.ip += 1;
            },
            Opcode::Pop => {
                let _ = pop_value(&mut self.stack);
                self.ip += 1;
            },
            Opcode::Rot => {
                let top = pop_value(&mut self.stack);
                let ghost popped = stack_view(self.stack@);
                let at = self.stack.len() - 2;
                self.stack.insert(at, top);
                self.ip += 1;
                assert(stack_view(self.stack@) =~= popped.insert(at as int, top@));
                assert(self@.stack =~= before.pop(3).push(before.peek(0)).push(
                    before.peek(2),
                ).push(before.peek(1)).stack);
            },
            Opcode::Jmp(offset) => {
                self.ip = jump_target(self.ip, *offset);
            },
            Opcode::Jz(offset) => {
                let offset = *offset;
                let condition = pop_boolean(&mut self.stack);
                if condition {
                    self.ip += 1;
                } else {
                    self.ip = jump_target(self.ip, offset);
                }
            },
            Opcode::GetEnv(name) => {
                let depth = self.callstack.len();
                let found = if depth > 0 {
                    assert(before.callstack.last() == self.callstack@[depth - 1]@);
                    self.callstack[depth - 1].env.get_value(name)
                } else {
                    self.env.get_value(name)
                };
                let value = match found {
                    Some(value) => value.clone(),
                    None => unreached(),
                };
                push_value(&mut self.stack, value);
                self.ip += 1;
            },
            Opcode::SetEnv(name) => {
                let name = name.clone();
                let value = pop_value(&mut self.stack);
                let depth = self.callstack.len();
                if depth > 0 {
                    assert(before.callstack.last() == self.callstack@[depth - 1]@);
                    let mut frame = self.callstack.pop().unwrap();
                    frame.env.set_value(name, value);
                    self.callstack.push(frame);
                    assert(self@.callstack =~= before.callstack.update(
                        depth - 1,
                        FrameView {
                            env: before.scope().with_value(name@, value@),
                            ..before.callstack.last()
                        },
                    ));
                } else {
                    self.env.set_value(name, value);
                }
                self.ip += 1;
            },
            Opcode::Fconst(entry, captures) => {
                let depth = self.callstack.len();
                let env = if depth > 0 {
                    assert(before.callstack.last() == self.callstack@[depth - 1]@);
                    capture_environment(
                        captures,
                        &self.callstack[depth - 1].env,
                        &self.stack,
                        self.callstack[depth - 1].base,
                    )
                } else {
                    self.env.clone()
                };
                push_value(&mut self.stack, Value::Function(*entry, env));
                self.ip += 1;
            },
            Opcode::Call => {
                match pop_value(&mut self.stack) {
                    Value::Function(entry, env) => {
                        let frame = Frame {
                            entry,
                            env,
                            base: self.stack.len() - 1,
                            return_ip: self.ip,
                        };
                        self.callstack.push(frame);
                        self.ip = entry;
                        assert(self@.callstack =~= before.callstack.push(
                            FrameView {
                                entry: before.peek(0)->Function_0,
                                env: before.peek(0)->Function_1,
                                base: (before.stack.len() - 2) as nat,
                                return_ip: before.ip,
                            },
                        ));
                    },
                    _ => unreached(),
                }
            },
            Opcode::Arg(offset) => {
                let depth = self.callstack.len();
                assert(before.callstack.last() == self.callstack@[depth - 1]@);
                let slot = self.callstack[depth - 1].base - *offset;
                let value = self.stack[slot].clone();
                push_value(&mut self.stack, value);
                self.ip += 1;
            },
            Opcode::Recur(arity) => {
                let arity = *arity;
                let depth = self.callstack.len();
                assert(before.callstack.last() == self.callstack@[depth - 1]@);
                let base = self.callstack[depth - 1].base;
                let entry = self.callstack[depth - 1].entry;
                rebind_arguments(&mut self.stack, arity, base);
                self.ip = entry;
            },
            Opcode::Ret(arity) => {
                let arity = *arity;
                let depth = self.callstack.len();
                assert(before.callstack.last() == self.callstack@[depth - 1]@);
                let frame = self.callstack.pop().unwrap();
                remove_slots(&mut self.stack, frame.base, arity);
                self.ip = frame.return_ip + 1;
                assert(self@.callstack =~= before.callstack.drop_last());
            },
            Opcode::Srcpos(line, col) => {
                self.line = *line;
                self.col = *col;
                self.ip += 1;
            },
        }
        Ok(())
    }

    /// Runs until the program counter reaches the end of the instructions
    /// or a division finds a zero divisor.
    ///
    /// The run has to complete: it must end, and every instruction it
    /// reaches must find what it requires.
    pub fn run(&mut self) -> (result: Result<(), InterpreterError>)
        requires
            old(self)@.completes(),
        ensures
            match result {
                Ok(()) => old(self)@.outcome() == Outcome::Finished(final(self)@),
                Err(e) => {
                    &&& old(self)@.outcome() == Outcome::DivisionByZero(final(self)@)
                    &&& e.err@ == division_by_zero_message()
                    &&& e.line == final(self).line
                    &&& e.col == final(self).col
                },
            },
    {
        let ghost start = self@;
        let ghost mut fuel: nat = choose|fuel: nat| start.completes_within(fuel);
        proof {
            lemma_outcome(start, fuel);
        }
        while self.ip < self.instructions.len()
            invariant
                start == old(self)@,
                self@.completes_within(fuel),
                self@.run(fuel) == start.outcome(),
            decreases fuel,
        {
            proof {
                lemma_run_step(self@, fuel);
            }
            match self.step() {
                Ok(()) => {
                    proof {
                        fuel = (fuel - 1) as nat;
                    }
                },
                Err(e) => {
                    return Err(e);
                },
            }
        }
        proof {
            lemma_run_end(self@, fuel);
        }
        Ok(())
    }

    /// The failure that a zero divisor raises, at the position marked last.
    fn division_by_zero(&self) -> (e: InterpreterError)
        ensures
            e.err@ == division_by_zero_message(),
            e.line == self.line,
            e.col == self.col,
    {
        InterpreterError {
            err: String::from_str("Division by zero."),
            line: self.line,
            col: self.col,
        }
    }
}

} // verus!
