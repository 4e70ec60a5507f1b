//! The mathematical model of the machine: its state, what one instruction
//! does to it, and what a run is.

use vstd::prelude::*;
use crate::vm::opcode::{CaptureView, OpcodeView};
use crate::vm::value::{EnvironmentView, ValueView};

verus! {

/// The 64-bit two's-complement number that is congruent to `n`.
pub open spec fn wrap(n: int) -> i64 {
    let r = n % 0x1_0000_0000_0000_0000;
    if r > i64::MAX {
        (r - 0x1_0000_0000_0000_0000) as i64
    } else {
        r as i64
    }
}

/// The absolute value of an integer.
pub open spec fn magnitude(n: int) -> int {
    if n < 0 {
        -n
    } else {
        n
    }
}

/// The quotient of `x` by `y`, rounded toward zero.
pub open spec fn quotient(x: int, y: int) -> int
    recommends
        y != 0,
{
    if (x < 0) == (y < 0) {
        magnitude(x) / magnitude(y)
    } else {
        -(magnitude(x) / magnitude(y))
    }
}

/// The remainder of `x` by `y`: it has the sign of `x` and is smaller than
/// `y` in magnitude.
pub open spec fn remainder(x: int, y: int) -> int
    recommends
        y != 0,
{
    if x < 0 {
        -(magnitude(x) % magnitude(y))
    } else {
        magnitude(x) % magnitude(y)
    }
}

/// A call's bookkeeping record.
pub struct FrameView {
    /// The first instruction of the function.
    pub entry: nat,
    /// The environment the closure captured.
    pub env: EnvironmentView,
    /// The stack index from which arguments are addressed.
    pub base: nat,
    /// The index of the call instruction to which the function returns.
    pub return_ip: nat,
}

/// The state of the machine.
pub struct MachineView {
    pub instructions: Seq<OpcodeView>,
    pub ip: nat,
    pub stack: Seq<ValueView>,
    pub callstack: Seq<FrameView>,
    pub env: EnvironmentView,
    pub line: nat,
    pub col: nat,
}

/// What executing one instruction leads to.
pub enum Progress {
    /// The instruction was executed; this is the state after it.
    Next(MachineView),
    /// A division or a modulo found a zero divisor; this is the state in
    /// which the machine stopped.
    DivisionByZero(MachineView),
    /// There is no instruction to execute, or the state does not meet what
    /// the instruction requires.
    Stuck,
}

/// How a run ends, if it does.
pub enum Outcome {
    /// The program counter reached the end of the instructions.
    Finished(MachineView),
    /// A division or a modulo found a zero divisor.
    DivisionByZero(MachineView),
    /// An instruction was reached in a state that does not meet what it
    /// requires.
    Stuck,
    /// The run took more steps than it was given.
    OutOfFuel,
}

/// The environment that a capture list produces from `env`: each capture, in
/// order, binds its name to the value `offset` slots below `base` and to its
/// static type.
pub open spec fn capture(
    env: EnvironmentView,
    captures: Seq<CaptureView>,
    stack: Seq<ValueView>,
    base: nat,
) -> EnvironmentView
    decreases captures.len(),
{
    if captures.len() == 0 {
        env
    } else {
        let last = captures.last();
        capture(env, captures.drop_last(), stack, base).with_value(
            last.name,
            stack[base - last.offset],
        ).with_type(last.name, last.typ)
    }
}

/// Whether every capture of a list addresses a slot of the stack.
pub open spec fn captures_in_bounds(captures: Seq<CaptureView>, stack: Seq<ValueView>, base: nat) -> bool {
    forall|i: int|
        0 <= i < captures.len() ==> (#[trigger] captures[i]).offset <= base && base
            - captures[i].offset < stack.len()
}

/// The stack after a tail call of `arity` arguments in a frame with the
/// given base: the `arity` topmost values are removed and take the place of
/// the slots that end at the base, the topmost in the lowest of them.
pub open spec fn rebound(stack: Seq<ValueView>, arity: nat, base: nat) -> Seq<ValueView> {
    Seq::new(
        (stack.len() - arity) as nat,
        |p: int|
            if base - arity < p <= base {
                stack[stack.len() - 1 - (p - (base - arity + 1))]
            } else {
                stack[p]
            },
    )
}

/// Whether a tail call of `arity` arguments can be made on a stack of
/// `height` values in a frame with the given base: the argument slots exist
/// and lie below the new arguments.
pub open spec fn can_rebind(height: nat, arity: nat, base: nat) -> bool {
    arity == 0 || (arity <= base + 1 && base + arity < height)
}

impl MachineView {
    /// Whether the program counter stands at the end of the instructions.
    pub open spec fn halted(self) -> bool {
        self.ip == self.instructions.len()
    }

    /// The value `depth` slots below the top of the stack.
    pub open spec fn peek(self, depth: nat) -> ValueView
        recommends
            depth < self.stack.len(),
    {
        self.stack[self.stack.len() - 1 - depth]
    }

    /// This state without the `count` topmost values.
    pub open spec fn pop(self, count: nat) -> MachineView
        recommends
            count <= self.stack.len(),
    {
        MachineView { stack: self.stack.take(self.stack.len() - count), ..self }
    }

    /// This state with `value` on top of the stack.
    pub open spec fn push(self, value: ValueView) -> MachineView {
        MachineView { stack: self.stack.push(value), ..self }
    }

    /// This state with the program counter at the next instruction.
    pub open spec fn advance(self) -> MachineView {
        MachineView { ip: self.ip + 1, ..self }
    }

    /// This state with the program counter at `target`.
    pub open spec fn goto(self, target: nat) -> MachineView {
        MachineView { ip: target, ..self }
    }

    /// The innermost active environment: that of the active frame, or the
    /// global one when no call is active.
    pub open spec fn scope(self) -> EnvironmentView {
        if self.callstack.len() > 0 {
            self.callstack.last().env
        } else {
            self.env
        }
    }

    /// This state with `env` as its innermost active environment.
    pub open spec fn with_scope(self, env: EnvironmentView) -> MachineView {
        if self.callstack.len() > 0 {
            MachineView {
                callstack: self.callstack.update(
                    self.callstack.len() - 1,
                    FrameView { env, ..self.callstack.last() },
                ),
                ..self
            }
        } else {
            MachineView { env, ..self }
        }
    }

    /// Whether the two topmost values are integers.
    pub open spec fn has_integers(self) -> bool {
        self.stack.len() >= 2 && self.peek(0) is Integer && self.peek(1) is Integer
    }

    /// Whether the two topmost values are booleans.
    pub open spec fn has_booleans(self) -> bool {
        self.stack.len() >= 2 && self.peek(0) is Boolean && self.peek(1) is Boolean
    }

    /// The integer `depth` slots below the top.
    pub open spec fn integer(self, depth: nat) -> i64
        recommends
            depth < self.stack.len(),
            self.peek(depth) is Integer,
    {
        self.peek(depth)->Integer_0
    }

    /// The boolean `depth` slots below the top.
    pub open spec fn boolean(self, depth: nat) -> bool
        recommends
            depth < self.stack.len(),
            self.peek(depth) is Boolean,
    {
        self.peek(depth)->Boolean_0
    }

    /// The state after an operator replaced its two operands by `result`.
    pub open spec fn binary(self, result: ValueView) -> Progress {
        Progress::Next(self.pop(2).push(result).advance())
    }

    /// Whether `target` is the index of an instruction or the end of them.
    pub open spec fn in_program(self, target: int) -> bool {
        0 <= target <= self.instructions.len()
    }

    /// What executing the instruction at the program counter leads to.
    ///
    /// A binary operator takes the top of the stack as its left operand and
    /// the value below as its right operand. Integer arithmetic wraps.
    #[verifier::opaque]
    pub open spec fn step(self) -> Progress {
        if self.ip >= self.instructions.len() {
            Progress::Stuck
        } else {
            match self.instructions[self.ip as int] {
                OpcodeView::Add => if self.has_integers() {
                    self.binary(ValueView::Integer(wrap(self.integer(0) + self.integer(1))))
                } else {
                    Progress::Stuck
                },
                OpcodeView::Sub => if self.has_integers() {
                    self.binary(ValueView::Integer(wrap(self.integer(0) - self.integer(1))))
                } else {
                    Progress::Stuck
                },
                OpcodeView::Mul => if self.has_integers() {
                    self.binary(ValueView::Integer(wrap(self.integer(0) * self.integer(1))))
                } else {
                    Progress::Stuck
                },
                OpcodeView::Div => if !self.has_integers() {
                    Progress::Stuck
                } else if self.integer(1) == 0 {
                    Progress::DivisionByZero(self.pop(2))
                } else {
                    self.binary(
                        ValueView::Integer(
                            wrap(quotient(self.integer(0) as int, self.integer(1) as int)),
                        ),
                    )
                },
                OpcodeView::Mod => if !self.has_integers() {
                    Progress::Stuck
                } else if self.integer(1) == 0 {
                    Progress::DivisionByZero(self.pop(2))
                } else {
                    self.binary(
                        ValueView::Integer(
                            wrap(remainder(self.integer(0) as int, self.integer(1) as int)),
                        ),
                    )
                },
                OpcodeView::Greater => if self.has_integers() {
                    self.binary(ValueView::Boolean(self.integer(0) > self.integer(1)))
                } else {
                    Progress::Stuck
                },
                OpcodeView::GreaterEqual => if self.has_integers() {
                    self.binary(ValueView::Boolean(self.integer(0) >= self.integer(1)))
                } else {
                    Progress::Stuck
                },
                OpcodeView::Less => if self.has_integers() {
                    self.binary(ValueView::Boolean(self.integer(0) < self.integer(1)))
                } else {
                    Progress::Stuck
                },
                OpcodeView::LessEqual => if self.has_integers() {
                    self.binary(ValueView::Boolean(self.integer(0) <= self.integer(1)))
                } else {
                    Progress::Stuck
                },
                OpcodeView::And => if self.has_booleans() {
                    self.binary(ValueView::Boolean(self.boolean(0) && self.boolean(1)))
                } else {
                    Progress::Stuck
                },
                OpcodeView::Or => if self.has_booleans() {
                    self.binary(ValueView::Boolean(self.boolean(0) || self.boolean(1)))
                } else {
                    Progress::Stuck
                },
                OpcodeView::Not => if self.stack.len() >= 1 && self.peek(0) is Boolean {
                    Progress::Next(
                        self.pop(1).push(ValueView::Boolean(!self.boolean(0))).advance(),
                    )
                } else {
                    Progress::Stuck
                },
                OpcodeView::Equal => if self.stack.len() >= 2 {
                    self.binary(ValueView::Boolean(self.peek(0) == self.peek(1)))
                } else {
                    Progress::Stuck
                },
                OpcodeView::NotEqual => if self.stack.len() >= 2 {
                    self.binary(ValueView::Boolean(self.peek(0) != self.peek(1)))
                } else {
                    Progress::Stuck
                },
                OpcodeView::Bconst(b) => Progress::Next(
                    self.push(ValueView::Boolean(b)).advance(),
                ),
                OpcodeView::Iconst(i) => Progress::Next(
                    self.push(ValueView::Integer(i)).advance(),
                ),
                OpcodeView::Uconst => Progress::Next(self.push(ValueView::Unit).advance()),
                OpcodeView::Dup => if self.stack.len() >= 1 {
                    Progress::Next(self.push(self.peek(0)).advance())
                } else {
                    Progress::Stuck
                },
                OpcodeView::Pop => if self.stack.len() >= 1 {
                    Progress::Next(self.pop(1).advance())
                } else {
                    Progress::Stuck
                },
                OpcodeView::Rot => if self.stack.len() >= 3 {
                    Progress::Next(
                        self.pop(3).push(self.peek(0)).push(self.peek(2)).push(
                            self.peek(1),
                        ).advance(),
                    )
                } else {
                    Progress::Stuck
                },
                OpcodeView::Jmp(offset) => if self.in_program(self.ip + offset) {
                    Progress::Next(self.goto((self.ip + offset) as nat))
                } else {
                    Progress::Stuck
                },
                OpcodeView::Jz(offset) => if self.stack.len() >= 1 && self.peek(0) is Boolean {
                    if self.boolean(0) {
                        Progress::Next(self.pop(1).advance())
                    } else if self.in_program(self.ip + offset) {
                        Progress::Next(self.pop(1).goto((self.ip + offset) as nat))
                    } else {
                        Progress::Stuck
                    }
                } else {
                    Progress::Stuck
                },
                OpcodeView::GetEnv(name) => if self.scope().values.contains_key(name) {
                    Progress::Next(self.push(self.scope().values[name]).advance())
                } else {
                    Progress::Stuck
                },
                OpcodeView::SetEnv(name) => if self.stack.len() >= 1 {
                    Progress::Next(
                        self.pop(1).with_scope(
                            self.scope().with_value(name, self.peek(0)),
                        ).advance(),
                    )
                } else {
                    Progress::Stuck
                },
                OpcodeView::Fconst(entry, captures) => if self.callstack.len() == 0 {
                    Progress::Next(self.push(ValueView::Function(entry, self.env)).advance())
                } else if captures_in_bounds(captures, self.stack, self.callstack.last().base) {
                    Progress::Next(
                        self.push(
                            ValueView::Function(
                                entry,
                                capture(
                                    self.callstack.last().env,
                                    captures,
                                    self.stack,
                                    self.callstack.last().base,
                                ),
                            ),
                        ).advance(),
                    )
                } else {
                    Progress::Stuck
                },
                OpcodeView::Call => if self.stack.len() >= 2 && self.peek(0) is Function
                    && self.in_program(self.peek(0)->Function_0 as int) {
                    Progress::Next(
                        MachineView {
                            callstack: self.callstack.push(
                                FrameView {
                                    entry: self.peek(0)->Function_0,
                                    env: self.peek(0)->Function_1,
                                    base: (self.stack.len() - 2) as nat,
                                    return_ip: self.ip,
                                },
                            ),
                            ..self.pop(1).goto(self.peek(0)->Function_0)
                        },
                    )
                } else {
                    Progress::Stuck
                },
                OpcodeView::Arg(offset) => if self.callstack.len() > 0 && offset
                    <= self.callstack.last().base && self.callstack.last().base - offset
                    < self.stack.len() {
                    Progress::Next(
                        self.push(self.stack[self.callstack.last().base - offset]).advance(),
                    )
                } else {
                    Progress::Stuck
                },
                OpcodeView::Recur(arity) => if self.callstack.len() > 0 && can_rebind(
                    self.stack.len(),
                    arity,
                    self.callstack.last().base,
                ) && self.in_program(self.callstack.last().entry as int) {
                    Progress::Next(
                        MachineView {
                            stack: rebound(self.stack, arity, self.callstack.last().base),
                            ..self.goto(self.callstack.last().entry)
                        },
                    )
                } else {
                    Progress::Stuck
                },
                OpcodeView::Ret(arity) => if self.callstack.len() > 0 && self.callstack.last().base
                    + arity <= self.stack.len() && self.callstack.last().return_ip
                    < self.instructions.len() {
                    Progress::Next(
                        MachineView {
                            stack: self.stack.take(self.callstack.last().base as int)
                                + self.stack.skip((self.callstack.last().base + arity) as int),
                            callstack: self.callstack.drop_last(),
                            ..self.goto(self.callstack.last().return_ip + 1)
                        },
                    )
                } else {
                    Progress::Stuck
                },
                OpcodeView::Srcpos(line, col) => Progress::Next(
                    MachineView { line, col, ..self.advance() },
                ),
            }
        }
    }

    /// What executing `count` instructions leads to: the state after them,
    /// or what stopped the machine before.
    pub open spec fn after(self, count: nat) -> Progress
        decreases count,
    {
        if count == 0 {
            Progress::Next(self)
        } else {
            match self.step() {
                Progress::Next(next) => next.after((count - 1) as nat),
                stopped => stopped,
            }
        }
    }

    /// This state with `code` appended to its instructions and the program
    /// counter at the first instruction of `code`.
    pub open spec fn load(self, code: Seq<OpcodeView>) -> MachineView {
        MachineView {
            instructions: self.instructions + code,
            ip: self.instructions.len(),
            ..self
        }
    }

    /// Whether `code` stands in the instructions at the program counter.
    pub open spec fn holds(self, code: Seq<OpcodeView>) -> bool {
        &&& self.ip + code.len() <= self.instructions.len()
        &&& self.instructions.subrange(self.ip as int, (self.ip + code.len()) as int) == code
    }

    /// What running for at most `fuel` steps leads to.
    pub open spec fn run(self, fuel: nat) -> Outcome
        decreases fuel,
    {
        if self.halted() {
            Outcome::Finished(self)
        } else if fuel == 0 {
            Outcome::OutOfFuel
        } else {
            match self.step() {
                Progress::Next(next) => next.run((fuel - 1) as nat),
                Progress::DivisionByZero(stopped) => Outcome::DivisionByZero(stopped),
                Progress::Stuck => Outcome::Stuck,
            }
        }
    }

    /// Whether a run of at most `fuel` steps reaches the end of the
    /// instructions or a division by zero, meeting on its way what each
    /// instruction requires.
    pub open spec fn completes_within(self, fuel: nat) -> bool {
        self.run(fuel) is Finished || self.run(fuel) is DivisionByZero
    }

    /// Whether the run from this state ends, at the end of the instructions
    /// or in a division by zero, meeting on its way what each instruction
    /// requires.
    pub open spec fn completes(self) -> bool {
        exists|fuel: nat| self.completes_within(fuel)
    }

    /// How the run from this state ends, where it completes.
    pub open spec fn outcome(self) -> Outcome
        recommends
            self.completes(),
    {
        self.run(choose|fuel: nat| self.completes_within(fuel))
    }
}

/// More fuel does not change how a completed run ended.
pub proof fn lemma_run_stable(machine: MachineView, fuel: nat, more: nat)
    requires
        machine.completes_within(fuel),
        fuel <= more,
    ensures
        machine.run(more) == machine.run(fuel),
    decreases fuel,
{
    if !machine.halted() && fuel > 0 {
        if let Progress::Next(next) = machine.step() {
            lemma_run_stable(next, (fuel - 1) as nat, (more - 1) as nat);
        }
    }
}

/// Any fuel with which the run completes shows its outcome.
pub proof fn lemma_outcome(machine: MachineView, fuel: nat)
    requires
        machine.completes_within(fuel),
    ensures
        machine.completes(),
        machine.outcome() == machine.run(fuel),
{
    let chosen = choose|f: nat| machine.completes_within(f);
    if chosen <= fuel {
        lemma_run_stable(machine, chosen, fuel);
    } else {
        lemma_run_stable(machine, fuel, chosen);
    }
}

/// A run that completes within `fuel` steps and is not at its end has fuel
/// left, takes a step, and goes on as the run from the next state does with
/// one step less.
pub proof fn lemma_run_step(machine: MachineView, fuel: nat)
    requires
        machine.completes_within(fuel),
        !machine.halted(),
    ensures
        fuel > 0,
        match machine.step() {
            Progress::Next(next) => next.completes_within((fuel - 1) as nat) && next.run(
                (fuel - 1) as nat,
            ) == machine.run(fuel),
            Progress::DivisionByZero(stopped) => machine.run(fuel) == Outcome::DivisionByZero(
                stopped,
            ),
            Progress::Stuck => false,
        },
{
}

/// A run that completes cannot stand beyond the end of the instructions:
/// where the program counter is not before the end, the run has finished.
pub proof fn lemma_run_end(machine: MachineView, fuel: nat)
    requires
        machine.completes_within(fuel),
        machine.ip >= machine.instructions.len(),
    ensures
        machine.halted(),
        machine.run(fuel) == Outcome::Finished(machine),
{
    reveal(MachineView::step);
}

/// Executing `first + second` instructions is executing `first` and then
/// `second` of them.
pub proof fn lemma_after_split(machine: MachineView, first: nat, second: nat)
    ensures
        machine.after(first + second) == match machine.after(first) {
            Progress::Next(middle) => middle.after(second),
            stopped => stopped,
        },
    decreases first,
{
    if first > 0 {
        if let Progress::Next(next) = machine.step() {
            lemma_after_split(next, (first - 1) as nat, second);
            assert(machine.after(first + second) == next.after((first + second - 1) as nat));
        }
    }
}

/// A run goes through the states that executing its instructions one by one
/// goes through.
pub proof fn lemma_run_after(machine: MachineView, count: nat, fuel: nat)
    ensures
        match machine.after(count) {
            Progress::Next(reached) => machine.run(count + fuel) == reached.run(fuel),
            Progress::DivisionByZero(stopped) => machine.run(count + fuel)
                == Outcome::DivisionByZero(stopped),
            Progress::Stuck => true,
        },
    decreases count,
{
    if count > 0 {
        match machine.step() {
            Progress::Next(next) => {
                lemma_run_after(next, (count - 1) as nat, fuel);
                assert(!machine.halted()) by {
                    reveal(MachineView::step);
                }
                assert(machine.run(count + fuel) == next.run((count + fuel - 1) as nat));
            },
            Progress::DivisionByZero(stopped) => {
                assert(!machine.halted()) by {
                    reveal(MachineView::step);
                }
            },
            Progress::Stuck => {},
        }
    }
}

} // verus!
