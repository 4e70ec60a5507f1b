use stack_vm::types::Type;
use stack_vm::vm::{Capture, Environment, Frame, Opcode, Value, VirtualMachine};

fn name(text: &str) -> String {
    text.to_string()
}

fn machine(instructions: Vec<Opcode>) -> VirtualMachine {
    let mut vm = VirtualMachine::new();
    vm.instructions = instructions;
    vm
}

fn run(instructions: Vec<Opcode>) -> VirtualMachine {
    let mut vm = machine(instructions);
    assert!(vm.run().is_ok());
    vm
}

#[test]
fn a_new_machine_is_empty() {
    let vm = VirtualMachine::new();
    assert!(vm.instructions.is_empty());
    assert_eq!(vm.ip, 0);
    assert!(vm.stack.is_empty());
    assert!(vm.callstack.is_empty());
    assert_eq!(vm.env, Environment::new());
    assert_eq!(vm.line, usize::MAX);
    assert_eq!(vm.col, usize::MAX);
}

#[test]
fn an_empty_program_runs_to_its_end() {
    let mut vm = VirtualMachine::new();
    assert!(vm.run().is_ok());
    assert_eq!(vm.ip, 0);
    assert!(vm.stack.is_empty());
}

#[test]
fn constants_are_pushed() {
    let vm = run(vec![Opcode::Bconst(true), Opcode::Iconst(-5), Opcode::Uconst]);
    assert_eq!(vm.stack, vec![Value::Boolean(true), Value::Integer(-5), Value::Unit]);
    assert_eq!(vm.ip, 3);
}

#[test]
fn the_top_of_the_stack_is_the_left_operand() {
    let vm = run(vec![Opcode::Iconst(2), Opcode::Iconst(1), Opcode::Sub]);
    assert_eq!(vm.stack, vec![Value::Integer(-1)]);
    let vm = run(vec![Opcode::Iconst(2), Opcode::Iconst(4), Opcode::Div]);
    assert_eq!(vm.stack, vec![Value::Integer(2)]);
    let vm = run(vec![Opcode::Iconst(6), Opcode::Iconst(21), Opcode::Mod]);
    assert_eq!(vm.stack, vec![Value::Integer(3)]);
    let vm = run(vec![Opcode::Iconst(2), Opcode::Iconst(1), Opcode::Less]);
    assert_eq!(vm.stack, vec![Value::Boolean(true)]);
    let vm = run(vec![Opcode::Iconst(2), Opcode::Iconst(1), Opcode::Greater]);
    assert_eq!(vm.stack, vec![Value::Boolean(false)]);
    let vm = run(vec![Opcode::Iconst(2), Opcode::Iconst(1), Opcode::LessEqual]);
    assert_eq!(vm.stack, vec![Value::Boolean(true)]);
    let vm = run(vec![Opcode::Iconst(2), Opcode::Iconst(1), Opcode::GreaterEqual]);
    assert_eq!(vm.stack, vec![Value::Boolean(false)]);
}

#[test]
fn operators_leave_the_stack_below_alone() {
    let vm = run(vec![
        Opcode::Uconst,
        Opcode::Iconst(3),
        Opcode::Iconst(4),
        Opcode::Add,
    ]);
    assert_eq!(vm.stack, vec![Value::Unit, Value::Integer(7)]);
    let vm = run(vec![
        Opcode::Uconst,
        Opcode::Iconst(3),
        Opcode::Iconst(4),
        Opcode::Mul,
    ]);
    assert_eq!(vm.stack, vec![Value::Unit, Value::Integer(12)]);
}

#[test]
fn machine_arithmetic_wraps() {
    let vm = run(vec![Opcode::Iconst(1), Opcode::Iconst(i64::MAX), Opcode::Add]);
    assert_eq!(vm.stack, vec![Value::Integer(i64::MIN)]);
    let vm = run(vec![Opcode::Iconst(1), Opcode::Iconst(i64::MIN), Opcode::Sub]);
    assert_eq!(vm.stack, vec![Value::Integer(i64::MAX)]);
    let vm = run(vec![Opcode::Iconst(i64::MIN), Opcode::Iconst(-1), Opcode::Mul]);
    assert_eq!(vm.stack, vec![Value::Integer(i64::MIN)]);
    let vm = run(vec![Opcode::Iconst(-1), Opcode::Iconst(i64::MIN), Opcode::Div]);
    assert_eq!(vm.stack, vec![Value::Integer(i64::MIN)]);
    let vm = run(vec![Opcode::Iconst(-1), Opcode::Iconst(i64::MIN), Opcode::Mod]);
    assert_eq!(vm.stack, vec![Value::Integer(0)]);
}

#[test]
fn boolean_operators_take_both_operands() {
    for (x, y) in [(false, false), (false, true), (true, false), (true, true)] {
        let vm = run(vec![
            Opcode::Uconst,
            Opcode::Bconst(y),
            Opcode::Bconst(x),
            Opcode::And,
        ]);
        assert_eq!(vm.stack, vec![Value::Unit, Value::Boolean(x && y)]);
        let vm = run(vec![
            Opcode::Uconst,
            Opcode::Bconst(y),
            Opcode::Bconst(x),
            Opcode::Or,
        ]);
        assert_eq!(vm.stack, vec![Value::Unit, Value::Boolean(x || y)]);
    }
    let vm = run(vec![Opcode::Bconst(true), Opcode::Not]);
    assert_eq!(vm.stack, vec![Value::Boolean(false)]);
}

#[test]
fn equality_is_structural() {
    let vm = run(vec![Opcode::Iconst(2), Opcode::Iconst(2), Opcode::Equal]);
    assert_eq!(vm.stack, vec![Value::Boolean(true)]);
    let vm = run(vec![Opcode::Iconst(2), Opcode::Iconst(2), Opcode::NotEqual]);
    assert_eq!(vm.stack, vec![Value::Boolean(false)]);
    let vm = run(vec![Opcode::Uconst, Opcode::Iconst(2), Opcode::Equal]);
    assert_eq!(vm.stack, vec![Value::Boolean(false)]);
    let vm = run(vec![Opcode::Uconst, Opcode::Iconst(2), Opcode::NotEqual]);
    assert_eq!(vm.stack, vec![Value::Boolean(true)]);

    let mut vm = machine(vec![Opcode::Equal]);
    vm.stack.push(Value::Tuple(vec![Value::Integer(1), Value::Integer(2)]));
    vm.stack.push(Value::Tuple(vec![Value::Integer(1), Value::Integer(2)]));
    assert!(vm.run().is_ok());
    assert_eq!(vm.stack, vec![Value::Boolean(true)]);

    let mut vm = machine(vec![Opcode::Equal]);
    vm.stack.push(Value::Tuple(vec![Value::Integer(1), Value::Integer(2)]));
    vm.stack.push(Value::Tuple(vec![Value::Integer(1)]));
    assert!(vm.run().is_ok());
    assert_eq!(vm.stack, vec![Value::Boolean(false)]);

    // Two closures built at top level from the same environment.
    let vm = run(vec![
        Opcode::Fconst(9, vec![]),
        Opcode::Fconst(9, vec![]),
        Opcode::Equal,
        Opcode::Fconst(9, vec![]),
        Opcode::Fconst(8, vec![]),
        Opcode::Equal,
    ]);
    assert_eq!(vm.stack, vec![Value::Boolean(true), Value::Boolean(false)]);
}

#[test]
fn a_zero_divisor_stops_the_machine() {
    for dividend in [0, 1, -1, i64::MAX, i64::MIN] {
        for op in [Opcode::Div, Opcode::Mod] {
            let mut vm = machine(vec![
                Opcode::Srcpos(4, 7),
                Opcode::Uconst,
                Opcode::Iconst(0),
                Opcode::Iconst(dividend),
                op,
                Opcode::Uconst,
            ]);
            let e = match vm.run() {
                Ok(()) => panic!("no failure"),
                Err(e) => e,
            };
            assert_eq!(e.err, "Division by zero.");
            assert_eq!(e.line, 4);
            assert_eq!(e.col, 7);
            // Both operands are gone, nothing was pushed, and the program
            // counter stays at the failing instruction.
            assert_eq!(vm.stack, vec![Value::Unit]);
            assert_eq!(vm.ip, 4);
        }
    }
}

#[test]
fn a_failure_without_a_mark_has_no_position() {
    let mut vm = machine(vec![Opcode::Iconst(0), Opcode::Iconst(1), Opcode::Div]);
    let e = match vm.run() {
        Ok(()) => panic!("no failure"),
        Err(e) => e,
    };
    assert_eq!(e.line, usize::MAX);
    assert_eq!(e.col, usize::MAX);
}

#[test]
fn the_last_mark_is_the_one_reported() {
    let mut vm = machine(vec![
        Opcode::Srcpos(1, 1),
        Opcode::Iconst(0),
        Opcode::Srcpos(2, 5),
        Opcode::Iconst(1),
        Opcode::Mod,
    ]);
    let e = match vm.run() {
        Ok(()) => panic!("no failure"),
        Err(e) => e,
    };
    assert_eq!((e.line, e.col), (2, 5));
    assert_eq!((vm.line, vm.col), (2, 5));
}

#[test]
fn rotate_moves_the_top_below_the_next_two() {
    let vm = run(vec![
        Opcode::Uconst,
        Opcode::Iconst(1),
        Opcode::Iconst(2),
        Opcode::Iconst(3),
        Opcode::Rot,
    ]);
    assert_eq!(
        vm.stack,
        vec![Value::Unit, Value::Integer(3), Value::Integer(1), Value::Integer(2)]
    );
}

#[test]
fn three_rotations_restore_the_stack() {
    let vm = run(vec![
        Opcode::Iconst(1),
        Opcode::Iconst(2),
        Opcode::Iconst(3),
        Opcode::Rot,
        Opcode::Rot,
        Opcode::Rot,
    ]);
    assert_eq!(vm.stack, vec![Value::Integer(1), Value::Integer(2), Value::Integer(3)]);
}

#[test]
fn duplicate_and_discard() {
    let vm = run(vec![Opcode::Iconst(1), Opcode::Dup]);
    assert_eq!(vm.stack, vec![Value::Integer(1), Value::Integer(1)]);
    let vm = run(vec![Opcode::Iconst(1), Opcode::Iconst(2), Opcode::Pop]);
    assert_eq!(vm.stack, vec![Value::Integer(1)]);
}

#[test]
fn jumps_are_relative_to_the_jumping_instruction() {
    let vm = run(vec![
        Opcode::Jmp(2),
        Opcode::Iconst(1),
        Opcode::Iconst(2),
    ]);
    assert_eq!(vm.stack, vec![Value::Integer(2)]);
    assert_eq!(vm.ip, 3);

    // A loop that counts a binding down from 3 with a backward jump.
    let vm = run(vec![
        Opcode::Iconst(3),
        Opcode::SetEnv(name("n")),
        // 2: n != 0
        Opcode::Iconst(0),
        Opcode::GetEnv(name("n")),
        Opcode::NotEqual,
        Opcode::Jz(7),
        // 6: n = n - 1
        Opcode::Iconst(1),
        Opcode::GetEnv(name("n")),
        Opcode::Sub,
        Opcode::SetEnv(name("n")),
        Opcode::Bconst(false),
        Opcode::Jz(-9),
        // 12
        Opcode::GetEnv(name("n")),
    ]);
    assert_eq!(vm.stack, vec![Value::Integer(0)]);
    assert_eq!(vm.env.get_value(&name("n")), Some(&Value::Integer(0)));
}

#[test]
fn a_conditional_jump_pops_its_condition() {
    let vm = run(vec![
        Opcode::Bconst(true),
        Opcode::Jz(2),
        Opcode::Iconst(1),
        Opcode::Iconst(2),
    ]);
    assert_eq!(vm.stack, vec![Value::Integer(1), Value::Integer(2)]);
    let vm = run(vec![
        Opcode::Bconst(false),
        Opcode::Jz(2),
        Opcode::Iconst(1),
        Opcode::Iconst(2),
    ]);
    assert_eq!(vm.stack, vec![Value::Integer(2)]);
    let vm = run(vec![Opcode::Bconst(false), Opcode::Jz(1)]);
    assert!(vm.stack.is_empty());
    assert_eq!(vm.ip, 2);
}

#[test]
fn bindings_go_to_the_global_environment_outside_calls() {
    let vm = run(vec![
        Opcode::Iconst(5),
        Opcode::SetEnv(name("x")),
        Opcode::GetEnv(name("x")),
        Opcode::GetEnv(name("x")),
        Opcode::Add,
    ]);
    assert_eq!(vm.stack, vec![Value::Integer(10)]);
    assert_eq!(vm.env.get_value(&name("x")), Some(&Value::Integer(5)));
    assert!(vm.env.get_type(&name("x")).is_none());
}

#[test]
fn a_mark_sets_the_position() {
    let vm = run(vec![Opcode::Srcpos(12, 34)]);
    assert_eq!(vm.line, 12);
    assert_eq!(vm.col, 34);
    assert!(vm.stack.is_empty());
}

#[test]
fn step_executes_one_instruction() {
    let mut vm = machine(vec![Opcode::Iconst(1), Opcode::Iconst(2), Opcode::Add]);
    assert!(vm.step().is_ok());
    assert_eq!(vm.ip, 1);
    assert_eq!(vm.stack, vec![Value::Integer(1)]);
    assert!(vm.step().is_ok());
    assert!(vm.step().is_ok());
    assert_eq!(vm.ip, 3);
    assert_eq!(vm.stack, vec![Value::Integer(3)]);
}

/// A function of one argument that answers twice its argument, called on
/// 21 above a stack that holds 7.
fn doubling_call() -> Vec<Opcode> {
    vec![
        Opcode::Iconst(7),
        Opcode::Iconst(21),
        Opcode::Fconst(5, vec![]),
        // 3
        Opcode::Call,
        Opcode::Jmp(5),
        // 5: the function
        Opcode::Arg(0),
        Opcode::Arg(0),
        Opcode::Add,
        Opcode::Ret(1),
        // 9
    ]
}

#[test]
fn a_call_pushes_a_frame() {
    let mut vm = machine(doubling_call());
    for _ in 0..4 {
        assert!(vm.step().is_ok());
    }
    assert_eq!(vm.ip, 5);
    assert_eq!(vm.stack, vec![Value::Integer(7), Value::Integer(21)]);
    assert_eq!(vm.callstack.len(), 1);
    let frame: &Frame = &vm.callstack[0];
    assert_eq!(frame.entry, 5);
    assert_eq!(frame.base, 1);
    assert_eq!(frame.return_ip, 3);
    assert_eq!(frame.env, Environment::new());
}

#[test]
fn a_call_and_its_return_leave_the_result_on_the_stack_below() {
    let vm = run(doubling_call());
    assert_eq!(vm.stack, vec![Value::Integer(7), Value::Integer(42)]);
    assert!(vm.callstack.is_empty());
    assert_eq!(vm.ip, 9);
}

#[test]
fn a_return_resumes_behind_the_call() {
    let mut vm = machine(doubling_call());
    for _ in 0..8 {
        assert!(vm.step().is_ok());
    }
    assert_eq!(vm.ip, 4);
    assert!(vm.callstack.is_empty());
}

#[test]
fn a_return_without_arguments_removes_nothing() {
    let vm = run(vec![
        Opcode::Iconst(7),
        Opcode::Fconst(4, vec![]),
        Opcode::Call,
        Opcode::Jmp(4),
        // 4: the function
        Opcode::Iconst(1),
        Opcode::Ret(0),
    ]);
    assert_eq!(vm.stack, vec![Value::Integer(7), Value::Integer(1)]);
    assert!(vm.callstack.is_empty());
}

#[test]
fn arguments_are_addressed_from_the_last_pushed() {
    let vm = run(vec![
        Opcode::Iconst(10),
        Opcode::Iconst(20),
        Opcode::Iconst(30),
        Opcode::Fconst(6, vec![]),
        Opcode::Call,
        Opcode::Jmp(6),
        // 6: the function
        Opcode::Arg(0),
        Opcode::Arg(1),
        Opcode::Arg(2),
        Opcode::Jmp(1),
    ]);
    // The return is left out on purpose: the frame stays active and the
    // copies of the arguments stand above them.
    assert_eq!(
        vm.stack,
        vec![
            Value::Integer(10),
            Value::Integer(20),
            Value::Integer(30),
            Value::Integer(30),
            Value::Integer(20),
            Value::Integer(10),
        ]
    );
    assert_eq!(vm.callstack.len(), 1);
}

/// A function that counts its argument down to zero by tail calls and then
/// answers 42.
fn countdown(from: i64) -> Vec<Opcode> {
    vec![
        Opcode::Iconst(from),
        Opcode::Fconst(4, vec![]),
        Opcode::Call,
        Opcode::Jmp(11),
        // 4: the function: is the argument zero?
        Opcode::Iconst(0),
        Opcode::Arg(0),
        Opcode::Equal,
        Opcode::Jz(3),
        Opcode::Iconst(42),
        Opcode::Ret(1),
        // 10: count on with the argument less one
        Opcode::Iconst(1),
        Opcode::Arg(0),
        Opcode::Sub,
        Opcode::Recur(1),
        // 14
    ]
}

#[test]
fn tail_calls_do_not_grow_the_call_stack() {
    for from in [0, 1, 10, 1000] {
        let mut vm = machine(countdown(from));
        let mut deepest = 0;
        let mut tail_calls = 0;
        while vm.ip < vm.instructions.len() {
            let at_tail_call = matches!(vm.instructions[vm.ip], Opcode::Recur(_));
            let depth = vm.callstack.len();
            assert!(vm.step().is_ok());
            if at_tail_call {
                tail_calls += 1;
                assert_eq!(vm.callstack.len(), depth);
                assert_eq!(vm.ip, 4);
            }
            deepest = deepest.max(vm.callstack.len());
        }
        assert_eq!(tail_calls, from);
        assert_eq!(deepest, 1);
        assert!(vm.callstack.is_empty());
        assert_eq!(vm.stack, vec![Value::Integer(42)]);
    }
}

#[test]
fn a_long_tail_recursion_runs_in_one_frame() {
    let vm = run(countdown(200_000));
    assert_eq!(vm.stack, vec![Value::Integer(42)]);
    assert!(vm.callstack.is_empty());
    assert_eq!(vm.ip, 14);
}

#[test]
fn a_tail_call_rewrites_the_argument_slots() {
    // In a frame with two argument slots, the top of the stack goes to the
    // lower slot and the value below it to the slot at the base.
    let mut vm = machine(vec![Opcode::Recur(2)]);
    vm.stack = vec![
        Value::Unit,
        Value::Integer(1),
        Value::Integer(2),
        Value::Boolean(true),
        Value::Integer(3),
        Value::Integer(4),
    ];
    vm.callstack.push(Frame { entry: 1, env: Environment::new(), base: 2, return_ip: 0 });
    assert!(vm.step().is_ok());
    assert_eq!(
        vm.stack,
        vec![Value::Unit, Value::Integer(4), Value::Integer(3), Value::Boolean(true)]
    );
    assert_eq!(vm.ip, 1);
    assert_eq!(vm.callstack.len(), 1);
    assert_eq!(vm.callstack[0].base, 2);
}

#[test]
fn a_return_removes_the_slots_from_the_base_on() {
    let mut vm = machine(vec![Opcode::Uconst, Opcode::Ret(2), Opcode::Uconst]);
    vm.ip = 1;
    vm.stack = vec![
        Value::Integer(1),
        Value::Integer(2),
        Value::Integer(3),
        Value::Integer(4),
        Value::Integer(5),
    ];
    vm.callstack.push(Frame { entry: 1, env: Environment::new(), base: 1, return_ip: 0 });
    assert!(vm.step().is_ok());
    assert_eq!(vm.stack, vec![Value::Integer(1), Value::Integer(4), Value::Integer(5)]);
    assert!(vm.callstack.is_empty());
    assert_eq!(vm.ip, 1);
}

fn capture(text: &str, offset: usize, typ: Type) -> Capture {
    Capture { name: name(text), offset, typ }
}

#[test]
fn a_closure_built_outside_a_call_captures_nothing() {
    let vm = run(vec![
        Opcode::Iconst(1),
        Opcode::SetEnv(name("g")),
        Opcode::Iconst(5),
        Opcode::Fconst(12, vec![capture("x", 0, Type::Integer)]),
    ]);
    let mut global = Environment::new();
    global.set_value(name("g"), Value::Integer(1));
    assert_eq!(vm.stack, vec![Value::Integer(5), Value::Function(12, global)]);
}

#[test]
fn a_closure_captures_values_and_types_from_the_frame() {
    let vm = run(vec![
        Opcode::Iconst(10),
        Opcode::Bconst(true),
        Opcode::Fconst(5, vec![]),
        Opcode::Call,
        Opcode::Jmp(4),
        // 5: the function
        Opcode::Fconst(
            99,
            vec![capture("first", 1, Type::Integer), capture("second", 0, Type::Boolean)],
        ),
        Opcode::Ret(1),
    ]);
    let mut captured = Environment::new();
    captured.set_value(name("first"), Value::Integer(10));
    captured.set_type(name("first"), Type::Integer);
    captured.set_value(name("second"), Value::Boolean(true));
    captured.set_type(name("second"), Type::Boolean);
    assert_eq!(vm.stack, vec![Value::Integer(10), Value::Function(99, captured)]);
}

#[test]
fn a_closure_keeps_what_it_captured() {
    // make(x) answers a closure that captures x. The closure made for 1 is
    // called after make has returned, after make was called again for 2,
    // and after x was bound to 99 at top level: it still answers 1.
    let vm = run(vec![
        Opcode::Uconst,
        Opcode::Iconst(1),
        Opcode::Fconst(12, vec![]),
        Opcode::Call,
        // 4
        Opcode::Iconst(2),
        Opcode::Fconst(12, vec![]),
        Opcode::Call,
        Opcode::Pop,
        // 8
        Opcode::Iconst(99),
        Opcode::SetEnv(name("x")),
        // 10
        Opcode::Call,
        Opcode::Jmp(5),
        // 12: make
        Opcode::Fconst(14, vec![capture("x", 0, Type::Integer)]),
        Opcode::Ret(1),
        // 14: the closure
        Opcode::GetEnv(name("x")),
        Opcode::Ret(1),
        // 16
    ]);
    assert_eq!(vm.stack, vec![Value::Integer(1)]);
    assert!(vm.callstack.is_empty());
    assert_eq!(vm.env.get_value(&name("x")), Some(&Value::Integer(99)));
}

#[test]
fn a_binding_in_a_call_stays_in_the_frame() {
    let vm = run(vec![
        Opcode::Iconst(1),
        Opcode::SetEnv(name("x")),
        Opcode::Uconst,
        Opcode::Fconst(6, vec![]),
        Opcode::Call,
        Opcode::Jmp(5),
        // 6: the function binds x anew and reads it
        Opcode::Iconst(2),
        Opcode::SetEnv(name("x")),
        Opcode::GetEnv(name("x")),
        Opcode::Ret(1),
        // 10
        Opcode::GetEnv(name("x")),
    ]);
    assert_eq!(vm.stack, vec![Value::Integer(2), Value::Integer(1)]);
    assert_eq!(vm.env.get_value(&name("x")), Some(&Value::Integer(1)));
}

#[test]
fn instructions_are_disassembled() {
    let cases = vec![
        (Opcode::Add, "add"),
        (Opcode::And, "and"),
        (Opcode::Arg(3), "arg 3"),
        (Opcode::Bconst(true), "const true"),
        (Opcode::Bconst(false), "const false"),
        (Opcode::Call, "call"),
        (Opcode::Div, "div"),
        (Opcode::Dup, "dup"),
        (Opcode::Equal, "eq"),
        (Opcode::Fconst(12, vec![capture("x", 0, Type::Integer)]), "lambda @12"),
        (Opcode::GetEnv(name("x")), "getenv x"),
        (Opcode::Greater, "gt"),
        (Opcode::GreaterEqual, "ge"),
        (Opcode::Iconst(5), "const 5"),
        (Opcode::Iconst(-17), "const -17"),
        (Opcode::Jmp(-3), "jmp -3"),
        (Opcode::Jmp(10), "jmp 10"),
        (Opcode::Jz(4), "jz 4"),
        (Opcode::Less, "lt"),
        (Opcode::LessEqual, "le"),
        (Opcode::Mod, "mod"),
        (Opcode::Mul, "mul"),
        (Opcode::Not, "not"),
        (Opcode::NotEqual, "neq"),
        (Opcode::Or, "or"),
        (Opcode::Pop, "pop"),
        (Opcode::Recur(2), "recur 2"),
        (Opcode::Ret(1), "ret 1"),
        (Opcode::Rot, "rot"),
        (Opcode::SetEnv(name("total")), "setenv total"),
        (Opcode::Srcpos(12, 0), "srcpos 12 0"),
        (Opcode::Sub, "sub"),
        (Opcode::Uconst, "uconst"),
    ];
    for (op, text) in cases {
        assert_eq!(op.to_string(), text);
    }
}
