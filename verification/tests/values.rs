use stack_vm::types::Type;
use stack_vm::vm::{Environment, Value};

fn name(text: &str) -> String {
    text.to_string()
}

#[test]
fn a_new_environment_binds_nothing() {
    let env = Environment::new();
    assert!(env.get_value(&name("x")).is_none());
    assert!(env.get_type(&name("x")).is_none());
    assert_eq!(env, Environment::new());
}

#[test]
fn a_bound_value_is_found_again() {
    let mut env = Environment::new();
    env.set_value(name("x"), Value::Integer(1));
    env.set_value(name("y"), Value::Boolean(true));
    assert_eq!(env.get_value(&name("x")), Some(&Value::Integer(1)));
    assert_eq!(env.get_value(&name("y")), Some(&Value::Boolean(true)));
    assert!(env.get_value(&name("z")).is_none());
    assert!(env.get_type(&name("x")).is_none());
}

#[test]
fn binding_again_replaces() {
    let mut env = Environment::new();
    env.set_value(name("x"), Value::Integer(1));
    env.set_value(name("y"), Value::Integer(2));
    env.set_value(name("x"), Value::Integer(3));
    assert_eq!(env.get_value(&name("x")), Some(&Value::Integer(3)));
    assert_eq!(env.get_value(&name("y")), Some(&Value::Integer(2)));
    env.set_type(name("x"), Type::Integer);
    env.set_type(name("x"), Type::Boolean);
    assert_eq!(env.get_type(&name("x")), Some(Type::Boolean));
}

#[test]
fn values_and_types_are_held_apart() {
    let mut env = Environment::new();
    env.set_type(name("x"), Type::Integer);
    assert!(env.get_value(&name("x")).is_none());
    assert_eq!(env.get_type(&name("x")), Some(Type::Integer));
    env.set_value(name("y"), Value::Unit);
    assert!(env.get_type(&name("y")).is_none());
}

#[test]
fn environments_are_equal_whatever_the_order_of_binding() {
    let mut a = Environment::new();
    a.set_value(name("x"), Value::Integer(1));
    a.set_value(name("y"), Value::Integer(2));
    a.set_type(name("x"), Type::Integer);
    let mut b = Environment::new();
    b.set_type(name("x"), Type::Integer);
    b.set_value(name("y"), Value::Integer(2));
    b.set_value(name("x"), Value::Integer(0));
    b.set_value(name("x"), Value::Integer(1));
    assert_eq!(a, b);
    assert_eq!(b, a);
}

#[test]
fn environments_differ_by_a_name_a_value_or_a_type() {
    let mut a = Environment::new();
    a.set_value(name("x"), Value::Integer(1));
    let mut b = Environment::new();
    assert_ne!(a, b);
    assert_ne!(b, a);
    b.set_value(name("x"), Value::Integer(2));
    assert_ne!(a, b);
    b.set_value(name("x"), Value::Integer(1));
    assert_eq!(a, b);
    b.set_type(name("x"), Type::Integer);
    assert_ne!(a, b);
    a.set_type(name("x"), Type::Boolean);
    assert_ne!(a, b);
    a.set_type(name("x"), Type::Integer);
    assert_eq!(a, b);
    b.set_value(name("y"), Value::Unit);
    assert_ne!(a, b);
    assert_ne!(b, a);
}

#[test]
fn tuples_are_equal_item_by_item() {
    assert_eq!(
        Value::Tuple(vec![Value::Integer(1), Value::Integer(2)]),
        Value::Tuple(vec![Value::Integer(1), Value::Integer(2)])
    );
    assert!(
        Value::Tuple(vec![Value::Integer(1), Value::Integer(2)])
            == Value::Tuple(vec![Value::Integer(1), Value::Integer(2)])
    );
    assert_ne!(
        Value::Tuple(vec![Value::Integer(1), Value::Integer(2)]),
        Value::Tuple(vec![Value::Integer(1), Value::Integer(3)])
    );
    assert_ne!(
        Value::Tuple(vec![Value::Integer(1), Value::Integer(2)]),
        Value::Tuple(vec![Value::Integer(2), Value::Integer(1)])
    );
    assert_eq!(Value::Tuple(vec![]), Value::Tuple(vec![]));
    assert_eq!(
        Value::Tuple(vec![Value::Tuple(vec![Value::Unit]), Value::Boolean(true)]),
        Value::Tuple(vec![Value::Tuple(vec![Value::Unit]), Value::Boolean(true)])
    );
    assert_ne!(
        Value::Tuple(vec![Value::Tuple(vec![Value::Unit]), Value::Boolean(true)]),
        Value::Tuple(vec![Value::Tuple(vec![]), Value::Boolean(true)])
    );
}

#[test]
fn tuples_of_different_lengths_are_never_equal() {
    assert_ne!(
        Value::Tuple(vec![Value::Integer(1)]),
        Value::Tuple(vec![Value::Integer(1), Value::Integer(2)])
    );
    assert_ne!(
        Value::Tuple(vec![Value::Integer(1), Value::Integer(2)]),
        Value::Tuple(vec![Value::Integer(1)])
    );
    assert_ne!(Value::Tuple(vec![]), Value::Tuple(vec![Value::Unit]));
}

#[test]
fn values_of_different_kinds_are_never_equal() {
    let kinds = || {
        vec![
            Value::Boolean(false),
            Value::Function(0, Environment::new()),
            Value::Integer(0),
            Value::Tuple(vec![]),
            Value::Unit,
        ]
    };
    let left = kinds();
    let right = kinds();
    for (i, a) in left.iter().enumerate() {
        for (j, b) in right.iter().enumerate() {
            assert_eq!(a == b, i == j);
        }
    }
}

#[test]
fn closures_are_equal_by_entry_and_environment() {
    let mut env = Environment::new();
    env.set_value(name("x"), Value::Integer(1));
    let mut same = Environment::new();
    same.set_value(name("x"), Value::Integer(1));
    let mut other = Environment::new();
    other.set_value(name("x"), Value::Integer(2));
    assert_eq!(Value::Function(12, env.clone()), Value::Function(12, same));
    assert_ne!(Value::Function(12, env.clone()), Value::Function(13, env.clone()));
    assert_ne!(Value::Function(12, env), Value::Function(12, other));
}

#[test]
fn a_copy_shares_nothing_with_its_source() {
    let mut env = Environment::new();
    env.set_value(name("x"), Value::Tuple(vec![Value::Integer(1)]));
    env.set_type(name("x"), Type::Integer);
    let source = Value::Function(4, env);
    let copy = source.clone();
    assert_eq!(copy, source);
    let changed = match copy {
        Value::Function(entry, mut env) => {
            env.set_value(name("x"), Value::Unit);
            Value::Function(entry, env)
        }
        _ => panic!("no closure"),
    };
    assert_ne!(changed, source);
    match &source {
        Value::Function(_, env) => {
            assert_eq!(
                env.get_value(&name("x")),
                Some(&Value::Tuple(vec![Value::Integer(1)]))
            );
            assert_eq!(env.get_type(&name("x")), Some(Type::Integer));
        }
        _ => panic!("no closure"),
    }
}

#[test]
fn an_environment_copy_is_independent() {
    let mut env = Environment::new();
    env.set_value(name("x"), Value::Integer(1));
    let mut copy = env.clone();
    assert_eq!(copy, env);
    copy.set_value(name("x"), Value::Integer(2));
    copy.set_value(name("y"), Value::Integer(3));
    assert_eq!(env.get_value(&name("x")), Some(&Value::Integer(1)));
    assert!(env.get_value(&name("y")).is_none());
    assert_eq!(copy.get_value(&name("x")), Some(&Value::Integer(2)));
}

#[test]
fn values_are_shown_as_text() {
    assert_eq!(Value::Boolean(true).to_string(), "true");
    assert_eq!(Value::Boolean(false).to_string(), "false");
    assert_eq!(Value::Integer(0).to_string(), "0");
    assert_eq!(Value::Integer(7).to_string(), "7");
    assert_eq!(Value::Integer(10).to_string(), "10");
    assert_eq!(Value::Integer(-1).to_string(), "-1");
    assert_eq!(Value::Integer(120).to_string(), "120");
    assert_eq!(Value::Integer(i64::MAX).to_string(), "9223372036854775807");
    assert_eq!(Value::Integer(i64::MIN).to_string(), "-9223372036854775808");
    assert_eq!(Value::Unit.to_string(), "()");
    assert_eq!(Value::Function(12, Environment::new()).to_string(), "(lambda @12)");
    assert_eq!(Value::Tuple(vec![]).to_string(), "()");
    assert_eq!(Value::Tuple(vec![Value::Integer(1)]).to_string(), "(1)");
    assert_eq!(
        Value::Tuple(vec![Value::Integer(1), Value::Boolean(false)]).to_string(),
        "(1, false)"
    );
    assert_eq!(
        Value::Tuple(vec![
            Value::Integer(1),
            Value::Tuple(vec![Value::Unit, Value::Integer(-2)]),
            Value::Function(3, Environment::new()),
        ])
        .to_string(),
        "(1, ((), -2), (lambda @3))"
    );
}
