use alpha::interpreter::environment::{Environment, Module};
use alpha::interpreter::native::NativeKind;
use alpha::interpreter::value::Value;

fn number(s: &str) -> Value {
    Value::Number(String::from(s))
}

fn shown(value: Option<Value>) -> Option<String> {
    value.map(|v| v.to_string())
}

#[test]
fn define_then_get_in_the_same_scope() {
    let mut environment = Environment::new(String::from("/base"));
    assert_eq!(environment.len(), 1);
    assert_eq!(shown(environment.get(0, "x")), None);
    environment.define(0, "x", number("1"));
    environment.define(0, "y", number("2"));
    assert_eq!(shown(environment.get(0, "x")), Some(String::from("1")));
    assert_eq!(shown(environment.get(0, "y")), Some(String::from("2")));
    environment.define(0, "x", number("3"));
    assert_eq!(shown(environment.get(0, "x")), Some(String::from("3")));
    assert_eq!(shown(environment.get(0, "y")), Some(String::from("2")));
    let names: Vec<String> = environment.get_values(0).into_iter().map(|(k, _)| k).collect();
    assert_eq!(names, vec!["x", "y"]);
    assert_eq!(environment.base_path(0), "/base");
}

#[test]
fn many_names_are_found_again() {
    let mut environment = Environment::new(String::new());
    for i in 0..200 {
        environment.define(0, &format!("name{}", i), number(&i.to_string()));
    }
    for i in 0..200 {
        assert_eq!(shown(environment.get(0, &format!("name{}", i))), Some(i.to_string()));
    }
    assert_eq!(shown(environment.get(0, "name200")), None);
    assert_eq!(environment.get_values(0).len(), 200);
}

#[test]
fn lookup_walks_the_enclosing_chain() {
    let mut environment = Environment::new(String::new());
    environment.define(0, "outer", number("1"));
    let inner = environment.new_with_enclosing(Some(0));
    let innermost = environment.new_with_enclosing(Some(inner));
    assert_eq!((inner, innermost), (1, 2));
    environment.define(inner, "middle", number("2"));
    assert_eq!(shown(environment.get(innermost, "outer")), Some(String::from("1")));
    assert_eq!(shown(environment.get(innermost, "middle")), Some(String::from("2")));
    assert_eq!(shown(environment.get(0, "middle")), None);
    assert_eq!(shown(environment.get_own(innermost, "middle")), None);
    assert_eq!(environment.get_enclosing(innermost), Some(inner));
    assert_eq!(environment.get_enclosing(0), None);
    assert_eq!(environment.get_enclosing(9), None);
    assert_eq!(environment.base_path(inner), ".");
}

#[test]
fn inner_definition_shadows_and_leaves_the_outer_one() {
    let mut environment = Environment::new(String::new());
    environment.define(0, "x", number("1"));
    let inner = environment.new_with_enclosing(Some(0));
    environment.define(inner, "x", number("2"));
    assert_eq!(shown(environment.get(inner, "x")), Some(String::from("2")));
    assert_eq!(shown(environment.get(0, "x")), Some(String::from("1")));
}

#[test]
fn assign_rebinds_where_the_name_is_bound() {
    let mut environment = Environment::new(String::new());
    environment.define(0, "x", number("1"));
    let inner = environment.new_with_enclosing(Some(0));
    let given = environment.assign(inner, "x", number("5"));
    assert_eq!(given.ok().map(|v| v.to_string()), Some(String::from("5")));
    assert_eq!(shown(environment.get(0, "x")), Some(String::from("5")));
    assert!(environment.get_values(inner).is_empty());
    let missing = environment.assign(inner, "y", number("5"));
    assert_eq!(
        missing.err().map(|e| e.to_string()),
        Some(String::from("[line 0] Error: Undefined variable y."))
    );
    assert_eq!(shown(environment.get(inner, "y")), None);
}

#[test]
fn handle_of_no_scope_changes_nothing() {
    let mut environment = Environment::new(String::new());
    environment.define(7, "x", number("1"));
    assert_eq!(environment.len(), 1);
    assert_eq!(shown(environment.get(7, "x")), None);
    assert_eq!(shown(environment.get(0, "x")), None);
    assert!(environment.get_values(7).is_empty());
}

#[test]
fn natives_are_found_from_inner_scopes() {
    let mut environment = Environment::new(String::new());
    environment.register_native_functions(0);
    let inner = environment.new_with_enclosing(Some(0));
    for name in [
        "exit", "random", "clock", "typeOf", "assert", "print", "input", "einput", "readFile",
        "writeFile", "appendFile", "toString", "toNumber", "toBool", "sqrt", "pow", "abs", "round",
        "floor", "ceil", "len", "concat", "substring", "delay", "listen", "connect", "connectTLS",
        "accept", "read", "write",
    ] {
        match environment.get(inner, name) {
            Some(Value::NativeFunction(native)) => assert_eq!(native.name, name),
            _ => panic!("{} is no native", name),
        }
    }
    assert!(environment.get_values(0).is_empty());
    environment.define(0, "print", number("1"));
    assert_eq!(shown(environment.get(inner, "print")), Some(String::from("1")));
    environment.define_native(0, "mine", 2, NativeKind::Concat);
    match environment.get(inner, "mine") {
        Some(Value::NativeFunction(native)) => {
            assert_eq!((native.arity, native.func), (2, NativeKind::Concat))
        }
        _ => panic!("no native"),
    }
}

#[test]
fn class_is_defined_under_its_name() {
    let mut environment = Environment::new(String::new());
    environment.define_class(0, String::from("C"), vec![(String::from("m"), Value::Nil)]);
    match environment.get(0, "C") {
        Some(Value::Class(name, methods)) => {
            assert_eq!(name, "C");
            assert_eq!(methods.len(), 1);
        }
        _ => panic!("no class"),
    }
}

#[test]
fn modules_answer_last_and_in_the_order_of_registration() {
    let mut environment = Environment::new(String::new());
    let first = environment.new_root(String::from("/a"));
    let second = environment.new_root(String::from("/b"));
    environment.define(first, "shared", number("1"));
    environment.define(second, "shared", number("2"));
    environment.define(second, "only", number("3"));
    assert_eq!(shown(environment.get(0, "shared")), None);
    environment.add_module(
        0,
        Module { name: String::from("a"), environment: first, path: String::from("a.alpha") },
    );
    environment.add_module(
        0,
        Module { name: String::from("b"), environment: second, path: String::from("b.alpha") },
    );
    assert_eq!(shown(environment.get(0, "shared")), Some(String::from("1")));
    assert_eq!(shown(environment.get(0, "only")), Some(String::from("3")));
    assert_eq!(shown(environment.get_from_module(0, "only")), Some(String::from("3")));
    let inner = environment.new_with_enclosing(Some(0));
    assert_eq!(shown(environment.get(inner, "only")), Some(String::from("3")));
    environment.define(0, "shared", number("0"));
    assert_eq!(shown(environment.get(inner, "shared")), Some(String::from("0")));
    assert_eq!(environment.get_module(0, "b").map(|m| m.path.clone()), Some(String::from("b.alpha")));
    environment.add_module(
        0,
        Module { name: String::from("a"), environment: second, path: String::from("again") },
    );
    assert_eq!(environment.get_module(0, "a").map(|m| m.path.clone()), Some(String::from("again")));
    assert_eq!(environment.get_module(0, "b").map(|m| m.environment), Some(second));
    assert!(environment.get_module(0, "c").is_none());
    assert!(environment.get_module(inner, "a").is_none());
}

#[test]
fn import_registers_a_module_once() {
    let mut environment = Environment::new(String::new());
    let first = environment.new_root(String::from("/a"));
    let second = environment.new_root(String::from("/a"));
    environment.define(first, "x", number("1"));
    environment.define(second, "x", number("2"));
    assert!(environment.import_module(
        0,
        Module { name: String::from("a"), environment: first, path: String::from("a.alpha") }
    ));
    assert!(!environment.import_module(
        0,
        Module { name: String::from("a"), environment: second, path: String::from("other") }
    ));
    assert!(!environment.import_module(
        9,
        Module { name: String::from("b"), environment: second, path: String::from("b") }
    ));
    assert_eq!(shown(environment.get(0, "x")), Some(String::from("1")));
    assert_eq!(environment.get_module(0, "a").map(|m| m.path.clone()), Some(String::from("a.alpha")));
}

#[test]
fn module_path_is_resolved_from_what_the_host_found() {
    let environment = Environment::new(String::from("/base"));
    let path = |absolute, exists| {
        environment
            .resolve_module_path("lib/m.alpha", absolute, String::from("/base/lib/m.alpha"), exists)
            .map_err(|e| e.to_string())
    };
    assert_eq!(path(true, false), Ok(String::from("lib/m.alpha")));
    assert_eq!(path(true, true), Ok(String::from("lib/m.alpha")));
    assert_eq!(path(false, true), Ok(String::from("/base/lib/m.alpha")));
    assert_eq!(
        path(false, false),
        Err(String::from("[line 0] Error: Could not find module: lib/m.alpha"))
    );
}

#[test]
fn equality_follows_instances() {
    let mut environment = Environment::new(String::new());
    let a = environment.new_with_enclosing(Some(0));
    let b = environment.new_with_enclosing(Some(0));
    environment.define(a, "this", Value::Instance(String::from("C"), a));
    environment.define(b, "this", Value::Instance(String::from("C"), b));
    environment.define(a, "x", number("1"));
    environment.define(b, "x", number("1"));
    let first = Value::Instance(String::from("C"), a);
    let second = Value::Instance(String::from("C"), b);
    assert!(environment.equal(&first, &second, 8));
    assert!(environment.equal(&first, &first, 0));
    environment.define(b, "x", number("2"));
    assert!(!environment.equal(&first, &second, 8));
    assert!(environment.equal(&first, &second, 0));
    assert!(!environment.equal(&first, &Value::Instance(String::from("D"), a), 8));
    environment.define(b, "x", number("1"));
    environment.define(b, "y", number("1"));
    assert!(!environment.equal(&first, &second, 8));
    assert!(environment.equal(&Value::Socket(1), &Value::Socket(1), 8));
    assert!(!environment.equal(&Value::Socket(1), &Value::Server(1), 8));
    assert!(!environment.equal(&Value::Promise(1), &Value::Promise(1), 8));
}
