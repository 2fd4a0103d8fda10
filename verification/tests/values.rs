use alpha::error::{Failure, InterpreterError, InterpreterKind, RuntimeErrorKind, UnknownErrorKind};
use alpha::interpreter::environment::Environment;
use alpha::interpreter::native::{NativeFunction, NativeKind, NativeOutcome, Service};
use alpha::interpreter::native_functions::unescape;
use alpha::interpreter::value::{
    equal_numbers, index_of_number, is_number, is_truthy_value, negate_number, PromiseState, Task,
    TextStyle, Value,
};

fn text(s: &str) -> Value {
    Value::String(String::from(s))
}

fn number(s: &str) -> Value {
    Value::Number(String::from(s))
}

#[test]
fn plain_text_of_values() {
    assert_eq!(number("7").to_string(), "7");
    assert_eq!(text("a b").to_string(), "a b");
    assert_eq!(Value::Boolean(true).to_string(), "true");
    assert_eq!(Value::Boolean(false).to_string(), "false");
    assert_eq!(Value::Nil.to_string(), "nil");
    assert_eq!(Value::Function(String::from("f"), vec![], 0).to_string(), "f");
    assert_eq!(Value::AsyncFunction(String::from("g"), vec![], 0).to_string(), "g");
    assert_eq!(Value::Class(String::from("C"), vec![]).to_string(), "C");
    assert_eq!(Value::Instance(String::from("C"), 3).to_string(), "C");
    assert_eq!(
        Value::NativeFunction(NativeFunction::new("print", 1, NativeKind::Print)).to_string(),
        "print"
    );
    assert_eq!(Value::Array(vec![]).to_string(), "[]");
    assert_eq!(
        Value::Array(vec![number("1"), Value::Array(vec![text("a"), Value::Nil])]).to_string(),
        "[1, [a, nil]]"
    );
    assert_eq!(Value::Dictionary(vec![]).to_string(), "{}");
    assert_eq!(
        Value::Dictionary(vec![(String::from("a"), number("1")), (String::from("b"), text("x"))])
            .to_string(),
        "{a: 1, b: x}"
    );
    assert_eq!(Value::Socket(1).to_string(), "socket");
    assert_eq!(Value::TlsSocket(1).to_string(), "tls socket");
    assert_eq!(Value::Server(1).to_string(), "server");
    assert_eq!(Value::Promise(0).to_string(), "promise");
}

#[test]
fn printed_and_converted_text_of_values() {
    let f = Value::Function(String::from("f"), vec![], 0);
    assert_eq!(f.render(TextStyle::Printed), "<fn f>");
    assert_eq!(f.render(TextStyle::Converted), "<fn f>");
    assert_eq!(
        Value::AsyncFunction(String::from("g"), vec![], 0).render(TextStyle::Printed),
        "<async fn g>"
    );
    assert_eq!(Value::Instance(String::from("C"), 0).render(TextStyle::Converted), "<instance C>");
    let list = Value::Array(vec![number("1"), Value::Function(String::from("f"), vec![], 0)]);
    assert_eq!(list.render(TextStyle::Printed), "[1, <fn f>]");
    assert_eq!(list.render(TextStyle::Converted), "1,f");
    let table = Value::Dictionary(vec![(String::from("k"), Value::Class(String::from("C"), vec![]))]);
    assert_eq!(table.render(TextStyle::Printed), "{k: <class C>}");
    assert_eq!(table.render(TextStyle::Converted), "k: C");
}

#[test]
fn type_names() {
    assert_eq!(number("1").get_type(), "number");
    assert_eq!(text("").get_type(), "string");
    assert_eq!(Value::Boolean(true).get_type(), "boolean");
    assert_eq!(Value::Nil.get_type(), "nil");
    assert_eq!(Value::Function(String::new(), vec![], 0).get_type(), "function");
    assert_eq!(Value::AsyncFunction(String::new(), vec![], 0).get_type(), "async function");
    assert_eq!(
        Value::NativeFunction(NativeFunction::new("x", 0, NativeKind::Clock)).get_type(),
        "native function"
    );
    assert_eq!(Value::Class(String::new(), vec![]).get_type(), "class");
    assert_eq!(Value::Instance(String::new(), 0).get_type(), "instance");
    assert_eq!(Value::Array(vec![]).get_type(), "array");
    assert_eq!(Value::Dictionary(vec![]).get_type(), "dictionary");
    assert_eq!(Value::Socket(0).get_type(), "socket");
    assert_eq!(Value::TlsSocket(0).get_type(), "tls socket");
    assert_eq!(Value::Server(0).get_type(), "server");
    assert_eq!(Value::Promise(0).get_type(), "promise");
}

#[test]
fn truth_of_values() {
    assert!(!is_truthy_value(&Value::Nil));
    assert!(!is_truthy_value(&Value::Boolean(false)));
    assert!(is_truthy_value(&Value::Boolean(true)));
    assert!(!is_truthy_value(&number("0")));
    assert!(!is_truthy_value(&number("-0")));
    assert!(is_truthy_value(&number("0.5")));
    assert!(is_truthy_value(&number("NaN")));
    assert!(is_truthy_value(&text("")));
    assert!(is_truthy_value(&Value::Array(vec![])));
}

#[test]
fn numbers_as_text() {
    assert!(equal_numbers(&String::from("1"), &String::from("1")));
    assert!(!equal_numbers(&String::from("1"), &String::from("2")));
    assert!(equal_numbers(&String::from("0"), &String::from("-0")));
    assert!(!equal_numbers(&String::from("NaN"), &String::from("NaN")));
    assert_eq!(negate_number(&String::from("3")), "-3");
    assert_eq!(negate_number(&String::from("-3.5")), "3.5");
    assert_eq!(negate_number(&String::from("NaN")), "NaN");
    assert_eq!(negate_number(&String::from("inf")), "-inf");
    assert_eq!(index_of_number(&String::from("0")), Some(0));
    assert_eq!(index_of_number(&String::from("12")), Some(12));
    assert_eq!(index_of_number(&String::from("12.75")), Some(12));
    assert_eq!(index_of_number(&String::from("-0.5")), Some(0));
    assert_eq!(index_of_number(&String::from("-1")), None);
    assert_eq!(index_of_number(&String::from("NaN")), None);
    assert_eq!(index_of_number(&String::from("inf")), None);
    assert_eq!(index_of_number(&String::from("")), None);
    assert_eq!(index_of_number(&String::from("1x")), None);
    assert_eq!(index_of_number(&String::from("99999999999999999999999999")), None);
    assert_eq!(index_of_number(&usize::MAX.to_string()), Some(usize::MAX));
}

#[test]
fn number_texts_are_those_that_the_host_prints() {
    for good in ["0", "-0", "7", "10", "0.5", "-12.25", "NaN", "inf", "-inf", "100000000000000000000"] {
        assert!(is_number(&String::from(good)), "{}", good);
        assert_eq!(is_number(&String::from(good)), good.parse::<f64>().unwrap().to_string() == good);
    }
    for bad in ["", "-", "0.0", "1.50", "01", "1.", ".5", "+1", "1e5", "--1", "1.2.3", "nan", "-NaN", "1 ", "x"] {
        assert!(!is_number(&String::from(bad)), "{}", bad);
    }
}

#[test]
fn sound_values_have_host_numbers_and_distinct_names() {
    assert!(number("7").is_sound());
    assert!(!number("7.0").is_sound());
    assert!(Value::Array(vec![number("1"), text("0.0")]).is_sound());
    assert!(!Value::Array(vec![number("1"), Value::Array(vec![number("01")])]).is_sound());
    let entry = |k: &str, v: Value| (String::from(k), v);
    assert!(Value::Dictionary(vec![entry("a", number("1")), entry("b", number("1"))]).is_sound());
    assert!(!Value::Dictionary(vec![entry("a", number("1")), entry("a", number("2"))]).is_sound());
    assert!(!Value::Dictionary(vec![entry("a", number("1.0"))]).is_sound());
    assert!(!Value::Class(String::from("C"), vec![entry("m", Value::Nil), entry("m", Value::Nil)])
        .is_sound());
    assert!(Value::Nil.is_sound());
}

#[test]
fn clone_copies_deeply() {
    let value = Value::Dictionary(vec![(
        String::from("a"),
        Value::Array(vec![number("1"), Value::Class(String::from("C"), vec![(String::from("m"), Value::Nil)])]),
    )]);
    assert_eq!(value.clone().to_string(), value.to_string());
    assert_eq!(value.clone().to_string(), "{a: [1, C]}");
}

#[test]
fn promises_are_made_pending_in_the_table() {
    let mut promises: Vec<PromiseState> = Vec::new();
    let first = Value::create_promise(&mut promises, Task::Host(4));
    let second = Value::create_promise(&mut promises, Task::Host(9));
    assert!(matches!(first, Value::Promise(0)));
    assert!(matches!(second, Value::Promise(1)));
    assert!(matches!(promises[1], PromiseState::Pending(Task::Host(9))));
}

#[test]
fn outgoing_text_has_its_escapes_replaced() {
    assert_eq!(unescape("a\\r\\nb"), "a\r\nb");
    assert_eq!(unescape("\\n\\r"), "\n\r");
    assert_eq!(unescape("\\\\n"), "\\\n");
    assert_eq!(unescape("tail\\"), "tail\\");
    assert_eq!(unescape("\\t"), "\\t");
    assert_eq!(unescape(""), "");
}

#[test]
fn write_native_sends_the_unescaped_message() {
    let environment = Environment::new(String::new());
    let write = NativeFunction::new("write", 2, NativeKind::Write);
    match write.call(&vec![Value::Socket(5), text("GET /\\r\\n")], &environment) {
        NativeOutcome::Host(call) => {
            assert_eq!(call.service, Service::Write);
            assert_eq!(call.texts, vec![String::from("GET /\r\n")]);
            assert_eq!(call.handle, 5);
        }
        _ => panic!("no request"),
    }
    match write.call(&vec![Value::TlsSocket(6), text("x")], &environment) {
        NativeOutcome::Host(call) => assert_eq!(call.service, Service::WriteTls),
        _ => panic!("no request"),
    }
    match write.call(&vec![Value::Socket(5), number("1")], &environment) {
        NativeOutcome::Error(error) => {
            assert_eq!(error.to_string(), "[line 1] Error: Invalid argument type.")
        }
        _ => panic!("no error"),
    }
    match write.call(&vec![Value::Nil, text("x")], &environment) {
        NativeOutcome::Error(error) => {
            assert_eq!(error.to_string(), "[line 0] Error: Invalid argument type.")
        }
        _ => panic!("no error"),
    }
}

#[test]
fn network_natives_check_their_arguments() {
    let environment = Environment::new(String::new());
    let connect = NativeFunction::new("connectTLS", 2, NativeKind::ConnectTls);
    match connect.call(&vec![text("example.org"), number("443")], &environment) {
        NativeOutcome::Host(call) => {
            assert_eq!(call.service, Service::ConnectTls);
            assert_eq!(call.texts, vec![String::from("example.org"), String::from("443")]);
        }
        _ => panic!("no request"),
    }
    match connect.call(&vec![text("example.org"), text("443")], &environment) {
        NativeOutcome::Error(error) => {
            assert_eq!(error.to_string(), "[line 1] Error: Invalid argument type.")
        }
        _ => panic!("no error"),
    }
    let accept = NativeFunction::new("accept", 1, NativeKind::Accept);
    match accept.call(&vec![Value::Server(2)], &environment) {
        NativeOutcome::Host(call) => {
            assert_eq!(call.service, Service::Accept);
            assert_eq!(call.handle, 2);
        }
        _ => panic!("no request"),
    }
    let read = NativeFunction::new("read", 1, NativeKind::Read);
    match read.call(&vec![Value::TlsSocket(3)], &environment) {
        NativeOutcome::Host(call) => assert_eq!(call.service, Service::ReadTls),
        _ => panic!("no request"),
    }
    match read.call(&vec![], &environment) {
        NativeOutcome::Error(error) => {
            assert_eq!(error.to_string(), "[line 1] Error: Invalid argument count.")
        }
        _ => panic!("no error"),
    }
}

#[test]
fn native_registered_with_too_few_arguments_fails() {
    let environment = Environment::new(String::new());
    let broken = NativeFunction::new("write", 1, NativeKind::Write);
    match broken.call(&vec![Value::Socket(1)], &environment) {
        NativeOutcome::Error(error) => {
            assert_eq!(error.to_string(), "[line 1] Error: Invalid argument count.")
        }
        _ => panic!("no error"),
    }
}

#[test]
fn runtime_error_texts() {
    let cases: Vec<(RuntimeErrorKind, &str)> = vec![
        (RuntimeErrorKind::InvalidTailCall(1), "[line 1] Error: Invalid Tail Call."),
        (RuntimeErrorKind::InvalidNumber(2), "[line 2] Error: Invalid number."),
        (RuntimeErrorKind::InvalidLiteral(3), "[line 3] Error: Invalid literal."),
        (RuntimeErrorKind::InvalidBinaryOperator(4), "[line 4] Error: Invalid binary operator."),
        (RuntimeErrorKind::InvalidUnaryOperator(5), "[line 5] Error: Invalid unary operator."),
        (
            RuntimeErrorKind::OperandsMustBeNumbersOrStrings(6),
            "[line 6] Error: Operands must be two numbers or two strings.",
        ),
        (RuntimeErrorKind::OperandsMustBeNumber(7), "[line 7] Error: Operand must be a number."),
        (RuntimeErrorKind::InvalidParametsCount(8), "[line 8] Error: Invalid argument count."),
        (
            RuntimeErrorKind::UndefinedVariable(9, String::from("x")),
            "[line 9] Error: Undefined variable x.",
        ),
        (RuntimeErrorKind::UnknownBinaryOperator(10), "[line 10] Error: Unknown binary operator."),
        (RuntimeErrorKind::DivisionByZero(11), "[line 11] Error: Division by zero."),
        (RuntimeErrorKind::UnknownError(12), "[line 12] Error: Unknown error."),
        (RuntimeErrorKind::UnknownExpression(13), "[line 13] Error: Unknown expression."),
        (RuntimeErrorKind::UndefinedFunction(14), "[line 14] Error: Undefined function."),
        (
            RuntimeErrorKind::ExpextedArgument(15, 2, 3),
            "[line 15] Error: Expected 2 arguments but got 3",
        ),
        (RuntimeErrorKind::InvalidCondition(16), "[line 16] Error: Invalid condition."),
        (RuntimeErrorKind::InvalidLogicalOperator(17), "[line 17] Error: Invalid logical operator."),
        (RuntimeErrorKind::InvalidReturnValue(18), "[line 18] Error: Invalid return value."),
        (RuntimeErrorKind::InvalidArgumentType(19), "[line 19] Error: Invalid argument type."),
        (RuntimeErrorKind::RuntimeError(20, String::from("boom")), "[line 20] Error: boom"),
        (
            RuntimeErrorKind::InvalidImport(21, String::from("m")),
            "[line 21] Error: Invalid import module 'm'",
        ),
        (RuntimeErrorKind::InvalidClassMethod(22), "[line 22] Error: Invalid class method."),
        (RuntimeErrorKind::InvalidDictionaryKey(23), "[line 23] Error: Invalid dictionary key."),
        (RuntimeErrorKind::InvalidSet(24), "[line 24] Error: Invalid set."),
        (RuntimeErrorKind::InvalidGet(25), "[line 25] Error: Invalid get."),
        (RuntimeErrorKind::IoError(String::from("disk")), "IO Error: disk"),
        (RuntimeErrorKind::InvalidCall(26), "[line 26] Error: Invalid call."),
        (
            RuntimeErrorKind::Return(Value::Function(String::from("f"), vec![], 0)),
            "Return unwind the call stack: <fn f>",
        ),
        (RuntimeErrorKind::AssertionFailed, "Error: Assertion failed."),
        (RuntimeErrorKind::PromiseRejected(27), "[line 27] Error: Promise rejected."),
    ];
    for (error, expected) in cases {
        assert_eq!(error.clone().to_string(), expected);
        assert_eq!(InterpreterError::runtime_error(error).to_string(), expected);
    }
    assert_eq!(
        RuntimeErrorKind::at(Failure::InvalidGet, 1234567890).to_string(),
        "[line 1234567890] Error: Invalid get."
    );
    assert_eq!(
        InterpreterError::unknown_error(UnknownErrorKind::UnknownError).to_string(),
        "UnknownError: UnknownError"
    );
}

#[test]
fn diagnostic_is_made_of_message_and_line() {
    let kind = InterpreterKind::new(String::from("note"), 3);
    assert_eq!(format!("{:?}", kind), "InterpreterKind { message: \"note\", line: 3 }");
}
