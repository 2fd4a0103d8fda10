//! The natives of the root environment: which names there are, and what
//! each does with its arguments before the host is asked for anything.

use vstd::prelude::*;

use crate::error::{Failure, InterpreterError, InterpreterErrorView, RuntimeErrorKind, RuntimeErrorView};
use crate::interpreter::environment::{
    defined_native,
    values_equal,
    Environment,
    ScopeView,
    EQUALITY_DEPTH,
};
use crate::interpreter::native::{
    host_call,
    HostCall,
    NativeFunction,
    NativeFunctionView,
    NativeKind,
    NativeOutcome,
    NativeOutcomeView,
    Service,
};
use crate::interpreter::value::{
    index_of_number,
    is_truthy_value,
    lemma_value_views_push,
    number_index,
    number_is_zero,
    type_text,
    value_text,
    value_views,
    TextStyle,
    Value,
    ValueView,
};
use crate::text::{decimal, decimal_text, text_of, to_chars};

verus! {

// ---------------------------------------------------------------------------
// Escapes of outgoing text
// ---------------------------------------------------------------------------

/// `s[from..]` with each two-character sequence of a backslash and `n`
/// turned into a line feed, and each of a backslash and `r` into a carriage
/// return.
pub open spec fn unescaped(s: Seq<char>, from: int) -> Seq<char>
    decreases s.len() - from,
{
    if from < 0 || from >= s.len() {
        Seq::empty()
    } else if s[from] == '\\' && from + 1 < s.len() && s[from + 1] == 'n' {
        seq!['\n'] + unescaped(s, from + 2)
    } else if s[from] == '\\' && from + 1 < s.len() && s[from + 1] == 'r' {
        seq!['\r'] + unescaped(s, from + 2)
    } else {
        seq![s[from]] + unescaped(s, from + 1)
    }
}

/// The text that goes out for `message`.
pub fn unescape(message: &str) -> (text: String)
    ensures
        text@ == unescaped(message@, 0),
{
    let chars = to_chars(message);
    let ghost s = message@;
    let mut text = String::new();
    let mut i: usize = 0;
    while i < chars.len()
        invariant
            chars@ == s,
            i <= chars.len(),
            text@ + unescaped(s, i as int) == unescaped(s, 0),
        decreases chars.len() - i,
    {
        let ghost before = text@;
        if chars[i] == '\\' && i + 1 < chars.len() && chars[i + 1] == 'n' {
            text.push('\n');
            assert(text@ + unescaped(s, i + 2) =~= before + unescaped(s, i as int));
            i += 2;
        } else if chars[i] == '\\' && i + 1 < chars.len() && chars[i + 1] == 'r' {
            text.push('\r');
            assert(text@ + unescaped(s, i + 2) =~= before + unescaped(s, i as int));
            i += 2;
        } else {
            text.push(chars[i]);
            assert(text@ + unescaped(s, i + 1) =~= before + unescaped(s, i as int));
            i += 1;
        }
    }
    assert(text@ + Seq::<char>::empty() =~= text@);
    text
}

// ---------------------------------------------------------------------------
// What each native does
// ---------------------------------------------------------------------------

pub open spec fn bad_argument(position: usize) -> NativeOutcomeView {
    NativeOutcomeView::Error(
        InterpreterErrorView::RuntimeError(
            RuntimeErrorView::At(Failure::InvalidArgumentType, position),
        ),
    )
}

/// A request that carries one number.
pub open spec fn of_number(service: Service, value: ValueView) -> NativeOutcomeView {
    match value {
        ValueView::Number(text) => NativeOutcomeView::Host(host_call(service, seq![text], 0)),
        _ => bad_argument(0),
    }
}

/// A request that carries one string.
pub open spec fn of_string(service: Service, value: ValueView) -> NativeOutcomeView {
    match value {
        ValueView::String(text) => NativeOutcomeView::Host(host_call(service, seq![text], 0)),
        _ => bad_argument(0),
    }
}

/// What `toBool` gives.
pub open spec fn as_boolean(value: ValueView) -> bool {
    match value {
        ValueView::Boolean(b) => b,
        ValueView::Number(text) => !number_is_zero(text),
        ValueView::String(text) => text.len() != 0,
        ValueView::Nil => false,
        _ => true,
    }
}

/// The number `n` as a value.
pub open spec fn count_value(n: nat) -> ValueView {
    ValueView::Number(decimal_text(n))
}

/// What the native does with arguments of the right number.
pub open spec fn native_result(kind: NativeKind, args: Seq<ValueView>, scopes: Seq<ScopeView>)
    -> NativeOutcomeView {
    match kind {
        NativeKind::Exit => of_number(Service::Exit, args[0]),
        NativeKind::Random => NativeOutcomeView::Host(
            host_call(Service::Random, Seq::empty(), 0),
        ),
        NativeKind::Clock => NativeOutcomeView::Host(host_call(Service::Clock, Seq::empty(), 0)),
        NativeKind::TypeOf => NativeOutcomeView::Value(ValueView::String(type_text(args[0]))),
        NativeKind::Assert => if values_equal(scopes, args[0], args[1], EQUALITY_DEPTH as nat) {
            NativeOutcomeView::Value(ValueView::Nil)
        } else {
            NativeOutcomeView::Error(
                InterpreterErrorView::RuntimeError(RuntimeErrorView::AssertionFailed),
            )
        },
        NativeKind::Print => NativeOutcomeView::Host(
            host_call(Service::Print, seq![value_text(args[0], TextStyle::Printed)], 0),
        ),
        NativeKind::Input => NativeOutcomeView::Host(host_call(Service::Input, Seq::empty(), 0)),
        NativeKind::Einput => of_string(Service::Einput, args[0]),
        NativeKind::ReadFile => of_string(Service::ReadFile, args[0]),
        NativeKind::WriteFile => match (args[0], args[1]) {
            (ValueView::String(path), ValueView::String(contents)) => NativeOutcomeView::Host(
                host_call(Service::WriteFile, seq![path, contents], 0),
            ),
            _ => bad_argument(0),
        },
        NativeKind::AppendFile => match (args[0], args[1]) {
            (ValueView::String(path), ValueView::String(contents)) => NativeOutcomeView::Host(
                host_call(Service::AppendFile, seq![path, contents], 0),
            ),
            _ => bad_argument(0),
        },
        NativeKind::ToString => NativeOutcomeView::Value(
            ValueView::String(value_text(args[0], TextStyle::Converted)),
        ),
        NativeKind::ToNumber => match args[0] {
            ValueView::Number(text) => NativeOutcomeView::Value(ValueView::Number(text)),
            ValueView::String(text) => NativeOutcomeView::Host(
                host_call(Service::ToNumber, seq![text], 0),
            ),
            ValueView::Boolean(b) => NativeOutcomeView::Value(
                ValueView::Number(
                    if b {
                        "1"@
                    } else {
                        "0"@
                    },
                ),
            ),
            _ => bad_argument(0),
        },
        NativeKind::ToBool => NativeOutcomeView::Value(ValueView::Boolean(as_boolean(args[0]))),
        NativeKind::Sqrt => of_number(Service::Sqrt, args[0]),
        NativeKind::Abs => of_number(Service::Abs, args[0]),
        NativeKind::Round => of_number(Service::Round, args[0]),
        NativeKind::Floor => of_number(Service::Floor, args[0]),
        NativeKind::Ceil => of_number(Service::Ceil, args[0]),
        NativeKind::Pow => match (args[0], args[1]) {
            (ValueView::Number(base), ValueView::Number(exponent)) => NativeOutcomeView::Host(
                host_call(Service::Pow, seq![base, exponent], 0),
            ),
            _ => bad_argument(0),
        },
        NativeKind::Len => match args[0] {
            ValueView::String(text) => NativeOutcomeView::Value(count_value(text.len())),
            ValueView::Array(items) => NativeOutcomeView::Value(count_value(items.len())),
            ValueView::Dictionary(entries) => NativeOutcomeView::Value(
                count_value(entries.len()),
            ),
            _ => bad_argument(0),
        },
        NativeKind::Concat => match (args[0], args[1]) {
            (ValueView::String(first), ValueView::String(second)) => NativeOutcomeView::Value(
                ValueView::String(first + second),
            ),
            (ValueView::Array(first), ValueView::Array(second)) => NativeOutcomeView::Value(
                ValueView::Array(first + second),
            ),
            _ => bad_argument(0),
        },
        NativeKind::Substring => match (args[0], args[1], args[2]) {
            (ValueView::String(text), ValueView::Number(start), ValueView::Number(end)) => {
                match (number_index(start), number_index(end)) {
                    (Some(from), Some(to)) => if from <= to <= text.len() {
                        NativeOutcomeView::Value(
                            ValueView::String(text.subrange(from as int, to as int)),
                        )
                    } else {
                        bad_argument(0)
                    },
                    _ => bad_argument(0),
                }
            },
            _ => bad_argument(0),
        },
        NativeKind::Delay => of_number(Service::Delay, args[0]),
        NativeKind::Listen => of_number(Service::Listen, args[0]),
        NativeKind::Connect => match (args[0], args[1]) {
            (ValueView::String(address), ValueView::Number(port)) => NativeOutcomeView::Host(
                host_call(Service::Connect, seq![address, port], 0),
            ),
            _ => bad_argument(0),
        },
        NativeKind::ConnectTls => match (args[0], args[1]) {
            (ValueView::String(address), ValueView::Number(port)) => NativeOutcomeView::Host(
                host_call(Service::ConnectTls, seq![address, port], 0),
            ),
            (ValueView::String(_), _) => bad_argument(1),
            _ => bad_argument(0),
        },
        NativeKind::Accept => match args[0] {
            ValueView::Server(server) => NativeOutcomeView::Host(
                host_call(Service::Accept, Seq::empty(), server),
            ),
            _ => bad_argument(0),
        },
        NativeKind::Read => match args[0] {
            ValueView::Socket(socket) => NativeOutcomeView::Host(
                host_call(Service::Read, Seq::empty(), socket),
            ),
            ValueView::TlsSocket(socket) => NativeOutcomeView::Host(
                host_call(Service::ReadTls, Seq::empty(), socket),
            ),
            _ => bad_argument(0),
        },
        NativeKind::Write => match (args[0], args[1]) {
            (ValueView::Socket(socket), ValueView::String(message)) => NativeOutcomeView::Host(
                host_call(Service::Write, seq![unescaped(message, 0)], socket),
            ),
            (ValueView::TlsSocket(socket), ValueView::String(message)) => NativeOutcomeView::Host(
                host_call(Service::WriteTls, seq![unescaped(message, 0)], socket),
            ),
            (ValueView::Socket(_), _) => bad_argument(1),
            (ValueView::TlsSocket(_), _) => bad_argument(1),
            _ => bad_argument(0),
        },
    }
}

/// How many arguments the native of each kind takes.
pub open spec fn native_arity(kind: NativeKind) -> usize {
    match kind {
        NativeKind::Random | NativeKind::Clock | NativeKind::Input => 0,
        NativeKind::Assert | NativeKind::WriteFile | NativeKind::AppendFile | NativeKind::Pow
        | NativeKind::Concat | NativeKind::Connect | NativeKind::ConnectTls
        | NativeKind::Write => 2,
        NativeKind::Substring => 3,
        _ => 1,
    }
}

/// How the call of `native` with `args` ends. A native called with another
/// number of arguments than its own, or registered with fewer than its kind
/// reads, fails with that number and asks for nothing.
pub open spec fn native_outcome(
    native: NativeFunctionView,
    args: Seq<ValueView>,
    scopes: Seq<ScopeView>,
) -> NativeOutcomeView {
    if args.len() != native.arity || native.arity < native_arity(native.func) {
        NativeOutcomeView::Error(
            InterpreterErrorView::RuntimeError(
                RuntimeErrorView::At(Failure::InvalidParametsCount, native.arity),
            ),
        )
    } else {
        native_result(native.func, args, scopes)
    }
}

fn arity_of(kind: NativeKind) -> (arity: usize)
    ensures
        arity == native_arity(kind),
{
    match kind {
        NativeKind::Random | NativeKind::Clock | NativeKind::Input => 0,
        NativeKind::Assert | NativeKind::WriteFile | NativeKind::AppendFile | NativeKind::Pow
        | NativeKind::Concat | NativeKind::Connect | NativeKind::ConnectTls
        | NativeKind::Write => 2,
        NativeKind::Substring => 3,
        _ => 1,
    }
}

fn wrong_argument(position: usize) -> (outcome: NativeOutcome)
    ensures
        outcome@ == bad_argument(position),
{
    NativeOutcome::Error(
        InterpreterError::runtime_error(RuntimeErrorKind::InvalidArgumentType(position)),
    )
}

fn ask_number(service: Service, value: &Value) -> (outcome: NativeOutcome)
    ensures
        outcome@ == of_number(service, value@),
{
    match value {
        Value::Number(text) => NativeOutcome::Host(HostCall::with_text(service, text.clone(), 0)),
        _ => wrong_argument(0),
    }
}

fn ask_string(service: Service, value: &Value) -> (outcome: NativeOutcome)
    ensures
        outcome@ == of_string(service, value@),
{
    match value {
        Value::String(text) => NativeOutcome::Host(HostCall::with_text(service, text.clone(), 0)),
        _ => wrong_argument(0),
    }
}

fn ask_texts(service: Service, first: &String, second: &String) -> (outcome: NativeOutcome)
    ensures
        outcome@ == NativeOutcomeView::Host(host_call(service, seq![first@, second@], 0)),
{
    NativeOutcome::Host(HostCall::with_texts(service, first.clone(), second.clone(), 0))
}

fn count(n: usize) -> (outcome: NativeOutcome)
    ensures
        outcome@ == NativeOutcomeView::Value(count_value(n as nat)),
{
    NativeOutcome::Value(Value::Number(decimal(n)))
}

fn to_boolean(value: &Value) -> (b: bool)
    ensures
        b == as_boolean(value@),
{
    match value {
        Value::Boolean(b) => *b,
        Value::String(text) => text.as_str().unicode_len() != 0,
        Value::Number(_) => is_truthy_value(value),
        Value::Nil => false,
        _ => true,
    }
}

/// The items of `first` followed by those of `second`.
fn joined(first: &Vec<Value>, second: &Vec<Value>) -> (all: Vec<Value>)
    ensures
        value_views(all@) == value_views(first@) + value_views(second@),
{
    let mut all: Vec<Value> = Vec::new();
    let mut i: usize = 0;
    assert(value_views(all@) =~= value_views(first@).take(0));
    while i < first.len()
        invariant
            i <= first.len(),
            value_views(all@) == value_views(first@).take(i as int),
        decreases first.len() - i,
    {
        let ghost before = all@;
        let item = first[i].clone();
        all.push(item);
        proof {
            lemma_value_views_push(before, item);
            assert(value_views(first@).take(i + 1) =~= value_views(first@).take(i as int).push(
                first@[i as int]@,
            ));
        }
        i += 1;
    }
    assert(value_views(first@).take(i as int) =~= value_views(first@));
    let mut j: usize = 0;
    assert(value_views(all@) =~= value_views(first@) + value_views(second@).take(0));
    while j < second.len()
        invariant
            j <= second.len(),
            value_views(all@) == value_views(first@) + value_views(second@).take(j as int),
        decreases second.len() - j,
    {
        let ghost before = all@;
        let item = second[j].clone();
        all.push(item);
        proof {
            lemma_value_views_push(before, item);
            assert(value_views(first@) + value_views(second@).take(j + 1) =~= (value_views(first@)
                + value_views(second@).take(j as int)).push(second@[j as int]@));
        }
        j += 1;
    }
    assert(value_views(second@).take(j as int) =~= value_views(second@));
    all
}

/// Calls `native` with `args`.
pub fn invoke(native: &NativeFunction, args: &Vec<Value>, environment: &Environment) -> (outcome:
    NativeOutcome)
    requires
        environment.wf(),
    ensures
        outcome@ == native_outcome(native@, value_views(args@), environment@),
{
    let ghost views = value_views(args@);
    if args.len() != native.arity || native.arity < arity_of(native.func) {
        return NativeOutcome::Error(
            InterpreterError::runtime_error(RuntimeErrorKind::InvalidParametsCount(native.arity)),
        );
    }
    proof {
        assert(views.len() == args@.len());
        assert(forall|i: int| 0 <= i < args@.len() ==> views[i] == args@[i]@);
    }
    match native.func {
        NativeKind::Exit => ask_number(Service::Exit, &args[0]),
        NativeKind::Random => NativeOutcome::Host(HostCall::plain(Service::Random, 0)),
        NativeKind::Clock => NativeOutcome::Host(HostCall::plain(Service::Clock, 0)),
        NativeKind::TypeOf => NativeOutcome::Value(Value::String(args[0].get_type())),
        NativeKind::Assert => if environment.equal(&args[0], &args[1], EQUALITY_DEPTH) {
            NativeOutcome::Value(Value::Nil)
        } else {
            NativeOutcome::Error(InterpreterError::runtime_error(RuntimeErrorKind::AssertionFailed))
        },
        NativeKind::Print => NativeOutcome::Host(
            HostCall::with_text(Service::Print, args[0].render(TextStyle::Printed), 0),
        ),
        NativeKind::Input => NativeOutcome::Host(HostCall::plain(Service::Input, 0)),
        NativeKind::Einput => ask_string(Service::Einput, &args[0]),
        NativeKind::ReadFile => ask_string(Service::ReadFile, &args[0]),
        NativeKind::WriteFile => match (&args[0], &args[1]) {
            (Value::String(path), Value::String(contents)) => ask_texts(
                Service::WriteFile,
                path,
                contents,
            ),
            _ => wrong_argument(0),
        },
        NativeKind::AppendFile => match (&args[0], &args[1]) {
            (Value::String(path), Value::String(contents)) => ask_texts(
                Service::AppendFile,
                path,
                contents,
            ),
            _ => wrong_argument(0),
        },
        NativeKind::ToString => NativeOutcome::Value(
            Value::String(args[0].render(TextStyle::Converted)),
        ),
        NativeKind::ToNumber => match &args[0] {
            Value::Number(text) => NativeOutcome::Value(Value::Number(text.clone())),
            Value::String(text) => NativeOutcome::Host(
                HostCall::with_text(Service::ToNumber, text.clone(), 0),
            ),
            Value::Boolean(b) => NativeOutcome::Value(
                Value::Number(
                    if *b {
                        String::from_str("1")
                    } else {
                        String::from_str("0")
                    },
                ),
            ),
            _ => wrong_argument(0),
        },
        NativeKind::ToBool => NativeOutcome::Value(Value::Boolean(to_boolean(&args[0]))),
        NativeKind::Sqrt => ask_number(Service::Sqrt, &args[0]),
        NativeKind::Abs => ask_number(Service::Abs, &args[0]),
        NativeKind::Round => ask_number(Service::Round, &args[0]),
        NativeKind::Floor => ask_number(Service::Floor, &args[0]),
        NativeKind::Ceil => ask_number(Service::Ceil, &args[0]),
        NativeKind::Pow => match (&args[0], &args[1]) {
            (Value::Number(base), Value::Number(exponent)) => ask_texts(
                Service::Pow,
                base,
                exponent,
            ),
            _ => wrong_argument(0),
        },
        NativeKind::Len => match &args[0] {
            Value::String(text) => count(text.as_str().unicode_len()),
            Value::Array(items) => {
                assert(value_views(items@).len() == items@.len());
                count(items.len())
            },
            Value::Dictionary(entries) => {
                assert(crate::interpreter::value::entry_views(entries@).len() == entries@.len());
                count(entries.len())
            },
            _ => wrong_argument(0),
        },
        NativeKind::Concat => match (&args[0], &args[1]) {
            (Value::String(first), Value::String(second)) => {
                let mut text = first.clone();
                text.append(second.as_str());
                NativeOutcome::Value(Value::String(text))
            },
            (Value::Array(first), Value::Array(second)) => NativeOutcome::Value(
                Value::Array(joined(first, second)),
            ),
            _ => wrong_argument(0),
        },
        NativeKind::Substring => match (&args[0], &args[1], &args[2]) {
            (Value::String(text), Value::Number(start), Value::Number(end)) => {
                match (index_of_number(start), index_of_number(end)) {
                    (Some(from), Some(to)) => {
                        let chars = to_chars(text.as_str());
                        if from <= to && to <= chars.len() {
                            NativeOutcome::Value(Value::String(text_of(&chars, from, to)))
                        } else {
                            wrong_argument(0)
                        }
                    },
                    _ => wrong_argument(0),
                }
            },
            _ => wrong_argument(0),
        },
        NativeKind::Delay => ask_number(Service::Delay, &args[0]),
        NativeKind::Listen => ask_number(Service::Listen, &args[0]),
        NativeKind::Connect => match (&args[0], &args[1]) {
            (Value::String(address), Value::Number(port)) => ask_texts(
                Service::Connect,
                address,
                port,
            ),
            _ => wrong_argument(0),
        },
        NativeKind::ConnectTls => match (&args[0], &args[1]) {
            (Value::String(address), Value::Number(port)) => ask_texts(
                Service::ConnectTls,
                address,
                port,
            ),
            (Value::String(_), _) => wrong_argument(1),
            _ => wrong_argument(0),
        },
        NativeKind::Accept => match &args[0] {
            Value::Server(server) => NativeOutcome::Host(HostCall::plain(Service::Accept, *server)),
            _ => wrong_argument(0),
        },
        NativeKind::Read => match &args[0] {
            Value::Socket(socket) => NativeOutcome::Host(HostCall::plain(Service::Read, *socket)),
            Value::TlsSocket(socket) => NativeOutcome::Host(
                HostCall::plain(Service::ReadTls, *socket),
            ),
            _ => wrong_argument(0),
        },
        NativeKind::Write => match (&args[0], &args[1]) {
            (Value::Socket(socket), Value::String(message)) => NativeOutcome::Host(
                HostCall::with_text(Service::Write, unescape(message.as_str()), *socket),
            ),
            (Value::TlsSocket(socket), Value::String(message)) => NativeOutcome::Host(
                HostCall::with_text(Service::WriteTls, unescape(message.as_str()), *socket),
            ),
            (Value::Socket(_), _) => wrong_argument(1),
            (Value::TlsSocket(_), _) => wrong_argument(1),
            _ => wrong_argument(0),
        },
    }
}

// ---------------------------------------------------------------------------
// The names of the root environment
// ---------------------------------------------------------------------------

/// The scopes after `name` was bound in `scope` to the native of `kind`.
pub open spec fn with_native(scopes: Seq<ScopeView>, scope: int, name: Seq<char>, kind: NativeKind)
    -> Seq<ScopeView> {
    defined_native(
        scopes,
        scope,
        name,
        ValueView::NativeFunction(
            NativeFunctionView { name, arity: native_arity(kind), func: kind },
        ),
    )
}

pub open spec fn with_system_functions(scopes: Seq<ScopeView>, scope: int) -> Seq<ScopeView> {
    let s1 = with_native(scopes, scope, "exit"@, NativeKind::Exit);
    let s2 = with_native(s1, scope, "random"@, NativeKind::Random);
    let s3 = with_native(s2, scope, "clock"@, NativeKind::Clock);
    let s4 = with_native(s3, scope, "typeOf"@, NativeKind::TypeOf);
    with_native(s4, scope, "assert"@, NativeKind::Assert)
}

pub open spec fn with_io_functions(scopes: Seq<ScopeView>, scope: int) -> Seq<ScopeView> {
    let s1 = with_native(scopes, scope, "readFile"@, NativeKind::ReadFile);
    let s2 = with_native(s1, scope, "writeFile"@, NativeKind::WriteFile);
    let s3 = with_native(s2, scope, "appendFile"@, NativeKind::AppendFile);
    let s4 = with_native(s3, scope, "print"@, NativeKind::Print);
    let s5 = with_native(s4, scope, "input"@, NativeKind::Input);
    with_native(s5, scope, "einput"@, NativeKind::Einput)
}

pub open spec fn with_conversion_functions(scopes: Seq<ScopeView>, scope: int) -> Seq<ScopeView> {
    let s1 = with_native(scopes, scope, "toString"@, NativeKind::ToString);
    let s2 = with_native(s1, scope, "toNumber"@, NativeKind::ToNumber);
    with_native(s2, scope, "toBool"@, NativeKind::ToBool)
}

pub open spec fn with_math_functions(scopes: Seq<ScopeView>, scope: int) -> Seq<ScopeView> {
    let s1 = with_native(scopes, scope, "sqrt"@, NativeKind::Sqrt);
    let s2 = with_native(s1, scope, "pow"@, NativeKind::Pow);
    let s3 = with_native(s2, scope, "abs"@, NativeKind::Abs);
    let s4 = with_native(s3, scope, "round"@, NativeKind::Round);
    let s5 = with_native(s4, scope, "floor"@, NativeKind::Floor);
    let s6 = with_native(s5, scope, "ceil"@, NativeKind::Ceil);
    let s7 = with_native(s6, scope, "len"@, NativeKind::Len);
    let s8 = with_native(s7, scope, "concat"@, NativeKind::Concat);
    with_native(s8, scope, "substring"@, NativeKind::Substring)
}

pub open spec fn with_async_functions(scopes: Seq<ScopeView>, scope: int) -> Seq<ScopeView> {
    with_native(scopes, scope, "delay"@, NativeKind::Delay)
}

pub open spec fn with_network_functions(scopes: Seq<ScopeView>, scope: int) -> Seq<ScopeView> {
    let s1 = with_native(scopes, scope, "listen"@, NativeKind::Listen);
    let s2 = with_native(s1, scope, "connect"@, NativeKind::Connect);
    let s3 = with_native(s2, scope, "connectTLS"@, NativeKind::ConnectTls);
    let s4 = with_native(s3, scope, "accept"@, NativeKind::Accept);
    let s5 = with_native(s4, scope, "write"@, NativeKind::Write);
    with_native(s5, scope, "read"@, NativeKind::Read)
}

/// The scopes after every native was bound in `scope`.
pub open spec fn with_native_functions(scopes: Seq<ScopeView>, scope: int) -> Seq<ScopeView> {
    with_network_functions(
        with_async_functions(
            with_math_functions(
                with_conversion_functions(
                    with_io_functions(with_system_functions(scopes, scope), scope),
                    scope,
                ),
                scope,
            ),
            scope,
        ),
        scope,
    )
}

impl Environment {
    fn register(&mut self, scope: usize, name: &str, kind: NativeKind)
        requires
            old(self).wf(),
        ensures
            final(self).wf(),
            final(self)@ == with_native(old(self)@, scope as int, name@, kind),
    {
        self.define_native(scope, name, arity_of(kind), kind);
    }

    /// Binds every native in `scope`.
    pub fn register_native_functions(&mut self, scope: usize)
        requires
            old(self).wf(),
        ensures
            final(self).wf(),
            final(self)@ == with_native_functions(old(self)@, scope as int),
    {
        self.register_system_functions(scope);
        self.register_io_functions(scope);
        self.register_conversion_functions(scope);
        self.register_math_functions(scope);
        self.register_async_functions(scope);
        self.register_network_functions(scope);
    }

    fn register_system_functions(&mut self, scope: usize)
        requires
            old(self).wf(),
        ensures
            final(self).wf(),
            final(self)@ == with_system_functions(old(self)@, scope as int),
    {
        self.register(scope, "exit", NativeKind::Exit);
        self.register(scope, "random", NativeKind::Random);
        self.register(scope, "clock", NativeKind::Clock);
        self.register(scope, "typeOf", NativeKind::TypeOf);
        self.register(scope, "assert", NativeKind::Assert);
    }

    fn register_io_functions(&mut self, scope: usize)
        requires
            old(self).wf(),
        ensures
            final(self).wf(),
            final(self)@ == with_io_functions(old(self)@, scope as int),
    {
        self.register(scope, "readFile", NativeKind::ReadFile);
        self.register(scope, "writeFile", NativeKind::WriteFile);
        self.register(scope, "appendFile", NativeKind::AppendFile);
        self.register(scope, "print", NativeKind::Print);
        self.register(scope, "input", NativeKind::Input);
        self.register(scope, "einput", NativeKind::Einput);
    }

    fn register_conversion_functions(&mut self, scope: usize)
        requires
            old(self).wf(),
        ensures
            final(self).wf(),
            final(self)@ == with_conversion_functions(old(self)@, scope as int),
    {
        self.register(scope, "toString", NativeKind::ToString);
        self.register(scope, "toNumber", NativeKind::ToNumber);
        self.register(scope, "toBool", NativeKind::ToBool);
    }

    fn register_math_functions(&mut self, scope: usize)
        requires
            old(self).wf(),
        ensures
            final(self).wf(),
            final(self)@ == with_math_functions(old(self)@, scope as int),
    {
        self.register(scope, "sqrt", NativeKind::Sqrt);
        self.register(scope, "pow", NativeKind::Pow);
        self.register(scope, "abs", NativeKind::Abs);
        self.register(scope, "round", NativeKind::Round);
        self.register(scope, "floor", NativeKind::Floor);
        self.register(scope, "ceil", NativeKind::Ceil);
        self.register(scope, "len", NativeKind::Len);
        self.register(scope, "concat", NativeKind::Concat);
        self.register(scope, "substring", NativeKind::Substring);
    }

    fn register_async_functions(&mut self, scope: usize)
        requires
            old(self).wf(),
        ensures
            final(self).wf(),
            final(self)@ == with_async_functions(old(self)@, scope as int),
    {
        self.register(scope, "delay", NativeKind::Delay);
    }

    fn register_network_functions(&mut self, scope: usize)
        requires
            old(self).wf(),
        ensures
            final(self).wf(),
            final(self)@ == with_network_functions(old(self)@, scope as int),
    {
        self.register(scope, "listen", NativeKind::Listen);
        self.register(scope, "connect", NativeKind::Connect);
        self.register(scope, "connectTLS", NativeKind::ConnectTls);
        self.register(scope, "accept", NativeKind::Accept);
        self.register(scope, "write", NativeKind::Write);
        self.register(scope, "read", NativeKind::Read);
    }
}

} // verus!
