//! Host-provided functions: a name, a fixed number of arguments, and which
//! intrinsic the name stands for.

use vstd::prelude::*;

use crate::error::{InterpreterError, InterpreterErrorView};
use crate::interpreter::environment::Environment;
use crate::interpreter::native_functions::{invoke, native_outcome};
use crate::interpreter::value::{copy_texts, text_views, value_views, Value, ValueView};

verus! {

/// What the host can be asked to do: the arithmetic of floats, input and
/// output, timers, sockets, and finding and reading the file of a module.
#[derive(Debug, Clone, Copy, PartialEq, Eq, Structural)]
pub enum Service {
    ParseNumber,
    Add,
    Subtract,
    Multiply,
    Divide,
    Remainder,
    Greater,
    GreaterEqual,
    Less,
    LessEqual,
    Sqrt,
    Pow,
    Abs,
    Round,
    Floor,
    Ceil,
    ToNumber,
    Exit,
    Random,
    Clock,
    Print,
    Input,
    Einput,
    ReadFile,
    WriteFile,
    AppendFile,
    Delay,
    Listen,
    Connect,
    ConnectTls,
    Accept,
    Read,
    ReadTls,
    Write,
    WriteTls,
    AwaitTask,
    ResolveModule,
    LoadModule,
}

/// A request to the host: the service, its text arguments in order, and the
/// handle or line that the service concerns.
#[derive(Debug)]
pub struct HostCall {
    pub service: Service,
    pub texts: Vec<String>,
    pub handle: usize,
}

pub struct HostCallView {
    pub service: Service,
    pub texts: Seq<Seq<char>>,
    pub handle: usize,
}

impl View for HostCall {
    type V = HostCallView;

    open spec fn view(&self) -> HostCallView {
        HostCallView { service: self.service, texts: text_views(self.texts@), handle: self.handle }
    }
}

impl Clone for HostCall {
    fn clone(&self) -> (copy: Self)
        ensures
            copy@ == self@,
    {
        HostCall { service: self.service, texts: copy_texts(&self.texts), handle: self.handle }
    }
}

pub open spec fn host_call(service: Service, texts: Seq<Seq<char>>, handle: usize)
    -> HostCallView {
    HostCallView { service, texts, handle }
}

impl HostCall {
    /// A request without text.
    pub fn plain(service: Service, handle: usize) -> (call: Self)
        ensures
            call@ == host_call(service, Seq::empty(), handle),
    {
        let call = HostCall { service, texts: Vec::new(), handle };
        assert(call@.texts =~= Seq::empty());
        call
    }

    /// A request with one text.
    pub fn with_text(service: Service, text: String, handle: usize) -> (call: Self)
        ensures
            call@ == host_call(service, seq![text@], handle),
    {
        let mut texts: Vec<String> = Vec::new();
        texts.push(text);
        let call = HostCall { service, texts, handle };
        assert(call@.texts =~= seq![text@]);
        call
    }

    /// A request with two texts.
    pub fn with_texts(service: Service, first: String, second: String, handle: usize) -> (call:
        Self)
        ensures
            call@ == host_call(service, seq![first@, second@], handle),
    {
        let mut texts: Vec<String> = Vec::new();
        texts.push(first);
        texts.push(second);
        let call = HostCall { service, texts, handle };
        assert(call@.texts =~= seq![first@, second@]);
        call
    }
}

/// How the call of a native ends: with a value, with an error, or with a
/// request that the host has to answer.
#[derive(Debug)]
pub enum NativeOutcome {
    Value(Value),
    Error(InterpreterError),
    Host(HostCall),
}

pub enum NativeOutcomeView {
    Value(ValueView),
    Error(InterpreterErrorView),
    Host(HostCallView),
}

impl View for NativeOutcome {
    type V = NativeOutcomeView;

    open spec fn view(&self) -> NativeOutcomeView {
        match self {
            NativeOutcome::Value(value) => NativeOutcomeView::Value(value@),
            NativeOutcome::Error(error) => NativeOutcomeView::Error(error@),
            NativeOutcome::Host(call) => NativeOutcomeView::Host(call@),
        }
    }
}

/// The intrinsics of the root environment.
#[derive(Debug, Clone, Copy, PartialEq, Eq, Structural)]
pub enum NativeKind {
    Exit,
    Random,
    Clock,
    TypeOf,
    Assert,
    Print,
    Input,
    Einput,
    ReadFile,
    WriteFile,
    AppendFile,
    ToString,
    ToNumber,
    ToBool,
    Sqrt,
    Pow,
    Abs,
    Round,
    Floor,
    Ceil,
    Len,
    Concat,
    Substring,
    Delay,
    Listen,
    Connect,
    ConnectTls,
    Accept,
    Read,
    Write,
}

#[derive(Debug)]
pub struct NativeFunction {
    pub name: String,
    pub arity: usize,
    pub func: NativeKind,
}

pub struct NativeFunctionView {
    pub name: Seq<char>,
    pub arity: usize,
    pub func: NativeKind,
}

impl View for NativeFunction {
    type V = NativeFunctionView;

    open spec fn view(&self) -> NativeFunctionView {
        NativeFunctionView { name: self.name@, arity: self.arity, func: self.func }
    }
}

impl Clone for NativeFunction {
    fn clone(&self) -> (copy: Self)
        ensures
            copy@ == self@,
    {
        NativeFunction { name: self.name.clone(), arity: self.arity, func: self.func }
    }
}

impl NativeFunction {
    pub fn new(name: &str, arity: usize, func: NativeKind) -> (native: Self)
        ensures
            native@ == (NativeFunctionView { name: name@, arity, func }),
    {
        NativeFunction { name: String::from_str(name), arity, func }
    }

    /// Calls the native with `args`: what it computes itself, or what it
    /// asks of the host once the arguments are of the right number and kind.
    /// Two values are compared as the scopes of `environment` have them.
    pub fn call(&self, args: &Vec<Value>, environment: &Environment) -> (outcome: NativeOutcome)
        requires
            environment.wf(),
        ensures
            outcome@ == native_outcome(self@, value_views(args@), environment@),
    {
        invoke(self, args, environment)
    }
}

} // verus!
