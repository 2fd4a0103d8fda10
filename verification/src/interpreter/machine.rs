//! The evaluator as a machine: what it holds between two steps, and what
//! one step does.
//!
//! The machine walks the expression tree with an explicit stack of frames,
//! one for each expression whose evaluation has begun and is not over. It
//! never waits: where it needs the host (float arithmetic, input and
//! output, a pending task, the file of a module) it stops with a request,
//! and goes on when it is given the reply.

use vstd::prelude::*;

use crate::error::{Failure, InterpreterError, InterpreterErrorView, RuntimeErrorView, UnknownErrorKind};
use crate::interpreter::environment::{
    assigned,
    defined,
    depth_inside,
    empty_scope,
    entry_value,
    lookup,
    imported,
    registered_module,
    resolved_module_path,
    values_equal,
    ModuleView,
    ScopeView,
    EQUALITY_DEPTH,
};
use crate::interpreter::native::{host_call, HostCall, HostCallView, NativeOutcomeView, Service};
use crate::interpreter::native_functions::{native_outcome, with_native_functions};
use crate::interpreter::value::{
    entry_views,
    negated_number,
    number_index,
    number_is_zero,
    sound,
    truthy,
    value_text,
    value_views,
    with_entry,
    PromiseStateView,
    TaskView,
    TextStyle,
    Value,
    ValueView,
};
use crate::parser::{Expr, TryCatch};
use crate::tokenizer::{Token, TokenType};

verus! {

// ---------------------------------------------------------------------------
// What the machine holds
// ---------------------------------------------------------------------------

/// What the machine does next: evaluate an expression, hand a value or an
/// error to the frame on top of the stack, or wait for the host.
pub enum Control<'a> {
    Evaluate(&'a Expr),
    Deliver(Value),
    Raise(InterpreterError),
    Ask(HostCall),
}

pub enum ControlView {
    Evaluate(Expr),
    Deliver(ValueView),
    Raise(InterpreterErrorView),
    Ask(HostCallView),
}

impl<'a> View for Control<'a> {
    type V = ControlView;

    open spec fn view(&self) -> ControlView {
        match self {
            Control::Evaluate(expr) => ControlView::Evaluate(**expr),
            Control::Deliver(value) => ControlView::Deliver(value@),
            Control::Raise(error) => ControlView::Raise(error@),
            Control::Ask(call) => ControlView::Ask(call@),
        }
    }
}

/// Where a loop stands.
#[derive(Debug, Clone, Copy, PartialEq, Eq, Structural)]
pub enum LoopPhase {
    Initializer,
    Condition,
    Body,
    Increment,
}

/// An expression whose evaluation has begun: what is done of it, and what
/// is left to do once the value of the part under way arrives.
#[allow(inconsistent_fields)]
pub enum Frame<'a> {
    Program { statements: &'a Vec<(Expr, usize)>, next: usize },
    Sequence { statements: &'a Vec<Expr>, next: usize },
    Restore { environment: usize },
    ArrayItems { elements: &'a Vec<Expr>, done: Vec<Value> },
    DictionaryKey { elements: &'a Vec<(Expr, Expr)>, done: Vec<(String, Value)>, position: usize },
    DictionaryValue {
        elements: &'a Vec<(Expr, Expr)>,
        done: Vec<(String, Value)>,
        position: usize,
        key: Value,
    },
    BinaryLeft { operator: &'a Token, right: &'a Expr },
    BinaryRight { operator: &'a Token, left: Value },
    Unary { operator: &'a Token },
    Assign { name: &'a Token },
    Let { name: &'a Token },
    GetObject { name: &'a Expr },
    GetName { object: Value },
    SetValue { target: &'a Token, object: Value, name: &'a Expr },
    SetName { target: &'a Token, object: Value, value: Value },
    CallOwner { callee: &'a Expr, arguments: &'a Vec<Expr> },
    CallCallee { owner: Option<usize>, arguments: &'a Vec<Expr>, caller: usize },
    CallArguments {
        owner: Option<usize>,
        callee: Value,
        arguments: &'a Vec<Expr>,
        done: Vec<Value>,
    },
    Call { caller: usize },
    Construct { name: String, instance: usize, methods: Vec<(String, Value)>, caller: usize },
    Await,
    AwaitScript { promise: usize, caller: usize },
    AwaitHost { promise: usize },
    If { then_branch: &'a Expr, else_branch: &'a Expr },
    Logical { operator: &'a Token, right: &'a Expr },
    Loop {
        condition: &'a Expr,
        increment: Option<&'a Expr>,
        body: &'a Expr,
        phase: LoopPhase,
        last: Value,
    },
    Return,
    Import,
    Resolve { path: String },
    Load { name: String, path: String, file: String, directory: String },
    Module { name: String, path: String, environment: usize, importer: usize, line: usize },
    Try { handler: &'a TryCatch, environment: usize },
}

#[allow(inconsistent_fields)]
pub enum FrameView {
    Program { statements: Vec<(Expr, usize)>, next: usize },
    Sequence { statements: Vec<Expr>, next: usize },
    Restore { environment: usize },
    ArrayItems { elements: Vec<Expr>, done: Seq<ValueView> },
    DictionaryKey {
        elements: Vec<(Expr, Expr)>,
        done: Seq<(Seq<char>, ValueView)>,
        position: usize,
    },
    DictionaryValue {
        elements: Vec<(Expr, Expr)>,
        done: Seq<(Seq<char>, ValueView)>,
        position: usize,
        key: ValueView,
    },
    BinaryLeft { operator: Token, right: Expr },
    BinaryRight { operator: Token, left: ValueView },
    Unary { operator: Token },
    Assign { name: Token },
    Let { name: Token },
    GetObject { name: Expr },
    GetName { object: ValueView },
    SetValue { target: Token, object: ValueView, name: Expr },
    SetName { target: Token, object: ValueView, value: ValueView },
    CallOwner { callee: Expr, arguments: Vec<Expr> },
    CallCallee { owner: Option<usize>, arguments: Vec<Expr>, caller: usize },
    CallArguments {
        owner: Option<usize>,
        callee: ValueView,
        arguments: Vec<Expr>,
        done: Seq<ValueView>,
    },
    Call { caller: usize },
    Construct {
        name: Seq<char>,
        instance: usize,
        methods: Seq<(Seq<char>, ValueView)>,
        caller: usize,
    },
    Await,
    AwaitScript { promise: usize, caller: usize },
    AwaitHost { promise: usize },
    If { then_branch: Expr, else_branch: Expr },
    Logical { operator: Token, right: Expr },
    Loop { condition: Expr, increment: Option<Expr>, body: Expr, phase: LoopPhase, last: ValueView },
    Return,
    Import,
    Resolve { path: Seq<char> },
    Load { name: Seq<char>, path: Seq<char>, file: Seq<char>, directory: Seq<char> },
    Module { name: Seq<char>, path: Seq<char>, environment: usize, importer: usize, line: usize },
    Try { handler: TryCatch, environment: usize },
}

impl<'a> View for Frame<'a> {
    type V = FrameView;

    open spec fn view(&self) -> FrameView {
        match self {
            Frame::Program { statements, next } => FrameView::Program {
                statements: **statements,
                next: *next,
            },
            Frame::Sequence { statements, next } => FrameView::Sequence {
                statements: **statements,
                next: *next,
            },
            Frame::Restore { environment } => FrameView::Restore { environment: *environment },
            Frame::ArrayItems { elements, done } => FrameView::ArrayItems {
                elements: **elements,
                done: value_views(done@),
            },
            Frame::DictionaryKey { elements, done, position } => FrameView::DictionaryKey {
                elements: **elements,
                done: entry_views(done@),
                position: *position,
            },
            Frame::DictionaryValue { elements, done, position, key } => {
                FrameView::DictionaryValue {
                    elements: **elements,
                    done: entry_views(done@),
                    position: *position,
                    key: key@,
                }
            },
            Frame::BinaryLeft { operator, right } => FrameView::BinaryLeft {
                operator: **operator,
                right: **right,
            },
            Frame::BinaryRight { operator, left } => FrameView::BinaryRight {
                operator: **operator,
                left: left@,
            },
            Frame::Unary { operator } => FrameView::Unary { operator: **operator },
            Frame::Assign { name } => FrameView::Assign { name: **name },
            Frame::Let { name } => FrameView::Let { name: **name },
            Frame::GetObject { name } => FrameView::GetObject { name: **name },
            Frame::GetName { object } => FrameView::GetName { object: object@ },
            Frame::SetValue { target, object, name } => FrameView::SetValue {
                target: **target,
                object: object@,
                name: **name,
            },
            Frame::SetName { target, object, value } => FrameView::SetName {
                target: **target,
                object: object@,
                value: value@,
            },
            Frame::CallOwner { callee, arguments } => FrameView::CallOwner {
                callee: **callee,
                arguments: **arguments,
            },
            Frame::CallCallee { owner, arguments, caller } => FrameView::CallCallee {
                owner: *owner,
                arguments: **arguments,
                caller: *caller,
            },
            Frame::CallArguments { owner, callee, arguments, done } => FrameView::CallArguments {
                owner: *owner,
                callee: callee@,
                arguments: **arguments,
                done: value_views(done@),
            },
            Frame::Call { caller } => FrameView::Call { caller: *caller },
            Frame::Construct { name, instance, methods, caller } => FrameView::Construct {
                name: name@,
                instance: *instance,
                methods: entry_views(methods@),
                caller: *caller,
            },
            Frame::Await => FrameView::Await,
            Frame::AwaitScript { promise, caller } => FrameView::AwaitScript {
                promise: *promise,
                caller: *caller,
            },
            Frame::AwaitHost { promise } => FrameView::AwaitHost { promise: *promise },
            Frame::If { then_branch, else_branch } => FrameView::If {
                then_branch: **then_branch,
                else_branch: **else_branch,
            },
            Frame::Logical { operator, right } => FrameView::Logical {
                operator: **operator,
                right: **right,
            },
            Frame::Loop { condition, increment, body, phase, last } => FrameView::Loop {
                condition: **condition,
                increment: match increment {
                    Some(expr) => Some(**expr),
                    None => None,
                },
                body: **body,
                phase: *phase,
                last: last@,
            },
            Frame::Return => FrameView::Return,
            Frame::Import => FrameView::Import,
            Frame::Resolve { path } => FrameView::Resolve { path: path@ },
            Frame::Load { name, path, file, directory } => FrameView::Load {
                name: name@,
                path: path@,
                file: file@,
                directory: directory@,
            },
            Frame::Module { name, path, environment, importer, line } => FrameView::Module {
                name: name@,
                path: path@,
                environment: *environment,
                importer: *importer,
                line: *line,
            },
            Frame::Try { handler, environment } => FrameView::Try {
                handler: **handler,
                environment: *environment,
            },
        }
    }
}

pub open spec fn frame_views<'a>(frames: Seq<Frame<'a>>) -> Seq<FrameView> {
    Seq::new(frames.len(), |i: int| frames[i]@)
}

pub open spec fn body_views<'a>(bodies: Seq<&'a Expr>) -> Seq<Expr> {
    Seq::new(bodies.len(), |i: int| *bodies[i])
}

/// What the host answers: a value, a failure, the handle of a task that it
/// has started, what it has found of the file of a module, the program of
/// a module, or that the file of a module cannot be read.
///
/// Of the file of a module the host tells whether the imported path is
/// absolute, the path resolved against the base directory, whether that
/// file exists, and the stem and the directory of the file that the import
/// names.
#[derive(Debug)]
pub enum HostReply<'a> {
    Value(Value),
    Failed(InterpreterError),
    Task(usize),
    Located { absolute: bool, resolved: String, exists: bool, stem: Option<String>, directory: String },
    Program(&'a Vec<(Expr, usize)>),
    Unreadable,
}

pub enum HostReplyView {
    Value(ValueView),
    Failed(InterpreterErrorView),
    Task(usize),
    Located {
        absolute: bool,
        resolved: Seq<char>,
        exists: bool,
        stem: Option<Seq<char>>,
        directory: Seq<char>,
    },
    Program(Vec<(Expr, usize)>),
    Unreadable,
}

impl<'a> View for HostReply<'a> {
    type V = HostReplyView;

    open spec fn view(&self) -> HostReplyView {
        match self {
            HostReply::Value(value) => HostReplyView::Value(value@),
            HostReply::Failed(error) => HostReplyView::Failed(error@),
            HostReply::Task(task) => HostReplyView::Task(*task),
            HostReply::Located { absolute, resolved, exists, stem, directory } => {
                HostReplyView::Located {
                    absolute: *absolute,
                    resolved: resolved@,
                    exists: *exists,
                    stem: match stem {
                        Some(name) => Some(name@),
                        None => None,
                    },
                    directory: directory@,
                }
            },
            HostReply::Program(statements) => HostReplyView::Program(**statements),
            HostReply::Unreadable => HostReplyView::Unreadable,
        }
    }
}

/// What the one who drives the machine does after a step: step again, serve
/// the request and resume, or stop with the result.
#[derive(Debug)]
pub enum Action {
    Continue,
    Host(HostCall),
    Finished(Result<Value, InterpreterError>),
}

pub enum ActionView {
    Continue,
    Host(HostCallView),
    Finished(Result<ValueView, InterpreterErrorView>),
}

impl View for Action {
    type V = ActionView;

    open spec fn view(&self) -> ActionView {
        match self {
            Action::Continue => ActionView::Continue,
            Action::Host(call) => ActionView::Host(call@),
            Action::Finished(Ok(value)) => ActionView::Finished(Ok(value@)),
            Action::Finished(Err(error)) => ActionView::Finished(Err(error@)),
        }
    }
}

/// The whole state of the machine.
pub struct MachineView {
    pub control: ControlView,
    pub stack: Seq<FrameView>,
    pub environment: usize,
    pub scopes: Seq<ScopeView>,
    pub promises: Seq<PromiseStateView>,
    pub bodies: Seq<Expr>,
    pub line: usize,
}

// ---------------------------------------------------------------------------
// Small things that the steps are made of
// ---------------------------------------------------------------------------

pub open spec fn failed(failure: Failure, line: usize) -> InterpreterErrorView {
    InterpreterErrorView::RuntimeError(RuntimeErrorView::At(failure, line))
}

pub open spec fn undefined_variable(line: usize, name: Seq<char>) -> InterpreterErrorView {
    InterpreterErrorView::RuntimeError(RuntimeErrorView::UndefinedVariable(line, name))
}

pub open spec fn returning(value: ValueView) -> InterpreterErrorView {
    InterpreterErrorView::RuntimeError(RuntimeErrorView::Return(value))
}

/// The lexemes of `tokens`.
pub open spec fn lexemes(tokens: Seq<Token>) -> Seq<Seq<char>> {
    Seq::new(tokens.len(), |i: int| tokens[i].lexeme@)
}

pub open spec fn smaller(a: nat, b: nat) -> nat {
    if a <= b {
        a
    } else {
        b
    }
}

/// The scopes after the first `n` of `params` were bound to the first `n`
/// of `args` in `scope`, in order.
pub open spec fn bound(
    scopes: Seq<ScopeView>,
    scope: int,
    params: Seq<Seq<char>>,
    args: Seq<ValueView>,
    n: nat,
) -> Seq<ScopeView>
    decreases n,
{
    if n == 0 || n > params.len() || n > args.len() {
        scopes
    } else {
        defined(
            bound(scopes, scope, params, args, (n - 1) as nat),
            scope,
            params[n - 1],
            args[n - 1],
        )
    }
}

/// The scopes after the first `n` of `methods` were bound in `scope`, in
/// order.
pub open spec fn installed(
    scopes: Seq<ScopeView>,
    scope: int,
    methods: Seq<(Seq<char>, ValueView)>,
    n: nat,
) -> Seq<ScopeView>
    decreases n,
{
    if n == 0 || n > methods.len() {
        scopes
    } else {
        defined(
            installed(scopes, scope, methods, (n - 1) as nat),
            scope,
            methods[n - 1].0,
            methods[n - 1].1,
        )
    }
}

/// Whether every member of a class body is a function declaration.
pub open spec fn all_functions(members: Seq<Expr>) -> bool {
    forall|i: int| 0 <= i < members.len() ==> (#[trigger] members[i]) is Function
}

/// The method table of the first `n` members of a class body, the body of
/// member `i` being known by the handle `first + i`.
pub open spec fn method_table(members: Seq<Expr>, first: nat, n: nat) -> Seq<(Seq<char>, ValueView)>
    decreases n,
{
    if n == 0 || n > members.len() {
        Seq::empty()
    } else {
        match members[n - 1] {
            Expr::Function(name, params, _) => with_entry(
                method_table(members, first, (n - 1) as nat),
                name.lexeme@,
                ValueView::Function(name.lexeme@, lexemes(params@), (first + n - 1) as usize),
            ),
            _ => method_table(members, first, (n - 1) as nat),
        }
    }
}

/// The bodies of the first `n` members of a class body.
pub open spec fn method_bodies(members: Seq<Expr>, n: nat) -> Seq<Expr>
    decreases n,
{
    if n == 0 || n > members.len() {
        Seq::empty()
    } else {
        match members[n - 1] {
            Expr::Function(_, _, body) => method_bodies(members, (n - 1) as nat).push(*body),
            _ => method_bodies(members, (n - 1) as nat),
        }
    }
}

impl MachineView {
    pub open spec fn goto(self, control: ControlView) -> MachineView {
        MachineView { control, ..self }
    }

    pub open spec fn deliver(self, value: ValueView) -> MachineView {
        self.goto(ControlView::Deliver(value))
    }

    pub open spec fn raise(self, error: InterpreterErrorView) -> MachineView {
        self.goto(ControlView::Raise(error))
    }

    pub open spec fn fail(self, failure: Failure, line: usize) -> MachineView {
        self.raise(failed(failure, line))
    }

    pub open spec fn ask(self, call: HostCallView) -> MachineView {
        self.goto(ControlView::Ask(call))
    }

    /// The state between taking the control out and putting the next one
    /// in.
    pub open spec fn idle(self) -> MachineView {
        self.deliver(ValueView::Nil)
    }

    pub open spec fn push(self, frame: FrameView) -> MachineView {
        MachineView { stack: self.stack.push(frame), ..self }
    }

    pub open spec fn pop(self) -> MachineView {
        MachineView { stack: self.stack.drop_last(), ..self }
    }

    pub open spec fn enter(self, environment: usize) -> MachineView {
        MachineView { environment, ..self }
    }

    pub open spec fn at_line(self, line: usize) -> MachineView {
        MachineView { line, ..self }
    }

    pub open spec fn with_scopes(self, scopes: Seq<ScopeView>) -> MachineView {
        MachineView { scopes, ..self }
    }

    pub open spec fn with_bodies(self, bodies: Seq<Expr>) -> MachineView {
        MachineView { bodies, ..self }
    }

    /// Binds `name` to `value` in `scope`.
    pub open spec fn define(self, scope: usize, name: Seq<char>, value: ValueView) -> MachineView {
        self.with_scopes(defined(self.scopes, scope as int, name, value))
    }

    /// A new scope inside `parent`; its handle is the number of scopes
    /// before.
    pub open spec fn open_scope(self, parent: usize) -> MachineView {
        self.with_scopes(
            self.scopes.push(
                empty_scope(Some(parent), depth_inside(self.scopes, Some(parent)), "."@),
            ),
        )
    }

    /// A new promise that waits for `task`, delivered as a value.
    pub open spec fn promise(self, task: TaskView) -> MachineView {
        MachineView {
            promises: self.promises.push(PromiseStateView::Pending(task)),
            ..self
        }.deliver(ValueView::Promise(self.promises.len() as usize))
    }

    /// Settles the promise `promise`, if it is pending; a promise that is
    /// settled stays as it is.
    pub open spec fn settle(self, promise: usize, state: PromiseStateView) -> MachineView {
        if promise < self.promises.len() && self.promises[promise as int] is Pending {
            MachineView { promises: self.promises.update(promise as int, state), ..self }
        } else {
            self
        }
    }

    // -----------------------------------------------------------------------
    // Beginning an expression
    // -----------------------------------------------------------------------

    /// Runs the body of a function: the statements of a block in the current
    /// scope, or the one expression that the body is.
    pub open spec fn run(self, body: Expr) -> MachineView {
        match body {
            Expr::Block(statements) => self.push(
                FrameView::Sequence { statements, next: 0 },
            ).deliver(ValueView::Nil),
            _ => self.goto(ControlView::Evaluate(body)),
        }
    }

    /// Begins the evaluation of `expr`.
    pub open spec fn evaluate(self, expr: Expr) -> MachineView {
        match expr {
            Expr::Literal(token, text) => match token.token_type {
                TokenType::Number => self.ask(
                    host_call(Service::ParseNumber, seq![text@], token.line),
                ),
                TokenType::STRING => self.deliver(ValueView::String(text@)),
                TokenType::True => self.deliver(ValueView::Boolean(true)),
                TokenType::False => self.deliver(ValueView::Boolean(false)),
                TokenType::Nil => self.deliver(ValueView::Nil),
                _ => self.fail(Failure::InvalidLiteral, token.line),
            },
            Expr::Variable(name) => match lookup(
                self.scopes,
                self.environment as int,
                name.lexeme@,
            ) {
                Some(value) => self.deliver(value),
                None => self.raise(undefined_variable(self.line, name.lexeme@)),
            },
            Expr::Array(elements) => if elements@.len() == 0 {
                self.deliver(ValueView::Array(Seq::empty()))
            } else {
                self.push(FrameView::ArrayItems { elements, done: Seq::empty() }).goto(
                    ControlView::Evaluate(elements@[0]),
                )
            },
            Expr::Dictionary(elements) => if elements@.len() == 0 {
                self.deliver(ValueView::Dictionary(Seq::empty()))
            } else {
                self.push(
                    FrameView::DictionaryKey { elements, done: Seq::empty(), position: 0 },
                ).goto(ControlView::Evaluate(elements@[0].0))
            },
            Expr::Binary(left, operator, right) => self.push(
                FrameView::BinaryLeft { operator, right: *right },
            ).goto(ControlView::Evaluate(*left)),
            Expr::Unary(operator, operand) => self.push(FrameView::Unary { operator }).goto(
                ControlView::Evaluate(*operand),
            ),
            Expr::Assign(name, value) => self.push(FrameView::Assign { name }).goto(
                ControlView::Evaluate(*value),
            ),
            Expr::SetMember(target, name, value) => match lookup(
                self.scopes,
                self.environment as int,
                target.lexeme@,
            ) {
                Some(object) => self.push(
                    FrameView::SetValue { target, object, name: *name },
                ).goto(ControlView::Evaluate(*value)),
                None => self.raise(undefined_variable(self.line, target.lexeme@)),
            },
            Expr::Get(object, name) => self.push(FrameView::GetObject { name: *name }).goto(
                ControlView::Evaluate(*object),
            ),
            Expr::Let(name, initializer) => self.push(FrameView::Let { name }).goto(
                ControlView::Evaluate(*initializer),
            ),
            Expr::Block(statements) => self.open_scope(self.environment).push(
                FrameView::Restore { environment: self.environment },
            ).push(FrameView::Sequence { statements, next: 0 }).enter(
                self.scopes.len() as usize,
            ).deliver(ValueView::Nil),
            Expr::Function(name, params, body) => {
                let value = ValueView::Function(
                    name.lexeme@,
                    lexemes(params@),
                    self.bodies.len() as usize,
                );
                self.with_bodies(self.bodies.push(*body)).define(
                    self.environment,
                    name.lexeme@,
                    value,
                ).deliver(value)
            },
            Expr::AsyncFunction(name, params, body) => {
                let value = ValueView::AsyncFunction(
                    name.lexeme@,
                    lexemes(params@),
                    self.bodies.len() as usize,
                );
                self.with_bodies(self.bodies.push(*body)).define(
                    self.environment,
                    name.lexeme@,
                    value,
                ).deliver(value)
            },
            Expr::Class(name, members) => if all_functions(members@) {
                let value = ValueView::Class(
                    name.lexeme@,
                    method_table(members@, self.bodies.len(), members@.len()),
                );
                self.with_bodies(self.bodies + method_bodies(members@, members@.len())).define(
                    self.environment,
                    name.lexeme@,
                    value,
                ).deliver(value)
            } else {
                self.fail(Failure::InvalidClassMethod, self.line)
            },
            Expr::Call(owner, callee, arguments) => match owner {
                Some(receiver) => self.push(
                    FrameView::CallOwner { callee: *callee, arguments },
                ).goto(ControlView::Evaluate(*receiver)),
                None => self.push(
                    FrameView::CallCallee { owner: None, arguments, caller: self.environment },
                ).goto(ControlView::Evaluate(*callee)),
            },
            Expr::Await(operand) => self.push(FrameView::Await).goto(
                ControlView::Evaluate(*operand),
            ),
            Expr::Grouping(inner) => self.goto(ControlView::Evaluate(*inner)),
            Expr::Nil => self.deliver(ValueView::Nil),
            Expr::If(condition, then_branch, else_branch) => self.push(
                FrameView::If { then_branch: *then_branch, else_branch: *else_branch },
            ).goto(ControlView::Evaluate(*condition)),
            Expr::Logical(left, operator, right) => self.push(
                FrameView::Logical { operator, right: *right },
            ).goto(ControlView::Evaluate(*left)),
            Expr::While(condition, body) => self.push(
                FrameView::Loop {
                    condition: *condition,
                    increment: None,
                    body: *body,
                    phase: LoopPhase::Condition,
                    last: ValueView::Nil,
                },
            ).goto(ControlView::Evaluate(*condition)),
            Expr::For(initializer, condition, increment, body) => self.push(
                FrameView::Loop {
                    condition: *condition,
                    increment: Some(*increment),
                    body: *body,
                    phase: LoopPhase::Initializer,
                    last: ValueView::Nil,
                },
            ).goto(ControlView::Evaluate(*initializer)),
            Expr::Return(_, value) => self.push(FrameView::Return).goto(
                ControlView::Evaluate(*value),
            ),
            Expr::Import(path) => self.push(FrameView::Import).goto(ControlView::Evaluate(*path)),
            Expr::TryCatch(handler) => self.push(
                FrameView::Try { handler, environment: self.environment },
            ).goto(ControlView::Evaluate(*handler.try_block)),
        }
    }

    // -----------------------------------------------------------------------
    // Operators and members
    // -----------------------------------------------------------------------

    /// Both operands being numbers, asks the host for `service`; a zero
    /// divisor is refused where `checked` says so.
    pub open spec fn arithmetic(
        self,
        service: Service,
        left: ValueView,
        right: ValueView,
        checked: bool,
        otherwise: Failure,
    ) -> MachineView {
        match (left, right) {
            (ValueView::Number(a), ValueView::Number(b)) => if checked && number_is_zero(b) {
                self.fail(Failure::DivisionByZero, self.line)
            } else {
                self.ask(host_call(service, seq![a, b], self.line))
            },
            _ => self.fail(otherwise, self.line),
        }
    }

    /// Applies a binary operator to the values of its operands.
    pub open spec fn binary(self, operator: Token, left: ValueView, right: ValueView)
        -> MachineView {
        match operator.token_type {
            TokenType::Plus => match (left, right) {
                (ValueView::Number(a), ValueView::Number(b)) => self.ask(
                    host_call(Service::Add, seq![a, b], self.line),
                ),
                (ValueView::String(a), ValueView::String(b)) => self.deliver(
                    ValueView::String(a + b),
                ),
                _ => self.deliver(
                    ValueView::String(
                        value_text(left, TextStyle::Plain) + value_text(right, TextStyle::Plain),
                    ),
                ),
            },
            TokenType::Minus => self.arithmetic(
                Service::Subtract,
                left,
                right,
                false,
                Failure::OperandsMustBeNumber,
            ),
            TokenType::Star => self.arithmetic(
                Service::Multiply,
                left,
                right,
                false,
                Failure::OperandsMustBeNumbersOrStrings,
            ),
            TokenType::Slash => self.arithmetic(
                Service::Divide,
                left,
                right,
                true,
                Failure::OperandsMustBeNumber,
            ),
            TokenType::Modulo => self.arithmetic(
                Service::Remainder,
                left,
                right,
                true,
                Failure::OperandsMustBeNumber,
            ),
            TokenType::Greater => self.arithmetic(
                Service::Greater,
                left,
                right,
                false,
                Failure::OperandsMustBeNumber,
            ),
            TokenType::GreaterEqual => self.arithmetic(
                Service::GreaterEqual,
                left,
                right,
                false,
                Failure::OperandsMustBeNumber,
            ),
            TokenType::Less => self.arithmetic(
                Service::Less,
                left,
                right,
                false,
                Failure::OperandsMustBeNumber,
            ),
            TokenType::LessEqual => self.arithmetic(
                Service::LessEqual,
                left,
                right,
                false,
                Failure::OperandsMustBeNumber,
            ),
            TokenType::EqualEqual => self.deliver(
                ValueView::Boolean(values_equal(self.scopes, left, right, EQUALITY_DEPTH as nat)),
            ),
            TokenType::BandEqual => self.deliver(
                ValueView::Boolean(!values_equal(self.scopes, left, right, EQUALITY_DEPTH as nat)),
            ),
            _ => self.fail(Failure::InvalidBinaryOperator, operator.line),
        }
    }

    /// Applies a unary operator to the value of its operand.
    pub open spec fn unary(self, operator: Token, operand: ValueView) -> MachineView {
        match operator.token_type {
            TokenType::Minus => match operand {
                ValueView::Number(text) => self.deliver(ValueView::Number(negated_number(text))),
                _ => self.fail(Failure::OperandsMustBeNumber, self.line),
            },
            TokenType::Bang => self.deliver(ValueView::Boolean(!truthy(operand))),
            _ => self.fail(Failure::InvalidUnaryOperator, operator.line),
        }
    }

    /// Reads the member `name` of `object`: a field of an instance, an item
    /// of an array, an entry of a dictionary.
    pub open spec fn get_member(self, object: ValueView, name: ValueView) -> MachineView {
        match (object, name) {
            (ValueView::Instance(_, instance), ValueView::String(field)) => if instance
                < self.scopes.len() {
                match entry_value(self.scopes[instance as int].values, field) {
                    Some(value) => self.deliver(value),
                    None => self.fail(Failure::InvalidGet, self.line),
                }
            } else {
                self.fail(Failure::InvalidGet, self.line)
            },
            (ValueView::Array(items), ValueView::Number(text)) => match number_index(text) {
                Some(index) => if index < items.len() {
                    self.deliver(items[index as int])
                } else {
                    self.fail(Failure::InvalidGet, self.line)
                },
                None => self.fail(Failure::InvalidGet, self.line),
            },
            (ValueView::Dictionary(entries), ValueView::String(key)) => match entry_value(
                entries,
                key,
            ) {
                Some(value) => self.deliver(value),
                None => self.fail(Failure::InvalidGet, self.line),
            },
            _ => self.fail(Failure::InvalidGet, self.line),
        }
    }

    /// Rebinds the variable `target` to `changed`, and gives `value`.
    pub open spec fn store(self, target: Token, changed: ValueView, value: ValueView)
        -> MachineView {
        match assigned(self.scopes, self.environment as int, target.lexeme@, changed) {
            Some(scopes) => self.with_scopes(scopes).deliver(value),
            None => self.raise(undefined_variable(0, target.lexeme@)),
        }
    }

    /// Writes `value` to the member `name` of `object`, which the variable
    /// `target` holds: a field is bound in the scope of the instance; an
    /// array or a dictionary is changed and stored back in the variable.
    pub open spec fn set_member(
        self,
        target: Token,
        object: ValueView,
        value: ValueView,
        name: ValueView,
    ) -> MachineView {
        match (object, name) {
            (ValueView::Instance(_, instance), ValueView::String(field)) => if instance
                < self.scopes.len() {
                self.define(instance, field, value).deliver(value)
            } else {
                self.fail(Failure::InvalidSet, self.line)
            },
            (ValueView::Array(items), ValueView::Number(text)) => match number_index(text) {
                Some(index) => if index < items.len() {
                    self.store(target, ValueView::Array(items.update(index as int, value)), value)
                } else {
                    self.fail(Failure::InvalidSet, self.line)
                },
                None => self.fail(Failure::InvalidSet, self.line),
            },
            (ValueView::Dictionary(entries), ValueView::String(key)) => self.store(
                target,
                ValueView::Dictionary(with_entry(entries, key, value)),
                value,
            ),
            _ => self.fail(Failure::InvalidSet, self.line),
        }
    }

    // -----------------------------------------------------------------------
    // Calls
    // -----------------------------------------------------------------------

    /// Calls a function of the program: a new scope inside `parent` binds
    /// the parameters, `boundary` marks where the call ends, and the body
    /// runs. The arguments must be as many as the parameters.
    pub open spec fn call(
        self,
        params: Seq<Seq<char>>,
        body: usize,
        args: Seq<ValueView>,
        parent: usize,
        boundary: FrameView,
    ) -> MachineView {
        if args.len() != params.len() {
            self.raise(
                InterpreterErrorView::RuntimeError(
                    RuntimeErrorView::ExpextedArgument(
                        self.line,
                        params.len() as usize,
                        args.len() as usize,
                    ),
                ),
            )
        } else if body >= self.bodies.len() {
            self.fail(Failure::UndefinedFunction, self.line)
        } else {
            let scope = self.scopes.len() as usize;
            let opened = self.open_scope(parent);
            opened.with_scopes(
                bound(opened.scopes, scope as int, params, args, params.len()),
            ).push(boundary).enter(scope).run(self.bodies[body as int])
        }
    }

    /// Makes an instance of a class: a new scope inside the current one
    /// binds `this`; the constructor, if the class has one, runs in it with
    /// its parameters bound to the arguments, as far as both go; the methods
    /// are bound in it when the constructor is over.
    pub open spec fn instantiate(
        self,
        name: Seq<char>,
        methods: Seq<(Seq<char>, ValueView)>,
        args: Seq<ValueView>,
    ) -> MachineView {
        let instance = self.scopes.len() as usize;
        let made = self.open_scope(self.environment).define(
            instance,
            "this"@,
            ValueView::Instance(name, instance),
        );
        match entry_value(methods, "_construct"@) {
            Some(ValueView::Function(_, params, body)) => if body < self.bodies.len() {
                made.with_scopes(
                    bound(
                        made.scopes,
                        instance as int,
                        params,
                        args,
                        smaller(params.len(), args.len()),
                    ),
                ).push(
                    FrameView::Construct { name, instance, methods, caller: self.environment },
                ).enter(instance).run(self.bodies[body as int])
            } else {
                self.fail(Failure::InvalidClassMethod, self.line)
            },
            Some(_) => self.fail(Failure::InvalidClassMethod, self.line),
            None => made.with_scopes(
                installed(made.scopes, instance as int, methods, methods.len()),
            ).deliver(ValueView::Instance(name, instance)),
        }
    }

    /// Calls `callee` with `args`. `owner` is the scope of the instance that
    /// a method was called on.
    pub open spec fn dispatch(self, owner: Option<usize>, callee: ValueView, args: Seq<ValueView>)
        -> MachineView {
        match callee {
            ValueView::Function(_, params, body) => self.call(
                params,
                body,
                args,
                match owner {
                    Some(instance) => instance,
                    None => self.environment,
                },
                FrameView::Call { caller: self.environment },
            ),
            ValueView::AsyncFunction(_, _, _) => self.promise(
                TaskView::Script { callee, arguments: args, environment: self.environment },
            ),
            ValueView::NativeFunction(native) => match native_outcome(native, args, self.scopes) {
                NativeOutcomeView::Value(value) => self.deliver(value),
                NativeOutcomeView::Error(error) => self.raise(error),
                NativeOutcomeView::Host(call) => self.ask(call),
            },
            ValueView::Class(name, methods) => self.instantiate(name, methods, args),
            _ => self.fail(Failure::UndefinedFunction, self.line),
        }
    }

    /// Awaits `value`: a settled promise gives its value or fails at once; a
    /// promise that waits for the host asks the host; one that waits for an
    /// async function of the program runs its body now.
    pub open spec fn await_value(self, value: ValueView) -> MachineView {
        match value {
            ValueView::Promise(promise) => if promise < self.promises.len() {
                match self.promises[promise as int] {
                    PromiseStateView::Fulfilled(result) => self.deliver(result),
                    PromiseStateView::Rejected(_) => self.fail(
                        Failure::PromiseRejected,
                        self.line,
                    ),
                    PromiseStateView::Pending(TaskView::Host(task)) => self.push(
                        FrameView::AwaitHost { promise },
                    ).ask(host_call(Service::AwaitTask, Seq::empty(), task)),
                    PromiseStateView::Pending(
                        TaskView::Script { callee, arguments, environment },
                    ) => match callee {
                        ValueView::AsyncFunction(_, params, body) => self.call(
                            params,
                            body,
                            arguments,
                            environment,
                            FrameView::AwaitScript { promise, caller: self.environment },
                        ),
                        _ => self.fail(Failure::UndefinedFunction, self.line),
                    },
                }
            } else {
                self.fail(Failure::InvalidCall, self.line)
            },
            _ => self.fail(Failure::InvalidCall, self.line),
        }
    }

    // -----------------------------------------------------------------------
    // A value arrives at a frame
    // -----------------------------------------------------------------------

    /// Goes on with the statements of a program or a block: the next one, or
    /// the last value where none is left.
    pub open spec fn receive_statements(self, frame: FrameView, value: ValueView) -> MachineView {
        match frame {
            FrameView::Program { statements, next } => if next < statements@.len() {
                self.at_line(statements@[next as int].1).push(
                    FrameView::Program { statements, next: (next + 1) as usize },
                ).goto(ControlView::Evaluate(statements@[next as int].0))
            } else {
                self.deliver(value)
            },
            FrameView::Sequence { statements, next } => if next < statements@.len() {
                self.push(FrameView::Sequence { statements, next: (next + 1) as usize }).goto(
                    ControlView::Evaluate(statements@[next as int]),
                )
            } else {
                self.deliver(value)
            },
            FrameView::Restore { environment } => self.enter(environment).deliver(value),
            FrameView::Try { handler, environment } => self.enter(environment).deliver(value),
            FrameView::Module { name, path, environment, importer, line } => self.with_scopes(
                imported(self.scopes, importer as int, ModuleView { name, environment, path }),
            ).enter(importer).at_line(line).deliver(ValueView::String(path)),
            _ => self.deliver(value),
        }
    }

    /// Goes on with an array or a dictionary literal.
    pub open spec fn receive_literal(self, frame: FrameView, value: ValueView) -> MachineView {
        match frame {
            FrameView::ArrayItems { elements, done } => if done.len() + 1 < elements@.len() {
                self.push(FrameView::ArrayItems { elements, done: done.push(value) }).goto(
                    ControlView::Evaluate(elements@[done.len() as int + 1]),
                )
            } else {
                self.deliver(ValueView::Array(done.push(value)))
            },
            FrameView::DictionaryKey { elements, done, position } => if position
                < elements@.len() {
                self.push(
                    FrameView::DictionaryValue { elements, done, position, key: value },
                ).goto(ControlView::Evaluate(elements@[position as int].1))
            } else {
                self.deliver(ValueView::Dictionary(done))
            },
            FrameView::DictionaryValue { elements, done, position, key } => match key {
                ValueView::String(name) => if position + 1 < elements@.len() {
                    self.push(
                        FrameView::DictionaryKey {
                            elements,
                            done: with_entry(done, name, value),
                            position: (position + 1) as usize,
                        },
                    ).goto(ControlView::Evaluate(elements@[position + 1].0))
                } else {
                    self.deliver(ValueView::Dictionary(with_entry(done, name, value)))
                },
                _ => self.fail(Failure::InvalidDictionaryKey, self.line),
            },
            _ => self.deliver(value),
        }
    }

    /// Goes on with an operator, a binding or a member.
    pub open spec fn receive_operand(self, frame: FrameView, value: ValueView) -> MachineView {
        match frame {
            FrameView::BinaryLeft { operator, right } => self.push(
                FrameView::BinaryRight { operator, left: value },
            ).goto(ControlView::Evaluate(right)),
            FrameView::BinaryRight { operator, left } => self.binary(operator, left, value),
            FrameView::Unary { operator } => self.unary(operator, value),
            FrameView::Assign { name } => self.store(name, value, value),
            FrameView::Let { name } => self.define(self.environment, name.lexeme@, value).deliver(
                value,
            ),
            FrameView::GetObject { name } => self.push(FrameView::GetName { object: value }).goto(
                ControlView::Evaluate(name),
            ),
            FrameView::GetName { object } => self.get_member(object, value),
            FrameView::SetValue { target, object, name } => self.push(
                FrameView::SetName { target, object, value },
            ).goto(ControlView::Evaluate(name)),
            FrameView::SetName { target, object, value: written } => self.set_member(
                target,
                object,
                written,
                value,
            ),
            _ => self.deliver(value),
        }
    }

    /// Goes on with a call, or ends one.
    pub open spec fn receive_call(self, frame: FrameView, value: ValueView) -> MachineView {
        match frame {
            FrameView::CallOwner { callee, arguments } => match value {
                ValueView::Instance(_, instance) => self.push(
                    FrameView::CallCallee {
                        owner: Some(instance),
                        arguments,
                        caller: self.environment,
                    },
                ).enter(instance).goto(ControlView::Evaluate(callee)),
                _ => self.fail(Failure::InvalidCall, self.line),
            },
            FrameView::CallCallee { owner, arguments, caller } => if arguments@.len() == 0 {
                self.enter(caller).dispatch(owner, value, Seq::empty())
            } else {
                self.enter(caller).push(
                    FrameView::CallArguments {
                        owner,
                        callee: value,
                        arguments,
                        done: Seq::empty(),
                    },
                ).goto(ControlView::Evaluate(arguments@[0]))
            },
            FrameView::CallArguments { owner, callee, arguments, done } => if done.len() + 1
                < arguments@.len() {
                self.push(
                    FrameView::CallArguments { owner, callee, arguments, done: done.push(value) },
                ).goto(ControlView::Evaluate(arguments@[done.len() as int + 1]))
            } else {
                self.dispatch(owner, callee, done.push(value))
            },
            FrameView::Call { caller } => self.enter(caller).deliver(value),
            FrameView::Construct { name, instance, methods, caller } => self.with_scopes(
                installed(self.scopes, instance as int, methods, methods.len()),
            ).enter(caller).deliver(ValueView::Instance(name, instance)),
            FrameView::Await => self.await_value(value),
            FrameView::AwaitScript { promise, caller } => self.settle(
                promise,
                PromiseStateView::Fulfilled(value),
            ).enter(caller).deliver(value),
            FrameView::AwaitHost { promise } => self.settle(
                promise,
                PromiseStateView::Fulfilled(value),
            ).deliver(value),
            _ => self.deliver(value),
        }
    }

    /// Goes on with a condition, a loop, a `return` or an `import`.
    pub open spec fn receive_flow(self, frame: FrameView, value: ValueView) -> MachineView {
        match frame {
            FrameView::If { then_branch, else_branch } => if truthy(value) {
                self.goto(ControlView::Evaluate(then_branch))
            } else {
                self.goto(ControlView::Evaluate(else_branch))
            },
            FrameView::Logical { operator, right } => match operator.token_type {
                TokenType::Or => if truthy(value) {
                    self.deliver(value)
                } else {
                    self.goto(ControlView::Evaluate(right))
                },
                TokenType::And => if !truthy(value) {
                    self.deliver(value)
                } else {
                    self.goto(ControlView::Evaluate(right))
                },
                _ => self.fail(Failure::InvalidLogicalOperator, operator.line),
            },
            FrameView::Loop { condition, increment, body, phase, last } => match phase {
                LoopPhase::Initializer => self.push(
                    FrameView::Loop {
                        condition,
                        increment,
                        body,
                        phase: LoopPhase::Condition,
                        last: ValueView::Nil,
                    },
                ).goto(ControlView::Evaluate(condition)),
                LoopPhase::Condition => if truthy(value) {
                    self.push(
                        FrameView::Loop {
                            condition,
                            increment,
                            body,
                            phase: LoopPhase::Body,
                            last: ValueView::Nil,
                        },
                    ).goto(ControlView::Evaluate(body))
                } else {
                    self.deliver(last)
                },
                LoopPhase::Body => match increment {
                    Some(step) => self.push(
                        FrameView::Loop {
                            condition,
                            increment,
                            body,
                            phase: LoopPhase::Increment,
                            last: value,
                        },
                    ).goto(ControlView::Evaluate(step)),
                    None => self.push(
                        FrameView::Loop {
                            condition,
                            increment,
                            body,
                            phase: LoopPhase::Condition,
                            last: value,
                        },
                    ).goto(ControlView::Evaluate(condition)),
                },
                LoopPhase::Increment => self.push(
                    FrameView::Loop {
                        condition,
                        increment,
                        body,
                        phase: LoopPhase::Condition,
                        last,
                    },
                ).goto(ControlView::Evaluate(condition)),
            },
            FrameView::Return => self.raise(returning(value)),
            FrameView::Import => match value {
                ValueView::String(path) => self.push(FrameView::Resolve { path }).ask(
                    host_call(
                        Service::ResolveModule,
                        seq![
                            path,
                            if self.environment < self.scopes.len() {
                                self.scopes[self.environment as int].base_path
                            } else {
                                Seq::empty()
                            },
                        ],
                        0,
                    ),
                ),
                _ => self.raise(
                    InterpreterErrorView::RuntimeError(
                        RuntimeErrorView::InvalidImport(
                            self.line,
                            value_text(value, TextStyle::Plain),
                        ),
                    ),
                ),
            },
            _ => self.deliver(value),
        }
    }

    /// Hands `value` to `frame`, which has been taken off the stack.
    pub open spec fn receive(self, frame: FrameView, value: ValueView) -> MachineView {
        match frame {
            FrameView::Program { .. } | FrameView::Sequence { .. } | FrameView::Restore { .. }
            | FrameView::Try { .. } | FrameView::Module { .. } => self.receive_statements(
                frame,
                value,
            ),
            FrameView::ArrayItems { .. } | FrameView::DictionaryKey { .. }
            | FrameView::DictionaryValue { .. } => self.receive_literal(frame, value),
            FrameView::BinaryLeft { .. } | FrameView::BinaryRight { .. } | FrameView::Unary { .. }
            | FrameView::Assign { .. } | FrameView::Let { .. } | FrameView::GetObject { .. }
            | FrameView::GetName { .. } | FrameView::SetValue { .. }
            | FrameView::SetName { .. } => self.receive_operand(frame, value),
            FrameView::CallOwner { .. } | FrameView::CallCallee { .. }
            | FrameView::CallArguments { .. } | FrameView::Call { .. }
            | FrameView::Construct { .. } | FrameView::Await | FrameView::AwaitScript { .. }
            | FrameView::AwaitHost { .. } => self.receive_call(frame, value),
            FrameView::If { .. } | FrameView::Logical { .. } | FrameView::Loop { .. }
            | FrameView::Return | FrameView::Import => self.receive_flow(frame, value),
            FrameView::Resolve { .. } | FrameView::Load { .. } => self.deliver(value),
        }
    }

    // -----------------------------------------------------------------------
    // An error, or the value of a `return`, goes up the stack
    // -----------------------------------------------------------------------

    /// What `frame`, taken off the stack, does with `error`: it stops the
    /// error, or lets it pass after putting back what it had changed.
    /// The result tells whether the error goes on.
    pub open spec fn pass(self, frame: FrameView, error: InterpreterErrorView) -> (
        MachineView,
        bool,
    ) {
        match frame {
            FrameView::Restore { environment } => (self.enter(environment), true),
            FrameView::CallCallee { caller, .. } => (self.enter(caller), true),
            FrameView::Call { caller } => match error {
                InterpreterErrorView::RuntimeError(RuntimeErrorView::Return(value)) => (
                    self.enter(caller).deliver(value),
                    false,
                ),
                _ => (self.enter(caller), true),
            },
            FrameView::Construct { name, instance, methods, caller } => match error {
                InterpreterErrorView::RuntimeError(RuntimeErrorView::Return(_)) => (
                    self.with_scopes(
                        installed(self.scopes, instance as int, methods, methods.len()),
                    ).enter(caller).deliver(ValueView::Instance(name, instance)),
                    false,
                ),
                _ => (self.enter(caller), true),
            },
            FrameView::AwaitScript { promise, caller } => match error {
                InterpreterErrorView::RuntimeError(RuntimeErrorView::Return(value)) => (
                    self.settle(promise, PromiseStateView::Fulfilled(value)).enter(caller).deliver(
                        value,
                    ),
                    false,
                ),
                _ => (self.settle(promise, PromiseStateView::Rejected(error)).enter(caller), true),
            },
            FrameView::AwaitHost { promise } => (
                self.settle(promise, PromiseStateView::Rejected(error)),
                true,
            ),
            FrameView::Module { importer, line, .. } => (
                self.enter(importer).at_line(line),
                true,
            ),
            FrameView::Try { handler, environment } => if error.is_return() {
                (self.enter(environment), true)
            } else {
                let scope = self.scopes.len() as usize;
                (
                    self.open_scope(environment).define(
                        scope,
                        handler.catch_param@,
                        ValueView::String(error.text()),
                    ).push(FrameView::Restore { environment }).enter(scope).goto(
                        ControlView::Evaluate(*handler.catch_block),
                    ),
                    false,
                )
            },
            _ => (self, true),
        }
    }

    /// Takes frames off the stack until one stops `error`; with no frame
    /// left the error stays raised, and the run is over.
    pub open spec fn unwind(self, error: InterpreterErrorView) -> MachineView
        decreases self.stack.len(),
    {
        if self.stack.len() == 0 {
            self.raise(error)
        } else {
            let (next, goes_on) = self.pop().pass(self.stack.last(), error);
            if goes_on && next.stack.len() < self.stack.len() {
                next.unwind(error)
            } else {
                next
            }
        }
    }

    // -----------------------------------------------------------------------
    // Steps
    // -----------------------------------------------------------------------

    /// One step.
    pub open spec fn step(self) -> MachineView {
        match self.control {
            ControlView::Evaluate(expr) => self.idle().evaluate(expr),
            ControlView::Deliver(value) => if self.stack.len() == 0 {
                self
            } else {
                self.idle().pop().receive(self.stack.last(), value)
            },
            ControlView::Raise(error) => if self.stack.len() == 0 {
                self
            } else {
                self.idle().unwind(error)
            },
            ControlView::Ask(_) => self,
        }
    }

    /// What the one who drives the machine does now.
    pub open spec fn action(self) -> ActionView {
        match self.control {
            ControlView::Evaluate(_) => ActionView::Continue,
            ControlView::Deliver(value) => if self.stack.len() == 0 {
                ActionView::Finished(Ok(value))
            } else {
                ActionView::Continue
            },
            ControlView::Raise(error) => if self.stack.len() == 0 {
                ActionView::Finished(Err(error))
            } else {
                ActionView::Continue
            },
            ControlView::Ask(call) => ActionView::Host(call),
        }
    }

    /// The state after the host has answered `reply`. A reply that nothing
    /// asked for changes nothing.
    pub open spec fn resume(self, reply: HostReplyView) -> MachineView {
        match self.control {
            ControlView::Ask(_) => self.idle().answer(reply),
            _ => self,
        }
    }

    /// Takes the reply of the host. A value enters only where it is one of
    /// the language: a number written otherwise than the host prints
    /// numbers is refused, and so is a dictionary that holds a name twice.
    /// The host cannot raise the value of a `return`.
    pub open spec fn answer(self, reply: HostReplyView) -> MachineView {
        match reply {
            HostReplyView::Value(value) => if sound(value) {
                self.deliver(value)
            } else {
                self.raise(unexpected_reply())
            },
            HostReplyView::Failed(error) => if error.is_return() {
                self.raise(unexpected_reply())
            } else {
                self.raise(error)
            },
            HostReplyView::Task(task) => self.promise(TaskView::Host(task)),
            HostReplyView::Located { absolute, resolved, exists, stem, directory } => if self.stack.len()
                > 0 && self.stack.last() is Resolve {
                let asked = self.stack.last()->Resolve_path;
                match resolved_module_path(asked, absolute, resolved, exists) {
                    Err(error) => self.pop().raise(error),
                    Ok(file) => match stem {
                        None => self.pop().raise(
                            InterpreterErrorView::RuntimeError(
                                RuntimeErrorView::RuntimeError(0, "Invalid module path"@),
                            ),
                        ),
                        Some(name) => if registered_module(
                            self.scopes,
                            self.environment as int,
                            name,
                        ) is Some {
                            self.pop().deliver(ValueView::String(asked))
                        } else {
                            self.pop().push(
                                FrameView::Load { name, path: asked, file, directory },
                            ).ask(host_call(Service::LoadModule, seq![file], 0))
                        },
                    },
                }
            } else {
                self.raise(unexpected_reply())
            },
            HostReplyView::Unreadable => if self.stack.len() > 0 && self.stack.last() is Load {
                self.pop().raise(
                    InterpreterErrorView::RuntimeError(
                        RuntimeErrorView::RuntimeError(
                            0,
                            "Could not read module file: "@ + self.stack.last()->Load_file,
                        ),
                    ),
                )
            } else {
                self.raise(unexpected_reply())
            },
            HostReplyView::Program(statements) => if self.stack.len() > 0
                && self.stack.last() is Load {
                let name = self.stack.last()->Load_name;
                let path = self.stack.last()->Load_path;
                let directory = self.stack.last()->Load_directory;
                let root = self.scopes.len() as usize;
                self.pop().with_scopes(
                    with_native_functions(
                        self.scopes.push(empty_scope(None, 0, directory)),
                        root as int,
                    ),
                ).push(
                    FrameView::Module {
                        name,
                        path,
                        environment: root,
                        importer: self.environment,
                        line: self.line,
                    },
                ).push(FrameView::Program { statements, next: 0 }).enter(root).deliver(
                    ValueView::Nil,
                )
            } else {
                self.raise(unexpected_reply())
            },
        }
    }
}

/// The error for a reply that does not fit what was asked.
pub open spec fn unexpected_reply() -> InterpreterErrorView {
    InterpreterErrorView::UnknownError(UnknownErrorKind::UnknownError)
}

} // verus!
