//! The evaluator: the machine of `machine`, in executable form.
//!
//! `Interpreter::step` does one step and tells its caller what to do next;
//! `Interpreter::resume` takes the reply of the host. The caller owns the
//! programs and the loop.

pub mod environment;
pub mod preservation;
pub mod laws;
pub mod machine;
pub mod native;
pub mod native_functions;
pub mod soundness;
pub mod value;

use vstd::prelude::*;

use crate::error::{Failure, InterpreterError, RuntimeErrorKind, UnknownErrorKind};
use crate::interpreter::environment::{Environment, Module, EQUALITY_DEPTH};
use crate::interpreter::machine::{
    body_views,
    bound,
    frame_views,
    installed,
    lexemes,
    method_bodies,
    method_table,
    Action,
    Control,
    Frame,
    FrameView,
    HostReply,
    LoopPhase,
    MachineView,
};
use crate::interpreter::native::{HostCall, NativeOutcome, Service};
use crate::interpreter::preservation::{
    lemma_fresh_sound,
    lemma_pushed_sound,
    lemma_resume_keeps_sound,
    lemma_step_keeps_sound,
    machine_sound,
};
use crate::interpreter::native_functions::with_native_functions;
use crate::interpreter::value::{
    copy_texts,
    copy_values,
    entry_views,
    index_of_number,
    is_truthy_value,
    is_zero_number,
    lemma_value_views_push,
    lemma_value_views_update,
    negate_number,
    position_of,
    promise_views,
    put_entry,
    text_views,
    value_views,
    PromiseState,
    Task,
    TextStyle,
    Value,
    ValueView,
};
use crate::parser::Expr;
use crate::tokenizer::{Token, TokenType};

verus! {

pub struct Interpreter<'a> {
    environment: Environment,
    current: usize,
    line: usize,
    control: Control<'a>,
    stack: Vec<Frame<'a>>,
    promises: Vec<PromiseState>,
    bodies: Vec<&'a Expr>,
}

impl<'a> View for Interpreter<'a> {
    type V = MachineView;

    closed spec fn view(&self) -> MachineView {
        MachineView {
            control: self.control@,
            stack: frame_views(self.stack@),
            environment: self.current,
            scopes: self.environment@,
            promises: promise_views(self.promises@),
            bodies: body_views(self.bodies@),
            line: self.line,
        }
    }
}

/// The lexemes of `tokens`.
fn lexemes_of(tokens: &Vec<Token>) -> (texts: Vec<String>)
    ensures
        text_views(texts@) == lexemes(tokens@),
{
    let mut texts: Vec<String> = Vec::new();
    let mut i: usize = 0;
    while i < tokens.len()
        invariant
            i <= tokens.len(),
            texts@.len() == i,
            forall|k: int| 0 <= k < i ==> texts@[k]@ == tokens@[k].lexeme@,
        decreases tokens.len() - i,
    {
        texts.push(tokens[i].lexeme.clone());
        i += 1;
    }
    assert(text_views(texts@) =~= lexemes(tokens@));
    texts
}

impl<'a> Interpreter<'a> {
    /// The tables of the environment are in order.
    pub closed spec fn wf(&self) -> bool {
        self.environment.wf()
    }

    /// The state of a machine that has nothing to do, on the scopes
    /// `scopes` and in the scope `environment`.
    pub open spec fn fresh(scopes: Seq<crate::interpreter::environment::ScopeView>, environment: usize)
        -> MachineView {
        MachineView {
            control: crate::interpreter::machine::ControlView::Deliver(ValueView::Nil),
            stack: Seq::empty(),
            environment,
            scopes,
            promises: Seq::empty(),
            bodies: Seq::empty(),
            line: 0,
        }
    }

    /// A machine on a new environment whose one scope knows the natives and
    /// resolves imports against the empty path.
    pub fn new() -> (interpreter: Self)
        ensures
            interpreter.wf(),
            interpreter@ == Self::fresh(
                with_native_functions(
                    seq![crate::interpreter::environment::empty_scope(None, 0, Seq::empty())],
                    0,
                ),
                0,
            ),
            machine_sound(interpreter@),
    {
        Self::new_with_base_path(String::new())
    }

    /// A machine on `environment`, in its scope `current`.
    pub fn new_with_environment(environment: Environment, current: usize) -> (interpreter: Self)
        requires
            environment.wf(),
        ensures
            interpreter.wf(),
            interpreter@ == Self::fresh(environment@, current),
    {
        let interpreter = Interpreter {
            environment,
            current,
            line: 0,
            control: Control::Deliver(Value::Nil),
            stack: Vec::new(),
            promises: Vec::new(),
            bodies: Vec::new(),
        };
        assert(interpreter@.stack =~= Seq::empty());
        assert(interpreter@.promises =~= Seq::empty());
        assert(interpreter@.bodies =~= Seq::empty());
        interpreter
    }

    /// A machine on a new environment whose one scope knows the natives and
    /// resolves imports against `base_path`.
    pub fn new_with_base_path(base_path: String) -> (interpreter: Self)
        ensures
            interpreter.wf(),
            interpreter@ == Self::fresh(
                with_native_functions(
                    seq![crate::interpreter::environment::empty_scope(None, 0, base_path@)],
                    0,
                ),
                0,
            ),
            machine_sound(interpreter@),
    {
        proof {
            lemma_fresh_sound(base_path@);
        }
        let mut environment = Environment::new(base_path);
        environment.register_native_functions(0);
        Self::new_with_environment(environment, 0)
    }

    /// The environment.
    pub fn environment(&self) -> (environment: &Environment)
        ensures
            environment@ == self@.scopes,
            environment.wf() == self.wf(),
    {
        &self.environment
    }

    /// The handle of the current scope.
    pub fn current(&self) -> (scope: usize)
        ensures
            scope == self@.environment,
    {
        self.current
    }

    /// The line of the statement under way.
    pub fn line(&self) -> (line: usize)
        ensures
            line == self@.line,
    {
        self.line
    }

    // -----------------------------------------------------------------------
    // Small things
    // -----------------------------------------------------------------------

    fn goto(&mut self, control: Control<'a>)
        requires
            old(self).wf(),
        ensures
            final(self).wf(),
            final(self)@ == old(self)@.goto(control@),
    {
        self.control = control;
    }

    fn deliver(&mut self, value: Value)
        requires
            old(self).wf(),
        ensures
            final(self).wf(),
            final(self)@ == old(self)@.deliver(value@),
    {
        self.control = Control::Deliver(value);
    }

    fn raise(&mut self, error: InterpreterError)
        requires
            old(self).wf(),
        ensures
            final(self).wf(),
            final(self)@ == old(self)@.raise(error@),
    {
        self.control = Control::Raise(error);
    }

    fn fail(&mut self, failure: Failure, line: usize)
        requires
            old(self).wf(),
        ensures
            final(self).wf(),
            final(self)@ == old(self)@.fail(failure, line),
    {
        self.raise(InterpreterError::runtime_error(RuntimeErrorKind::at(failure, line)));
    }

    fn ask(&mut self, call: HostCall)
        requires
            old(self).wf(),
        ensures
            final(self).wf(),
            final(self)@ == old(self)@.ask(call@),
    {
        self.control = Control::Ask(call);
    }

    fn push(&mut self, frame: Frame<'a>)
        requires
            old(self).wf(),
        ensures
            final(self).wf(),
            final(self)@ == old(self)@.push(frame@),
    {
        self.stack.push(frame);
        assert(frame_views(self.stack@) =~= frame_views(old(self).stack@).push(frame@));
    }

    fn pop(&mut self) -> (frame: Frame<'a>)
        requires
            old(self).wf(),
            old(self)@.stack.len() > 0,
        ensures
            final(self).wf(),
            final(self)@ == old(self)@.pop(),
            frame@ == old(self)@.stack.last(),
    {
        let frame = self.stack.pop().unwrap();
        assert(frame_views(self.stack@) =~= frame_views(old(self).stack@).drop_last());
        frame
    }

    fn depth(&self) -> (n: usize)
        ensures
            n == self@.stack.len(),
    {
        self.stack.len()
    }

    fn enter(&mut self, environment: usize)
        requires
            old(self).wf(),
        ensures
            final(self).wf(),
            final(self)@ == old(self)@.enter(environment),
    {
        self.current = environment;
    }

    fn at_line(&mut self, line: usize)
        requires
            old(self).wf(),
        ensures
            final(self).wf(),
            final(self)@ == old(self)@.at_line(line),
    {
        self.line = line;
    }

    fn define(&mut self, scope: usize, name: &str, value: Value)
        requires
            old(self).wf(),
        ensures
            final(self).wf(),
            final(self)@ == old(self)@.define(scope, name@, value@),
    {
        self.environment.define(scope, name, value);
    }

    fn open_scope(&mut self, parent: usize) -> (scope: usize)
        requires
            old(self).wf(),
        ensures
            final(self).wf(),
            final(self)@ == old(self)@.open_scope(parent),
            scope == old(self)@.scopes.len(),
    {
        self.environment.new_with_enclosing(Some(parent))
    }

    fn remember(&mut self, body: &'a Expr) -> (handle: usize)
        requires
            old(self).wf(),
        ensures
            final(self).wf(),
            final(self)@ == old(self)@.with_bodies(old(self)@.bodies.push(*body)),
            handle == old(self)@.bodies.len(),
    {
        let handle = self.bodies.len();
        self.bodies.push(body);
        assert(body_views(self.bodies@) =~= body_views(old(self).bodies@).push(*body));
        handle
    }

    fn promise(&mut self, task: Task)
        requires
            old(self).wf(),
        ensures
            final(self).wf(),
            final(self)@ == old(self)@.promise(task@),
    {
        assert(promise_views(self.promises@).len() == self.promises@.len());
        let value = Value::create_promise(&mut self.promises, task);
        self.deliver(value);
    }

    fn settle(&mut self, promise: usize, state: PromiseState)
        requires
            old(self).wf(),
        ensures
            final(self).wf(),
            final(self)@ == old(self)@.settle(promise, state@),
    {
        if promise < self.promises.len() {
            let pending = match &self.promises[promise] {
                PromiseState::Pending(_) => true,
                _ => false,
            };
            assert(promise_views(self.promises@)[promise as int] == self.promises@[promise as int]@);
            if pending {
                self.promises.set(promise, state);
                assert(promise_views(self.promises@) =~= promise_views(old(self).promises@).update(
                    promise as int,
                    state@,
                ));
            }
        }
    }

    /// Binds the first `count` of `params` to the first `count` of `args`
    /// in `scope`.
    fn bind(&mut self, scope: usize, params: &Vec<String>, args: &Vec<Value>, count: usize)
        requires
            old(self).wf(),
            count <= params.len(),
            count <= args.len(),
        ensures
            final(self).wf(),
            final(self)@ == old(self)@.with_scopes(
                bound(
                    old(self)@.scopes,
                    scope as int,
                    text_views(params@),
                    value_views(args@),
                    count as nat,
                ),
            ),
    {
        let ghost start = self@;
        let ghost names = text_views(params@);
        let ghost values = value_views(args@);
        let mut i: usize = 0;
        while i < count
            invariant
                self.wf(),
                i <= count,
                count <= params.len(),
                count <= args.len(),
                names == text_views(params@),
                values == value_views(args@),
                self@ == start.with_scopes(
                    bound(start.scopes, scope as int, names, values, i as nat),
                ),
            decreases count - i,
        {
            assert(names[i as int] == params@[i as int]@);
            assert(values[i as int] == args@[i as int]@);
            self.define(scope, params[i].as_str(), args[i].clone());
            i += 1;
        }
    }

    /// Binds `methods` in `scope`.
    fn install(&mut self, scope: usize, methods: &Vec<(String, Value)>)
        requires
            old(self).wf(),
        ensures
            final(self).wf(),
            final(self)@ == old(self)@.with_scopes(
                installed(
                    old(self)@.scopes,
                    scope as int,
                    entry_views(methods@),
                    entry_views(methods@).len(),
                ),
            ),
    {
        let ghost start = self@;
        let ghost entries = entry_views(methods@);
        let mut i: usize = 0;
        while i < methods.len()
            invariant
                self.wf(),
                i <= methods.len(),
                entries == entry_views(methods@),
                self@ == start.with_scopes(installed(start.scopes, scope as int, entries, i as nat)),
            decreases methods.len() - i,
        {
            assert(entries[i as int] == (methods@[i as int].0@, methods@[i as int].1@));
            self.define(scope, methods[i].0.as_str(), methods[i].1.clone());
            i += 1;
        }
    }

    // -----------------------------------------------------------------------
    // Beginning an expression
    // -----------------------------------------------------------------------

    fn run(&mut self, body: &'a Expr)
        requires
            old(self).wf(),
        ensures
            final(self).wf(),
            final(self)@ == old(self)@.run(*body),
    {
        match body {
            Expr::Block(statements) => {
                self.push(Frame::Sequence { statements, next: 0 });
                self.deliver(Value::Nil);
            },
            _ => {
                self.goto(Control::Evaluate(body));
            },
        }
    }

    /// Declares a class: every member must be a function declaration.
    fn declare_class(&mut self, name: &'a Token, members: &'a Vec<Expr>)
        requires
            old(self).wf(),
        ensures
            final(self).wf(),
            final(self)@ == old(self)@.evaluate(Expr::Class(*name, *members)),
    {
        let ghost start = self@;
        let mut i: usize = 0;
        while i < members.len()
            invariant
                self.wf(),
                self@ == start,
                start == old(self)@,
                i <= members.len(),
                forall|k: int| 0 <= k < i ==> (#[trigger] members@[k]) is Function,
            decreases members.len() - i,
        {
            match &members[i] {
                Expr::Function(_, _, _) => {},
                _ => {
                    let line = self.line;
                    self.fail(Failure::InvalidClassMethod, line);
                    return;
                },
            }
            i += 1;
        }
        let ghost first = self@.bodies.len();
        let mut table: Vec<(String, Value)> = Vec::new();
        let mut j: usize = 0;
        assert(entry_views(table@) =~= method_table(members@, first, 0));
        assert(self@.bodies =~= start.bodies + method_bodies(members@, 0));
        while j < members.len()
            invariant
                self.wf(),
                start == old(self)@,
                j <= members.len(),
                first == start.bodies.len(),
                forall|k: int| 0 <= k < members@.len() ==> (#[trigger] members@[k]) is Function,
                entry_views(table@) == method_table(members@, first, j as nat),
                self@.bodies == start.bodies + method_bodies(members@, j as nat),
                self@ == start.with_bodies(self@.bodies),
            decreases members.len() - j,
        {
            match &members[j] {
                Expr::Function(method, params, body) => {
                    proof {
                        lemma_method_bodies_len(members@, j as nat);
                    }
                    let handle = self.remember(&**body);
                    assert(handle == first + j);
                    let value = Value::Function(method.lexeme.clone(), lexemes_of(params), handle);
                    put_entry(&mut table, method.lexeme.clone(), value);
                    assert(self@.bodies =~= start.bodies + method_bodies(
                        members@,
                        (j + 1) as nat,
                    ));
                },
                _ => {},
            }
            j += 1;
        }
        let class = Value::Class(name.lexeme.clone(), table);
        let current = self.current;
        self.define(current, name.lexeme.as_str(), class.clone());
        self.deliver(class);
    }

    fn evaluate_literal(&mut self, token: &'a Token, text: &'a String)
        requires
            old(self).wf(),
        ensures
            final(self).wf(),
            final(self)@ == old(self)@.evaluate(Expr::Literal(*token, *text)),
    {
        match token.token_type {
            TokenType::Number => {
                self.ask(HostCall::with_text(Service::ParseNumber, text.clone(), token.line));
            },
            TokenType::STRING => {
                self.deliver(Value::String(text.clone()));
            },
            TokenType::True => {
                self.deliver(Value::Boolean(true));
            },
            TokenType::False => {
                self.deliver(Value::Boolean(false));
            },
            TokenType::Nil => {
                self.deliver(Value::Nil);
            },
            _ => {
                self.fail(Failure::InvalidLiteral, token.line);
            },
        }
    }

    fn undefined(&mut self, line: usize, name: &String)
        requires
            old(self).wf(),
        ensures
            final(self).wf(),
            final(self)@ == old(self)@.raise(
                crate::interpreter::machine::undefined_variable(line, name@),
            ),
    {
        self.raise(
            InterpreterError::runtime_error(RuntimeErrorKind::UndefinedVariable(line, name.clone())),
        );
    }

    /// Begins the evaluation of `expr`.
    fn begin(&mut self, expr: &'a Expr)
        requires
            old(self).wf(),
        ensures
            final(self).wf(),
            final(self)@ == old(self)@.evaluate(*expr),
    {
        match expr {
            Expr::Literal(token, text) => {
                self.evaluate_literal(token, text);
            },
            Expr::Variable(name) => {
                match self.environment.get(self.current, name.lexeme.as_str()) {
                    Some(value) => {
                        self.deliver(value);
                    },
                    None => {
                        let line = self.line;
                        self.undefined(line, &name.lexeme);
                    },
                }
            },
            Expr::Array(elements) => {
                if elements.len() == 0 {
                    let items: Vec<Value> = Vec::new();
                    assert(value_views(items@) =~= Seq::empty());
                    self.deliver(Value::Array(items));
                } else {
                    let done: Vec<Value> = Vec::new();
                    assert(value_views(done@) =~= Seq::empty());
                    self.push(Frame::ArrayItems { elements, done });
                    self.goto(Control::Evaluate(&elements[0]));
                }
            },
            Expr::Dictionary(elements) => {
                if elements.len() == 0 {
                    let entries: Vec<(String, Value)> = Vec::new();
                    assert(entry_views(entries@) =~= Seq::empty());
                    self.deliver(Value::Dictionary(entries));
                } else {
                    let done: Vec<(String, Value)> = Vec::new();
                    assert(entry_views(done@) =~= Seq::empty());
                    self.push(Frame::DictionaryKey { elements, done, position: 0 });
                    self.goto(Control::Evaluate(&elements[0].0));
                }
            },
            Expr::Binary(left, operator, right) => {
                self.push(Frame::BinaryLeft { operator, right: &**right });
                self.goto(Control::Evaluate(&**left));
            },
            Expr::Unary(operator, operand) => {
                self.push(Frame::Unary { operator });
                self.goto(Control::Evaluate(&**operand));
            },
            Expr::Assign(name, value) => {
                self.push(Frame::Assign { name });
                self.goto(Control::Evaluate(&**value));
            },
            Expr::SetMember(target, name, value) => {
                match self.environment.get(self.current, target.lexeme.as_str()) {
                    Some(object) => {
                        self.push(Frame::SetValue { target, object, name: &**name });
                        self.goto(Control::Evaluate(&**value));
                    },
                    None => {
                        let line = self.line;
                        self.undefined(line, &target.lexeme);
                    },
                }
            },
            Expr::Get(object, name) => {
                self.push(Frame::GetObject { name: &**name });
                self.goto(Control::Evaluate(&**object));
            },
            Expr::Let(name, initializer) => {
                self.push(Frame::Let { name });
                self.goto(Control::Evaluate(&**initializer));
            },
            Expr::Block(statements) => {
                let outer = self.current;
                let scope = self.open_scope(outer);
                self.push(Frame::Restore { environment: outer });
                self.push(Frame::Sequence { statements, next: 0 });
                self.enter(scope);
                self.deliver(Value::Nil);
            },
            Expr::Function(name, params, body) => {
                let handle = self.remember(&**body);
                let value = Value::Function(name.lexeme.clone(), lexemes_of(params), handle);
                let current = self.current;
                self.define(current, name.lexeme.as_str(), value.clone());
                self.deliver(value);
            },
            Expr::AsyncFunction(name, params, body) => {
                let handle = self.remember(&**body);
                let value = Value::AsyncFunction(name.lexeme.clone(), lexemes_of(params), handle);
                let current = self.current;
                self.define(current, name.lexeme.as_str(), value.clone());
                self.deliver(value);
            },
            Expr::Class(name, members) => {
                self.declare_class(name, members);
            },
            Expr::Call(owner, callee, arguments) => {
                match owner {
                    Some(receiver) => {
                        self.push(Frame::CallOwner { callee: &**callee, arguments });
                        self.goto(Control::Evaluate(&**receiver));
                    },
                    None => {
                        let caller = self.current;
                        self.push(Frame::CallCallee { owner: None, arguments, caller });
                        self.goto(Control::Evaluate(&**callee));
                    },
                }
            },
            Expr::Await(operand) => {
                self.push(Frame::Await);
                self.goto(Control::Evaluate(&**operand));
            },
            Expr::Grouping(inner) => {
                self.goto(Control::Evaluate(&**inner));
            },
            Expr::Nil => {
                self.deliver(Value::Nil);
            },
            Expr::If(condition, then_branch, else_branch) => {
                self.push(
                    Frame::If { then_branch: &**then_branch, else_branch: &**else_branch },
                );
                self.goto(Control::Evaluate(&**condition));
            },
            Expr::Logical(left, operator, right) => {
                self.push(Frame::Logical { operator, right: &**right });
                self.goto(Control::Evaluate(&**left));
            },
            Expr::While(condition, body) => {
                self.push(
                    Frame::Loop {
                        condition: &**condition,
                        increment: None,
                        body: &**body,
                        phase: LoopPhase::Condition,
                        last: Value::Nil,
                    },
                );
                self.goto(Control::Evaluate(&**condition));
            },
            Expr::For(initializer, condition, increment, body) => {
                self.push(
                    Frame::Loop {
                        condition: &**condition,
                        increment: Some(&**increment),
                        body: &**body,
                        phase: LoopPhase::Initializer,
                        last: Value::Nil,
                    },
                );
                self.goto(Control::Evaluate(&**initializer));
            },
            Expr::Return(_, value) => {
                self.push(Frame::Return);
                self.goto(Control::Evaluate(&**value));
            },
            Expr::Import(path) => {
                self.push(Frame::Import);
                self.goto(Control::Evaluate(&**path));
            },
            Expr::TryCatch(handler) => {
                let environment = self.current;
                self.push(Frame::Try { handler, environment });
                self.goto(Control::Evaluate(&*handler.try_block));
            },
        }
    }

    // -----------------------------------------------------------------------
    // Operators and members
    // -----------------------------------------------------------------------

    fn arithmetic(
        &mut self,
        service: Service,
        left: Value,
        right: Value,
        checked: bool,
        otherwise: Failure,
    )
        requires
            old(self).wf(),
        ensures
            final(self).wf(),
            final(self)@ == old(self)@.arithmetic(service, left@, right@, checked, otherwise),
    {
        let line = self.line;
        match (left, right) {
            (Value::Number(a), Value::Number(b)) => {
                if checked && is_zero_number(&b) {
                    self.fail(Failure::DivisionByZero, line);
                } else {
                    self.ask(HostCall::with_texts(service, a, b, line));
                }
            },
            _ => {
                self.fail(otherwise, line);
            },
        }
    }

    fn add(&mut self, left: Value, right: Value)
        requires
            old(self).wf(),
            !(left@ is Number && right@ is Number),
        ensures
            final(self).wf(),
            final(self)@ == old(self)@.deliver(
                ValueView::String(
                    crate::interpreter::value::value_text(left@, TextStyle::Plain)
                        + crate::interpreter::value::value_text(right@, TextStyle::Plain),
                ),
            ),
    {
        let mut text = left.to_string();
        let other = right.to_string();
        text.append(other.as_str());
        self.deliver(Value::String(text));
    }

    fn binary(&mut self, operator: &'a Token, left: Value, right: Value)
        requires
            old(self).wf(),
        ensures
            final(self).wf(),
            final(self)@ == old(self)@.binary(*operator, left@, right@),
    {
        match operator.token_type {
            TokenType::Plus => {
                let numbers = match (&left, &right) {
                    (Value::Number(_), Value::Number(_)) => true,
                    _ => false,
                };
                if numbers {
                    self.arithmetic(Service::Add, left, right, false, Failure::OperandsMustBeNumber);
                } else {
                    self.add(left, right);
                }
            },
            TokenType::Minus => {
                self.arithmetic(
                    Service::Subtract,
                    left,
                    right,
                    false,
                    Failure::OperandsMustBeNumber,
                );
            },
            TokenType::Star => {
                self.arithmetic(
                    Service::Multiply,
                    left,
                    right,
                    false,
                    Failure::OperandsMustBeNumbersOrStrings,
                );
            },
            TokenType::Slash => {
                self.arithmetic(Service::Divide, left, right, true, Failure::OperandsMustBeNumber);
            },
            TokenType::Modulo => {
                self.arithmetic(
                    Service::Remainder,
                    left,
                    right,
                    true,
                    Failure::OperandsMustBeNumber,
                );
            },
            TokenType::Greater => {
                self.arithmetic(
                    Service::Greater,
                    left,
                    right,
                    false,
                    Failure::OperandsMustBeNumber,
                );
            },
            TokenType::GreaterEqual => {
                self.arithmetic(
                    Service::GreaterEqual,
                    left,
                    right,
                    false,
                    Failure::OperandsMustBeNumber,
                );
            },
            TokenType::Less => {
                self.arithmetic(Service::Less, left, right, false, Failure::OperandsMustBeNumber);
            },
            TokenType::LessEqual => {
                self.arithmetic(
                    Service::LessEqual,
                    left,
                    right,
                    false,
                    Failure::OperandsMustBeNumber,
                );
            },
            TokenType::EqualEqual => {
                let equal = self.environment.equal(&left, &right, EQUALITY_DEPTH);
                self.deliver(Value::Boolean(equal));
            },
            TokenType::BandEqual => {
                let equal = self.environment.equal(&left, &right, EQUALITY_DEPTH);
                self.deliver(Value::Boolean(!equal));
            },
            _ => {
                self.fail(Failure::InvalidBinaryOperator, operator.line);
            },
        }
    }

    fn unary(&mut self, operator: &'a Token, operand: Value)
        requires
            old(self).wf(),
        ensures
            final(self).wf(),
            final(self)@ == old(self)@.unary(*operator, operand@),
    {
        let line = self.line;
        match operator.token_type {
            TokenType::Minus => {
                match operand {
                    Value::Number(text) => {
                        self.deliver(Value::Number(negate_number(&text)));
                    },
                    _ => {
                        self.fail(Failure::OperandsMustBeNumber, line);
                    },
                }
            },
            TokenType::Bang => {
                let truth = is_truthy_value(&operand);
                self.deliver(Value::Boolean(!truth));
            },
            _ => {
                self.fail(Failure::InvalidUnaryOperator, operator.line);
            },
        }
    }

    fn get_member(&mut self, object: Value, name: Value)
        requires
            old(self).wf(),
        ensures
            final(self).wf(),
            final(self)@ == old(self)@.get_member(object@, name@),
    {
        let line = self.line;
        match (object, name) {
            (Value::Instance(_, instance), Value::String(field)) => {
                match self.environment.get_field(instance, field.as_str()) {
                    Some(value) => {
                        self.deliver(value);
                    },
                    None => {
                        self.fail(Failure::InvalidGet, line);
                    },
                }
            },
            (Value::Array(items), Value::Number(text)) => {
                assert(value_views(items@).len() == items@.len());
                match index_of_number(&text) {
                    Some(index) => {
                        if index < items.len() {
                            assert(value_views(items@)[index as int] == items@[index as int]@);
                            self.deliver(items[index].clone());
                        } else {
                            self.fail(Failure::InvalidGet, line);
                        }
                    },
                    None => {
                        self.fail(Failure::InvalidGet, line);
                    },
                }
            },
            (Value::Dictionary(entries), Value::String(key)) => {
                match position_of(&entries, key.as_str()) {
                    Some(i) => {
                        assert(entry_views(entries@)[i as int].1 == entries@[i as int].1@);
                        self.deliver(entries[i].1.clone());
                    },
                    None => {
                        self.fail(Failure::InvalidGet, line);
                    },
                }
            },
            _ => {
                self.fail(Failure::InvalidGet, line);
            },
        }
    }

    fn store(&mut self, target: &'a Token, changed: Value, value: Value)
        requires
            old(self).wf(),
        ensures
            final(self).wf(),
            final(self)@ == old(self)@.store(*target, changed@, value@),
    {
        match self.environment.assign(self.current, target.lexeme.as_str(), changed) {
            Ok(_) => {
                self.deliver(value);
            },
            Err(error) => {
                self.raise(error);
            },
        }
    }

    fn set_member(&mut self, target: &'a Token, object: Value, value: Value, name: Value)
        requires
            old(self).wf(),
        ensures
            final(self).wf(),
            final(self)@ == old(self)@.set_member(*target, object@, value@, name@),
    {
        let line = self.line;
        match (object, name) {
            (Value::Instance(_, instance), Value::String(field)) => {
                if instance < self.environment.len() {
                    self.define(instance, field.as_str(), value.clone());
                    self.deliver(value);
                } else {
                    self.fail(Failure::InvalidSet, line);
                }
            },
            (Value::Array(items), Value::Number(text)) => {
                assert(value_views(items@).len() == items@.len());
                match index_of_number(&text) {
                    Some(index) => {
                        if index < items.len() {
                            let mut changed = items;
                            let written = value.clone();
                            proof {
                                lemma_value_views_update(changed@, index as int, written);
                            }
                            changed.set(index, written);
                            self.store(target, Value::Array(changed), value);
                        } else {
                            self.fail(Failure::InvalidSet, line);
                        }
                    },
                    None => {
                        self.fail(Failure::InvalidSet, line);
                    },
                }
            },
            (Value::Dictionary(entries), Value::String(key)) => {
                let mut changed = entries;
                put_entry(&mut changed, key, value.clone());
                self.store(target, Value::Dictionary(changed), value);
            },
            _ => {
                self.fail(Failure::InvalidSet, line);
            },
        }
    }

    // -----------------------------------------------------------------------
    // Calls
    // -----------------------------------------------------------------------

    fn call(
        &mut self,
        params: &Vec<String>,
        body: usize,
        args: &Vec<Value>,
        parent: usize,
        boundary: Frame<'a>,
    )
        requires
            old(self).wf(),
        ensures
            final(self).wf(),
            final(self)@ == old(self)@.call(
                text_views(params@),
                body,
                value_views(args@),
                parent,
                boundary@,
            ),
    {
        let line = self.line;
        assert(value_views(args@).len() == args@.len());
        assert(text_views(params@).len() == params@.len());
        if args.len() != params.len() {
            self.raise(
                InterpreterError::runtime_error(
                    RuntimeErrorKind::ExpextedArgument(line, params.len(), args.len()),
                ),
            );
        } else if body >= self.bodies.len() {
            self.fail(Failure::UndefinedFunction, line);
        } else {
            let code: &'a Expr = self.bodies[body];
            assert(body_views(self.bodies@)[body as int] == *code);
            let scope = self.open_scope(parent);
            self.bind(scope, params, args, params.len());
            self.push(boundary);
            self.enter(scope);
            self.run(code);
        }
    }

    fn instantiate(&mut self, name: String, methods: Vec<(String, Value)>, args: Vec<Value>)
        requires
            old(self).wf(),
        ensures
            final(self).wf(),
            final(self)@ == old(self)@.instantiate(
                name@,
                entry_views(methods@),
                value_views(args@),
            ),
    {
        let line = self.line;
        let caller = self.current;
        assert(value_views(args@).len() == args@.len());
        match position_of(&methods, "_construct") {
            Some(i) => {
                assert(entry_views(methods@)[i as int].1 == methods@[i as int].1@);
                match &methods[i].1 {
                    Value::Function(_, params, body) => {
                        let body = *body;
                        if body < self.bodies.len() {
                            let names = copy_texts(params);
                            assert(text_views(names@).len() == names@.len());
                            let code: &'a Expr = self.bodies[body];
                            assert(body_views(self.bodies@)[body as int] == *code);
                            let instance = self.open_scope(caller);
                            self.define(instance, "this", Value::Instance(name.clone(), instance));
                            let count = if names.len() <= args.len() {
                                names.len()
                            } else {
                                args.len()
                            };
                            self.bind(instance, &names, &args, count);
                            self.push(Frame::Construct { name, instance, methods, caller });
                            self.enter(instance);
                            self.run(code);
                        } else {
                            self.fail(Failure::InvalidClassMethod, line);
                        }
                    },
                    _ => {
                        self.fail(Failure::InvalidClassMethod, line);
                    },
                }
            },
            None => {
                let instance = self.open_scope(caller);
                self.define(instance, "this", Value::Instance(name.clone(), instance));
                self.install(instance, &methods);
                self.deliver(Value::Instance(name, instance));
            },
        }
    }

    fn dispatch(&mut self, owner: Option<usize>, callee: Value, args: Vec<Value>)
        requires
            old(self).wf(),
        ensures
            final(self).wf(),
            final(self)@ == old(self)@.dispatch(owner, callee@, value_views(args@)),
    {
        let line = self.line;
        let caller = self.current;
        match callee {
            Value::Function(_, params, body) => {
                let parent = match owner {
                    Some(instance) => instance,
                    None => caller,
                };
                self.call(&params, body, &args, parent, Frame::Call { caller });
            },
            Value::AsyncFunction(name, params, body) => {
                let callee = Value::AsyncFunction(name, params, body);
                self.promise(Task::Script { callee, arguments: args, environment: caller });
            },
            Value::NativeFunction(native) => {
                match native.call(&args, &self.environment) {
                    NativeOutcome::Value(value) => {
                        self.deliver(value);
                    },
                    NativeOutcome::Error(error) => {
                        self.raise(error);
                    },
                    NativeOutcome::Host(call) => {
                        self.ask(call);
                    },
                }
            },
            Value::Class(name, methods) => {
                self.instantiate(name, methods, args);
            },
            _ => {
                self.fail(Failure::UndefinedFunction, line);
            },
        }
    }

    fn await_value(&mut self, value: Value)
        requires
            old(self).wf(),
        ensures
            final(self).wf(),
            final(self)@ == old(self)@.await_value(value@),
    {
        let line = self.line;
        let caller = self.current;
        match value {
            Value::Promise(promise) => {
                if promise < self.promises.len() {
                    assert(promise_views(self.promises@)[promise as int]
                        == self.promises@[promise as int]@);
                    match &self.promises[promise] {
                        PromiseState::Fulfilled(result) => {
                            let result = result.clone();
                            self.deliver(result);
                        },
                        PromiseState::Rejected(_) => {
                            self.fail(Failure::PromiseRejected, line);
                        },
                        PromiseState::Pending(Task::Host(task)) => {
                            let task = *task;
                            self.push(Frame::AwaitHost { promise });
                            self.ask(HostCall::plain(Service::AwaitTask, task));
                        },
                        PromiseState::Pending(Task::Script { callee, arguments, environment }) => {
                            let parent = *environment;
                            match callee {
                                Value::AsyncFunction(_, params, body) => {
                                    let names = copy_texts(params);
                                    let body = *body;
                                    let args = copy_values(arguments);
                                    self.call(
                                        &names,
                                        body,
                                        &args,
                                        parent,
                                        Frame::AwaitScript { promise, caller },
                                    );
                                },
                                _ => {
                                    self.fail(Failure::UndefinedFunction, line);
                                },
                            }
                        },
                    }
                } else {
                    self.fail(Failure::InvalidCall, line);
                }
            },
            _ => {
                self.fail(Failure::InvalidCall, line);
            },
        }
    }

    // -----------------------------------------------------------------------
    // A value arrives at a frame
    // -----------------------------------------------------------------------

    fn receive_statements(&mut self, frame: Frame<'a>, value: Value)
        requires
            old(self).wf(),
        ensures
            final(self).wf(),
            final(self)@ == old(self)@.receive_statements(frame@, value@),
    {
        match frame {
            Frame::Program { statements, next } => {
                if next < statements.len() {
                    self.at_line(statements[next].1);
                    self.push(Frame::Program { statements, next: next + 1 });
                    self.goto(Control::Evaluate(&statements[next].0));
                } else {
                    self.deliver(value);
                }
            },
            Frame::Sequence { statements, next } => {
                if next < statements.len() {
                    self.push(Frame::Sequence { statements, next: next + 1 });
                    self.goto(Control::Evaluate(&statements[next]));
                } else {
                    self.deliver(value);
                }
            },
            Frame::Restore { environment } => {
                self.enter(environment);
                self.deliver(value);
            },
            Frame::Try { handler, environment } => {
                self.enter(environment);
                self.deliver(value);
            },
            Frame::Module { name, path, environment, importer, line } => {
                let result = Value::String(path.clone());
                self.environment.import_module(importer, Module { name, environment, path });
                self.enter(importer);
                self.at_line(line);
                self.deliver(result);
            },
            _ => {
                self.deliver(value);
            },
        }
    }

    fn receive_literal(&mut self, frame: Frame<'a>, value: Value)
        requires
            old(self).wf(),
        ensures
            final(self).wf(),
            final(self)@ == old(self)@.receive_literal(frame@, value@),
    {
        let line = self.line;
        match frame {
            Frame::ArrayItems { elements, done } => {
                let mut done = done;
                assert(value_views(done@).len() == done@.len());
                proof {
                    lemma_value_views_push(done@, value);
                }
                let position = done.len();
                done.push(value);
                if position < elements.len() && position + 1 < elements.len() {
                    self.push(Frame::ArrayItems { elements, done });
                    self.goto(Control::Evaluate(&elements[position + 1]));
                } else {
                    self.deliver(Value::Array(done));
                }
            },
            Frame::DictionaryKey { elements, done, position } => {
                if position < elements.len() {
                    self.push(Frame::DictionaryValue { elements, done, position, key: value });
                    self.goto(Control::Evaluate(&elements[position].1));
                } else {
                    self.deliver(Value::Dictionary(done));
                }
            },
            Frame::DictionaryValue { elements, done, position, key } => {
                match key {
                    Value::String(name) => {
                        let mut done = done;
                        put_entry(&mut done, name, value);
                        if position < elements.len() && position + 1 < elements.len() {
                            self.push(
                                Frame::DictionaryKey { elements, done, position: position + 1 },
                            );
                            self.goto(Control::Evaluate(&elements[position + 1].0));
                        } else {
                            self.deliver(Value::Dictionary(done));
                        }
                    },
                    _ => {
                        self.fail(Failure::InvalidDictionaryKey, line);
                    },
                }
            },
            _ => {
                self.deliver(value);
            },
        }
    }

    fn receive_operand(&mut self, frame: Frame<'a>, value: Value)
        requires
            old(self).wf(),
        ensures
            final(self).wf(),
            final(self)@ == old(self)@.receive_operand(frame@, value@),
    {
        match frame {
            Frame::BinaryLeft { operator, right } => {
                self.push(Frame::BinaryRight { operator, left: value });
                self.goto(Control::Evaluate(right));
            },
            Frame::BinaryRight { operator, left } => {
                self.binary(operator, left, value);
            },
            Frame::Unary { operator } => {
                self.unary(operator, value);
            },
            Frame::Assign { name } => {
                self.store(name, value.clone(), value);
            },
            Frame::Let { name } => {
                let current = self.current;
                self.define(current, name.lexeme.as_str(), value.clone());
                self.deliver(value);
            },
            Frame::GetObject { name } => {
                self.push(Frame::GetName { object: value });
                self.goto(Control::Evaluate(name));
            },
            Frame::GetName { object } => {
                self.get_member(object, value);
            },
            Frame::SetValue { target, object, name } => {
                self.push(Frame::SetName { target, object, value });
                self.goto(Control::Evaluate(name));
            },
            Frame::SetName { target, object, value: written } => {
                self.set_member(target, object, written, value);
            },
            _ => {
                self.deliver(value);
            },
        }
    }

    fn receive_call(&mut self, frame: Frame<'a>, value: Value)
        requires
            old(self).wf(),
        ensures
            final(self).wf(),
            final(self)@ == old(self)@.receive_call(frame@, value@),
    {
        let line = self.line;
        match frame {
            Frame::CallOwner { callee, arguments } => {
                match value {
                    Value::Instance(_, instance) => {
                        let caller = self.current;
                        self.push(Frame::CallCallee { owner: Some(instance), arguments, caller });
                        self.enter(instance);
                        self.goto(Control::Evaluate(callee));
                    },
                    _ => {
                        self.fail(Failure::InvalidCall, line);
                    },
                }
            },
            Frame::CallCallee { owner, arguments, caller } => {
                self.enter(caller);
                if arguments.len() == 0 {
                    let done: Vec<Value> = Vec::new();
                    assert(value_views(done@) =~= Seq::empty());
                    self.dispatch(owner, value, done);
                } else {
                    let done: Vec<Value> = Vec::new();
                    assert(value_views(done@) =~= Seq::empty());
                    self.push(Frame::CallArguments { owner, callee: value, arguments, done });
                    self.goto(Control::Evaluate(&arguments[0]));
                }
            },
            Frame::CallArguments { owner, callee, arguments, done } => {
                let mut done = done;
                assert(value_views(done@).len() == done@.len());
                proof {
                    lemma_value_views_push(done@, value);
                }
                let position = done.len();
                done.push(value);
                if position < arguments.len() && position + 1 < arguments.len() {
                    self.push(Frame::CallArguments { owner, callee, arguments, done });
                    self.goto(Control::Evaluate(&arguments[position + 1]));
                } else {
                    self.dispatch(owner, callee, done);
                }
            },
            Frame::Call { caller } => {
                self.enter(caller);
                self.deliver(value);
            },
            Frame::Construct { name, instance, methods, caller } => {
                self.install(instance, &methods);
                self.enter(caller);
                self.deliver(Value::Instance(name, instance));
            },
            Frame::Await => {
                self.await_value(value);
            },
            Frame::AwaitScript { promise, caller } => {
                self.settle(promise, PromiseState::Fulfilled(value.clone()));
                self.enter(caller);
                self.deliver(value);
            },
            Frame::AwaitHost { promise } => {
                self.settle(promise, PromiseState::Fulfilled(value.clone()));
                self.deliver(value);
            },
            _ => {
                self.deliver(value);
            },
        }
    }

    fn receive_flow(&mut self, frame: Frame<'a>, value: Value)
        requires
            old(self).wf(),
        ensures
            final(self).wf(),
            final(self)@ == old(self)@.receive_flow(frame@, value@),
    {
        let line = self.line;
        match frame {
            Frame::If { then_branch, else_branch } => {
                if is_truthy_value(&value) {
                    self.goto(Control::Evaluate(then_branch));
                } else {
                    self.goto(Control::Evaluate(else_branch));
                }
            },
            Frame::Logical { operator, right } => {
                match operator.token_type {
                    TokenType::Or => {
                        if is_truthy_value(&value) {
                            self.deliver(value);
                        } else {
                            self.goto(Control::Evaluate(right));
                        }
                    },
                    TokenType::And => {
                        if !is_truthy_value(&value) {
                            self.deliver(value);
                        } else {
                            self.goto(Control::Evaluate(right));
                        }
                    },
                    _ => {
                        self.fail(Failure::InvalidLogicalOperator, operator.line);
                    },
                }
            },
            Frame::Loop { condition, increment, body, phase, last } => {
                match phase {
                    LoopPhase::Initializer => {
                        self.push(
                            Frame::Loop {
                                condition,
                                increment,
                                body,
                                phase: LoopPhase::Condition,
                                last: Value::Nil,
                            },
                        );
                        self.goto(Control::Evaluate(condition));
                    },
                    LoopPhase::Condition => {
                        if is_truthy_value(&value) {
                            self.push(
                                Frame::Loop {
                                    condition,
                                    increment,
                                    body,
                                    phase: LoopPhase::Body,
                                    last: Value::Nil,
                                },
                            );
                            self.goto(Control::Evaluate(body));
                        } else {
                            self.deliver(last);
                        }
                    },
                    LoopPhase::Body => {
                        match increment {
                            Some(step) => {
                                self.push(
                                    Frame::Loop {
                                        condition,
                                        increment,
                                        body,
                                        phase: LoopPhase::Increment,
                                        last: value,
                                    },
                                );
                                self.goto(Control::Evaluate(step));
                            },
                            None => {
                                self.push(
                                    Frame::Loop {
                                        condition,
                                        increment,
                                        body,
                                        phase: LoopPhase::Condition,
                                        last: value,
                                    },
                                );
                                self.goto(Control::Evaluate(condition));
                            },
                        }
                    },
                    LoopPhase::Increment => {
                        self.push(
                            Frame::Loop {
                                condition,
                                increment,
                                body,
                                phase: LoopPhase::Condition,
                                last,
                            },
                        );
                        self.goto(Control::Evaluate(condition));
                    },
                }
            },
            Frame::Return => {
                self.raise(InterpreterError::runtime_error(RuntimeErrorKind::Return(value)));
            },
            Frame::Import => {
                match value {
                    Value::String(path) => {
                        let base = self.environment.base_path(self.current);
                        self.push(Frame::Resolve { path: path.clone() });
                        self.ask(HostCall::with_texts(Service::ResolveModule, path, base, 0));
                    },
                    _ => {
                        let text = value.to_string();
                        self.raise(
                            InterpreterError::runtime_error(
                                RuntimeErrorKind::InvalidImport(line, text),
                            ),
                        );
                    },
                }
            },
            _ => {
                self.deliver(value);
            },
        }
    }

    /// Hands `value` to `frame`, which has been taken off the stack.
    fn receive(&mut self, frame: Frame<'a>, value: Value)
        requires
            old(self).wf(),
        ensures
            final(self).wf(),
            final(self)@ == old(self)@.receive(frame@, value@),
    {
        match &frame {
            Frame::Program { .. } | Frame::Sequence { .. } | Frame::Restore { .. } | Frame::Try { .. }
            | Frame::Module { .. } => {
                self.receive_statements(frame, value);
            },
            Frame::ArrayItems { .. } | Frame::DictionaryKey { .. }
            | Frame::DictionaryValue { .. } => {
                self.receive_literal(frame, value);
            },
            Frame::BinaryLeft { .. } | Frame::BinaryRight { .. } | Frame::Unary { .. }
            | Frame::Assign { .. } | Frame::Let { .. } | Frame::GetObject { .. }
            | Frame::GetName { .. } | Frame::SetValue { .. } | Frame::SetName { .. } => {
                self.receive_operand(frame, value);
            },
            Frame::CallOwner { .. } | Frame::CallCallee { .. } | Frame::CallArguments { .. }
            | Frame::Call { .. } | Frame::Construct { .. } | Frame::Await
            | Frame::AwaitScript { .. } | Frame::AwaitHost { .. } => {
                self.receive_call(frame, value);
            },
            Frame::If { .. } | Frame::Logical { .. } | Frame::Loop { .. } | Frame::Return
            | Frame::Import => {
                self.receive_flow(frame, value);
            },
            Frame::Resolve { .. } | Frame::Load { .. } => {
                self.deliver(value);
            },
        }
    }

    // -----------------------------------------------------------------------
    // An error goes up the stack
    // -----------------------------------------------------------------------

    /// The value of a `return` on its way out, if `error` is one.
    fn returned(error: &InterpreterError) -> (value: Option<Value>)
        ensures
            match value {
                Some(v) => error@ == crate::interpreter::machine::returning(v@),
                None => !error@.is_return(),
            },
    {
        match error {
            InterpreterError::RuntimeError(RuntimeErrorKind::Return(value)) => Some(value.clone()),
            _ => None,
        }
    }

    fn pass(&mut self, frame: Frame<'a>, error: &InterpreterError) -> (goes_on: bool)
        requires
            old(self).wf(),
        ensures
            final(self).wf(),
            (final(self)@, goes_on) == old(self)@.pass(frame@, error@),
            goes_on ==> final(self)@.stack == old(self)@.stack,
    {
        match frame {
            Frame::Restore { environment } => {
                self.enter(environment);
                true
            },
            Frame::CallCallee { caller, .. } => {
                self.enter(caller);
                true
            },
            Frame::Call { caller } => {
                self.enter(caller);
                match Self::returned(error) {
                    Some(value) => {
                        self.deliver(value);
                        false
                    },
                    None => true,
                }
            },
            Frame::Construct { name, instance, methods, caller } => {
                match Self::returned(error) {
                    Some(_) => {
                        self.install(instance, &methods);
                        self.enter(caller);
                        self.deliver(Value::Instance(name, instance));
                        false
                    },
                    None => {
                        self.enter(caller);
                        true
                    },
                }
            },
            Frame::AwaitScript { promise, caller } => {
                match Self::returned(error) {
                    Some(value) => {
                        self.settle(promise, PromiseState::Fulfilled(value.clone()));
                        self.enter(caller);
                        self.deliver(value);
                        false
                    },
                    None => {
                        self.settle(promise, PromiseState::Rejected(error.clone()));
                        self.enter(caller);
                        true
                    },
                }
            },
            Frame::AwaitHost { promise } => {
                self.settle(promise, PromiseState::Rejected(error.clone()));
                true
            },
            Frame::Module { importer, line, .. } => {
                self.enter(importer);
                self.at_line(line);
                true
            },
            Frame::Try { handler, environment } => {
                match Self::returned(error) {
                    Some(_) => {
                        self.enter(environment);
                        true
                    },
                    None => {
                        let text = error.to_string();
                        let scope = self.open_scope(environment);
                        self.define(scope, handler.catch_param.as_str(), Value::String(text));
                        self.push(Frame::Restore { environment });
                        self.enter(scope);
                        self.goto(Control::Evaluate(&*handler.catch_block));
                        false
                    },
                }
            },
            _ => true,
        }
    }

    fn unwind(&mut self, error: InterpreterError)
        requires
            old(self).wf(),
        ensures
            final(self).wf(),
            final(self)@ == old(self)@.unwind(error@),
    {
        loop
            invariant
                self.wf(),
                self@.unwind(error@) == old(self)@.unwind(error@),
            decreases self@.stack.len(),
        {
            if self.depth() == 0 {
                self.raise(error);
                return;
            }
            let frame = self.pop();
            let goes_on = self.pass(frame, &error);
            if !goes_on {
                return;
            }
        }
    }

    // -----------------------------------------------------------------------
    // Steps
    // -----------------------------------------------------------------------

    /// Loads a program: its statements are run in order, each on its line,
    /// and the value of the last one is the result.
    pub fn interpret(&mut self, expressions: &'a Vec<(Expr, usize)>)
        requires
            old(self).wf(),
        ensures
            final(self).wf(),
            final(self)@ == old(self)@.push(
                FrameView::Program { statements: *expressions, next: 0 },
            ).deliver(ValueView::Nil),
            machine_sound(old(self)@) ==> machine_sound(final(self)@),
    {
        proof {
            if machine_sound(self@) {
                lemma_pushed_sound(self@, FrameView::Program { statements: *expressions, next: 0 });
            }
        }
        self.push(Frame::Program { statements: expressions, next: 0 });
        self.deliver(Value::Nil);
    }

    /// Loads one expression: it is what the next step begins.
    pub fn evaluate(&mut self, expr: &'a Expr)
        requires
            old(self).wf(),
        ensures
            final(self).wf(),
            final(self)@ == old(self)@.goto(crate::interpreter::machine::ControlView::Evaluate(*expr)),
            machine_sound(old(self)@) ==> machine_sound(final(self)@),
    {
        self.goto(Control::Evaluate(expr));
    }

    /// What the caller does now: step again, serve a request, or stop.
    pub fn action(&self) -> (action: Action)
        ensures
            action@ == self@.action(),
    {
        match &self.control {
            Control::Evaluate(_) => Action::Continue,
            Control::Deliver(value) => {
                if self.stack.len() == 0 {
                    Action::Finished(Ok(value.clone()))
                } else {
                    Action::Continue
                }
            },
            Control::Raise(error) => {
                if self.stack.len() == 0 {
                    Action::Finished(Err(error.clone()))
                } else {
                    Action::Continue
                }
            },
            Control::Ask(call) => Action::Host(call.clone()),
        }
    }

    /// One step of the machine, and what the caller does after it. From a
    /// state whose values are all of the language the step leads to such a
    /// state.
    pub fn step(&mut self) -> (action: Action)
        requires
            old(self).wf(),
        ensures
            final(self).wf(),
            final(self)@ == old(self)@.step(),
            action@ == final(self)@.action(),
            machine_sound(old(self)@) ==> machine_sound(final(self)@),
    {
        proof {
            if machine_sound(self@) {
                lemma_step_keeps_sound(self@);
            }
        }
        let mut control = Control::Deliver(Value::Nil);
        std::mem::swap(&mut self.control, &mut control);
        assert(self@ == old(self)@.idle());
        match control {
            Control::Evaluate(expr) => {
                self.begin(expr);
            },
            Control::Deliver(value) => {
                if self.depth() == 0 {
                    self.deliver(value);
                    assert(self@ == old(self)@);
                } else {
                    let frame = self.pop();
                    self.receive(frame, value);
                }
            },
            Control::Raise(error) => {
                if self.depth() == 0 {
                    self.raise(error);
                    assert(self@ == old(self)@);
                } else {
                    self.unwind(error);
                }
            },
            Control::Ask(call) => {
                self.ask(call);
                assert(self@ == old(self)@);
            },
        }
        self.action()
    }

    /// Whether the frame on top of the stack waits for where a module is.
    fn resolving(&self) -> (yes: bool)
        ensures
            yes == (self@.stack.len() > 0 && self@.stack.last() is Resolve),
    {
        let n = self.stack.len();
        if n == 0 {
            false
        } else {
            assert(frame_views(self.stack@).last() == self.stack@[n - 1]@);
            match &self.stack[n - 1] {
                Frame::Resolve { .. } => true,
                _ => false,
            }
        }
    }

    /// Whether the frame on top of the stack waits for the program of a
    /// module.
    fn loading(&self) -> (yes: bool)
        ensures
            yes == (self@.stack.len() > 0 && self@.stack.last() is Load),
    {
        let n = self.stack.len();
        if n == 0 {
            false
        } else {
            assert(frame_views(self.stack@).last() == self.stack@[n - 1]@);
            match &self.stack[n - 1] {
                Frame::Load { .. } => true,
                _ => false,
            }
        }
    }

    fn answer(&mut self, reply: HostReply<'a>)
        requires
            old(self).wf(),
        ensures
            final(self).wf(),
            final(self)@ == old(self)@.answer(reply@),
    {
        match reply {
            HostReply::Value(value) => {
                if value.is_sound() {
                    self.deliver(value);
                } else {
                    self.raise(InterpreterError::unknown_error(UnknownErrorKind::UnknownError));
                }
            },
            HostReply::Failed(error) => {
                let unwinding = match &error {
                    InterpreterError::RuntimeError(RuntimeErrorKind::Return(_)) => true,
                    _ => false,
                };
                if unwinding {
                    self.raise(InterpreterError::unknown_error(UnknownErrorKind::UnknownError));
                } else {
                    self.raise(error);
                }
            },
            HostReply::Task(task) => {
                self.promise(Task::Host(task));
            },
            HostReply::Located { absolute, resolved, exists, stem, directory } => {
                if self.resolving() {
                    match self.pop() {
                        Frame::Resolve { path: asked } => {
                            match self.environment.resolve_module_path(
                                asked.as_str(),
                                absolute,
                                resolved,
                                exists,
                            ) {
                                Err(error) => {
                                    self.raise(error);
                                },
                                Ok(file) => {
                                    match stem {
                                        None => {
                                            self.raise(
                                                InterpreterError::runtime_error(
                                                    RuntimeErrorKind::RuntimeError(
                                                        0,
                                                        String::from_str("Invalid module path"),
                                                    ),
                                                ),
                                            );
                                        },
                                        Some(name) => {
                                            let known = self.environment.get_module(
                                                self.current,
                                                name.as_str(),
                                            ).is_some();
                                            if known {
                                                self.deliver(Value::String(asked));
                                            } else {
                                                let request = HostCall::with_text(
                                                    Service::LoadModule,
                                                    file.clone(),
                                                    0,
                                                );
                                                self.push(
                                                    Frame::Load {
                                                        name,
                                                        path: asked,
                                                        file,
                                                        directory,
                                                    },
                                                );
                                                self.ask(request);
                                            }
                                        },
                                    }
                                },
                            }
                        },
                        _ => {},
                    }
                } else {
                    self.raise(InterpreterError::unknown_error(UnknownErrorKind::UnknownError));
                }
            },
            HostReply::Unreadable => {
                if self.loading() {
                    match self.pop() {
                        Frame::Load { file, .. } => {
                            let mut message = String::from_str("Could not read module file: ");
                            message.append(file.as_str());
                            self.raise(
                                InterpreterError::runtime_error(
                                    RuntimeErrorKind::RuntimeError(0, message),
                                ),
                            );
                        },
                        _ => {},
                    }
                } else {
                    self.raise(InterpreterError::unknown_error(UnknownErrorKind::UnknownError));
                }
            },
            HostReply::Program(statements) => {
                if self.loading() {
                    let importer = self.current;
                    let line = self.line;
                    match self.pop() {
                        Frame::Load { name, path, directory, .. } => {
                            let root = self.environment.new_root(directory);
                            self.environment.register_native_functions(root);
                            self.push(
                                Frame::Module { name, path, environment: root, importer, line },
                            );
                            self.push(Frame::Program { statements, next: 0 });
                            self.enter(root);
                            self.deliver(Value::Nil);
                        },
                        _ => {},
                    }
                } else {
                    self.raise(InterpreterError::unknown_error(UnknownErrorKind::UnknownError));
                }
            },
        }
    }

    /// Takes the reply of the host to the request that the machine waits
    /// on. Where the machine waits on none, nothing changes.
    pub fn resume(&mut self, reply: HostReply<'a>)
        requires
            old(self).wf(),
        ensures
            final(self).wf(),
            final(self)@ == old(self)@.resume(reply@),
            machine_sound(old(self)@) ==> machine_sound(final(self)@),
    {
        proof {
            if machine_sound(self@) {
                lemma_resume_keeps_sound(self@, reply@);
            }
        }
        let waiting = match &self.control {
            Control::Ask(_) => true,
            _ => false,
        };
        if waiting {
            self.deliver(Value::Nil);
            self.answer(reply);
        }
    }
}

pub proof fn lemma_method_bodies_len(members: Seq<Expr>, n: nat)
    requires
        n <= members.len(),
        forall|k: int| 0 <= k < members.len() ==> (#[trigger] members[k]) is Function,
    ensures
        method_bodies(members, n).len() == n,
    decreases n,
{
    if n > 0 {
        lemma_method_bodies_len(members, (n - 1) as nat);
    }
}

} // verus!
