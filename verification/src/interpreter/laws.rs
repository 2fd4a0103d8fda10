//! What holds of every run of the machine.

use vstd::prelude::*;

use crate::error::InterpreterErrorView;
use crate::interpreter::environment::{
    defined,
    entry_value,
    lemma_registered_finds,
    imported,
    lemma_find_entry_push,
    lemma_find_entry_same_names,
    registered_module,
    ModuleView,
    ScopeView,
};
use crate::interpreter::native::{host_call, NativeFunctionView, NativeKind, NativeOutcomeView, Service};
use crate::interpreter::native_functions::native_outcome;
use crate::interpreter::machine::{
    returning,
    ControlView,
    FrameView,
    HostReplyView,
    MachineView,
};
use crate::interpreter::value::{
    find_entry,
    sound,
    lemma_find_entry,
    truthy,
    with_entry,
    PromiseStateView,
    ValueView,
};
use crate::parser::Expr;
use crate::tokenizer::{Token, TokenType};

verus! {

// ---------------------------------------------------------------------------
// Scopes
// ---------------------------------------------------------------------------

/// A name reads as the value that it was last bound to.
pub proof fn lemma_with_entry_reads(
    entries: Seq<(Seq<char>, ValueView)>,
    name: Seq<char>,
    value: ValueView,
)
    ensures
        entry_value(with_entry(entries, name, value), name) == Some(value),
{
    lemma_find_entry(entries, name, 0);
    match find_entry(entries, name, 0) {
        Some(i) => {
            let after = entries.update(i, (name, value));
            assert forall|k: int| 0 <= k < entries.len() implies (#[trigger] entries[k]).0
                == after[k].0 by {}
            lemma_find_entry_same_names(entries, after, name, 0);
        },
        None => {
            lemma_find_entry_push(entries, (name, value), name, 0);
        },
    }
}

/// Binding a name leaves every other name of the scope as it was.
pub proof fn lemma_with_entry_keeps(
    entries: Seq<(Seq<char>, ValueView)>,
    name: Seq<char>,
    value: ValueView,
    other: Seq<char>,
)
    requires
        other != name,
    ensures
        entry_value(with_entry(entries, name, value), other) == entry_value(entries, other),
{
    lemma_find_entry(entries, name, 0);
    lemma_find_entry(entries, other, 0);
    match find_entry(entries, name, 0) {
        Some(i) => {
            let after = entries.update(i, (name, value));
            assert forall|k: int| 0 <= k < entries.len() implies (#[trigger] entries[k]).0
                == after[k].0 by {}
            lemma_find_entry_same_names(entries, after, other, 0);
        },
        None => {
            lemma_find_entry_push(entries, (name, value), other, 0);
        },
    }
}

/// Scope isolation: a binding made in one scope changes no other scope, and
/// in its own scope no other name.
pub proof fn lemma_scope_isolation(
    scopes: Seq<ScopeView>,
    scope: int,
    name: Seq<char>,
    value: ValueView,
)
    ensures
        defined(scopes, scope, name, value).len() == scopes.len(),
        forall|other: int|
            0 <= other < scopes.len() && other != scope ==> #[trigger] defined(
                scopes,
                scope,
                name,
                value,
            )[other] == scopes[other],
        forall|other: Seq<char>|
            0 <= scope < scopes.len() && other != name ==> #[trigger] entry_value(
                defined(scopes, scope, name, value)[scope].values,
                other,
            ) == entry_value(scopes[scope].values, other),
        0 <= scope < scopes.len() ==> entry_value(
            defined(scopes, scope, name, value)[scope].values,
            name,
        ) == Some(value),
{
    if 0 <= scope < scopes.len() {
        lemma_with_entry_reads(scopes[scope].values, name, value);
        assert forall|other: Seq<char>| other != name implies #[trigger] entry_value(
            defined(scopes, scope, name, value)[scope].values,
            other,
        ) == entry_value(scopes[scope].values, other) by {
            lemma_with_entry_keeps(scopes[scope].values, name, value, other);
        }
    }
}

/// Instance aliasing: a value written to a field of an instance is what
/// the field reads as through any reference to that instance, whatever
/// class name the reference carries.
pub proof fn lemma_instance_aliasing(
    machine: MachineView,
    target: Token,
    written_through: Seq<char>,
    read_through: Seq<char>,
    instance: usize,
    field: Seq<char>,
    value: ValueView,
)
    requires
        instance < machine.scopes.len(),
    ensures
        machine.set_member(
            target,
            ValueView::Instance(written_through, instance),
            value,
            ValueView::String(field),
        ).get_member(
            ValueView::Instance(read_through, instance),
            ValueView::String(field),
        ).control == ControlView::Deliver(value),
{
    lemma_with_entry_reads(machine.scopes[instance as int].values, field, value);
}

// ---------------------------------------------------------------------------
// Control
// ---------------------------------------------------------------------------

/// Short-circuit: where the value of the left operand decides (truthy for
/// `or`, falsy for `and`), the step that receives it delivers it and takes
/// the frame of the operator off the stack. The right operand is in no
/// frame and is not the control: it is never evaluated.
pub proof fn lemma_short_circuit(
    machine: MachineView,
    below: Seq<FrameView>,
    operator: Token,
    right: Expr,
    value: ValueView,
)
    requires
        machine.control == ControlView::Deliver(value),
        machine.stack == below.push(FrameView::Logical { operator, right }),
        (operator.token_type == TokenType::Or && truthy(value)) || (operator.token_type
            == TokenType::And && !truthy(value)),
    ensures
        machine.step() == (MachineView { stack: below, ..machine }),
{
    assert(machine.stack.drop_last() =~= below);
}

/// Whether a frame lets the value of a `return` pass without ending a call
/// and without touching a promise.
pub open spec fn lets_return_pass(frame: FrameView) -> bool {
    !(frame is Call) && !(frame is Construct) && !(frame is AwaitScript) && !(frame
        is AwaitHost)
}

/// Return unwinding: the value of a `return` ends the innermost call under
/// way and nothing beyond it. Whatever frames the body of the call has put
/// on the stack, the value is delivered to what called, in the scope of the
/// caller; the frames below the call, the scopes and the promises are as
/// they were.
pub proof fn lemma_return_unwinds(
    machine: MachineView,
    below: Seq<FrameView>,
    caller: usize,
    above: Seq<FrameView>,
    value: ValueView,
)
    requires
        machine.stack == below.push(FrameView::Call { caller }) + above,
        forall|i: int| 0 <= i < above.len() ==> lets_return_pass(#[trigger] above[i]),
    ensures
        machine.unwind(returning(value)).control == ControlView::Deliver(value),
        machine.unwind(returning(value)).stack == below,
        machine.unwind(returning(value)).environment == caller,
        machine.unwind(returning(value)).scopes == machine.scopes,
        machine.unwind(returning(value)).promises == machine.promises,
        machine.unwind(returning(value)).bodies == machine.bodies,
    decreases above.len(),
{
    let error = returning(value);
    let frame = machine.stack.last();
    let popped = machine.pop();
    if above.len() == 0 {
        assert(machine.stack =~= below.push(FrameView::Call { caller }));
        assert(popped.stack =~= below);
    } else {
        assert(frame == above.last());
        assert(lets_return_pass(frame));
        let shorter = above.drop_last();
        assert(popped.stack =~= below.push(FrameView::Call { caller }) + shorter);
        let (next, goes_on) = popped.pass(frame, error);
        assert(goes_on);
        assert(next.stack == popped.stack);
        lemma_return_unwinds(next, below, caller, shorter, value);
    }
}

/// Await-of-fulfilled: awaiting a promise that is fulfilled delivers its
/// value in the one step, takes the frame of the `await` off the stack and
/// asks the host for nothing.
pub proof fn lemma_await_fulfilled(
    machine: MachineView,
    below: Seq<FrameView>,
    promise: usize,
    value: ValueView,
)
    requires
        machine.control == ControlView::Deliver(ValueView::Promise(promise)),
        machine.stack == below.push(FrameView::Await),
        promise < machine.promises.len(),
        machine.promises[promise as int] == PromiseStateView::Fulfilled(value),
    ensures
        machine.step() == (MachineView {
            control: ControlView::Deliver(value),
            stack: below,
            ..machine
        }),
        !(machine.step().action() is Host),
{
    assert(machine.stack.drop_last() =~= below);
}

/// Whether a frame lets an error pass without stopping it and without
/// touching a promise.
pub open spec fn lets_error_pass(frame: FrameView) -> bool {
    !(frame is Try) && !(frame is AwaitScript) && !(frame is AwaitHost)
}

/// Await of a task of the host that ends well: the reply of the host and
/// one step fulfil the promise with the value, deliver the value to what
/// awaited, and change nothing else.
pub proof fn lemma_host_task_fulfils(
    machine: MachineView,
    below: Seq<FrameView>,
    promise: usize,
    value: ValueView,
)
    requires
        machine.control is Ask,
        machine.stack == below.push(FrameView::AwaitHost { promise }),
        promise < machine.promises.len(),
        machine.promises[promise as int] is Pending,
        sound(value),
    ensures
        machine.resume(HostReplyView::Value(value)).step() == (MachineView {
            control: ControlView::Deliver(value),
            stack: below,
            promises: machine.promises.update(promise as int, PromiseStateView::Fulfilled(value)),
            ..machine
        }),
{
    assert(machine.stack.drop_last() =~= below);
}

/// Await of a task of the host that fails: the error of the task is what
/// is raised, and the promise is rejected with it, whatever frames lie
/// below the `await`.
pub proof fn lemma_host_task_rejects(
    machine: MachineView,
    below: Seq<FrameView>,
    promise: usize,
    error: InterpreterErrorView,
)
    requires
        machine.control is Ask,
        machine.stack == below.push(FrameView::AwaitHost { promise }),
        promise < machine.promises.len(),
        machine.promises[promise as int] is Pending,
        !error.is_return(),
    ensures
        machine.resume(HostReplyView::Failed(error)).control == ControlView::Raise(error),
        machine.resume(HostReplyView::Failed(error)).step().promises.len()
            >= machine.promises.len(),
        machine.resume(HostReplyView::Failed(error)).step().promises[promise as int]
            == PromiseStateView::Rejected(error),
{
    let raised = machine.resume(HostReplyView::Failed(error));
    let start = raised.idle();
    let popped = start.pop();
    let (next, goes_on) = popped.pass(start.stack.last(), error);
    assert(goes_on);
    assert(next.promises[promise as int] == PromiseStateView::Rejected(error));
    assert(next.stack == popped.stack);
    lemma_unwind_keeps(next, error);
}

/// An async function whose body ends with a value: the step that hands
/// the value to the frame of the `await` fulfils the promise with it and
/// delivers it, in the scope of the one who awaited.
pub proof fn lemma_script_task_fulfils(
    machine: MachineView,
    below: Seq<FrameView>,
    promise: usize,
    caller: usize,
    value: ValueView,
)
    requires
        machine.control == ControlView::Deliver(value),
        machine.stack == below.push(FrameView::AwaitScript { promise, caller }),
        promise < machine.promises.len(),
        machine.promises[promise as int] is Pending,
    ensures
        machine.step() == (MachineView {
            control: ControlView::Deliver(value),
            stack: below,
            environment: caller,
            promises: machine.promises.update(promise as int, PromiseStateView::Fulfilled(value)),
            ..machine
        }),
{
    assert(machine.stack.drop_last() =~= below);
}

/// An async function that ends with `return`: whatever frames its body has
/// put on the stack, the promise is fulfilled with the value, and the
/// value is delivered to the one who awaited.
pub proof fn lemma_script_task_returns(
    machine: MachineView,
    below: Seq<FrameView>,
    promise: usize,
    caller: usize,
    above: Seq<FrameView>,
    value: ValueView,
)
    requires
        machine.stack == below.push(FrameView::AwaitScript { promise, caller }) + above,
        forall|i: int| 0 <= i < above.len() ==> lets_return_pass(#[trigger] above[i]),
        promise < machine.promises.len(),
        machine.promises[promise as int] is Pending,
    ensures
        machine.unwind(returning(value)).control == ControlView::Deliver(value),
        machine.unwind(returning(value)).stack == below,
        machine.unwind(returning(value)).environment == caller,
        machine.unwind(returning(value)).promises == machine.promises.update(
            promise as int,
            PromiseStateView::Fulfilled(value),
        ),
    decreases above.len(),
{
    let error = returning(value);
    let frame = machine.stack.last();
    let popped = machine.pop();
    if above.len() == 0 {
        assert(machine.stack =~= below.push(FrameView::AwaitScript { promise, caller }));
        assert(popped.stack =~= below);
    } else {
        assert(frame == above.last());
        assert(lets_return_pass(frame));
        let shorter = above.drop_last();
        assert(popped.stack =~= below.push(FrameView::AwaitScript { promise, caller })
            + shorter);
        let (next, goes_on) = popped.pass(frame, error);
        assert(goes_on);
        assert(next.stack == popped.stack);
        assert(next.promises == machine.promises);
        lemma_script_task_returns(next, below, promise, caller, shorter, value);
    }
}

/// An async function that fails: the promise is rejected with the error
/// that the body raised, whatever frames lie below the `await`.
pub proof fn lemma_script_task_rejects(
    machine: MachineView,
    below: Seq<FrameView>,
    promise: usize,
    caller: usize,
    above: Seq<FrameView>,
    error: InterpreterErrorView,
)
    requires
        machine.stack == below.push(FrameView::AwaitScript { promise, caller }) + above,
        forall|i: int| 0 <= i < above.len() ==> lets_error_pass(#[trigger] above[i]),
        !error.is_return(),
        promise < machine.promises.len(),
        machine.promises[promise as int] is Pending,
    ensures
        machine.unwind(error).promises.len() >= machine.promises.len(),
        machine.unwind(error).promises[promise as int] == PromiseStateView::Rejected(error),
    decreases above.len(),
{
    let frame = machine.stack.last();
    let popped = machine.pop();
    let (next, goes_on) = popped.pass(frame, error);
    if above.len() == 0 {
        assert(machine.stack =~= below.push(FrameView::AwaitScript { promise, caller }));
        assert(goes_on);
        assert(next.promises[promise as int] == PromiseStateView::Rejected(error));
        assert(next.stack == popped.stack);
        lemma_unwind_keeps(next, error);
    } else {
        assert(frame == above.last());
        assert(lets_error_pass(frame));
        let shorter = above.drop_last();
        assert(popped.stack =~= below.push(FrameView::AwaitScript { promise, caller })
            + shorter);
        assert(goes_on);
        assert(next.stack == popped.stack);
        assert(next.promises == machine.promises);
        lemma_script_task_rejects(next, below, promise, caller, shorter, error);
    }
}

// ---------------------------------------------------------------------------
// Conversions
// ---------------------------------------------------------------------------

/// What the conversions do with a number: `toNumber` gives the number
/// itself and `toString` its text, so that the string of the number of a
/// number is the string of that number. The number of a string is what the
/// host reads from it.
pub proof fn lemma_number_conversions(text: Seq<char>, scopes: Seq<ScopeView>)
    ensures
        native_outcome(
            NativeFunctionView { name: "toNumber"@, arity: 1, func: NativeKind::ToNumber },
            seq![ValueView::Number(text)],
            scopes,
        ) == NativeOutcomeView::Value(ValueView::Number(text)),
        native_outcome(
            NativeFunctionView { name: "toString"@, arity: 1, func: NativeKind::ToString },
            seq![ValueView::Number(text)],
            scopes,
        ) == NativeOutcomeView::Value(ValueView::String(text)),
        native_outcome(
            NativeFunctionView { name: "toNumber"@, arity: 1, func: NativeKind::ToNumber },
            seq![ValueView::String(text)],
            scopes,
        ) == NativeOutcomeView::Host(host_call(Service::ToNumber, seq![text], 0)),
{
}

// ---------------------------------------------------------------------------
// Modules
// ---------------------------------------------------------------------------

/// Module idempotence: where the module that an import resolves to is
/// registered in the importing scope, the import is over at once. It gives
/// the path it was asked for; no file is asked for, nothing is evaluated,
/// and scopes, bodies and promises stay as they are.
pub proof fn lemma_import_registered(
    machine: MachineView,
    below: Seq<FrameView>,
    asked: Seq<char>,
    name: Seq<char>,
    absolute: bool,
    resolved: Seq<char>,
    exists: bool,
    directory: Seq<char>,
)
    requires
        machine.control is Ask,
        machine.stack == below.push(FrameView::Resolve { path: asked }),
        absolute || exists,
        registered_module(machine.scopes, machine.environment as int, name) is Some,
    ensures
        machine.resume(
            HostReplyView::Located { absolute, resolved, exists, stem: Some(name), directory },
        ) == (MachineView {
            control: ControlView::Deliver(ValueView::String(asked)),
            stack: below,
            ..machine
        }),
{
    assert(machine.stack.drop_last() =~= below);
}

/// Importing a module whose name is registered changes no scope.
pub proof fn lemma_import_twice(scopes: Seq<ScopeView>, scope: int, module: ModuleView, again: ModuleView)
    requires
        0 <= scope < scopes.len(),
        again.name == module.name,
    ensures
        imported(imported(scopes, scope, module), scope, again) == imported(scopes, scope, module),
{
    if registered_module(scopes, scope, module.name) is None {
        lemma_registered_finds(scopes[scope].modules, module);
    }
}

/// When the program of a module is over, the module is registered in the
/// importing scope: from then on an import that resolves to its name is
/// over at once.
pub proof fn lemma_module_registered(
    machine: MachineView,
    name: Seq<char>,
    path: Seq<char>,
    environment: usize,
    importer: usize,
    line: usize,
    value: ValueView,
)
    requires
        importer < machine.scopes.len(),
    ensures
        ({
            let after = machine.receive(
                FrameView::Module { name, path, environment, importer, line },
                value,
            );
            &&& after.environment == importer
            &&& registered_module(after.scopes, after.environment as int, name) is Some
        }),
{
    let module = ModuleView { name, environment, path };
    if registered_module(machine.scopes, importer as int, name) is None {
        lemma_registered_finds(machine.scopes[importer as int].modules, module);
    }
}

// ---------------------------------------------------------------------------
// Promises
// ---------------------------------------------------------------------------

/// Whether every promise of `before` is there in `after`, and every settled
/// one as it was.
pub open spec fn promises_kept(before: Seq<PromiseStateView>, after: Seq<PromiseStateView>)
    -> bool {
    &&& before.len() <= after.len()
    &&& forall|i: int|
        0 <= i < before.len() && !((#[trigger] before[i]) is Pending) ==> after[i] == before[i]
}

pub proof fn lemma_settle_keeps(machine: MachineView, promise: usize, state: PromiseStateView)
    ensures
        promises_kept(machine.promises, machine.settle(promise, state).promises),
{
}

pub proof fn lemma_pass_keeps(machine: MachineView, frame: FrameView, error: InterpreterErrorView)
    ensures
        promises_kept(machine.promises, machine.pass(frame, error).0.promises),
{
}

pub proof fn lemma_unwind_keeps(machine: MachineView, error: InterpreterErrorView)
    ensures
        promises_kept(machine.promises, machine.unwind(error).promises),
    decreases machine.stack.len(),
{
    if machine.stack.len() > 0 {
        let (next, goes_on) = machine.pop().pass(machine.stack.last(), error);
        lemma_pass_keeps(machine.pop(), machine.stack.last(), error);
        if goes_on && next.stack.len() < machine.stack.len() {
            lemma_unwind_keeps(next, error);
        }
    }
}

pub proof fn lemma_call_keeps(
    machine: MachineView,
    params: Seq<Seq<char>>,
    body: usize,
    args: Seq<ValueView>,
    parent: usize,
    boundary: FrameView,
)
    ensures
        machine.call(params, body, args, parent, boundary).promises == machine.promises,
{
}

pub proof fn lemma_receive_keeps(machine: MachineView, frame: FrameView, value: ValueView)
    ensures
        promises_kept(machine.promises, machine.receive(frame, value).promises),
{
    match frame {
        FrameView::CallCallee { owner, arguments, caller } => {
            if arguments@.len() == 0 {
                lemma_dispatch_keeps(machine.enter(caller), owner, value, Seq::empty());
            }
        },
        FrameView::CallArguments { owner, callee, arguments, done } => {
            lemma_dispatch_keeps(machine, owner, callee, done.push(value));
        },
        FrameView::Await => {
            lemma_await_keeps(machine, value);
        },
        _ => {},
    }
}

pub proof fn lemma_dispatch_keeps(
    machine: MachineView,
    owner: Option<usize>,
    callee: ValueView,
    args: Seq<ValueView>,
)
    ensures
        promises_kept(machine.promises, machine.dispatch(owner, callee, args).promises),
{
    match callee {
        ValueView::Function(_, params, body) => {
            lemma_call_keeps(
                machine,
                params,
                body,
                args,
                match owner {
                    Some(instance) => instance,
                    None => machine.environment,
                },
                FrameView::Call { caller: machine.environment },
            );
        },
        _ => {},
    }
}

pub proof fn lemma_await_keeps(machine: MachineView, value: ValueView)
    ensures
        machine.await_value(value).promises == machine.promises,
{
}

/// A promise settles at most once: no step changes a promise that is
/// fulfilled or rejected, and no step takes a promise away.
pub proof fn lemma_step_keeps_promises(machine: MachineView)
    ensures
        promises_kept(machine.promises, machine.step().promises),
{
    match machine.control {
        ControlView::Evaluate(expr) => {
            assert(machine.idle().evaluate(expr).promises == machine.promises);
        },
        ControlView::Deliver(value) => {
            if machine.stack.len() > 0 {
                lemma_receive_keeps(machine.idle().pop(), machine.stack.last(), value);
            }
        },
        ControlView::Raise(error) => {
            if machine.stack.len() > 0 {
                lemma_unwind_keeps(machine.idle(), error);
            }
        },
        ControlView::Ask(_) => {},
    }
}

/// Nor does a reply of the host change a promise that is settled.
pub proof fn lemma_resume_keeps_promises(machine: MachineView, reply: HostReplyView)
    ensures
        promises_kept(machine.promises, machine.resume(reply).promises),
{
}

} // verus!
