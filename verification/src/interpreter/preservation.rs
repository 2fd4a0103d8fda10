//! The machine keeps its values sound: from a state in which every value
//! is one of the language, every step and every reply of the host lead to
//! such a state.

use vstd::prelude::*;

use crate::error::{InterpreterErrorView, RuntimeErrorView};
use crate::interpreter::environment::{
    assigned,
    binding_scope,
    defined,
    defined_native,
    depth_inside,
    empty_scope,
    entry_value,
    imported,
    lookup,
    module_lookup,
    own_binding,
    root_lookup,
    ModuleView,
    ScopeView,
};
use crate::interpreter::machine::{
    all_functions,
    bound,
    installed,
    method_table,
    smaller,
    ControlView,
    FrameView,
    HostReplyView,
    MachineView,
};
use crate::interpreter::native::{NativeFunctionView, NativeKind, NativeOutcomeView};
use crate::interpreter::native_functions::{
    native_outcome,
    with_native,
    with_native_functions,
};
use crate::interpreter::soundness::{
    all_sound,
    lemma_entry_value_sound,
    lemma_item_sound,
    lemma_native_value_sound,
    lemma_negated_is_number_text,
    lemma_push_sound,
    lemma_update_sound,
    lemma_with_entry_sound,
    lemma_with_entry_table,
    table_sound,
};
use crate::interpreter::value::{
    entries_sound,
    sound,
    with_entry,
    PromiseStateView,
    TaskView,
    ValueView,
};
use crate::parser::Expr;
use crate::tokenizer::Token;

verus! {

// ---------------------------------------------------------------------------
// What it is for a state to be sound
// ---------------------------------------------------------------------------

/// An error is sound where the value that a `return` carries is.
pub open spec fn error_sound(error: InterpreterErrorView) -> bool {
    match error {
        InterpreterErrorView::RuntimeError(RuntimeErrorView::Return(value)) => sound(value),
        _ => true,
    }
}

pub open spec fn frame_sound(frame: FrameView) -> bool {
    match frame {
        FrameView::ArrayItems { done, .. } => all_sound(done),
        FrameView::DictionaryKey { done, .. } => table_sound(done),
        FrameView::DictionaryValue { done, key, .. } => table_sound(done) && sound(key),
        FrameView::BinaryRight { left, .. } => sound(left),
        FrameView::GetName { object } => sound(object),
        FrameView::SetValue { object, .. } => sound(object),
        FrameView::SetName { object, value, .. } => sound(object) && sound(value),
        FrameView::CallArguments { callee, done, .. } => sound(callee) && all_sound(done),
        FrameView::Construct { methods, .. } => table_sound(methods),
        FrameView::Loop { last, .. } => sound(last),
        _ => true,
    }
}

pub open spec fn scope_sound(scope: ScopeView) -> bool {
    entries_sound(scope.values, scope.values.len()) && entries_sound(
        scope.natives,
        scope.natives.len(),
    )
}

pub open spec fn promise_sound(state: PromiseStateView) -> bool {
    match state {
        PromiseStateView::Pending(TaskView::Script { callee, arguments, .. }) => sound(callee)
            && all_sound(arguments),
        PromiseStateView::Pending(TaskView::Host(_)) => true,
        PromiseStateView::Fulfilled(value) => sound(value),
        PromiseStateView::Rejected(error) => error_sound(error),
    }
}

pub open spec fn control_sound(control: ControlView) -> bool {
    match control {
        ControlView::Deliver(value) => sound(value),
        ControlView::Raise(error) => error_sound(error),
        _ => true,
    }
}

pub open spec fn stack_sound(stack: Seq<FrameView>) -> bool {
    forall|i: int| 0 <= i < stack.len() ==> frame_sound(#[trigger] stack[i])
}

pub open spec fn scopes_sound(scopes: Seq<ScopeView>) -> bool {
    forall|i: int| 0 <= i < scopes.len() ==> scope_sound(#[trigger] scopes[i])
}

pub open spec fn promises_sound(promises: Seq<PromiseStateView>) -> bool {
    forall|i: int| 0 <= i < promises.len() ==> promise_sound(#[trigger] promises[i])
}

/// Whether every value that the machine holds in frames, scopes and
/// promises is sound.
pub open spec fn state_sound(machine: MachineView) -> bool {
    stack_sound(machine.stack) && scopes_sound(machine.scopes) && promises_sound(
        machine.promises,
    )
}

/// Whether every value that the machine holds is sound.
pub open spec fn machine_sound(machine: MachineView) -> bool {
    state_sound(machine) && control_sound(machine.control)
}

// ---------------------------------------------------------------------------
// Scopes
// ---------------------------------------------------------------------------

pub proof fn lemma_defined_sound(
    scopes: Seq<ScopeView>,
    scope: int,
    name: Seq<char>,
    value: ValueView,
)
    requires
        scopes_sound(scopes),
        sound(value),
    ensures
        scopes_sound(defined(scopes, scope, name, value)),
{
    if 0 <= scope < scopes.len() {
        assert(scope_sound(scopes[scope]));
        lemma_with_entry_sound(scopes[scope].values, name, value);
        let after = defined(scopes, scope, name, value);
        assert forall|i: int| 0 <= i < after.len() implies scope_sound(#[trigger] after[i]) by {
            if i != scope {
                assert(scope_sound(scopes[i]));
            }
        }
    }
}

pub proof fn lemma_defined_native_sound(
    scopes: Seq<ScopeView>,
    scope: int,
    name: Seq<char>,
    value: ValueView,
)
    requires
        scopes_sound(scopes),
        sound(value),
    ensures
        scopes_sound(defined_native(scopes, scope, name, value)),
{
    if 0 <= scope < scopes.len() {
        assert(scope_sound(scopes[scope]));
        lemma_with_entry_sound(scopes[scope].natives, name, value);
        let after = defined_native(scopes, scope, name, value);
        assert forall|i: int| 0 <= i < after.len() implies scope_sound(#[trigger] after[i]) by {
            if i != scope {
                assert(scope_sound(scopes[i]));
            }
        }
    }
}

pub proof fn lemma_opened_sound(scopes: Seq<ScopeView>, scope: ScopeView)
    requires
        scopes_sound(scopes),
        scope.values.len() == 0,
        scope.natives.len() == 0,
    ensures
        scopes_sound(scopes.push(scope)),
{
    let after = scopes.push(scope);
    assert forall|i: int| 0 <= i < after.len() implies scope_sound(#[trigger] after[i]) by {
        if i < scopes.len() {
            assert(scope_sound(scopes[i]));
        }
    }
}

pub proof fn lemma_bound_sound(
    scopes: Seq<ScopeView>,
    scope: int,
    params: Seq<Seq<char>>,
    args: Seq<ValueView>,
    n: nat,
)
    requires
        scopes_sound(scopes),
        all_sound(args),
    ensures
        scopes_sound(bound(scopes, scope, params, args, n)),
    decreases n,
{
    if !(n == 0 || n > params.len() || n > args.len()) {
        lemma_bound_sound(scopes, scope, params, args, (n - 1) as nat);
        lemma_item_sound(args, args.len(), n - 1);
        lemma_defined_sound(
            bound(scopes, scope, params, args, (n - 1) as nat),
            scope,
            params[n - 1],
            args[n - 1],
        );
    }
}

pub proof fn lemma_installed_sound(
    scopes: Seq<ScopeView>,
    scope: int,
    methods: Seq<(Seq<char>, ValueView)>,
    n: nat,
)
    requires
        scopes_sound(scopes),
        entries_sound(methods, methods.len()),
    ensures
        scopes_sound(installed(scopes, scope, methods, n)),
    decreases n,
{
    if !(n == 0 || n > methods.len()) {
        lemma_installed_sound(scopes, scope, methods, (n - 1) as nat);
        crate::interpreter::soundness::lemma_entry_sound(methods, methods.len(), n - 1);
        lemma_defined_sound(
            installed(scopes, scope, methods, (n - 1) as nat),
            scope,
            methods[n - 1].0,
            methods[n - 1].1,
        );
    }
}

pub proof fn lemma_own_binding_sound(scope: ScopeView, name: Seq<char>)
    requires
        scope_sound(scope),
    ensures
        own_binding(scope, name) matches Some(value) ==> sound(value),
{
    lemma_entry_value_sound(scope.values, name);
    lemma_entry_value_sound(scope.natives, name);
}

pub proof fn lemma_root_lookup_sound(scopes: Seq<ScopeView>, root: int, name: Seq<char>)
    requires
        scopes_sound(scopes),
    ensures
        root_lookup(scopes, root, name) matches Some(value) ==> sound(value),
    decreases scopes.len() - root, 1nat, 0nat,
{
    if 0 <= root < scopes.len() {
        assert(scope_sound(scopes[root]));
        lemma_own_binding_sound(scopes[root], name);
        if own_binding(scopes[root], name) is None {
            lemma_module_lookup_sound(scopes, root, 0, name);
        }
    }
}

pub proof fn lemma_module_lookup_sound(
    scopes: Seq<ScopeView>,
    root: int,
    from: int,
    name: Seq<char>,
)
    requires
        scopes_sound(scopes),
    ensures
        module_lookup(scopes, root, from, name) matches Some(value) ==> sound(value),
    decreases scopes.len() - root, 0nat, scopes[root].modules.len() - from,
{
    if 0 <= root < scopes.len() && 0 <= from < scopes[root].modules.len() {
        let target = scopes[root].modules[from].environment;
        if root < target < scopes.len() {
            lemma_root_lookup_sound(scopes, target as int, name);
        }
        lemma_module_lookup_sound(scopes, root, from + 1, name);
    }
}

/// What a name means among sound scopes is sound.
pub proof fn lemma_lookup_sound(scopes: Seq<ScopeView>, scope: int, name: Seq<char>)
    requires
        scopes_sound(scopes),
    ensures
        lookup(scopes, scope, name) matches Some(value) ==> sound(value),
    decreases scope,
{
    if 0 <= scope < scopes.len() {
        assert(scope_sound(scopes[scope]));
        lemma_own_binding_sound(scopes[scope], name);
        if own_binding(scopes[scope], name) is None {
            match scopes[scope].enclosing {
                Some(parent) => {
                    if parent < scope {
                        lemma_lookup_sound(scopes, parent as int, name);
                    }
                },
                None => {
                    lemma_module_lookup_sound(scopes, scope, 0, name);
                },
            }
        }
    }
}

pub proof fn lemma_assigned_sound(
    scopes: Seq<ScopeView>,
    scope: int,
    name: Seq<char>,
    value: ValueView,
)
    requires
        scopes_sound(scopes),
        sound(value),
    ensures
        assigned(scopes, scope, name, value) matches Some(after) ==> scopes_sound(after),
{
    match binding_scope(scopes, scope, name) {
        Some(target) => {
            lemma_defined_sound(scopes, target, name, value);
        },
        None => {},
    }
}

pub proof fn lemma_imported_sound(scopes: Seq<ScopeView>, scope: int, module: ModuleView)
    requires
        scopes_sound(scopes),
    ensures
        scopes_sound(imported(scopes, scope, module)),
{
    let after = imported(scopes, scope, module);
    assert forall|i: int| 0 <= i < after.len() implies scope_sound(#[trigger] after[i]) by {
        assert(scope_sound(scopes[i]));
    }
}

pub proof fn lemma_with_native_sound(
    scopes: Seq<ScopeView>,
    scope: int,
    name: Seq<char>,
    kind: NativeKind,
)
    requires
        scopes_sound(scopes),
    ensures
        scopes_sound(with_native(scopes, scope, name, kind)),
{
    lemma_defined_native_sound(
        scopes,
        scope,
        name,
        ValueView::NativeFunction(
            NativeFunctionView {
                name,
                arity: crate::interpreter::native_functions::native_arity(kind),
                func: kind,
            },
        ),
    );
}

/// Sound scopes to which the natives are bound are sound.
pub proof fn lemma_natives_sound(scopes: Seq<ScopeView>, scope: int)
    requires
        scopes_sound(scopes),
    ensures
        scopes_sound(with_native_functions(scopes, scope)),
{
    assert forall|s: Seq<ScopeView>, name: Seq<char>, kind: NativeKind|
        scopes_sound(s) implies scopes_sound(#[trigger] with_native(s, scope, name, kind)) by {
        lemma_with_native_sound(s, scope, name, kind);
    }
}

// ---------------------------------------------------------------------------
// Stack and promises
// ---------------------------------------------------------------------------

pub proof fn lemma_pushed_sound(machine: MachineView, frame: FrameView)
    requires
        state_sound(machine),
        frame_sound(frame),
    ensures
        state_sound(machine.push(frame)),
{
    let after = machine.stack.push(frame);
    assert forall|i: int| 0 <= i < after.len() implies frame_sound(#[trigger] after[i]) by {
        if i < machine.stack.len() {
            assert(frame_sound(machine.stack[i]));
        }
    }
}

pub proof fn lemma_popped_sound(machine: MachineView)
    requires
        state_sound(machine),
        machine.stack.len() > 0,
    ensures
        state_sound(machine.pop()),
        frame_sound(machine.stack.last()),
{
    let after = machine.stack.drop_last();
    assert forall|i: int| 0 <= i < after.len() implies frame_sound(#[trigger] after[i]) by {
        assert(frame_sound(machine.stack[i]));
    }
    assert(frame_sound(machine.stack[machine.stack.len() - 1]));
}

pub proof fn lemma_settled_sound(machine: MachineView, promise: usize, state: PromiseStateView)
    requires
        state_sound(machine),
        promise_sound(state),
    ensures
        state_sound(machine.settle(promise, state)),
        machine.settle(promise, state).control == machine.control,
{
    let after = machine.settle(promise, state).promises;
    assert forall|i: int| 0 <= i < after.len() implies promise_sound(#[trigger] after[i]) by {
        if i != promise {
            assert(promise_sound(machine.promises[i]));
        }
    }
}

pub proof fn lemma_promised_sound(machine: MachineView, task: TaskView)
    requires
        state_sound(machine),
        promise_sound(PromiseStateView::Pending(task)),
    ensures
        machine_sound(machine.promise(task)),
{
    let after = machine.promises.push(PromiseStateView::Pending(task));
    assert forall|i: int| 0 <= i < after.len() implies promise_sound(#[trigger] after[i]) by {
        if i < machine.promises.len() {
            assert(promise_sound(machine.promises[i]));
        }
    }
}

pub proof fn lemma_scope_opened(machine: MachineView, parent: usize)
    requires
        state_sound(machine),
    ensures
        state_sound(machine.open_scope(parent)),
{
    lemma_opened_sound(
        machine.scopes,
        empty_scope(Some(parent), depth_inside(machine.scopes, Some(parent)), "."@),
    );
}

pub proof fn lemma_machine_defined(
    machine: MachineView,
    scope: usize,
    name: Seq<char>,
    value: ValueView,
)
    requires
        state_sound(machine),
        sound(value),
    ensures
        state_sound(machine.define(scope, name, value)),
{
    lemma_defined_sound(machine.scopes, scope as int, name, value);
}

// ---------------------------------------------------------------------------
// Values that the steps make
// ---------------------------------------------------------------------------

pub proof fn lemma_method_table_sound(members: Seq<Expr>, first: nat, n: nat)
    ensures
        table_sound(method_table(members, first, n)),
    decreases n,
{
    if !(n == 0 || n > members.len()) {
        lemma_method_table_sound(members, first, (n - 1) as nat);
        match members[n - 1] {
            Expr::Function(name, params, _) => {
                lemma_with_entry_table(
                    method_table(members, first, (n - 1) as nat),
                    name.lexeme@,
                    ValueView::Function(
                        name.lexeme@,
                        crate::interpreter::machine::lexemes(params@),
                        (first + n - 1) as usize,
                    ),
                );
            },
            _ => {},
        }
    } else {
        let none = Seq::<(Seq<char>, ValueView)>::empty();
        assert(table_sound(none));
    }
}

/// Every error that a native gives is sound.
pub proof fn lemma_native_error_sound(
    native: NativeFunctionView,
    args: Seq<ValueView>,
    scopes: Seq<ScopeView>,
)
    ensures
        native_outcome(native, args, scopes) matches NativeOutcomeView::Error(error)
            ==> error_sound(error),
{
}

// ---------------------------------------------------------------------------
// Steps
// ---------------------------------------------------------------------------

pub proof fn lemma_run_sound(machine: MachineView, body: Expr)
    requires
        state_sound(machine),
    ensures
        machine_sound(machine.run(body)),
{
    match body {
        Expr::Block(statements) => {
            lemma_pushed_sound(machine, FrameView::Sequence { statements, next: 0 });
        },
        _ => {},
    }
}

pub proof fn lemma_call_sound(
    machine: MachineView,
    params: Seq<Seq<char>>,
    body: usize,
    args: Seq<ValueView>,
    parent: usize,
    boundary: FrameView,
)
    requires
        state_sound(machine),
        all_sound(args),
        frame_sound(boundary),
    ensures
        machine_sound(machine.call(params, body, args, parent, boundary)),
{
    if args.len() == params.len() && body < machine.bodies.len() {
        let scope = machine.scopes.len() as usize;
        let opened = machine.open_scope(parent);
        lemma_scope_opened(machine, parent);
        lemma_bound_sound(opened.scopes, scope as int, params, args, params.len());
        let filled = opened.with_scopes(
            bound(opened.scopes, scope as int, params, args, params.len()),
        );
        lemma_pushed_sound(filled, boundary);
        lemma_run_sound(filled.push(boundary).enter(scope), machine.bodies[body as int]);
    }
}

pub proof fn lemma_instantiate_sound(
    machine: MachineView,
    name: Seq<char>,
    methods: Seq<(Seq<char>, ValueView)>,
    args: Seq<ValueView>,
)
    requires
        state_sound(machine),
        table_sound(methods),
        all_sound(args),
    ensures
        machine_sound(machine.instantiate(name, methods, args)),
{
    let instance = machine.scopes.len() as usize;
    lemma_scope_opened(machine, machine.environment);
    let opened = machine.open_scope(machine.environment);
    lemma_machine_defined(opened, instance, "this"@, ValueView::Instance(name, instance));
    let made = opened.define(instance, "this"@, ValueView::Instance(name, instance));
    match entry_value(methods, "_construct"@) {
        Some(ValueView::Function(_, params, body)) => {
            if body < machine.bodies.len() {
                let count = smaller(params.len(), args.len());
                lemma_bound_sound(made.scopes, instance as int, params, args, count);
                let filled = made.with_scopes(
                    bound(made.scopes, instance as int, params, args, count),
                );
                let frame = FrameView::Construct {
                    name,
                    instance,
                    methods,
                    caller: machine.environment,
                };
                lemma_pushed_sound(filled, frame);
                lemma_run_sound(filled.push(frame).enter(instance), machine.bodies[body as int]);
            }
        },
        Some(_) => {},
        None => {
            lemma_installed_sound(made.scopes, instance as int, methods, methods.len());
        },
    }
}

pub proof fn lemma_dispatch_sound(
    machine: MachineView,
    owner: Option<usize>,
    callee: ValueView,
    args: Seq<ValueView>,
)
    requires
        state_sound(machine),
        sound(callee),
        all_sound(args),
    ensures
        machine_sound(machine.dispatch(owner, callee, args)),
{
    match callee {
        ValueView::Function(_, params, body) => {
            lemma_call_sound(
                machine,
                params,
                body,
                args,
                match owner {
                    Some(instance) => instance,
                    None => machine.environment,
                },
                FrameView::Call { caller: machine.environment },
            );
        },
        ValueView::AsyncFunction(_, _, _) => {
            lemma_promised_sound(
                machine,
                TaskView::Script { callee, arguments: args, environment: machine.environment },
            );
        },
        ValueView::NativeFunction(native) => {
            lemma_native_value_sound(native, args, machine.scopes);
            lemma_native_error_sound(native, args, machine.scopes);
        },
        ValueView::Class(name, methods) => {
            lemma_instantiate_sound(machine, name, methods, args);
        },
        _ => {},
    }
}

pub proof fn lemma_await_sound(machine: MachineView, value: ValueView)
    requires
        state_sound(machine),
    ensures
        machine_sound(machine.await_value(value)),
{
    match value {
        ValueView::Promise(promise) => {
            if promise < machine.promises.len() {
                assert(promise_sound(machine.promises[promise as int]));
                match machine.promises[promise as int] {
                    PromiseStateView::Pending(TaskView::Host(_)) => {
                        lemma_pushed_sound(machine, FrameView::AwaitHost { promise });
                    },
                    PromiseStateView::Pending(
                        TaskView::Script { callee, arguments, environment },
                    ) => {
                        match callee {
                            ValueView::AsyncFunction(_, params, body) => {
                                lemma_call_sound(
                                    machine,
                                    params,
                                    body,
                                    arguments,
                                    environment,
                                    FrameView::AwaitScript { promise, caller: machine.environment },
                                );
                            },
                            _ => {},
                        }
                    },
                    _ => {},
                }
            }
        },
        _ => {},
    }
}

pub proof fn lemma_store_sound(
    machine: MachineView,
    target: Token,
    changed: ValueView,
    value: ValueView,
)
    requires
        state_sound(machine),
        sound(changed),
        sound(value),
    ensures
        machine_sound(machine.store(target, changed, value)),
{
    lemma_assigned_sound(machine.scopes, machine.environment as int, target.lexeme@, changed);
}

pub proof fn lemma_get_member_sound(machine: MachineView, object: ValueView, name: ValueView)
    requires
        state_sound(machine),
        sound(object),
    ensures
        machine_sound(machine.get_member(object, name)),
{
    match (object, name) {
        (ValueView::Instance(_, instance), ValueView::String(field)) => {
            if instance < machine.scopes.len() {
                assert(scope_sound(machine.scopes[instance as int]));
                lemma_entry_value_sound(machine.scopes[instance as int].values, field);
            }
        },
        (ValueView::Array(items), ValueView::Number(text)) => {
            match crate::interpreter::value::number_index(text) {
                Some(index) => {
                    if index < items.len() {
                        lemma_item_sound(items, items.len(), index as int);
                    }
                },
                None => {},
            }
        },
        (ValueView::Dictionary(entries), ValueView::String(key)) => {
            lemma_entry_value_sound(entries, key);
        },
        _ => {},
    }
}

pub proof fn lemma_set_member_sound(
    machine: MachineView,
    target: Token,
    object: ValueView,
    value: ValueView,
    name: ValueView,
)
    requires
        state_sound(machine),
        sound(object),
        sound(value),
    ensures
        machine_sound(machine.set_member(target, object, value, name)),
{
    match (object, name) {
        (ValueView::Instance(_, instance), ValueView::String(field)) => {
            if instance < machine.scopes.len() {
                lemma_machine_defined(machine, instance, field, value);
            }
        },
        (ValueView::Array(items), ValueView::Number(text)) => {
            match crate::interpreter::value::number_index(text) {
                Some(index) => {
                    if index < items.len() {
                        lemma_update_sound(items, index as int, value);
                        lemma_store_sound(
                            machine,
                            target,
                            ValueView::Array(items.update(index as int, value)),
                            value,
                        );
                    }
                },
                None => {},
            }
        },
        (ValueView::Dictionary(entries), ValueView::String(key)) => {
            lemma_with_entry_table(entries, key, value);
            lemma_store_sound(
                machine,
                target,
                ValueView::Dictionary(with_entry(entries, key, value)),
                value,
            );
        },
        _ => {},
    }
}

pub proof fn lemma_unary_sound(machine: MachineView, operator: Token, operand: ValueView)
    requires
        state_sound(machine),
        sound(operand),
    ensures
        machine_sound(machine.unary(operator, operand)),
{
    match operand {
        ValueView::Number(text) => {
            lemma_negated_is_number_text(text);
        },
        _ => {},
    }
}

pub proof fn lemma_binary_sound(
    machine: MachineView,
    operator: Token,
    left: ValueView,
    right: ValueView,
)
    requires
        state_sound(machine),
    ensures
        machine_sound(machine.binary(operator, left, right)),
{
}

pub proof fn lemma_receive_statements_sound(
    machine: MachineView,
    frame: FrameView,
    value: ValueView,
)
    requires
        state_sound(machine),
        sound(value),
    ensures
        machine_sound(machine.receive_statements(frame, value)),
{
    match frame {
        FrameView::Program { statements, next } => {
            if next < statements@.len() {
                lemma_pushed_sound(
                    machine.at_line(statements@[next as int].1),
                    FrameView::Program { statements, next: (next + 1) as usize },
                );
            }
        },
        FrameView::Sequence { statements, next } => {
            if next < statements@.len() {
                lemma_pushed_sound(
                    machine,
                    FrameView::Sequence { statements, next: (next + 1) as usize },
                );
            }
        },
        FrameView::Module { name, path, environment, importer, line } => {
            lemma_imported_sound(
                machine.scopes,
                importer as int,
                ModuleView { name, environment, path },
            );
        },
        _ => {},
    }
}

pub proof fn lemma_receive_literal_sound(machine: MachineView, frame: FrameView, value: ValueView)
    requires
        state_sound(machine),
        frame_sound(frame),
        sound(value),
    ensures
        machine_sound(machine.receive_literal(frame, value)),
{
    match frame {
        FrameView::ArrayItems { elements, done } => {
            lemma_push_sound(done, value);
            lemma_pushed_sound(machine, FrameView::ArrayItems { elements, done: done.push(value) });
        },
        FrameView::DictionaryKey { elements, done, position } => {
            lemma_pushed_sound(
                machine,
                FrameView::DictionaryValue { elements, done, position, key: value },
            );
        },
        FrameView::DictionaryValue { elements, done, position, key } => {
            match key {
                ValueView::String(name) => {
                    lemma_with_entry_table(done, name, value);
                    lemma_pushed_sound(
                        machine,
                        FrameView::DictionaryKey {
                            elements,
                            done: with_entry(done, name, value),
                            position: (position + 1) as usize,
                        },
                    );
                },
                _ => {},
            }
        },
        _ => {},
    }
}

pub proof fn lemma_receive_operand_sound(machine: MachineView, frame: FrameView, value: ValueView)
    requires
        state_sound(machine),
        frame_sound(frame),
        sound(value),
    ensures
        machine_sound(machine.receive_operand(frame, value)),
{
    match frame {
        FrameView::BinaryLeft { operator, right } => {
            lemma_pushed_sound(machine, FrameView::BinaryRight { operator, left: value });
        },
        FrameView::BinaryRight { operator, left } => {
            lemma_binary_sound(machine, operator, left, value);
        },
        FrameView::Unary { operator } => {
            lemma_unary_sound(machine, operator, value);
        },
        FrameView::Assign { name } => {
            lemma_store_sound(machine, name, value, value);
        },
        FrameView::Let { name } => {
            lemma_machine_defined(machine, machine.environment, name.lexeme@, value);
        },
        FrameView::GetObject { name } => {
            lemma_pushed_sound(machine, FrameView::GetName { object: value });
        },
        FrameView::GetName { object } => {
            lemma_get_member_sound(machine, object, value);
        },
        FrameView::SetValue { target, object, name } => {
            lemma_pushed_sound(machine, FrameView::SetName { target, object, value });
        },
        FrameView::SetName { target, object, value: written } => {
            lemma_set_member_sound(machine, target, object, written, value);
        },
        _ => {},
    }
}

pub proof fn lemma_receive_call_sound(machine: MachineView, frame: FrameView, value: ValueView)
    requires
        state_sound(machine),
        frame_sound(frame),
        sound(value),
    ensures
        machine_sound(machine.receive_call(frame, value)),
{
    let none = Seq::<ValueView>::empty();
    assert(all_sound(none));
    match frame {
        FrameView::CallOwner { callee, arguments } => {
            match value {
                ValueView::Instance(_, instance) => {
                    lemma_pushed_sound(
                        machine,
                        FrameView::CallCallee {
                            owner: Some(instance),
                            arguments,
                            caller: machine.environment,
                        },
                    );
                },
                _ => {},
            }
        },
        FrameView::CallCallee { owner, arguments, caller } => {
            if arguments@.len() == 0 {
                lemma_dispatch_sound(machine.enter(caller), owner, value, none);
            } else {
                lemma_pushed_sound(
                    machine.enter(caller),
                    FrameView::CallArguments { owner, callee: value, arguments, done: none },
                );
            }
        },
        FrameView::CallArguments { owner, callee, arguments, done } => {
            lemma_push_sound(done, value);
            if done.len() + 1 < arguments@.len() {
                lemma_pushed_sound(
                    machine,
                    FrameView::CallArguments { owner, callee, arguments, done: done.push(value) },
                );
            } else {
                lemma_dispatch_sound(machine, owner, callee, done.push(value));
            }
        },
        FrameView::Construct { name, instance, methods, caller } => {
            lemma_installed_sound(machine.scopes, instance as int, methods, methods.len());
        },
        FrameView::Await => {
            lemma_await_sound(machine, value);
        },
        FrameView::AwaitScript { promise, caller } => {
            lemma_settled_sound(machine, promise, PromiseStateView::Fulfilled(value));
        },
        FrameView::AwaitHost { promise } => {
            lemma_settled_sound(machine, promise, PromiseStateView::Fulfilled(value));
        },
        _ => {},
    }
}

pub proof fn lemma_receive_flow_sound(machine: MachineView, frame: FrameView, value: ValueView)
    requires
        state_sound(machine),
        frame_sound(frame),
        sound(value),
    ensures
        machine_sound(machine.receive_flow(frame, value)),
{
    match frame {
        FrameView::Loop { condition, increment, body, phase, last } => {
            let nil = ValueView::Nil;
            lemma_pushed_sound(
                machine,
                FrameView::Loop {
                    condition,
                    increment,
                    body,
                    phase: crate::interpreter::machine::LoopPhase::Condition,
                    last: nil,
                },
            );
            lemma_pushed_sound(
                machine,
                FrameView::Loop {
                    condition,
                    increment,
                    body,
                    phase: crate::interpreter::machine::LoopPhase::Body,
                    last: nil,
                },
            );
            lemma_pushed_sound(
                machine,
                FrameView::Loop {
                    condition,
                    increment,
                    body,
                    phase: crate::interpreter::machine::LoopPhase::Increment,
                    last: value,
                },
            );
            lemma_pushed_sound(
                machine,
                FrameView::Loop {
                    condition,
                    increment,
                    body,
                    phase: crate::interpreter::machine::LoopPhase::Condition,
                    last: value,
                },
            );
            lemma_pushed_sound(
                machine,
                FrameView::Loop {
                    condition,
                    increment,
                    body,
                    phase: crate::interpreter::machine::LoopPhase::Condition,
                    last,
                },
            );
        },
        FrameView::Import => {
            match value {
                ValueView::String(path) => {
                    lemma_pushed_sound(machine, FrameView::Resolve { path });
                },
                _ => {},
            }
        },
        _ => {},
    }
}

/// A sound value handed to a sound frame leaves a sound state.
pub proof fn lemma_receive_sound(machine: MachineView, frame: FrameView, value: ValueView)
    requires
        state_sound(machine),
        frame_sound(frame),
        sound(value),
    ensures
        machine_sound(machine.receive(frame, value)),
{
    lemma_receive_statements_sound(machine, frame, value);
    lemma_receive_literal_sound(machine, frame, value);
    lemma_receive_operand_sound(machine, frame, value);
    lemma_receive_call_sound(machine, frame, value);
    lemma_receive_flow_sound(machine, frame, value);
}

pub proof fn lemma_pass_sound(machine: MachineView, frame: FrameView, error: InterpreterErrorView)
    requires
        state_sound(machine),
        frame_sound(frame),
        error_sound(error),
    ensures
        state_sound(machine.pass(frame, error).0),
        !machine.pass(frame, error).1 ==> control_sound(machine.pass(frame, error).0.control),
{
    match frame {
        FrameView::Construct { name, instance, methods, caller } => {
            lemma_installed_sound(machine.scopes, instance as int, methods, methods.len());
        },
        FrameView::AwaitScript { promise, caller } => {
            match error {
                InterpreterErrorView::RuntimeError(RuntimeErrorView::Return(value)) => {
                    lemma_settled_sound(machine, promise, PromiseStateView::Fulfilled(value));
                },
                _ => {
                    lemma_settled_sound(machine, promise, PromiseStateView::Rejected(error));
                },
            }
        },
        FrameView::AwaitHost { promise } => {
            lemma_settled_sound(machine, promise, PromiseStateView::Rejected(error));
        },
        FrameView::Try { handler, environment } => {
            if !error.is_return() {
                let scope = machine.scopes.len() as usize;
                lemma_scope_opened(machine, environment);
                let opened = machine.open_scope(environment);
                lemma_machine_defined(
                    opened,
                    scope,
                    handler.catch_param@,
                    ValueView::String(error.text()),
                );
                lemma_pushed_sound(
                    opened.define(scope, handler.catch_param@, ValueView::String(error.text())),
                    FrameView::Restore { environment },
                );
            }
        },
        _ => {},
    }
}

pub proof fn lemma_unwind_sound(machine: MachineView, error: InterpreterErrorView)
    requires
        state_sound(machine),
        error_sound(error),
    ensures
        machine_sound(machine.unwind(error)),
    decreases machine.stack.len(),
{
    if machine.stack.len() > 0 {
        lemma_popped_sound(machine);
        let (next, goes_on) = machine.pop().pass(machine.stack.last(), error);
        lemma_pass_sound(machine.pop(), machine.stack.last(), error);
        if goes_on && next.stack.len() < machine.stack.len() {
            lemma_unwind_sound(next, error);
        }
    }
}

pub proof fn lemma_evaluate_sound(machine: MachineView, expr: Expr)
    requires
        state_sound(machine),
    ensures
        machine_sound(machine.evaluate(expr)),
{
    let none = Seq::<ValueView>::empty();
    let no_entries = Seq::<(Seq<char>, ValueView)>::empty();
    assert(all_sound(none));
    assert(table_sound(no_entries));
    match expr {
        Expr::Variable(name) => {
            lemma_lookup_sound(machine.scopes, machine.environment as int, name.lexeme@);
        },
        Expr::Array(elements) => {
            lemma_pushed_sound(machine, FrameView::ArrayItems { elements, done: none });
        },
        Expr::Dictionary(elements) => {
            lemma_pushed_sound(
                machine,
                FrameView::DictionaryKey { elements, done: no_entries, position: 0 },
            );
        },
        Expr::Binary(left, operator, right) => {
            lemma_pushed_sound(machine, FrameView::BinaryLeft { operator, right: *right });
        },
        Expr::Unary(operator, operand) => {
            lemma_pushed_sound(machine, FrameView::Unary { operator });
        },
        Expr::Assign(name, value) => {
            lemma_pushed_sound(machine, FrameView::Assign { name });
        },
        Expr::SetMember(target, name, value) => {
            lemma_lookup_sound(machine.scopes, machine.environment as int, target.lexeme@);
            match lookup(machine.scopes, machine.environment as int, target.lexeme@) {
                Some(object) => {
                    lemma_pushed_sound(
                        machine,
                        FrameView::SetValue { target, object, name: *name },
                    );
                },
                None => {},
            }
        },
        Expr::Get(object, name) => {
            lemma_pushed_sound(machine, FrameView::GetObject { name: *name });
        },
        Expr::Let(name, initializer) => {
            lemma_pushed_sound(machine, FrameView::Let { name });
        },
        Expr::Block(statements) => {
            lemma_scope_opened(machine, machine.environment);
            let opened = machine.open_scope(machine.environment);
            lemma_pushed_sound(opened, FrameView::Restore { environment: machine.environment });
            lemma_pushed_sound(
                opened.push(FrameView::Restore { environment: machine.environment }),
                FrameView::Sequence { statements, next: 0 },
            );
        },
        Expr::Function(name, params, body) => {
            let value = ValueView::Function(
                name.lexeme@,
                crate::interpreter::machine::lexemes(params@),
                machine.bodies.len() as usize,
            );
            lemma_machine_defined(
                machine.with_bodies(machine.bodies.push(*body)),
                machine.environment,
                name.lexeme@,
                value,
            );
        },
        Expr::AsyncFunction(name, params, body) => {
            let value = ValueView::AsyncFunction(
                name.lexeme@,
                crate::interpreter::machine::lexemes(params@),
                machine.bodies.len() as usize,
            );
            lemma_machine_defined(
                machine.with_bodies(machine.bodies.push(*body)),
                machine.environment,
                name.lexeme@,
                value,
            );
        },
        Expr::Class(name, members) => {
            if all_functions(members@) {
                lemma_method_table_sound(members@, machine.bodies.len(), members@.len());
                let value = ValueView::Class(
                    name.lexeme@,
                    method_table(members@, machine.bodies.len(), members@.len()),
                );
                lemma_machine_defined(
                    machine.with_bodies(
                        machine.bodies + crate::interpreter::machine::method_bodies(
                            members@,
                            members@.len(),
                        ),
                    ),
                    machine.environment,
                    name.lexeme@,
                    value,
                );
            }
        },
        Expr::Call(owner, callee, arguments) => {
            lemma_pushed_sound(machine, FrameView::CallOwner { callee: *callee, arguments });
            lemma_pushed_sound(
                machine,
                FrameView::CallCallee { owner: None, arguments, caller: machine.environment },
            );
        },
        Expr::Await(operand) => {
            lemma_pushed_sound(machine, FrameView::Await);
        },
        Expr::If(condition, then_branch, else_branch) => {
            lemma_pushed_sound(
                machine,
                FrameView::If { then_branch: *then_branch, else_branch: *else_branch },
            );
        },
        Expr::Logical(left, operator, right) => {
            lemma_pushed_sound(machine, FrameView::Logical { operator, right: *right });
        },
        Expr::While(condition, body) => {
            lemma_pushed_sound(
                machine,
                FrameView::Loop {
                    condition: *condition,
                    increment: None,
                    body: *body,
                    phase: crate::interpreter::machine::LoopPhase::Condition,
                    last: ValueView::Nil,
                },
            );
        },
        Expr::For(initializer, condition, increment, body) => {
            lemma_pushed_sound(
                machine,
                FrameView::Loop {
                    condition: *condition,
                    increment: Some(*increment),
                    body: *body,
                    phase: crate::interpreter::machine::LoopPhase::Initializer,
                    last: ValueView::Nil,
                },
            );
        },
        Expr::Return(_, value) => {
            lemma_pushed_sound(machine, FrameView::Return);
        },
        Expr::Import(path) => {
            lemma_pushed_sound(machine, FrameView::Import);
        },
        Expr::TryCatch(handler) => {
            lemma_pushed_sound(
                machine,
                FrameView::Try { handler, environment: machine.environment },
            );
        },
        _ => {},
    }
}

/// What every run keeps: a step from a sound state leads to a sound
/// state.
pub proof fn lemma_step_keeps_sound(machine: MachineView)
    requires
        machine_sound(machine),
    ensures
        machine_sound(machine.step()),
{
    match machine.control {
        ControlView::Evaluate(expr) => {
            lemma_evaluate_sound(machine.idle(), expr);
        },
        ControlView::Deliver(value) => {
            if machine.stack.len() > 0 {
                lemma_popped_sound(machine.idle());
                lemma_receive_sound(machine.idle().pop(), machine.stack.last(), value);
            }
        },
        ControlView::Raise(error) => {
            if machine.stack.len() > 0 {
                lemma_unwind_sound(machine.idle(), error);
            }
        },
        ControlView::Ask(_) => {},
    }
}

/// And so does every reply of the host.
pub proof fn lemma_resume_keeps_sound(machine: MachineView, reply: HostReplyView)
    requires
        machine_sound(machine),
    ensures
        machine_sound(machine.resume(reply)),
{
    if machine.control is Ask {
        let idle = machine.idle();
        match reply {
            HostReplyView::Task(task) => {
                lemma_promised_sound(idle, TaskView::Host(task));
            },
            HostReplyView::Located { absolute, resolved, exists, stem, directory } => {
                if idle.stack.len() > 0 {
                    lemma_popped_sound(idle);
                    match stem {
                        Some(name) => {
                            lemma_pushed_sound(
                                idle.pop(),
                                FrameView::Load {
                                    name,
                                    path: idle.stack.last()->Resolve_path,
                                    file: if absolute {
                                        idle.stack.last()->Resolve_path
                                    } else {
                                        resolved
                                    },
                                    directory,
                                },
                            );
                        },
                        None => {},
                    }
                }
            },
            HostReplyView::Program(statements) => {
                if idle.stack.len() > 0 && idle.stack.last() is Load {
                    lemma_popped_sound(idle);
                    let directory = idle.stack.last()->Load_directory;
                    let root = idle.scopes.len() as usize;
                    lemma_opened_sound(idle.scopes, empty_scope(None, 0, directory));
                    lemma_natives_sound(
                        idle.scopes.push(empty_scope(None, 0, directory)),
                        root as int,
                    );
                    let loaded = idle.pop().with_scopes(
                        with_native_functions(
                            idle.scopes.push(empty_scope(None, 0, directory)),
                            root as int,
                        ),
                    );
                    let module = FrameView::Module {
                        name: idle.stack.last()->Load_name,
                        path: idle.stack.last()->Load_path,
                        environment: root,
                        importer: idle.environment,
                        line: idle.line,
                    };
                    lemma_pushed_sound(loaded, module);
                    lemma_pushed_sound(
                        loaded.push(module),
                        FrameView::Program { statements, next: 0 },
                    );
                }
            },
            HostReplyView::Unreadable => {
                if idle.stack.len() > 0 {
                    lemma_popped_sound(idle);
                }
            },
            _ => {},
        }
    }
}

/// A machine that has nothing to do yet, on scopes that hold the natives
/// and nothing else, is sound.
pub proof fn lemma_fresh_sound(base_path: Seq<char>)
    ensures
        machine_sound(
            crate::interpreter::Interpreter::fresh(
                with_native_functions(seq![empty_scope(None, 0, base_path)], 0),
                0,
            ),
        ),
{
    let none = Seq::<ScopeView>::empty();
    assert(scopes_sound(none));
    lemma_opened_sound(none, empty_scope(None, 0, base_path));
    assert(none.push(empty_scope(None, 0, base_path)) =~= seq![empty_scope(None, 0, base_path)]);
    lemma_natives_sound(seq![empty_scope(None, 0, base_path)], 0);
}

} // verus!
