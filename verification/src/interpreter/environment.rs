//! The environment: a tree of scopes, held in one arena and addressed by
//! handle.
//!
//! A scope is made once and never moves, so a handle stays good for as long
//! as the environment lives. Instances and modules refer to their scopes by
//! handle, which is how a scope can be reached from several places at once.

use rustc_hash::FxHashMap;
use vstd::prelude::*;

use crate::error::{InterpreterError, InterpreterResult, RuntimeErrorKind, RuntimeErrorView};
use crate::interpreter::native::{NativeFunction, NativeKind};
use crate::interpreter::value::{
    entry_views,
    equal_numbers,
    find_entry,
    lemma_entry_views_push,
    lemma_entry_views_update,
    lemma_find_entry,
    numbers_equal,
    position_of,
    value_views,
    with_entry,
    Value,
    ValueView,
};
use crate::text::same_text;

verus! {

// ---------------------------------------------------------------------------
// The index of a table: a hash map of an outside crate
// ---------------------------------------------------------------------------

/// rustc_hash's `FxBuildHasher`, the hasher of the maps that index the
/// tables. Nothing inside it is read.
#[verifier::external_type_specification]
#[verifier::external_body]
pub struct ExFxBuildHasher(rustc_hash::FxBuildHasher);

/// What an index holds: the slot of each name.
pub uninterp spec fn fx_slots(index: FxHashMap<String, usize>) -> Map<Seq<char>, usize>;

/// `FxHashMap::default()`, std's `HashMap::default` with the hasher of
/// rustc_hash: a map that holds nothing.
#[verifier::external_body]
fn fx_new() -> (index: FxHashMap<String, usize>)
    ensures
        forall|name: Seq<char>| !(#[trigger] fx_slots(index).contains_key(name)),
{
    FxHashMap::default()
}

/// std's `HashMap::get` on a map that hashes with rustc_hash's
/// `FxBuildHasher`: the slot stored under the key that equals `name`, if
/// there is one.
#[verifier::external_body]
fn fx_get(index: &FxHashMap<String, usize>, name: &str) -> (slot: Option<usize>)
    ensures
        slot == (if fx_slots(*index).contains_key(name@) {
            Some(fx_slots(*index)[name@])
        } else {
            None::<usize>
        }),
{
    index.get(name).copied()
}

/// std's `HashMap::insert` on a map that hashes with rustc_hash's
/// `FxBuildHasher`: afterwards `name` is bound to `slot`, and every other
/// key is bound as before.
#[verifier::external_body]
fn fx_insert(index: &mut FxHashMap<String, usize>, name: String, slot: usize)
    ensures
        fx_slots(*final(index)) == fx_slots(*old(index)).insert(name@, slot),
{
    index.insert(name, slot);
}

// ---------------------------------------------------------------------------
// Tables of named values
// ---------------------------------------------------------------------------

/// The value that `entries` binds `name` to.
pub open spec fn entry_value(entries: Seq<(Seq<char>, ValueView)>, name: Seq<char>) -> Option<
    ValueView,
> {
    match find_entry(entries, name, 0) {
        Some(i) => Some(entries[i].1),
        None => None,
    }
}

pub open spec fn option_view(value: Option<Value>) -> Option<ValueView> {
    match value {
        Some(v) => Some(v@),
        None => None,
    }
}

/// Whether the index knows `name` exactly where the entries hold it.
pub open spec fn indexed(
    slots: Map<Seq<char>, usize>,
    entries: Seq<(Seq<char>, ValueView)>,
    name: Seq<char>,
) -> bool {
    match find_entry(entries, name, 0) {
        Some(i) => slots.contains_key(name) && slots[name] == i,
        None => !slots.contains_key(name),
    }
}

pub proof fn lemma_find_entry_same_names(
    a: Seq<(Seq<char>, ValueView)>,
    b: Seq<(Seq<char>, ValueView)>,
    name: Seq<char>,
    from: int,
)
    requires
        a.len() == b.len(),
        forall|k: int| 0 <= k < a.len() ==> (#[trigger] a[k]).0 == b[k].0,
        0 <= from,
    ensures
        find_entry(a, name, from) == find_entry(b, name, from),
    decreases a.len() - from,
{
    if from < a.len() {
        assert(a[from].0 == b[from].0);
        if a[from].0 != name {
            lemma_find_entry_same_names(a, b, name, from + 1);
        }
    }
}

pub proof fn lemma_find_entry_push(
    a: Seq<(Seq<char>, ValueView)>,
    added: (Seq<char>, ValueView),
    name: Seq<char>,
    from: int,
)
    requires
        0 <= from <= a.len(),
    ensures
        find_entry(a.push(added), name, from) == (match find_entry(a, name, from) {
            Some(i) => Some(i),
            None => if added.0 == name {
                Some(a.len() as int)
            } else {
                None
            },
        }),
    decreases a.len() - from,
{
    let b = a.push(added);
    if from < a.len() {
        assert(b[from] == a[from]);
        if a[from].0 != name {
            lemma_find_entry_push(a, added, name, from + 1);
        }
    } else {
        assert(b[from] == added);
        assert(find_entry(b, name, from + 1) is None);
    }
}

/// Named values, in the order in which the names were first bound.
pub struct Table {
    index: FxHashMap<String, usize>,
    entries: Vec<(String, Value)>,
}

impl View for Table {
    type V = Seq<(Seq<char>, ValueView)>;

    closed spec fn view(&self) -> Seq<(Seq<char>, ValueView)> {
        entry_views(self.entries@)
    }
}

impl Table {
    /// The index agrees with the entries.
    pub closed spec fn wf(&self) -> bool {
        forall|name: Seq<char>| #[trigger]
            indexed(fx_slots(self.index), entry_views(self.entries@), name)
    }

    pub fn new() -> (table: Self)
        ensures
            table.wf(),
            table@ == Seq::<(Seq<char>, ValueView)>::empty(),
    {
        let table = Table { index: fx_new(), entries: Vec::new() };
        assert(entry_views(table.entries@) =~= Seq::empty());
        table
    }

    /// The entries, in order.
    pub fn entries(&self) -> (entries: &Vec<(String, Value)>)
        ensures
            entry_views(entries@) == self@,
    {
        &self.entries
    }

    /// Where `name` is bound.
    fn slot(&self, name: &str) -> (slot: Option<usize>)
        requires
            self.wf(),
        ensures
            match slot {
                Some(i) => find_entry(self@, name@, 0) == Some(i as int) && i
                    < self.entries@.len(),
                None => find_entry(self@, name@, 0) is None,
            },
    {
        proof {
            assert(indexed(fx_slots(self.index), entry_views(self.entries@), name@));
            lemma_find_entry(self@, name@, 0);
        }
        fx_get(&self.index, name)
    }

    /// Whether `name` is bound.
    pub fn contains(&self, name: &str) -> (bound: bool)
        requires
            self.wf(),
        ensures
            bound == (entry_value(self@, name@) is Some),
    {
        self.slot(name).is_some()
    }

    /// A copy of the value that `name` is bound to.
    pub fn get(&self, name: &str) -> (value: Option<Value>)
        requires
            self.wf(),
        ensures
            option_view(value) == entry_value(self@, name@),
    {
        match self.slot(name) {
            Some(i) => Some(self.entries[i].1.clone()),
            None => None,
        }
    }

    /// Binds `name` to `value`: in place where the name is bound, at the end
    /// where it is not.
    pub fn set(&mut self, name: String, value: Value)
        requires
            old(self).wf(),
        ensures
            final(self).wf(),
            final(self)@ == with_entry(old(self)@, name@, value@),
    {
        let ghost before = entry_views(self.entries@);
        let ghost slots = fx_slots(self.index);
        match self.slot(name.as_str()) {
            Some(i) => {
                proof {
                    lemma_entry_views_update(self.entries@, i as int, name, value);
                    lemma_find_entry(before, name@, 0);
                }
                self.entries.set(i, (name, value));
                proof {
                    let after = entry_views(self.entries@);
                    assert(after == before.update(i as int, (name@, value@)));
                    assert forall|k: int| 0 <= k < before.len() implies (#[trigger] before[k]).0
                        == after[k].0 by {}
                    assert forall|n: Seq<char>| #[trigger] indexed(slots, after, n) by {
                        lemma_find_entry_same_names(before, after, n, 0);
                        assert(indexed(slots, before, n));
                    }
                }
            },
            None => {
                let slot = self.entries.len();
                proof {
                    lemma_entry_views_push(self.entries@, name, value);
                }
                fx_insert(&mut self.index, name.clone(), slot);
                self.entries.push((name, value));
                proof {
                    let after = entry_views(self.entries@);
                    let slots_after = fx_slots(self.index);
                    assert forall|n: Seq<char>| #[trigger] indexed(slots_after, after, n) by {
                        lemma_find_entry_push(before, (name@, value@), n, 0);
                        assert(indexed(slots, before, n));
                    }
                }
            },
        }
    }
}

// ---------------------------------------------------------------------------
// Scopes
// ---------------------------------------------------------------------------

/// A loaded import: its name, the path it was imported by, and the scope
/// that holds its top-level bindings.
#[derive(Debug)]
pub struct Module {
    pub name: String,
    pub environment: usize,
    pub path: String,
}

pub struct ModuleView {
    pub name: Seq<char>,
    pub environment: usize,
    pub path: Seq<char>,
}

impl View for Module {
    type V = ModuleView;

    open spec fn view(&self) -> ModuleView {
        ModuleView { name: self.name@, environment: self.environment, path: self.path@ }
    }
}

pub open spec fn module_views(modules: Seq<Module>) -> Seq<ModuleView> {
    Seq::new(modules.len(), |i: int| modules[i]@)
}

/// The position of the module named `name` among `modules[from..]`.
pub open spec fn find_module(modules: Seq<ModuleView>, name: Seq<char>, from: int) -> Option<int>
    decreases modules.len() - from,
{
    if 0 <= from < modules.len() {
        if modules[from].name == name {
            Some(from)
        } else {
            find_module(modules, name, from + 1)
        }
    } else {
        None
    }
}

/// `modules` with `module` registered: in the place of the module of its
/// name where there is one, else behind the others.
pub open spec fn registered(modules: Seq<ModuleView>, module: ModuleView) -> Seq<ModuleView> {
    match find_module(modules, module.name, 0) {
        Some(i) => modules.update(i, module),
        None => modules.push(module),
    }
}

pub proof fn lemma_find_module(modules: Seq<ModuleView>, name: Seq<char>, from: int)
    requires
        0 <= from <= modules.len(),
    ensures
        match find_module(modules, name, from) {
            Some(i) => from <= i < modules.len() && modules[i].name == name,
            None => forall|k: int| from <= k < modules.len() ==> (#[trigger] modules[k]).name != name,
        },
    decreases modules.len() - from,
{
    if from < modules.len() && modules[from].name != name {
        lemma_find_module(modules, name, from + 1);
    }
}

pub proof fn lemma_find_module_same_names(
    a: Seq<ModuleView>,
    b: Seq<ModuleView>,
    name: Seq<char>,
    from: int,
)
    requires
        a.len() == b.len(),
        forall|k: int| 0 <= k < a.len() ==> (#[trigger] a[k]).name == b[k].name,
        0 <= from,
    ensures
        find_module(a, name, from) == find_module(b, name, from),
    decreases a.len() - from,
{
    if from < a.len() {
        assert(a[from].name == b[from].name);
        if a[from].name != name {
            lemma_find_module_same_names(a, b, name, from + 1);
        }
    }
}

pub proof fn lemma_find_module_push(
    a: Seq<ModuleView>,
    added: ModuleView,
    name: Seq<char>,
    from: int,
)
    requires
        0 <= from <= a.len(),
    ensures
        find_module(a.push(added), name, from) == (match find_module(a, name, from) {
            Some(i) => Some(i),
            None => if added.name == name {
                Some(a.len() as int)
            } else {
                None
            },
        }),
    decreases a.len() - from,
{
    let b = a.push(added);
    if from < a.len() {
        assert(b[from] == a[from]);
        if a[from].name != name {
            lemma_find_module_push(a, added, name, from + 1);
        }
    } else {
        assert(b[from] == added);
        assert(find_module(b, name, from + 1) is None);
    }
}

/// A module of the name of `module` is registered once `module` is.
pub proof fn lemma_registered_finds(modules: Seq<ModuleView>, module: ModuleView)
    ensures
        find_module(registered(modules, module), module.name, 0) is Some,
{
    lemma_find_module(modules, module.name, 0);
    match find_module(modules, module.name, 0) {
        Some(i) => {
            let after = modules.update(i, module);
            assert forall|k: int| 0 <= k < modules.len() implies (#[trigger] modules[k]).name
                == after[k].name by {}
            lemma_find_module_same_names(modules, after, module.name, 0);
        },
        None => {
            lemma_find_module_push(modules, module, module.name, 0);
        },
    }
}

/// Whether the index knows `name` exactly where the modules hold it.
pub open spec fn indexed_module(
    slots: Map<Seq<char>, usize>,
    modules: Seq<ModuleView>,
    name: Seq<char>,
) -> bool {
    match find_module(modules, name, 0) {
        Some(i) => slots.contains_key(name) && slots[name] == i,
        None => !slots.contains_key(name),
    }
}

/// The modules registered in a scope: found by name through the index, and
/// walked in the order of their registration.
pub struct Registry {
    index: FxHashMap<String, usize>,
    modules: Vec<Module>,
}

impl View for Registry {
    type V = Seq<ModuleView>;

    closed spec fn view(&self) -> Seq<ModuleView> {
        module_views(self.modules@)
    }
}

impl Registry {
    /// The index agrees with the modules.
    pub closed spec fn wf(&self) -> bool {
        forall|name: Seq<char>| #[trigger]
            indexed_module(fx_slots(self.index), module_views(self.modules@), name)
    }

    pub fn new() -> (registry: Self)
        ensures
            registry.wf(),
            registry@ == Seq::<ModuleView>::empty(),
    {
        let registry = Registry { index: fx_new(), modules: Vec::new() };
        assert(module_views(registry.modules@) =~= Seq::empty());
        registry
    }

    /// The modules, in the order of their registration.
    pub fn list(&self) -> (modules: &Vec<Module>)
        ensures
            module_views(modules@) == self@,
    {
        &self.modules
    }

    /// The module registered under `name`.
    pub fn get(&self, name: &str) -> (module: Option<&Module>)
        requires
            self.wf(),
        ensures
            module_option_view(module) == (match find_module(self@, name@, 0) {
                Some(i) => Some(self@[i]),
                None => None,
            }),
    {
        proof {
            assert(indexed_module(fx_slots(self.index), module_views(self.modules@), name@));
            lemma_find_module(self@, name@, 0);
        }
        match fx_get(&self.index, name) {
            Some(i) => {
                assert(module_views(self.modules@)[i as int] == self.modules@[i as int]@);
                Some(&self.modules[i])
            },
            None => None,
        }
    }

    /// Registers `module`: in the place of the module of its name where
    /// there is one, else behind the others.
    pub fn put(&mut self, module: Module)
        requires
            old(self).wf(),
        ensures
            final(self).wf(),
            final(self)@ == registered(old(self)@, module@),
    {
        let ghost before = module_views(self.modules@);
        let ghost slots = fx_slots(self.index);
        proof {
            assert(indexed_module(slots, before, module.name@));
            lemma_find_module(before, module.name@, 0);
        }
        match fx_get(&self.index, module.name.as_str()) {
            Some(i) => {
                self.modules.set(i, module);
                proof {
                    let after = module_views(self.modules@);
                    assert(after =~= before.update(i as int, module@));
                    assert forall|k: int| 0 <= k < before.len() implies (#[trigger] before[k]).name
                        == after[k].name by {}
                    assert forall|n: Seq<char>| #[trigger] indexed_module(slots, after, n) by {
                        lemma_find_module_same_names(before, after, n, 0);
                        assert(indexed_module(slots, before, n));
                    }
                }
            },
            None => {
                let slot = self.modules.len();
                fx_insert(&mut self.index, module.name.clone(), slot);
                self.modules.push(module);
                proof {
                    let after = module_views(self.modules@);
                    assert(after =~= before.push(module@));
                    let slots_after = fx_slots(self.index);
                    assert forall|n: Seq<char>| #[trigger] indexed_module(slots_after, after, n) by {
                        lemma_find_module_push(before, module@, n, 0);
                        assert(indexed_module(slots, before, n));
                    }
                }
            },
        }
    }
}

/// One scope: its bindings, the natives and the modules registered in it,
/// the scope that encloses it, its depth and the directory that imports are
/// resolved against.
pub struct Scope {
    values: Table,
    natives: Table,
    modules: Registry,
    enclosing: Option<usize>,
    depth: usize,
    base_path: String,
}

pub struct ScopeView {
    pub values: Seq<(Seq<char>, ValueView)>,
    pub natives: Seq<(Seq<char>, ValueView)>,
    pub modules: Seq<ModuleView>,
    pub enclosing: Option<usize>,
    pub depth: usize,
    pub base_path: Seq<char>,
}

impl View for Scope {
    type V = ScopeView;

    closed spec fn view(&self) -> ScopeView {
        ScopeView {
            values: self.values@,
            natives: self.natives@,
            modules: self.modules@,
            enclosing: self.enclosing,
            depth: self.depth,
            base_path: self.base_path@,
        }
    }
}

impl Scope {
    pub closed spec fn wf(&self) -> bool {
        self.values.wf() && self.natives.wf() && self.modules.wf()
    }
}

pub open spec fn scope_views(scopes: Seq<Scope>) -> Seq<ScopeView> {
    Seq::new(scopes.len(), |i: int| scopes[i]@)
}

// ---------------------------------------------------------------------------
// What the environment answers, over the views of its scopes
// ---------------------------------------------------------------------------

/// What a scope itself binds `name` to: a value, or else a native.
pub open spec fn own_binding(scope: ScopeView, name: Seq<char>) -> Option<ValueView> {
    match entry_value(scope.values, name) {
        Some(value) => Some(value),
        None => entry_value(scope.natives, name),
    }
}

/// What the module scope `root` gives for `name`: its own binding, or else
/// what the modules registered in it give.
pub open spec fn root_lookup(scopes: Seq<ScopeView>, root: int, name: Seq<char>) -> Option<
    ValueView,
>
    decreases scopes.len() - root, 1nat, 0nat,
{
    if 0 <= root < scopes.len() {
        match own_binding(scopes[root], name) {
            Some(value) => Some(value),
            None => module_lookup(scopes, root, 0, name),
        }
    } else {
        None
    }
}

/// What the modules registered in `root` give for `name`, from the module
/// at position `from` on and in the order of their registration. Only a
/// module whose scope was made after `root` is asked.
pub open spec fn module_lookup(scopes: Seq<ScopeView>, root: int, from: int, name: Seq<char>)
    -> Option<ValueView>
    decreases scopes.len() - root, 0nat, scopes[root].modules.len() - from,
{
    if 0 <= root < scopes.len() && 0 <= from < scopes[root].modules.len() {
        let target = scopes[root].modules[from].environment;
        let found = if root < target < scopes.len() {
            root_lookup(scopes, target as int, name)
        } else {
            None
        };
        match found {
            Some(value) => Some(value),
            None => module_lookup(scopes, root, from + 1, name),
        }
    } else {
        None
    }
}

/// What `name` means in `scope`: the binding of the nearest scope of the
/// enclosing chain that has one, a native counting as a binding; past the
/// outermost scope, what the modules registered there give.
pub open spec fn lookup(scopes: Seq<ScopeView>, scope: int, name: Seq<char>) -> Option<ValueView>
    decreases scope,
{
    if 0 <= scope < scopes.len() {
        match own_binding(scopes[scope], name) {
            Some(value) => Some(value),
            None => match scopes[scope].enclosing {
                Some(parent) => if parent < scope {
                    lookup(scopes, parent as int, name)
                } else {
                    None
                },
                None => module_lookup(scopes, scope, 0, name),
            },
        }
    } else {
        None
    }
}

/// The nearest scope of the enclosing chain of `scope` that binds `name` as
/// a value.
pub open spec fn binding_scope(scopes: Seq<ScopeView>, scope: int, name: Seq<char>) -> Option<int>
    decreases scope,
{
    if 0 <= scope < scopes.len() {
        if entry_value(scopes[scope].values, name) is Some {
            Some(scope)
        } else {
            match scopes[scope].enclosing {
                Some(parent) => if parent < scope {
                    binding_scope(scopes, parent as int, name)
                } else {
                    None
                },
                None => None,
            }
        }
    } else {
        None
    }
}

/// The scopes after `name` was bound to `value` in `scope` itself. A handle
/// that names no scope changes nothing.
pub open spec fn defined(scopes: Seq<ScopeView>, scope: int, name: Seq<char>, value: ValueView)
    -> Seq<ScopeView> {
    if 0 <= scope < scopes.len() {
        scopes.update(
            scope,
            ScopeView { values: with_entry(scopes[scope].values, name, value), ..scopes[scope] },
        )
    } else {
        scopes
    }
}

/// The scopes after `name` was bound as a native in `scope`.
pub open spec fn defined_native(
    scopes: Seq<ScopeView>,
    scope: int,
    name: Seq<char>,
    value: ValueView,
) -> Seq<ScopeView> {
    if 0 <= scope < scopes.len() {
        scopes.update(
            scope,
            ScopeView { natives: with_entry(scopes[scope].natives, name, value), ..scopes[scope] },
        )
    } else {
        scopes
    }
}

/// The scopes after `name` was rebound where it is bound, if it is bound
/// along the enclosing chain of `scope`.
pub open spec fn assigned(scopes: Seq<ScopeView>, scope: int, name: Seq<char>, value: ValueView)
    -> Option<Seq<ScopeView>> {
    match binding_scope(scopes, scope, name) {
        Some(target) => Some(defined(scopes, target, name, value)),
        None => None,
    }
}

/// The depth of a scope made inside `enclosing`.
pub open spec fn depth_inside(scopes: Seq<ScopeView>, enclosing: Option<usize>) -> usize {
    match enclosing {
        Some(parent) => if parent < scopes.len() && scopes[parent as int].depth < usize::MAX {
            (scopes[parent as int].depth + 1) as usize
        } else {
            0
        },
        None => 0,
    }
}

/// A scope that binds nothing.
pub open spec fn empty_scope(enclosing: Option<usize>, depth: usize, base_path: Seq<char>)
    -> ScopeView {
    ScopeView {
        values: Seq::empty(),
        natives: Seq::empty(),
        modules: Seq::empty(),
        enclosing,
        depth,
        base_path,
    }
}

/// The module registered in `scope` under `name`.
pub open spec fn registered_module(scopes: Seq<ScopeView>, scope: int, name: Seq<char>) -> Option<
    ModuleView,
> {
    if 0 <= scope < scopes.len() {
        match find_module(scopes[scope].modules, name, 0) {
            Some(i) => Some(scopes[scope].modules[i]),
            None => None,
        }
    } else {
        None
    }
}

pub open spec fn module_option_view(module: Option<&Module>) -> Option<ModuleView> {
    match module {
        Some(found) => Some(found@),
        None => None,
    }
}

/// The scopes after `module` was imported into `scope`: registered, unless
/// a module of its name is registered there.
pub open spec fn imported(scopes: Seq<ScopeView>, scope: int, module: ModuleView) -> Seq<
    ScopeView,
> {
    if registered_module(scopes, scope, module.name) is Some {
        scopes
    } else {
        with_module(scopes, scope, module)
    }
}

/// The file that an import names: the path itself where it is absolute,
/// else the path resolved against the base directory, which must exist.
pub open spec fn resolved_module_path(
    import_path: Seq<char>,
    absolute: bool,
    resolved: Seq<char>,
    exists: bool,
) -> Result<Seq<char>, crate::error::InterpreterErrorView> {
    if absolute {
        Ok(import_path)
    } else if exists {
        Ok(resolved)
    } else {
        Err(
            crate::error::InterpreterErrorView::RuntimeError(
                RuntimeErrorView::RuntimeError(0, "Could not find module: "@ + import_path),
            ),
        )
    }
}

pub open spec fn path_outcome(result: InterpreterResult<String>) -> Result<
    Seq<char>,
    crate::error::InterpreterErrorView,
> {
    match result {
        Ok(path) => Ok(path@),
        Err(error) => Err(error@),
    }
}

/// The scopes after `module` was registered in `scope`.
pub open spec fn with_module(scopes: Seq<ScopeView>, scope: int, module: ModuleView) -> Seq<
    ScopeView,
> {
    if 0 <= scope < scopes.len() {
        scopes.update(
            scope,
            ScopeView { modules: registered(scopes[scope].modules, module), ..scopes[scope] },
        )
    } else {
        scopes
    }
}

// ---------------------------------------------------------------------------
// Equality of values
// ---------------------------------------------------------------------------

/// Whether every name of `a` is a name of `b`.
pub open spec fn names_within(a: Seq<(Seq<char>, ValueView)>, b: Seq<(Seq<char>, ValueView)>)
    -> bool {
    forall|i: int| 0 <= i < a.len() ==> find_entry(b, (#[trigger] a[i]).0, 0) is Some
}

/// Whether every entry of `a` has an equal entry of the same name in `b`.
pub open spec fn entries_within(
    scopes: Seq<ScopeView>,
    a: Seq<(Seq<char>, ValueView)>,
    b: Seq<(Seq<char>, ValueView)>,
    depth: nat,
) -> bool
    decreases depth, a, 0nat,
{
    forall|i: int|
        0 <= i < a.len() ==> match find_entry(b, (#[trigger] a[i]).0, 0) {
            Some(j) => 0 <= j < b.len() && values_equal(scopes, a[i].1, b[j].1, depth),
            None => false,
        }
}

/// Whether two values are equal: numbers, strings, booleans and `nil` by
/// what they are, functions and classes by name, arrays item by item,
/// dictionaries name by name, sockets and servers by handle, and two
/// instances where they are of one class and are either the same instance
/// or bind the same names to equal values. Instances inside instances are
/// followed `depth` times; below that, two instances of one class count as
/// equal.
pub open spec fn values_equal(scopes: Seq<ScopeView>, a: ValueView, b: ValueView, depth: nat)
    -> bool
    decreases depth, a, 1nat,
{
    match (a, b) {
        (ValueView::Number(x), ValueView::Number(y)) => numbers_equal(x, y),
        (ValueView::String(x), ValueView::String(y)) => x == y,
        (ValueView::Boolean(x), ValueView::Boolean(y)) => x == y,
        (ValueView::Nil, ValueView::Nil) => true,
        (ValueView::Function(x, _, _), ValueView::Function(y, _, _)) => x == y,
        (ValueView::Class(x, _), ValueView::Class(y, _)) => x == y,
        (ValueView::Instance(x, first), ValueView::Instance(y, second)) => x == y && (first
            == second || depth == 0 || (first < scopes.len() && second < scopes.len()
            && entries_within(
            scopes,
            scopes[first as int].values,
            scopes[second as int].values,
            (depth - 1) as nat,
        ) && names_within(scopes[second as int].values, scopes[first as int].values))),
        (ValueView::Array(x), ValueView::Array(y)) => x.len() == y.len() && forall|i: int|
            0 <= i < x.len() ==> values_equal(scopes, #[trigger] x[i], y[i], depth),
        (ValueView::Dictionary(x), ValueView::Dictionary(y)) => entries_within(
            scopes,
            x,
            y,
            depth,
        ) && names_within(y, x),
        (ValueView::Socket(x), ValueView::Socket(y)) => x == y,
        (ValueView::Server(x), ValueView::Server(y)) => x == y,
        _ => false,
    }
}

/// How many instances inside instances a comparison follows.
pub const EQUALITY_DEPTH: usize = 8;

// ---------------------------------------------------------------------------
// The environment
// ---------------------------------------------------------------------------

/// Whether every name of `a` is a name of `b`.
fn names_in(a: &Vec<(String, Value)>, b: &Vec<(String, Value)>) -> (yes: bool)
    ensures
        yes == names_within(entry_views(a@), entry_views(b@)),
{
    let ghost x = entry_views(a@);
    let ghost y = entry_views(b@);
    let mut i: usize = 0;
    while i < a.len()
        invariant
            i <= a.len(),
            x == entry_views(a@),
            y == entry_views(b@),
            forall|k: int| 0 <= k < i ==> find_entry(y, (#[trigger] x[k]).0, 0) is Some,
        decreases a.len() - i,
    {
        if position_of(b, a[i].0.as_str()).is_none() {
            assert(x[i as int].0 == a@[i as int].0@);
            return false;
        }
        assert(x[i as int].0 == a@[i as int].0@);
        i += 1;
    }
    true
}

pub struct Environment {
    scopes: Vec<Scope>,
}

impl View for Environment {
    type V = Seq<ScopeView>;

    closed spec fn view(&self) -> Seq<ScopeView> {
        scope_views(self.scopes@)
    }
}

impl Environment {
    /// Every table of every scope is in order.
    pub closed spec fn wf(&self) -> bool {
        forall|i: int| 0 <= i < self.scopes@.len() ==> (#[trigger] self.scopes@[i]).wf()
    }

    /// An environment of one scope, which has no enclosing scope and
    /// resolves imports against `base_path`. Its handle is 0.
    pub fn new(base_path: String) -> (environment: Self)
        ensures
            environment.wf(),
            environment@ == seq![empty_scope(None, 0, base_path@)],
    {
        let mut scopes: Vec<Scope> = Vec::new();
        let scope = Scope {
            values: Table::new(),
            natives: Table::new(),
            modules: Registry::new(),
            enclosing: None,
            depth: 0,
            base_path,
        };
        scopes.push(scope);
        let environment = Environment { scopes };
        assert(environment@ =~= seq![empty_scope(None, 0, base_path@)]);
        environment
    }

    /// The number of scopes.
    pub fn len(&self) -> (n: usize)
        ensures
            n == self@.len(),
    {
        self.scopes.len()
    }

    /// Makes a scope inside `enclosing` and gives its handle. The new scope
    /// resolves imports against `.`.
    pub fn new_with_enclosing(&mut self, enclosing: Option<usize>) -> (scope: usize)
        requires
            old(self).wf(),
        ensures
            final(self).wf(),
            scope == old(self)@.len(),
            final(self)@ == old(self)@.push(
                empty_scope(enclosing, depth_inside(old(self)@, enclosing), "."@),
            ),
    {
        let depth = match enclosing {
            Some(parent) => if parent < self.scopes.len() && self.scopes[parent].depth
                < usize::MAX {
                self.scopes[parent].depth + 1
            } else {
                0
            },
            None => 0,
        };
        self.add_scope(enclosing, depth, String::from_str("."))
    }

    /// Makes a scope without enclosing scope that resolves imports against
    /// `base_path`, and gives its handle.
    pub fn new_root(&mut self, base_path: String) -> (scope: usize)
        requires
            old(self).wf(),
        ensures
            final(self).wf(),
            scope == old(self)@.len(),
            final(self)@ == old(self)@.push(empty_scope(None, 0, base_path@)),
    {
        self.add_scope(None, 0, base_path)
    }

    fn add_scope(&mut self, enclosing: Option<usize>, depth: usize, base_path: String) -> (scope:
        usize)
        requires
            old(self).wf(),
        ensures
            final(self).wf(),
            scope == old(self)@.len(),
            final(self)@ == old(self)@.push(empty_scope(enclosing, depth, base_path@)),
    {
        let handle = self.scopes.len();
        let scope = Scope {
            values: Table::new(),
            natives: Table::new(),
            modules: Registry::new(),
            enclosing,
            depth,
            base_path,
        };
        self.scopes.push(scope);
        assert(self@ =~= old(self)@.push(empty_scope(enclosing, depth, base_path@)));
        handle
    }

    /// Binds `name` as a native of `arity` arguments in `scope`.
    pub fn define_native(&mut self, scope: usize, name: &str, arity: usize, func: NativeKind)
        requires
            old(self).wf(),
        ensures
            final(self).wf(),
            final(self)@ == defined_native(
                old(self)@,
                scope as int,
                name@,
                ValueView::NativeFunction(
                    crate::interpreter::native::NativeFunctionView { name: name@, arity, func },
                ),
            ),
    {
        if scope < self.scopes.len() {
            let native = Value::NativeFunction(NativeFunction::new(name, arity, func));
            assert(self.scopes@[scope as int].wf());
            self.scopes[scope].natives.set(String::from_str(name), native);
            assert(self@ =~= defined_native(old(self)@, scope as int, name@, native@));
        }
    }

    /// Binds `name` to the class of that name with `methods`, in `scope`.
    pub fn define_class(&mut self, scope: usize, name: String, methods: Vec<(String, Value)>)
        requires
            old(self).wf(),
        ensures
            final(self).wf(),
            final(self)@ == defined(
                old(self)@,
                scope as int,
                name@,
                ValueView::Class(name@, entry_views(methods@)),
            ),
    {
        let class = Value::Class(name.clone(), methods);
        self.define(scope, name.as_str(), class);
    }

    /// A copy of what `scope` itself binds, in the order in which the names
    /// were first bound.
    pub fn get_values(&self, scope: usize) -> (values: Vec<(String, Value)>)
        requires
            self.wf(),
        ensures
            entry_views(values@) == (if scope < self@.len() {
                self@[scope as int].values
            } else {
                Seq::empty()
            }),
    {
        let mut values: Vec<(String, Value)> = Vec::new();
        assert(entry_views(values@) =~= Seq::empty());
        if scope < self.scopes.len() {
            let entries = self.scopes[scope].values.entries();
            let mut i: usize = 0;
            assert(entry_views(values@) =~= entry_views(entries@.take(0)));
            while i < entries.len()
                invariant
                    i <= entries.len(),
                    entry_views(values@) == entry_views(entries@.take(i as int)),
                decreases entries.len() - i,
            {
                let ghost before = values@;
                let key = entries[i].0.clone();
                let value = entries[i].1.clone();
                values.push((key, value));
                proof {
                    lemma_entry_views_push(before, key, value);
                    lemma_entry_views_push(
                        entries@.take(i as int),
                        entries@[i as int].0,
                        entries@[i as int].1,
                    );
                    assert(entries@.take(i + 1) =~= entries@.take(i as int).push(
                        entries@[i as int],
                    ));
                }
                i += 1;
            }
            assert(entries@.take(i as int) =~= entries@);
        }
        values
    }

    /// The scope that encloses `scope`.
    pub fn get_enclosing(&self, scope: usize) -> (enclosing: Option<usize>)
        ensures
            enclosing == (if scope < self@.len() {
                self@[scope as int].enclosing
            } else {
                None::<usize>
            }),
    {
        if scope < self.scopes.len() {
            self.scopes[scope].enclosing
        } else {
            None
        }
    }

    /// The directory that imports made in `scope` are resolved against.
    pub fn base_path(&self, scope: usize) -> (path: String)
        ensures
            path@ == (if scope < self@.len() {
                self@[scope as int].base_path
            } else {
                Seq::<char>::empty()
            }),
    {
        if scope < self.scopes.len() {
            self.scopes[scope].base_path.clone()
        } else {
            String::new()
        }
    }

    /// Binds `name` to `value` in `scope` itself, whether or not the name was
    /// bound there.
    pub fn define(&mut self, scope: usize, name: &str, value: Value)
        requires
            old(self).wf(),
        ensures
            final(self).wf(),
            final(self)@ == defined(old(self)@, scope as int, name@, value@),
    {
        if scope < self.scopes.len() {
            assert(self.scopes@[scope as int].wf());
            self.scopes[scope].values.set(String::from_str(name), value);
            assert(self@ =~= defined(old(self)@, scope as int, name@, value@));
        }
    }

    /// A copy of the value that `scope` itself binds `name` to, natives
    /// aside.
    pub fn get_field(&self, scope: usize, name: &str) -> (value: Option<Value>)
        requires
            self.wf(),
        ensures
            option_view(value) == (if scope < self@.len() {
                entry_value(self@[scope as int].values, name@)
            } else {
                None
            }),
    {
        if scope < self.scopes.len() {
            assert(self.scopes@[scope as int].wf());
            self.scopes[scope].values.get(name)
        } else {
            None
        }
    }

    /// A copy of what `scope` itself binds `name` to.
    pub fn get_own(&self, scope: usize, name: &str) -> (value: Option<Value>)
        requires
            self.wf(),
        ensures
            option_view(value) == (if scope < self@.len() {
                own_binding(self@[scope as int], name@)
            } else {
                None
            }),
    {
        if scope < self.scopes.len() {
            assert(self.scopes@[scope as int].wf());
            match self.scopes[scope].values.get(name) {
                Some(value) => Some(value),
                None => self.scopes[scope].natives.get(name),
            }
        } else {
            None
        }
    }

    /// A copy of what `name` means in `scope`.
    pub fn get(&self, scope: usize, name: &str) -> (value: Option<Value>)
        requires
            self.wf(),
        ensures
            option_view(value) == lookup(self@, scope as int, name@),
    {
        let mut current = scope;
        loop
            invariant
                self.wf(),
                lookup(self@, current as int, name@) == lookup(self@, scope as int, name@),
            decreases current,
        {
            if current >= self.scopes.len() {
                return None;
            }
            match self.get_own(current, name) {
                Some(value) => {
                    return Some(value);
                },
                None => {},
            }
            match self.scopes[current].enclosing {
                Some(parent) => {
                    if parent < current {
                        current = parent;
                    } else {
                        return None;
                    }
                },
                None => {
                    return self.get_from_module(current, name);
                },
            }
        }
    }

    /// A copy of what the modules registered in `scope` give for `name`: the
    /// first module, in the order of registration, that knows the name
    /// decides.
    pub fn get_from_module(&self, scope: usize, name: &str) -> (value: Option<Value>)
        requires
            self.wf(),
        ensures
            option_view(value) == module_lookup(self@, scope as int, 0, name@),
    {
        self.modules_from(scope, 0, name)
    }

    fn modules_from(&self, root: usize, from: usize, name: &str) -> (value: Option<Value>)
        requires
            self.wf(),
        ensures
            option_view(value) == module_lookup(self@, root as int, from as int, name@),
        decreases self@.len() - root, 0nat, self@[root as int].modules.len() - from,
    {
        if root >= self.scopes.len() {
            return None;
        }
        let modules = self.scopes[root].modules.list();
        assert(module_views(modules@).len() == modules@.len());
        if from >= modules.len() {
            return None;
        }
        assert(module_views(modules@)[from as int] == modules@[from as int]@);
        let target = modules[from].environment;
        if root < target && target < self.scopes.len() {
            match self.root_get(target, name) {
                Some(value) => {
                    return Some(value);
                },
                None => {},
            }
        }
        self.modules_from(root, from + 1, name)
    }

    fn root_get(&self, root: usize, name: &str) -> (value: Option<Value>)
        requires
            self.wf(),
        ensures
            option_view(value) == root_lookup(self@, root as int, name@),
        decreases self@.len() - root, 1nat, 0nat,
    {
        if root >= self.scopes.len() {
            return None;
        }
        match self.get_own(root, name) {
            Some(value) => Some(value),
            None => self.modules_from(root, 0, name),
        }
    }

    /// The nearest scope of the enclosing chain of `scope` that binds `name`
    /// as a value.
    fn find_binding(&self, scope: usize, name: &str) -> (target: Option<usize>)
        requires
            self.wf(),
        ensures
            match target {
                Some(t) => binding_scope(self@, scope as int, name@) == Some(t as int) && t
                    < self@.len(),
                None => binding_scope(self@, scope as int, name@) is None,
            },
    {
        let mut current = scope;
        loop
            invariant
                self.wf(),
                binding_scope(self@, current as int, name@) == binding_scope(
                    self@,
                    scope as int,
                    name@,
                ),
            decreases current,
        {
            if current >= self.scopes.len() {
                return None;
            }
            assert(self.scopes@[current as int].wf());
            if self.scopes[current].values.contains(name) {
                return Some(current);
            }
            match self.scopes[current].enclosing {
                Some(parent) => {
                    if parent < current {
                        current = parent;
                    } else {
                        return None;
                    }
                },
                None => {
                    return None;
                },
            }
        }
    }

    /// Rebinds `name` in the nearest scope of the enclosing chain of `scope`
    /// that binds it, and gives the value back. Where no scope of the chain
    /// binds the name, nothing changes and the error names the variable.
    pub fn assign(&mut self, scope: usize, name: &str, value: Value) -> (result: InterpreterResult<
        Value,
    >)
        requires
            old(self).wf(),
        ensures
            final(self).wf(),
            match result {
                Ok(given) => given@ == value@ && assigned(
                    old(self)@,
                    scope as int,
                    name@,
                    value@,
                ) == Some(final(self)@),
                Err(error) => assigned(old(self)@, scope as int, name@, value@) is None
                    && final(self)@ == old(self)@ && error@
                    == crate::error::InterpreterErrorView::RuntimeError(
                    RuntimeErrorView::UndefinedVariable(0, name@),
                ),
            },
    {
        match self.find_binding(scope, name) {
            Some(target) => {
                self.define(target, name, value.clone());
                Ok(value)
            },
            None => Err(
                InterpreterError::runtime_error(
                    RuntimeErrorKind::UndefinedVariable(0, String::from_str(name)),
                ),
            ),
        }
    }

    /// The module registered in `scope` under `name`.
    pub fn get_module(&self, scope: usize, name: &str) -> (module: Option<&Module>)
        requires
            self.wf(),
        ensures
            module_option_view(module) == registered_module(self@, scope as int, name@),
    {
        if scope >= self.scopes.len() {
            return None;
        }
        assert(self.scopes@[scope as int].wf());
        self.scopes[scope].modules.get(name)
    }

    /// The file that the import of `import_path` names, from what the host
    /// has found: whether the path is absolute, what it is when resolved
    /// against the base directory, and whether that file exists.
    pub fn resolve_module_path(
        &self,
        import_path: &str,
        absolute: bool,
        resolved: String,
        exists: bool,
    ) -> (result: InterpreterResult<String>)
        ensures
            path_outcome(result) == resolved_module_path(
                import_path@,
                absolute,
                resolved@,
                exists,
            ),
    {
        if absolute {
            Ok(String::from_str(import_path))
        } else if exists {
            Ok(resolved)
        } else {
            let mut message = String::from_str("Could not find module: ");
            message.append(import_path);
            Err(InterpreterError::runtime_error(RuntimeErrorKind::RuntimeError(0, message)))
        }
    }

    /// Imports `module` into `scope`: registers it, unless a module of its
    /// name is registered there, in which case nothing changes. Tells
    /// whether it was registered now.
    pub fn import_module(&mut self, scope: usize, module: Module) -> (registered: bool)
        requires
            old(self).wf(),
        ensures
            final(self).wf(),
            final(self)@ == imported(old(self)@, scope as int, module@),
            registered == (registered_module(old(self)@, scope as int, module.name@) is None
                && scope < old(self)@.len()),
    {
        if scope >= self.scopes.len() {
            return false;
        }
        if self.get_module(scope, module.name.as_str()).is_some() {
            return false;
        }
        self.add_module(scope, module);
        true
    }

    /// Registers `module` in `scope`: in the place of the module of its
    /// name where there is one, else behind the modules that are there.
    pub fn add_module(&mut self, scope: usize, module: Module)
        requires
            old(self).wf(),
        ensures
            final(self).wf(),
            final(self)@ == with_module(old(self)@, scope as int, module@),
    {
        if scope < self.scopes.len() {
            assert(self.scopes@[scope as int].wf());
            self.scopes[scope].modules.put(module);
            assert(self@ =~= with_module(old(self)@, scope as int, module@));
        }
    }

    /// Whether every entry of `a` has an equal entry of the same name in `b`.
    #[verifier::loop_isolation(false)]
    fn within(&self, a: &Vec<(String, Value)>, b: &Vec<(String, Value)>, depth: usize) -> (yes:
        bool)
        requires
            self.wf(),
        ensures
            yes == entries_within(self@, entry_views(a@), entry_views(b@), depth as nat),
        decreases depth, a, 0nat,
    {
        let ghost x = entry_views(a@);
        let ghost y = entry_views(b@);
        let mut i: usize = 0;
        while i < a.len()
            invariant
                i <= a.len(),
                forall|k: int|
                    0 <= k < i ==> match find_entry(y, (#[trigger] x[k]).0, 0) {
                        Some(j) => 0 <= j < y.len() && values_equal(
                            self@,
                            x[k].1,
                            y[j].1,
                            depth as nat,
                        ),
                        None => false,
                    },
            decreases a.len() - i,
        {
            match position_of(b, a[i].0.as_str()) {
                Some(j) => {
                    if !self.equal(&a[i].1, &b[j].1, depth) {
                        assert(x[i as int].0 == a@[i as int].0@);
                        return false;
                    }
                },
                None => {
                    assert(x[i as int].0 == a@[i as int].0@);
                    return false;
                },
            }
            i += 1;
        }
        true
    }

    /// Whether `a` and `b` are equal, following instances inside instances
    /// `depth` times.
    #[verifier::loop_isolation(false)]
    pub fn equal(&self, a: &Value, b: &Value, depth: usize) -> (yes: bool)
        requires
            self.wf(),
        ensures
            yes == values_equal(self@, a@, b@, depth as nat),
        decreases depth, a, 1nat,
    {
        match (a, b) {
            (Value::Number(x), Value::Number(y)) => equal_numbers(x, y),
            (Value::String(x), Value::String(y)) => same_text(x.as_str(), y.as_str()),
            (Value::Boolean(x), Value::Boolean(y)) => *x == *y,
            (Value::Nil, Value::Nil) => true,
            (Value::Function(x, _, _), Value::Function(y, _, _)) => same_text(
                x.as_str(),
                y.as_str(),
            ),
            (Value::Class(x, _), Value::Class(y, _)) => same_text(x.as_str(), y.as_str()),
            (Value::Instance(x, first), Value::Instance(y, second)) => {
                if !same_text(x.as_str(), y.as_str()) {
                    false
                } else if *first == *second || depth == 0 {
                    true
                } else if *first < self.scopes.len() && *second < self.scopes.len() {
                    let left = self.scopes[*first].values.entries();
                    let right = self.scopes[*second].values.entries();
                    self.within(left, right, depth - 1) && names_in(right, left)
                } else {
                    false
                }
            },
            (Value::Array(x), Value::Array(y)) => {
                let ghost p = value_views(x@);
                let ghost q = value_views(y@);
                assert(p.len() == x@.len() && q.len() == y@.len());
                if x.len() != y.len() {
                    return false;
                }
                let mut i: usize = 0;
                while i < x.len()
                    invariant
                        i <= x.len(),
                        x.len() == y.len(),
                        forall|k: int|
                            0 <= k < i ==> values_equal(self@, #[trigger] p[k], q[k], depth as nat),
                    decreases x.len() - i,
                {
                    assert(p[i as int] == x@[i as int]@ && q[i as int] == y@[i as int]@);
                    if !self.equal(&x[i], &y[i], depth) {
                        assert(!values_equal(self@, p[i as int], q[i as int], depth as nat));
                        return false;
                    }
                    i += 1;
                }
                true
            },
            (Value::Dictionary(x), Value::Dictionary(y)) => self.within(x, y, depth) && names_in(
                y,
                x,
            ),
            (Value::Socket(x), Value::Socket(y)) => *x == *y,
            (Value::Server(x), Value::Server(y)) => *x == *y,
            _ => false,
        }
    }
}

} // verus!
