//! The compile-time lexical-scope resolver.
//!
//! Scope records live in an index-addressed arena: each record stores its
//! parent's index, so the "strictly nested, never cyclic" shape of the
//! scope tree is structurally enforced. The arena doubles as the ordered
//! table of every scope ever created, which the execution driver later
//! materializes as runtime storage. [`ByteCompiler`] keeps the index of
//! the currently active scope, pushes and pops records with strict stack
//! discipline, and answers binding queries with immutable
//! [`BindingLocator`] descriptors.

use vstd::prelude::*;
use vstd::std_specs::vec::vec_index_mut;

use crate::errors::{BindingLocatorError, InternalFault, JsError};

verus! {

/// An opaque interned name key, as handed over by the parser.
#[derive(Debug, Clone, Copy, PartialEq, Eq, Structural)]
pub struct Identifier(pub u32);

/// Metadata of one binding declared in a scope. A binding's slot is its
/// position in the scope's binding table.
#[derive(Debug, Clone, Copy, PartialEq, Eq, Structural)]
pub struct Binding {
    /// The bound name.
    pub name: Identifier,
    /// Whether the binding may be assigned after initialization.
    pub mutable: bool,
    /// `true` for a block-scoped (lexical) binding, `false` for a
    /// hoisting ("var"-style) binding.
    pub lex: bool,
    /// Whether the binding was created in strict code; for an immutable
    /// binding this decides how an assignment to it fails.
    pub strict: bool,
    /// Whether the binding has left its uninitialized (temporal dead
    /// zone) state.
    pub initialized: bool,
}

/// One lexical scope's binding table, linked to its parent by index.
#[derive(Debug, Clone, PartialEq, Eq)]
pub struct CompileTimeEnvironment {
    /// Index of the parent scope in the scope table; `None` only for the
    /// root/global scope.
    pub outer: Option<usize>,
    /// `true` if this scope is a hoisting boundary (a function or the
    /// global scope).
    pub function_scope: bool,
    /// The bindings declared in this scope.
    pub bindings: Vec<Binding>,
    /// This scope's own index in the table of all scope records.
    pub index: usize,
}

/// An immutable, resolved descriptor of one name reference, produced once
/// at compile time and baked into emitted instructions.
#[derive(Debug, Clone, Copy, PartialEq, Eq)]
pub struct BindingLocator {
    /// The referenced name.
    pub name: Identifier,
    /// The scope that holds the binding, or `None` when the reference is
    /// unresolved and falls back to dynamic lookup on the global object.
    pub scope: Option<usize>,
    /// The binding's slot in that scope (0 for an unresolved locator).
    pub binding_index: usize,
    /// The `strict` flag of the resolved binding (false for an unresolved
    /// locator).
    pub strict: bool,
}

/// The mathematical view of one scope record.
#[verifier::ext_equal]
pub struct ScopeView {
    pub outer: Option<int>,
    pub function_scope: bool,
    pub bindings: Seq<Binding>,
    pub index: int,
}

/// The mathematical view of the whole scope-stack state: the table of all
/// scope records, the index of the active one, and the count of scopes
/// opened and not yet closed.
#[verifier::ext_equal]
pub struct CompilerView {
    pub scopes: Seq<ScopeView>,
    pub current: int,
    pub open_count: int,
}

impl View for CompileTimeEnvironment {
    type V = ScopeView;

    open spec fn view(&self) -> ScopeView {
        ScopeView {
            outer: match self.outer {
                Some(o) => Some(o as int),
                None => None,
            },
            function_scope: self.function_scope,
            bindings: self.bindings@,
            index: self.index as int,
        }
    }
}

/// No two bindings of one scope share a name.
pub open spec fn unique_names(bindings: Seq<Binding>) -> bool {
    forall|i: int, j: int|
        0 <= i < j < bindings.len() ==> bindings[i].name != bindings[j].name
}

/// Whether a scope's binding table declares `name`.
pub open spec fn scope_has(bindings: Seq<Binding>, name: Identifier) -> bool {
    exists|i: int| 0 <= i < bindings.len() && bindings[i].name == name
}

/// The slot of the binding named `name` (meaningful under `unique_names`
/// when `scope_has` holds).
pub open spec fn binding_slot(bindings: Seq<Binding>, name: Identifier) -> int {
    choose|i: int| 0 <= i < bindings.len() && bindings[i].name == name
}

/// The binding named `name` of a scope.
pub open spec fn binding_of(bindings: Seq<Binding>, name: Identifier) -> Binding {
    bindings[binding_slot(bindings, name)]
}

/// Whether a scope's binding table declares `name` as a hoisting
/// ("var"-style) binding.
pub open spec fn scope_has_var(bindings: Seq<Binding>, name: Identifier) -> bool {
    exists|i: int| 0 <= i < bindings.len() && bindings[i].name == name && !bindings[i].lex
}

/// The number of ancestors of scope `i`: 0 for the root.
pub open spec fn scope_depth(scopes: Seq<ScopeView>, i: int) -> int
    decreases i,
{
    if 0 <= i < scopes.len() {
        match scopes[i].outer {
            Some(o) => if 0 <= o < i {
                1 + scope_depth(scopes, o)
            } else {
                0
            },
            None => 0,
        }
    } else {
        0
    }
}

/// Whether `target` is `from` itself or one of its ancestors.
pub open spec fn on_chain(scopes: Seq<ScopeView>, from: int, target: int) -> bool
    decreases from,
{
    if !(0 <= from < scopes.len()) {
        false
    } else if from == target {
        true
    } else {
        match scopes[from].outer {
            Some(o) => 0 <= o < from && on_chain(scopes, o, target),
            None => false,
        }
    }
}

/// The innermost scope on the chain from `cur` to the root that declares
/// `name`, or `None` when no declarative binding exists anywhere.
pub open spec fn found_scope(scopes: Seq<ScopeView>, cur: int, name: Identifier) -> Option<int>
    decreases cur,
{
    if !(0 <= cur < scopes.len()) {
        None
    } else if scope_has(scopes[cur].bindings, name) {
        Some(cur)
    } else {
        match scopes[cur].outer {
            Some(o) => if 0 <= o < cur {
                found_scope(scopes, o, name)
            } else {
                None
            },
            None => None,
        }
    }
}

/// Like [`found_scope`], but the walk stops at the nearest hoisting
/// boundary (that boundary scope itself is still searched).
pub open spec fn found_scope_until_var(
    scopes: Seq<ScopeView>,
    cur: int,
    name: Identifier,
) -> Option<int>
    decreases cur,
{
    if !(0 <= cur < scopes.len()) {
        None
    } else if scope_has(scopes[cur].bindings, name) {
        Some(cur)
    } else if scopes[cur].function_scope {
        None
    } else {
        match scopes[cur].outer {
            Some(o) => if 0 <= o < cur {
                found_scope_until_var(scopes, o, name)
            } else {
                None
            },
            None => None,
        }
    }
}

/// The innermost scope on the chain from `cur` that declares `name` as a
/// hoisting binding; the walk searches only hoisted bindings.
pub open spec fn found_var_scope(scopes: Seq<ScopeView>, cur: int, name: Identifier) -> Option<
    int,
>
    decreases cur,
{
    if !(0 <= cur < scopes.len()) {
        None
    } else if scope_has_var(scopes[cur].bindings, name) {
        Some(cur)
    } else {
        match scopes[cur].outer {
            Some(o) => if 0 <= o < cur {
                found_var_scope(scopes, o, name)
            } else {
                None
            },
            None => None,
        }
    }
}

/// The nearest hoisting boundary on the chain from `cur`: the target scope
/// of a hoisting declaration.
pub open spec fn var_scope_of(scopes: Seq<ScopeView>, cur: int) -> int
    decreases cur,
{
    if !(0 <= cur < scopes.len()) {
        0
    } else if scopes[cur].function_scope {
        cur
    } else {
        match scopes[cur].outer {
            Some(o) => if 0 <= o < cur {
                var_scope_of(scopes, o)
            } else {
                cur
            },
            None => cur,
        }
    }
}

/// The unresolved locator: the reference falls back to dynamic lookup on
/// the global object at run time.
pub open spec fn global_locator(name: Identifier) -> BindingLocator {
    BindingLocator { name, scope: None, binding_index: 0, strict: false }
}

/// The declarative locator for the binding `name` held by scope `s`.
pub open spec fn locator_for(scopes: Seq<ScopeView>, s: int, name: Identifier) -> BindingLocator {
    BindingLocator {
        name,
        scope: Some(s as usize),
        binding_index: binding_slot(scopes[s].bindings, name) as usize,
        strict: binding_of(scopes[s].bindings, name).strict,
    }
}

impl CompilerView {
    /// Well-formedness of the whole resolver state: one root scope at
    /// index 0, which is a hoisting boundary and can never be popped;
    /// every other scope's parent precedes it in the table; every scope
    /// records its own table index; names are unique per scope; the
    /// active scope exists; and the open-scope count equals the active
    /// scope's depth, so it can never go negative.
    pub open spec fn wf(self) -> bool {
        &&& 1 <= self.scopes.len()
        &&& self.scopes[0].outer is None
        &&& self.scopes[0].function_scope
        &&& (forall|i: int| 0 <= i < self.scopes.len() ==> (#[trigger] self.scopes[i]).index == i)
        &&& (forall|i: int|
            1 <= i < self.scopes.len() ==> (#[trigger] self.scopes[i]).outer is Some
                && 0 <= self.scopes[i].outer.unwrap() < i)
        &&& (forall|i: int|
            0 <= i < self.scopes.len() ==> unique_names((#[trigger] self.scopes[i]).bindings))
        &&& 0 <= self.current < self.scopes.len()
        &&& self.open_count == scope_depth(self.scopes, self.current)
    }
}

/// The state after a scope push: a new child of the active scope is
/// appended to the table and becomes active.
pub open spec fn push_view(v: CompilerView, function_scope: bool) -> CompilerView {
    let idx = v.scopes.len() as int;
    CompilerView {
        scopes: v.scopes.push(
            ScopeView { outer: Some(v.current), function_scope, bindings: Seq::empty(), index: idx },
        ),
        current: idx,
        open_count: v.open_count + 1,
    }
}

/// Whether the active scope has a parent to pop to.
pub open spec fn can_pop(v: CompilerView) -> bool {
    v.scopes[v.current].outer is Some
}

/// The state after a scope pop: the parent becomes active; the popped
/// record is retained in the table for runtime materialization.
pub open spec fn pop_view(v: CompilerView) -> CompilerView {
    CompilerView {
        current: v.scopes[v.current].outer.unwrap(),
        open_count: v.open_count - 1,
        ..v
    }
}

/// The state after adding binding `b` to scope `s`.
pub open spec fn with_binding_added(v: CompilerView, s: int, b: Binding) -> CompilerView {
    CompilerView {
        scopes: v.scopes.update(
            s,
            ScopeView { bindings: v.scopes[s].bindings.push(b), ..v.scopes[s] },
        ),
        ..v
    }
}

/// The state after marking the binding `name` of scope `s` initialized.
pub open spec fn with_binding_initialized(v: CompilerView, s: int, name: Identifier) -> CompilerView {
    let slot = binding_slot(v.scopes[s].bindings, name);
    let b = Binding { initialized: true, ..v.scopes[s].bindings[slot] };
    CompilerView {
        scopes: v.scopes.update(
            s,
            ScopeView { bindings: v.scopes[s].bindings.update(slot, b), ..v.scopes[s] },
        ),
        ..v
    }
}

/// The binding a mutable declaration registers.
pub open spec fn new_mutable_binding(name: Identifier, function_scope: bool) -> Binding {
    Binding { name, mutable: true, lex: !function_scope, strict: false, initialized: false }
}

/// The state and result of `create_mutable_binding`: a hoisting
/// declaration targets the nearest hoisting boundary and is idempotent
/// over an existing hoisting binding of the same name; any other
/// redeclaration in the target scope is a duplicate-declaration error.
pub open spec fn create_mutable_spec(
    v: CompilerView,
    name: Identifier,
    function_scope: bool,
) -> (CompilerView, Result<(), JsError>) {
    let target = if function_scope {
        var_scope_of(v.scopes, v.current)
    } else {
        v.current
    };
    if scope_has(v.scopes[target].bindings, name) {
        if function_scope && !binding_of(v.scopes[target].bindings, name).lex {
            (v, Ok(()))
        } else {
            (v, Err(JsError::DuplicateDeclaration))
        }
    } else {
        (with_binding_added(v, target, new_mutable_binding(name, function_scope)), Ok(()))
    }
}

/// The state and result of `create_immutable_binding`: the declaration
/// targets the active scope and any existing binding of the same name
/// there is a duplicate-declaration error.
pub open spec fn create_immutable_spec(
    v: CompilerView,
    name: Identifier,
    strict: bool,
) -> (CompilerView, Result<(), JsError>) {
    if scope_has(v.scopes[v.current].bindings, name) {
        (v, Err(JsError::DuplicateDeclaration))
    } else {
        let b = Binding { name, mutable: false, lex: true, strict, initialized: false };
        (with_binding_added(v, v.current, b), Ok(()))
    }
}

/// The state and locator of `initialize_mutable_binding`: the binding in
/// the target scope leaves its uninitialized state; when no binding
/// exists there the reference is an implicit global and nothing changes.
pub open spec fn initialize_mutable_spec(
    v: CompilerView,
    name: Identifier,
    function_scope: bool,
) -> (CompilerView, BindingLocator) {
    let target = if function_scope {
        var_scope_of(v.scopes, v.current)
    } else {
        v.current
    };
    if scope_has(v.scopes[target].bindings, name) {
        (with_binding_initialized(v, target, name), locator_for(v.scopes, target, name))
    } else {
        (v, global_locator(name))
    }
}

/// The locator of a resolved name reference: the innermost declaration
/// wins under shadowing; an undeclared name yields the unresolved locator.
pub open spec fn resolve_spec(v: CompilerView, name: Identifier) -> BindingLocator {
    match found_scope(v.scopes, v.current, name) {
        Some(s) => locator_for(v.scopes, s, name),
        None => global_locator(name),
    }
}

/// The result of resolving an assignment target: the innermost
/// declaration decides; an immutable one is an error whose flavor the
/// binding's `strict` flag picks; an undeclared name yields the
/// unresolved locator so the caller may create an implicit global.
pub open spec fn set_binding_result(v: CompilerView, name: Identifier) -> Result<
    BindingLocator,
    BindingLocatorError,
> {
    match found_scope(v.scopes, v.current, name) {
        Some(s) => {
            let b = binding_of(v.scopes[s].bindings, name);
            if b.mutable {
                Ok(locator_for(v.scopes, s, name))
            } else if b.strict {
                Err(BindingLocatorError::MutateImmutable)
            } else {
                Err(BindingLocatorError::Silent)
            }
        },
        None => Ok(global_locator(name)),
    }
}

/// Like [`set_binding_result`], but the walk searches only hoisted
/// ("var"-style) bindings.
pub open spec fn set_binding_var_result(v: CompilerView, name: Identifier) -> Result<
    BindingLocator,
    BindingLocatorError,
> {
    match found_var_scope(v.scopes, v.current, name) {
        Some(s) => {
            let b = binding_of(v.scopes[s].bindings, name);
            if b.mutable {
                Ok(locator_for(v.scopes, s, name))
            } else if b.strict {
                Err(BindingLocatorError::MutateImmutable)
            } else {
                Err(BindingLocatorError::Silent)
            }
        },
        None => Ok(global_locator(name)),
    }
}

/// The state after pushing one scope per entry of `flags` (each entry is
/// the new scope's `function_scope` flag), in order.
pub open spec fn push_n(v: CompilerView, flags: Seq<bool>) -> CompilerView
    decreases flags.len(),
{
    if flags.len() == 0 {
        v
    } else {
        push_n(push_view(v, flags[0]), flags.drop_first())
    }
}

/// The state after `n` scope pops, in order.
pub open spec fn pop_n(v: CompilerView, n: nat) -> CompilerView
    decreases n,
{
    if n == 0 {
        v
    } else {
        pop_view(pop_n(v, (n - 1) as nat))
    }
}

/// Pushing scopes only appends to the table: every record that existed
/// keeps its index and content.
proof fn lemma_push_n_prefix(v: CompilerView, flags: Seq<bool>)
    ensures
        push_n(v, flags).scopes.len() == v.scopes.len() + flags.len(),
        forall|i: int| 0 <= i < v.scopes.len() ==> #[trigger] push_n(v, flags).scopes[i]
            == v.scopes[i],
    decreases flags.len(),
{
    if flags.len() > 0 {
        lemma_push_n_prefix(push_view(v, flags[0]), flags.drop_first());
    }
}

/// Any sequence of N scope pushes followed by N pops restores the scope
/// that was active before the first push (and the open-scope count), while
/// the table keeps every record the pushes created; in particular, one
/// further pop is possible afterward exactly when it was possible before,
/// so on the root scope it is the fatal unbalanced pop.
pub proof fn lemma_balanced_push_pop(v: CompilerView, flags: Seq<bool>)
    requires
        0 <= v.current < v.scopes.len(),
    ensures
        pop_n(push_n(v, flags), flags.len()).current == v.current,
        pop_n(push_n(v, flags), flags.len()).open_count == v.open_count,
        pop_n(push_n(v, flags), flags.len()).scopes == push_n(v, flags).scopes,
        can_pop(pop_n(push_n(v, flags), flags.len())) == can_pop(v),
    decreases flags.len(),
{
    if flags.len() == 0 {
    } else {
        let u = push_view(v, flags[0]);
        let rest = flags.drop_first();
        assert(push_n(v, flags) == push_n(u, rest));
        lemma_balanced_push_pop(u, rest);
        lemma_push_n_prefix(u, rest);
        let m = pop_n(push_n(u, rest), rest.len());
        assert(m.scopes[u.current] == u.scopes[u.current]);
        assert(u.scopes[u.current].outer == Some(v.current));
        assert(pop_n(push_n(v, flags), flags.len()) == pop_view(m));
        assert(pop_view(m).current == v.current);
        lemma_push_n_prefix(v, flags);
        assert(pop_view(m).scopes[v.current] == v.scopes[v.current]);
    }
}

/// `target` lies no deeper in the table than `from` when it is reachable
/// along parent links.
proof fn lemma_chain_le(scopes: Seq<ScopeView>, from: int, target: int)
    requires
        on_chain(scopes, from, target),
    ensures
        target <= from,
        0 <= target < scopes.len(),
    decreases from,
{
    if from != target {
        match scopes[from].outer {
            Some(o) => lemma_chain_le(scopes, o, target),
            None => {},
        }
    }
}

/// `on_chain` only reads the parent links, so it is unchanged by any edit
/// that keeps every scope's parent.
proof fn lemma_chain_same_outers(a: Seq<ScopeView>, b: Seq<ScopeView>, from: int, target: int)
    requires
        a.len() == b.len(),
        forall|j: int| 0 <= j < a.len() ==> (#[trigger] a[j]).outer == b[j].outer,
    ensures
        on_chain(a, from, target) == on_chain(b, from, target),
    decreases from,
{
    if 0 <= from < a.len() && from != target {
        match a[from].outer {
            Some(o) => {
                if 0 <= o < from {
                    lemma_chain_same_outers(a, b, o, target);
                }
            },
            None => {},
        }
    }
}

/// The induction behind [`lemma_resolution_innermost`], generalized over
/// the starting scope of the walk.
proof fn lemma_found_scope_innermost(scopes: Seq<ScopeView>, cur: int, name: Identifier, s: int)
    requires
        0 <= cur < scopes.len(),
        found_scope(scopes, cur, name) == Some(s),
    ensures
        on_chain(scopes, cur, s),
        scope_has(scopes[s].bindings, name),
        forall|t: int|
            #![trigger on_chain(scopes, t, s)]
            on_chain(scopes, cur, t) && t != s && on_chain(scopes, t, s) ==> !scope_has(
                scopes[t].bindings,
                name,
            ),
    decreases cur,
{
    if scope_has(scopes[cur].bindings, name) {
        assert(s == cur);
        assert forall|t: int|
            on_chain(scopes, cur, t) && t != s && #[trigger] on_chain(scopes, t, s) implies !scope_has(
            scopes[t].bindings,
            name,
        ) by {
            lemma_chain_le(scopes, cur, t);
            lemma_chain_le(scopes, t, s);
        }
    } else {
        match scopes[cur].outer {
            Some(o) => {
                lemma_found_scope_innermost(scopes, o, name, s);
                assert forall|t: int|
                    on_chain(scopes, cur, t) && t != s && #[trigger] on_chain(scopes, t, s) implies !scope_has(
                    scopes[t].bindings,
                    name,
                ) by {
                    if t != cur {
                        assert(on_chain(scopes, o, t));
                    }
                }
            },
            None => {},
        }
    }
}

/// Name resolution returns the innermost matching declaration under
/// shadowing: the scope of a resolved locator lies on the chain of the
/// active scope, declares the name, and no scope strictly nearer the
/// active scope declares it.
pub proof fn lemma_resolution_innermost(v: CompilerView, name: Identifier, s: int)
    requires
        v.wf(),
        found_scope(v.scopes, v.current, name) == Some(s),
    ensures
        resolve_spec(v, name) == locator_for(v.scopes, s, name),
        on_chain(v.scopes, v.current, s),
        scope_has(v.scopes[s].bindings, name),
        forall|t: int|
            #![trigger on_chain(v.scopes, t, s)]
            on_chain(v.scopes, v.current, t) && t != s && on_chain(v.scopes, t, s) ==> !scope_has(
                v.scopes[t].bindings,
                name,
            ),
{
    lemma_found_scope_innermost(v.scopes, v.current, name, s);
}

/// The shape of the hoisting target: it lies on the active chain, is a
/// hoisting boundary, and no scope strictly nearer the start is one.
proof fn lemma_var_scope_shape(scopes: Seq<ScopeView>, cur: int)
    requires
        0 <= cur < scopes.len(),
        forall|i: int|
            1 <= i < scopes.len() ==> (#[trigger] scopes[i]).outer is Some
                && 0 <= scopes[i].outer.unwrap() < i,
        scopes[0].outer is None,
        scopes[0].function_scope,
    ensures
        ({
            let t = var_scope_of(scopes, cur);
            &&& 0 <= t <= cur
            &&& on_chain(scopes, cur, t)
            &&& scopes[t].function_scope
            &&& forall|u: int|
                #![trigger on_chain(scopes, u, t)]
                on_chain(scopes, cur, u) && u != t && on_chain(scopes, u, t)
                    ==> !scopes[u].function_scope
        }),
    decreases cur,
{
    let t = var_scope_of(scopes, cur);
    if scopes[cur].function_scope {
        assert(t == cur);
        assert forall|u: int|
            on_chain(scopes, cur, u) && u != t && #[trigger] on_chain(scopes, u, t) implies !scopes[u].function_scope by {
            lemma_chain_le(scopes, cur, u);
            lemma_chain_le(scopes, u, t);
        }
    } else {
        assert(cur != 0);
        let o = scopes[cur].outer.unwrap();
        lemma_var_scope_shape(scopes, o);
        assert forall|u: int|
            on_chain(scopes, cur, u) && u != t && #[trigger] on_chain(scopes, u, t) implies !scopes[u].function_scope by {
            if u != cur {
                assert(on_chain(scopes, o, u));
            }
        }
    }
}

/// The until-boundary walk finds `name` at `t` when `t` declares it and
/// every scope strictly between the start and `t` neither declares it nor
/// is a hoisting boundary.
proof fn lemma_until_var_walk(scopes: Seq<ScopeView>, cur: int, t: int, name: Identifier)
    requires
        0 <= cur < scopes.len(),
        on_chain(scopes, cur, t),
        scope_has(scopes[t].bindings, name),
        forall|u: int|
            #![trigger on_chain(scopes, u, t)]
            on_chain(scopes, cur, u) && u != t && on_chain(scopes, u, t) ==> !scope_has(
                scopes[u].bindings,
                name,
            ) && !scopes[u].function_scope,
    ensures
        found_scope_until_var(scopes, cur, name) == Some(t),
    decreases cur,
{
    if cur == t {
    } else {
        assert(on_chain(scopes, cur, cur));
        assert(!scope_has(scopes[cur].bindings, name) && !scopes[cur].function_scope);
        let o = scopes[cur].outer.unwrap();
        assert(on_chain(scopes, o, t));
        assert forall|u: int|
            on_chain(scopes, o, u) && u != t && #[trigger] on_chain(scopes, u, t) implies !scope_has(
            scopes[u].bindings,
            name,
        ) && !scopes[u].function_scope by {
            assert(on_chain(scopes, cur, u));
        }
        lemma_until_var_walk(scopes, o, t, name);
    }
}

/// A hoisting declaration made in a nested block registers its binding at
/// the nearest hoisting boundary, where the until-boundary probe sees it
/// from the block, and adds no separate binding to any intervening block
/// scope. (The probe premise leaves out names already shadowed between
/// the block and the boundary.)
pub proof fn lemma_hoisted_binding_at_boundary(v: CompilerView, name: Identifier)
    requires
        v.wf(),
        create_mutable_spec(v, name, true).1 is Ok,
        forall|u: int|
            #![trigger on_chain(v.scopes, u, var_scope_of(v.scopes, v.current))]
            on_chain(v.scopes, v.current, u) && u != var_scope_of(v.scopes, v.current)
                && on_chain(v.scopes, u, var_scope_of(v.scopes, v.current)) ==> !scope_has(
                v.scopes[u].bindings,
                name,
            ),
    ensures
        ({
            let t = var_scope_of(v.scopes, v.current);
            let w = create_mutable_spec(v, name, true).0;
            &&& on_chain(v.scopes, v.current, t)
            &&& w.scopes[t].function_scope
            &&& scope_has(w.scopes[t].bindings, name)
            &&& found_scope_until_var(w.scopes, w.current, name) == Some(t)
            &&& forall|u: int|
                0 <= u < v.scopes.len() && u != t ==> #[trigger] w.scopes[u] == v.scopes[u]
        }),
{
    let t = var_scope_of(v.scopes, v.current);
    let w = create_mutable_spec(v, name, true).0;
    lemma_var_scope_shape(v.scopes, v.current);
    assert(w.scopes.len() == v.scopes.len());
    assert(forall|j: int| 0 <= j < v.scopes.len() ==> (#[trigger] v.scopes[j]).outer
        == w.scopes[j].outer && v.scopes[j].function_scope == w.scopes[j].function_scope);
    if scope_has(v.scopes[t].bindings, name) {
        assert(w == v);
    } else {
        assert(w.scopes[t].bindings == v.scopes[t].bindings.push(
            new_mutable_binding(name, true),
        ));
        assert(w.scopes[t].bindings.last().name == name);
        assert(scope_has(w.scopes[t].bindings, name));
    }
    assert(on_chain(w.scopes, v.current, t)) by {
        lemma_chain_same_outers(v.scopes, w.scopes, v.current, t);
    }
    assert forall|u: int|
        on_chain(w.scopes, v.current, u) && u != t && #[trigger] on_chain(w.scopes, u, t) implies !scope_has(
        w.scopes[u].bindings,
        name,
    ) && !w.scopes[u].function_scope by {
        lemma_chain_same_outers(v.scopes, w.scopes, v.current, u);
        lemma_chain_same_outers(v.scopes, w.scopes, u, t);
        lemma_chain_le(v.scopes, v.current, u);
        assert(w.scopes[u] == v.scopes[u]);
    }
    lemma_until_var_walk(w.scopes, v.current, t, name);
}

/// Declaring an immutable binding over any existing binding of the same
/// name in the same scope fails with a duplicate-declaration error and
/// changes nothing.
pub proof fn lemma_immutable_redeclaration_rejected(v: CompilerView, name: Identifier, strict: bool)
    requires
        v.wf(),
        scope_has(v.scopes[v.current].bindings, name),
    ensures
        create_immutable_spec(v, name, strict) == (v, Err::<(), JsError>(
            JsError::DuplicateDeclaration,
        )),
{
}

/// A second hoisting declaration of the same name in the same function
/// scope is idempotent: it succeeds and changes nothing.
pub proof fn lemma_hoisting_redeclaration_idempotent(v: CompilerView, name: Identifier)
    requires
        v.wf(),
        scope_has_var(v.scopes[var_scope_of(v.scopes, v.current)].bindings, name),
    ensures
        create_mutable_spec(v, name, true) == (v, Ok::<(), JsError>(())),
{
    let t = var_scope_of(v.scopes, v.current);
    lemma_var_scope_shape(v.scopes, v.current);
    lemma_chain_le(v.scopes, v.current, t);
    let bs = v.scopes[t].bindings;
    let k = choose|k: int| 0 <= k < bs.len() && bs[k].name == name && !bs[k].lex;
    assert(scope_has(bs, name));
    let j = binding_slot(bs, name);
    assert(0 <= j < bs.len() && bs[j].name == name);
    assert(unique_names(bs));
    assert(j == k);
    assert(!binding_of(bs, name).lex);
}

/// The compile-time scope-stack state: the arena of all scope records
/// ever created, the active scope, and the open-scope counter.
pub struct ByteCompiler {
    /// Every scope record ever created, in creation order; this table is
    /// handed to the execution driver to materialize runtime storage.
    pub compile_environments: Vec<CompileTimeEnvironment>,
    /// Index of the currently active scope.
    pub current_environment: usize,
    /// Number of scopes pushed and not yet popped.
    pub current_open_environments_count: usize,
}

impl View for ByteCompiler {
    type V = CompilerView;

    open spec fn view(&self) -> CompilerView {
        CompilerView {
            scopes: self.compile_environments@.map_values(|e: CompileTimeEnvironment| e@),
            current: self.current_environment as int,
            open_count: self.current_open_environments_count as int,
        }
    }
}

/// `scope_depth` only reads the `outer` links, so it is unchanged by any
/// edit that keeps every scope's parent.
proof fn lemma_depth_same_outers(a: Seq<ScopeView>, b: Seq<ScopeView>, i: int)
    requires
        a.len() == b.len(),
        forall|j: int| 0 <= j < a.len() ==> (#[trigger] a[j]).outer == b[j].outer,
    ensures
        scope_depth(a, i) == scope_depth(b, i),
    decreases i,
{
    if 0 <= i < a.len() {
        match a[i].outer {
            Some(o) => {
                if 0 <= o < i {
                    lemma_depth_same_outers(a, b, o);
                }
            },
            None => {},
        }
    }
}

/// A scope's depth never exceeds its table index, since every parent link
/// points strictly backwards.
proof fn lemma_depth_le_index(scopes: Seq<ScopeView>, i: int)
    ensures
        0 <= scope_depth(scopes, i) <= if i >= 0 { i } else { 0 },
    decreases i,
{
    if 0 <= i < scopes.len() {
        match scopes[i].outer {
            Some(o) => {
                if 0 <= o < i {
                    lemma_depth_le_index(scopes, o);
                }
            },
            None => {},
        }
    }
}

/// `scope_depth` of an existing scope is unchanged when the table grows.
proof fn lemma_depth_push_stable(scopes: Seq<ScopeView>, s: ScopeView, i: int)
    requires
        i < scopes.len(),
    ensures
        scope_depth(scopes.push(s), i) == scope_depth(scopes, i),
    decreases i,
{
    if 0 <= i < scopes.len() {
        match scopes[i].outer {
            Some(o) => {
                if 0 <= o < i {
                    lemma_depth_push_stable(scopes, s, o);
                }
            },
            None => {},
        }
    }
}

/// The first index of the binding named `name`, if any. Under unique
/// names it is exactly `binding_slot`.
fn find_binding_slot(bindings: &Vec<Binding>, name: Identifier) -> (r: Option<usize>)
    requires
        unique_names(bindings@),
    ensures
        r is Some <==> scope_has(bindings@, name),
        r matches Some(slot) ==> slot < bindings@.len() && slot == binding_slot(bindings@, name)
            && bindings@[slot as int].name == name,
{
    let n = bindings.len();
    let mut i: usize = 0;
    while i < n
        invariant
            i <= n,
            n == bindings@.len(),
            unique_names(bindings@),
            forall|k: int| 0 <= k < i ==> (#[trigger] bindings@[k]).name != name,
        decreases n - i,
    {
        if bindings[i].name == name {
            proof {
                assert(scope_has(bindings@, name));
                let j = binding_slot(bindings@, name);
                assert(0 <= j < bindings@.len() && bindings@[j].name == name);
                assert(j == i as int);
            }
            return Some(i);
        }
        i += 1;
    }
    None
}

/// The slot of the hoisting binding named `name`, if any. Under unique
/// names it is exactly `binding_slot`.
fn find_var_binding_slot(bindings: &Vec<Binding>, name: Identifier) -> (r: Option<usize>)
    requires
        unique_names(bindings@),
    ensures
        r is Some <==> scope_has_var(bindings@, name),
        r matches Some(slot) ==> slot < bindings@.len() && slot == binding_slot(bindings@, name)
            && bindings@[slot as int].name == name && !bindings@[slot as int].lex,
{
    let n = bindings.len();
    let mut i: usize = 0;
    while i < n
        invariant
            i <= n,
            n == bindings@.len(),
            unique_names(bindings@),
            forall|k: int|
                0 <= k < i ==> !((#[trigger] bindings@[k]).name == name && !bindings@[k].lex),
        decreases n - i,
    {
        if bindings[i].name == name && !bindings[i].lex {
            proof {
                assert(scope_has_var(bindings@, name));
                assert(scope_has(bindings@, name));
                let j = binding_slot(bindings@, name);
                assert(0 <= j < bindings@.len() && bindings@[j].name == name);
                assert(j == i as int);
            }
            return Some(i);
        }
        i += 1;
    }
    proof {
        if scope_has_var(bindings@, name) {
            let k = choose|k: int|
                0 <= k < bindings@.len() && bindings@[k].name == name && !bindings@[k].lex;
            assert(!(bindings@[k].name == name && !bindings@[k].lex));
        }
    }
    None
}

impl ByteCompiler {
    /// A fresh compiler state: only the root/global scope, which is a
    /// hoisting boundary, exists and is active.
    pub fn new() -> (compiler: ByteCompiler)
        ensures
            compiler@.wf(),
            compiler@.scopes.len() == 1,
            compiler@.current == 0,
            compiler@.open_count == 0,
            compiler@.scopes[0].function_scope,
            compiler@.scopes[0].bindings == Seq::<Binding>::empty(),
    {
        let mut compile_environments: Vec<CompileTimeEnvironment> = Vec::new();
        compile_environments.push(
            CompileTimeEnvironment { outer: None, function_scope: true, bindings: Vec::new(), index: 0 },
        );
        let compiler = ByteCompiler {
            compile_environments,
            current_environment: 0,
            current_open_environments_count: 0,
        };
        proof {
            assert(compiler@.scopes[0].bindings =~= Seq::<Binding>::empty());
        }
        compiler
    }

    /// Push a new declarative or function scope onto the compile-time
    /// scope stack; the new record is appended to the table of all scope
    /// records and its stable index is returned.
    pub fn push_compile_environment(&mut self, function_scope: bool) -> (index: u32)
        requires
            old(self)@.wf(),
            old(self)@.scopes.len() < u32::MAX,
        ensures
            final(self)@ == push_view(old(self)@, function_scope),
            final(self)@.wf(),
            index == old(self)@.scopes.len(),
    {
        proof {
            lemma_depth_le_index(old(self)@.scopes, old(self)@.current);
        }
        self.current_open_environments_count += 1;
        let index = self.compile_environments.len();
        self.compile_environments.push(
            CompileTimeEnvironment {
                outer: Some(self.current_environment),
                function_scope,
                bindings: Vec::new(),
                index,
            },
        );
        self.current_environment = index;
        proof {
            let oldv = old(self)@;
            let target = push_view(oldv, function_scope);
            assert(self@.scopes =~= target.scopes);
            assert(self@ =~= target);
            lemma_depth_push_stable(oldv.scopes, target.scopes.last(), oldv.current);
        }
        index as u32
    }

    /// Pop the active scope, restoring its parent. Popping the root scope
    /// is an unbalanced pop: a fatal internal fault of the compiler, not
    /// a user-facing condition, and the state is left unchanged.
    pub fn pop_compile_environment(&mut self) -> (result: Result<(), InternalFault>)
        requires
            old(self)@.wf(),
        ensures
            can_pop(old(self)@) ==> result == Ok::<(), InternalFault>(())
                && final(self)@ == pop_view(old(self)@) && final(self)@.wf(),
            !can_pop(old(self)@) ==> result == Err::<(), InternalFault>(
                InternalFault::UnbalancedScopePop,
            ) && final(self)@ == old(self)@,
    {
        match self.compile_environments[self.current_environment].outer {
            Some(outer) => {
                proof {
                    let v = old(self)@;
                    assert(v.scopes[v.current] == old(self).compile_environments@[v.current]@);
                    assert(v.scopes[v.current].outer == Some(outer as int));
                    lemma_depth_le_index(v.scopes, outer as int);
                    assert(v.open_count == scope_depth(v.scopes, v.current));
                    assert(scope_depth(v.scopes, v.current) == 1 + scope_depth(v.scopes, outer as int));
                }
                self.current_environment = outer;
                self.current_open_environments_count -= 1;
                proof {
                    assert(self@ =~= pop_view(old(self)@));
                }
                Ok(())
            },
            None => Err(InternalFault::UnbalancedScopePop),
        }
    }

    /// The index of the nearest hoisting boundary at or above the active
    /// scope: the scope a hoisting declaration targets.
    fn var_environment_index(&self) -> (s: usize)
        requires
            self@.wf(),
        ensures
            s as int == var_scope_of(self@.scopes, self@.current),
            s < self@.scopes.len(),
    {
        let mut cur: usize = self.current_environment;
        loop
            invariant
                self@.wf(),
                cur < self@.scopes.len(),
                var_scope_of(self@.scopes, self@.current) == var_scope_of(
                    self@.scopes,
                    cur as int,
                ),
            decreases cur,
        {
            proof {
                assert(self@.scopes[cur as int] == self.compile_environments@[cur as int]@);
            }
            let env = &self.compile_environments[cur];
            if env.function_scope {
                return cur;
            }
            match env.outer {
                Some(o) => {
                    proof {
                        assert(self@.scopes[cur as int].outer == Some(o as int));
                        assert(cur != 0);
                        assert(0 <= o < cur);
                    }
                    cur = o;
                },
                None => {
                    return cur;
                },
            }
        }
    }

    /// Resolve a name reference to its binding locator: the walk from the
    /// active scope toward the root stops at the innermost declaration;
    /// an undeclared name yields the unresolved locator.
    pub fn get_binding_value(&self, name: Identifier) -> (locator: BindingLocator)
        requires
            self@.wf(),
        ensures
            locator == resolve_spec(self@, name),
    {
        let mut cur: usize = self.current_environment;
        loop
            invariant
                self@.wf(),
                cur < self@.scopes.len(),
                found_scope(self@.scopes, self@.current, name) == found_scope(
                    self@.scopes,
                    cur as int,
                    name,
                ),
            decreases cur,
        {
            proof {
                assert(self@.scopes[cur as int] == self.compile_environments@[cur as int]@);
            }
            let env = &self.compile_environments[cur];
            match find_binding_slot(&env.bindings, name) {
                Some(slot) => {
                    let strict = env.bindings[slot].strict;
                    return BindingLocator { name, scope: Some(cur), binding_index: slot, strict };
                },
                None => {
                    match env.outer {
                        Some(o) => {
                            proof {
                                assert(self@.scopes[cur as int].outer == Some(o as int));
                                assert(cur != 0);
                                assert(0 <= o < cur);
                            }
                            cur = o;
                        },
                        None => {
                            return BindingLocator {
                                name,
                                scope: None,
                                binding_index: 0,
                                strict: false,
                            };
                        },
                    }
                },
            }
        }
    }

    /// Whether a declarative binding for `name` exists in any scope on
    /// the chain from the active scope to the root. Bindings on the
    /// global object are not declarative and are not seen here.
    pub fn has_binding(&self, name: Identifier) -> (r: bool)
        requires
            self@.wf(),
        ensures
            r == (found_scope(self@.scopes, self@.current, name) is Some),
    {
        self.get_binding_value(name).scope.is_some()
    }

    /// Existence probe for a binding declared by `eval`: in strict code
    /// the walk reaches the root; in non-strict code it stops at the
    /// nearest hoisting boundary (sloppy-mode eval scoping).
    pub fn has_binding_eval(&self, name: Identifier, strict: bool) -> (r: bool)
        requires
            self@.wf(),
        ensures
            strict ==> r == (found_scope(self@.scopes, self@.current, name) is Some),
            !strict ==> r == (found_scope_until_var(self@.scopes, self@.current, name) is Some),
    {
        if strict {
            self.has_binding(name)
        } else {
            self.has_binding_until_var(name)
        }
    }

    /// Existence probe that always stops at the nearest hoisting
    /// boundary, as legacy block-function hoisting needs.
    pub fn has_binding_until_var(&self, name: Identifier) -> (r: bool)
        requires
            self@.wf(),
        ensures
            r == (found_scope_until_var(self@.scopes, self@.current, name) is Some),
    {
        let mut cur: usize = self.current_environment;
        loop
            invariant
                self@.wf(),
                cur < self@.scopes.len(),
                found_scope_until_var(self@.scopes, self@.current, name) == found_scope_until_var(
                    self@.scopes,
                    cur as int,
                    name,
                ),
            decreases cur,
        {
            proof {
                assert(self@.scopes[cur as int] == self.compile_environments@[cur as int]@);
            }
            let env = &self.compile_environments[cur];
            if find_binding_slot(&env.bindings, name).is_some() {
                return true;
            }
            if env.function_scope {
                return false;
            }
            match env.outer {
                Some(o) => {
                    proof {
                        assert(self@.scopes[cur as int].outer == Some(o as int));
                        assert(cur != 0);
                        assert(0 <= o < cur);
                    }
                    cur = o;
                },
                None => {
                    return false;
                },
            }
        }
    }

    /// Register a mutable binding. A hoisting declaration
    /// (`function_scope` true) targets the nearest hoisting boundary and
    /// succeeds without change when a hoisting binding of the same name
    /// already lives there; any other redeclaration in the target scope
    /// is a duplicate-declaration error.
    pub fn create_mutable_binding(&mut self, name: Identifier, function_scope: bool) -> (result:
        Result<(), JsError>)
        requires
            old(self)@.wf(),
        ensures
            final(self)@ == create_mutable_spec(old(self)@, name, function_scope).0,
            result == create_mutable_spec(old(self)@, name, function_scope).1,
            final(self)@.wf(),
    {
        let target = if function_scope {
            self.var_environment_index()
        } else {
            self.current_environment
        };
        proof {
            assert(self@.scopes[target as int] == self.compile_environments@[target as int]@);
        }
        match find_binding_slot(&self.compile_environments[target].bindings, name) {
            Some(slot) => {
                if function_scope && !self.compile_environments[target].bindings[slot].lex {
                    Ok(())
                } else {
                    Err(JsError::DuplicateDeclaration)
                }
            },
            None => {
                let b = Binding {
                    name,
                    mutable: true,
                    lex: !function_scope,
                    strict: false,
                    initialized: false,
                };
                let env = vec_index_mut(&mut self.compile_environments, target);
                env.bindings.push(b);
                proof {
                    let v = old(self)@;
                    let tgt = target as int;
                    assert(self@.scopes =~= v.scopes.update(
                        tgt,
                        ScopeView { bindings: v.scopes[tgt].bindings.push(b), ..v.scopes[tgt] },
                    ));
                    self.lemma_after_binding_added(v, tgt, b);
                }
                Ok(())
            },
        }
    }

    /// Register an immutable binding in the active scope; any existing
    /// binding of the same name there is a duplicate-declaration error.
    pub fn create_immutable_binding(&mut self, name: Identifier, strict: bool) -> (result: Result<
        (),
        JsError,
    >)
        requires
            old(self)@.wf(),
        ensures
            final(self)@ == create_immutable_spec(old(self)@, name, strict).0,
            result == create_immutable_spec(old(self)@, name, strict).1,
            final(self)@.wf(),
    {
        let target = self.current_environment;
        proof {
            assert(self@.scopes[target as int] == self.compile_environments@[target as int]@);
        }
        match find_binding_slot(&self.compile_environments[target].bindings, name) {
            Some(_) => Err(JsError::DuplicateDeclaration),
            None => {
                let b = Binding { name, mutable: false, lex: true, strict, initialized: false };
                let env = vec_index_mut(&mut self.compile_environments, target);
                env.bindings.push(b);
                proof {
                    let v = old(self)@;
                    let tgt = target as int;
                    assert(self@.scopes =~= v.scopes.update(
                        tgt,
                        ScopeView { bindings: v.scopes[tgt].bindings.push(b), ..v.scopes[tgt] },
                    ));
                    self.lemma_after_binding_added(v, tgt, b);
                }
                Ok(())
            },
        }
    }

    /// Move a mutable binding out of its uninitialized (temporal dead
    /// zone) state and return its locator for the initializing store. A
    /// hoisting flavor targets the nearest hoisting boundary; when no
    /// binding exists in the target scope the reference is an implicit
    /// global and the state is unchanged.
    pub fn initialize_mutable_binding(&mut self, name: Identifier, function_scope: bool) -> (locator:
        BindingLocator)
        requires
            old(self)@.wf(),
        ensures
            final(self)@ == initialize_mutable_spec(old(self)@, name, function_scope).0,
            locator == initialize_mutable_spec(old(self)@, name, function_scope).1,
            final(self)@.wf(),
    {
        let target = if function_scope {
            self.var_environment_index()
        } else {
            self.current_environment
        };
        self.initialize_binding_in(target, name)
    }

    /// Move the immutable binding created in the active scope out of its
    /// uninitialized state and return its locator.
    pub fn initialize_immutable_binding(&mut self, name: Identifier) -> (locator: BindingLocator)
        requires
            old(self)@.wf(),
            scope_has(old(self)@.scopes[old(self)@.current].bindings, name),
        ensures
            final(self)@ == with_binding_initialized(old(self)@, old(self)@.current, name),
            locator == locator_for(old(self)@.scopes, old(self)@.current, name),
            final(self)@.wf(),
    {
        let target = self.current_environment;
        self.initialize_binding_in(target, name)
    }

    /// Mark the binding `name` of scope `target` initialized and return
    /// its locator; when the scope has no such binding, return the
    /// unresolved locator and change nothing.
    fn initialize_binding_in(&mut self, target: usize, name: Identifier) -> (locator:
        BindingLocator)
        requires
            old(self)@.wf(),
            target < old(self)@.scopes.len(),
        ensures
            final(self)@.wf(),
            scope_has(old(self)@.scopes[target as int].bindings, name) ==> final(self)@
                == with_binding_initialized(old(self)@, target as int, name) && locator
                == locator_for(old(self)@.scopes, target as int, name),
            !scope_has(old(self)@.scopes[target as int].bindings, name) ==> final(self)@ == old(
                self,
            )@ && locator == global_locator(name),
    {
        proof {
            assert(self@.scopes[target as int] == self.compile_environments@[target as int]@);
        }
        match find_binding_slot(&self.compile_environments[target].bindings, name) {
            Some(slot) => {
                let env = vec_index_mut(&mut self.compile_environments, target);
                let b = env.bindings[slot];
                let updated = Binding { initialized: true, ..b };
                env.bindings[slot] = updated;
                proof {
                    let v = old(self)@;
                    let w = self@;
                    let tgt = target as int;
                    assert(w.scopes =~= with_binding_initialized(v, tgt, name).scopes);
                    assert(w =~= with_binding_initialized(v, tgt, name));
                    assert forall|i: int| 0 <= i < w.scopes.len() implies unique_names(
                        (#[trigger] w.scopes[i]).bindings,
                    ) by {
                        assert(unique_names(v.scopes[i].bindings));
                        if i == tgt {
                            let bs = v.scopes[tgt].bindings;
                            let ns = w.scopes[tgt].bindings;
                            assert forall|p: int, q: int| 0 <= p < q < ns.len() implies ns[p].name
                                != ns[q].name by {
                                assert(bs[p].name == ns[p].name);
                                assert(bs[q].name == ns[q].name);
                            }
                        }
                    }
                    assert forall|j: int| 0 <= j < v.scopes.len() implies (#[trigger] v.scopes[j]).outer
                        == w.scopes[j].outer by {}
                    lemma_depth_same_outers(v.scopes, w.scopes, v.current);
                }
                BindingLocator { name, scope: Some(target), binding_index: slot, strict: b.strict }
            },
            None => BindingLocator { name, scope: None, binding_index: 0, strict: false },
        }
    }

    /// Resolve an assignment target: the innermost declaration decides;
    /// an immutable one fails (how, the binding's `strict` flag picks);
    /// an undeclared name yields the unresolved locator so the caller can
    /// create an implicit global.
    pub fn set_mutable_binding(&self, name: Identifier) -> (result: Result<
        BindingLocator,
        BindingLocatorError,
    >)
        requires
            self@.wf(),
        ensures
            result == set_binding_result(self@, name),
    {
        let mut cur: usize = self.current_environment;
        loop
            invariant
                self@.wf(),
                cur < self@.scopes.len(),
                found_scope(self@.scopes, self@.current, name) == found_scope(
                    self@.scopes,
                    cur as int,
                    name,
                ),
            decreases cur,
        {
            proof {
                assert(self@.scopes[cur as int] == self.compile_environments@[cur as int]@);
            }
            let env = &self.compile_environments[cur];
            match find_binding_slot(&env.bindings, name) {
                Some(slot) => {
                    let b = env.bindings[slot];
                    return if b.mutable {
                        Ok(
                            BindingLocator {
                                name,
                                scope: Some(cur),
                                binding_index: slot,
                                strict: b.strict,
                            },
                        )
                    } else if b.strict {
                        Err(BindingLocatorError::MutateImmutable)
                    } else {
                        Err(BindingLocatorError::Silent)
                    };
                },
                None => {
                    match env.outer {
                        Some(o) => {
                            proof {
                                assert(self@.scopes[cur as int].outer == Some(o as int));
                                assert(cur != 0);
                                assert(0 <= o < cur);
                            }
                            cur = o;
                        },
                        None => {
                            return Ok(
                                BindingLocator { name, scope: None, binding_index: 0, strict: false },
                            );
                        },
                    }
                },
            }
        }
    }

    /// Resolve an assignment target among hoisted ("var"-style) bindings
    /// only, for legacy sloppy-mode assignment forms.
    pub fn set_mutable_binding_var(&self, name: Identifier) -> (result: Result<
        BindingLocator,
        BindingLocatorError,
    >)
        requires
            self@.wf(),
        ensures
            result == set_binding_var_result(self@, name),
    {
        let mut cur: usize = self.current_environment;
        loop
            invariant
                self@.wf(),
                cur < self@.scopes.len(),
                found_var_scope(self@.scopes, self@.current, name) == found_var_scope(
                    self@.scopes,
                    cur as int,
                    name,
                ),
            decreases cur,
        {
            proof {
                assert(self@.scopes[cur as int] == self.compile_environments@[cur as int]@);
            }
            let env = &self.compile_environments[cur];
            match find_var_binding_slot(&env.bindings, name) {
                Some(slot) => {
                    let b = env.bindings[slot];
                    return if b.mutable {
                        Ok(
                            BindingLocator {
                                name,
                                scope: Some(cur),
                                binding_index: slot,
                                strict: b.strict,
                            },
                        )
                    } else if b.strict {
                        Err(BindingLocatorError::MutateImmutable)
                    } else {
                        Err(BindingLocatorError::Silent)
                    };
                },
                None => {
                    match env.outer {
                        Some(o) => {
                            proof {
                                assert(self@.scopes[cur as int].outer == Some(o as int));
                                assert(cur != 0);
                                assert(0 <= o < cur);
                            }
                            cur = o;
                        },
                        None => {
                            return Ok(
                                BindingLocator { name, scope: None, binding_index: 0, strict: false },
                            );
                        },
                    }
                },
            }
        }
    }

    /// After appending binding `b` (whose name the scope did not declare)
    /// to scope `tgt`, the state is `with_binding_added` and stays
    /// well-formed.
    proof fn lemma_after_binding_added(&self, v: CompilerView, tgt: int, b: Binding)
        requires
            v.wf(),
            0 <= tgt < v.scopes.len(),
            !scope_has(v.scopes[tgt].bindings, b.name),
            self@.scopes == v.scopes.update(
                tgt,
                ScopeView { bindings: v.scopes[tgt].bindings.push(b), ..v.scopes[tgt] },
            ),
            self@.current == v.current,
            self@.open_count == v.open_count,
        ensures
            self@ == with_binding_added(v, tgt, b),
            self@.wf(),
    {
        let w = self@;
        assert(w =~= with_binding_added(v, tgt, b));
        assert forall|i: int| 0 <= i < w.scopes.len() implies unique_names(
            (#[trigger] w.scopes[i]).bindings,
        ) by {
            assert(unique_names(v.scopes[i].bindings));
            if i == tgt {
                let bs = v.scopes[tgt].bindings;
                let ns = w.scopes[tgt].bindings;
                assert forall|p: int, q: int| 0 <= p < q < ns.len() implies ns[p].name
                    != ns[q].name by {
                    if q < bs.len() {
                        assert(ns[p] == bs[p] && ns[q] == bs[q]);
                    } else {
                        assert(ns[p] == bs[p] && ns[q] == b);
                        assert(bs[p].name != b.name);
                    }
                }
            }
        }
        assert forall|j: int| 0 <= j < v.scopes.len() implies (#[trigger] v.scopes[j]).outer
            == w.scopes[j].outer by {}
        lemma_depth_same_outers(v.scopes, w.scopes, v.current);
    }
}

} // verus!
