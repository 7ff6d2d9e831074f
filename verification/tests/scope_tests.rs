use bytecode_engine::errors::{BindingLocatorError, InternalFault, JsError};
use bytecode_engine::scope::{ByteCompiler, Identifier};

#[test]
fn balanced_push_pop_restores_active_scope() {
    let mut compiler = ByteCompiler::new();
    assert_eq!(compiler.current_environment, 0);
    assert_eq!(compiler.push_compile_environment(true), 1);
    assert_eq!(compiler.push_compile_environment(false), 2);
    assert_eq!(compiler.push_compile_environment(false), 3);
    assert_eq!(compiler.current_environment, 3);
    assert_eq!(compiler.current_open_environments_count, 3);
    assert_eq!(compiler.pop_compile_environment(), Ok(()));
    assert_eq!(compiler.pop_compile_environment(), Ok(()));
    assert_eq!(compiler.pop_compile_environment(), Ok(()));
    assert_eq!(compiler.current_environment, 0);
    assert_eq!(compiler.current_open_environments_count, 0);
    // The records survive the pops: the table still holds all four scopes.
    assert_eq!(compiler.compile_environments.len(), 4);
}

#[test]
fn extra_pop_is_a_fatal_fault() {
    let mut compiler = ByteCompiler::new();
    assert_eq!(compiler.push_compile_environment(false), 1);
    assert_eq!(compiler.pop_compile_environment(), Ok(()));
    assert_eq!(
        compiler.pop_compile_environment(),
        Err(InternalFault::UnbalancedScopePop)
    );
}

#[test]
fn resolution_returns_innermost_declaration() {
    let mut compiler = ByteCompiler::new();
    let x = Identifier(1);
    assert_eq!(compiler.create_mutable_binding(x, true), Ok(()));
    compiler.push_compile_environment(false);
    assert_eq!(compiler.create_immutable_binding(x, true), Ok(()));
    let inner = compiler.get_binding_value(x);
    assert_eq!(inner.scope, Some(1));
    assert_eq!(inner.binding_index, 0);
    assert!(inner.strict);
    assert_eq!(compiler.pop_compile_environment(), Ok(()));
    let outer = compiler.get_binding_value(x);
    assert_eq!(outer.scope, Some(0));
    assert_eq!(outer.binding_index, 0);
    assert!(!outer.strict);
}

#[test]
fn unresolved_name_falls_back_to_global() {
    let compiler = ByteCompiler::new();
    let locator = compiler.get_binding_value(Identifier(9));
    assert_eq!(locator.scope, None);
    assert!(!compiler.has_binding(Identifier(9)));
}

#[test]
fn hoisted_binding_lands_at_function_boundary() {
    let mut compiler = ByteCompiler::new();
    let x = Identifier(1);
    compiler.push_compile_environment(true); // function scope, index 1
    compiler.push_compile_environment(false); // block, index 2
    compiler.push_compile_environment(false); // block, index 3
    assert_eq!(compiler.create_mutable_binding(x, true), Ok(()));
    // The binding lives at the function boundary, not in the blocks.
    assert_eq!(compiler.compile_environments[1].bindings.len(), 1);
    assert_eq!(compiler.compile_environments[2].bindings.len(), 0);
    assert_eq!(compiler.compile_environments[3].bindings.len(), 0);
    // Visible from the innermost block through the until-boundary probe.
    assert!(compiler.has_binding_until_var(x));
    assert!(!compiler.has_binding_until_var(Identifier(2)));
    let locator = compiler.get_binding_value(x);
    assert_eq!(locator.scope, Some(1));
}

#[test]
fn duplicate_immutable_declaration_is_rejected() {
    let mut compiler = ByteCompiler::new();
    let x = Identifier(1);
    assert_eq!(compiler.create_immutable_binding(x, true), Ok(()));
    assert_eq!(
        compiler.create_immutable_binding(x, true),
        Err(JsError::DuplicateDeclaration)
    );
    assert_eq!(
        compiler.create_mutable_binding(x, false),
        Err(JsError::DuplicateDeclaration)
    );
}

#[test]
fn second_hoisting_declaration_is_idempotent() {
    let mut compiler = ByteCompiler::new();
    let x = Identifier(1);
    assert_eq!(compiler.create_mutable_binding(x, true), Ok(()));
    assert_eq!(compiler.create_mutable_binding(x, true), Ok(()));
    assert_eq!(compiler.compile_environments[0].bindings.len(), 1);
    // A block-scoped declaration over the hoisting one is incompatible.
    assert_eq!(
        compiler.create_immutable_binding(x, false),
        Err(JsError::DuplicateDeclaration)
    );
}

#[test]
fn eval_probe_stops_at_function_boundary_when_sloppy() {
    let mut compiler = ByteCompiler::new();
    let x = Identifier(1);
    assert_eq!(compiler.create_mutable_binding(x, true), Ok(()));
    compiler.push_compile_environment(true); // function boundary without x
    compiler.push_compile_environment(false); // block
    assert!(compiler.has_binding(x));
    assert!(compiler.has_binding_eval(x, true));
    assert!(!compiler.has_binding_eval(x, false));
    assert!(!compiler.has_binding_until_var(x));
}

#[test]
fn assignment_to_immutable_binding_fails_by_strictness() {
    let mut compiler = ByteCompiler::new();
    let a = Identifier(1);
    let b = Identifier(2);
    let c = Identifier(3);
    assert_eq!(compiler.create_immutable_binding(a, true), Ok(()));
    assert_eq!(compiler.create_immutable_binding(b, false), Ok(()));
    assert_eq!(compiler.create_mutable_binding(c, false), Ok(()));
    assert_eq!(
        compiler.set_mutable_binding(a),
        Err(BindingLocatorError::MutateImmutable)
    );
    assert_eq!(
        compiler.set_mutable_binding(b),
        Err(BindingLocatorError::Silent)
    );
    let ok = compiler.set_mutable_binding(c).unwrap();
    assert_eq!(ok.scope, Some(0));
    assert_eq!(ok.binding_index, 2);
    // An undeclared target is not an error: it resolves to the global.
    let global = compiler.set_mutable_binding(Identifier(4)).unwrap();
    assert_eq!(global.scope, None);
}

#[test]
fn var_only_assignment_walk_skips_lexical_bindings() {
    let mut compiler = ByteCompiler::new();
    let x = Identifier(1);
    assert_eq!(compiler.create_mutable_binding(x, true), Ok(()));
    compiler.push_compile_environment(false);
    assert_eq!(compiler.create_immutable_binding(x, true), Ok(()));
    // The general walk finds the inner `const`; the var-only walk finds
    // the hoisted binding at the root.
    assert_eq!(
        compiler.set_mutable_binding(x),
        Err(BindingLocatorError::MutateImmutable)
    );
    let var = compiler.set_mutable_binding_var(x).unwrap();
    assert_eq!(var.scope, Some(0));
    assert_eq!(var.binding_index, 0);
    let absent = compiler.set_mutable_binding_var(Identifier(2)).unwrap();
    assert_eq!(absent.scope, None);
}

#[test]
fn initialization_leaves_the_temporal_dead_zone() {
    let mut compiler = ByteCompiler::new();
    let x = Identifier(1);
    let y = Identifier(2);
    assert_eq!(compiler.create_mutable_binding(x, false), Ok(()));
    assert!(!compiler.compile_environments[0].bindings[0].initialized);
    let locator = compiler.initialize_mutable_binding(x, false);
    assert_eq!(locator.scope, Some(0));
    assert_eq!(locator.binding_index, 0);
    assert!(compiler.compile_environments[0].bindings[0].initialized);
    assert_eq!(compiler.create_immutable_binding(y, true), Ok(()));
    let locator = compiler.initialize_immutable_binding(y);
    assert_eq!(locator.scope, Some(0));
    assert_eq!(locator.binding_index, 1);
    assert!(compiler.compile_environments[0].bindings[1].initialized);
    // Initializing an undeclared mutable name is the implicit global case.
    let global = compiler.initialize_mutable_binding(Identifier(3), true);
    assert_eq!(global.scope, None);
}

#[test]
fn scope_records_keep_their_table_index() {
    let mut compiler = ByteCompiler::new();
    compiler.push_compile_environment(false);
    compiler.push_compile_environment(true);
    assert_eq!(compiler.pop_compile_environment(), Ok(()));
    compiler.push_compile_environment(false);
    for (i, record) in compiler.compile_environments.iter().enumerate() {
        assert_eq!(record.index, i);
    }
    assert_eq!(compiler.compile_environments[3].outer, Some(1));
    assert_eq!(compiler.compile_environments[0].outer, None);
}
