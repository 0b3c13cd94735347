//! Scope trees and signature preparation.

use dada_core::Predicate;
use dada_core::signature::ScopeItem;
use dada_core::signature::ScopeTree;
use dada_core::signature::ScopeTreeNode;
use dada_core::signature::SymFunctionSource;
use dada_core::signature::SymWhereClause;
use dada_core::signature::check_function_signature;
use dada_core::signature::prepare_env;
use dada_core::symir::Span;
use dada_core::symir::SymGenericKind;
use dada_core::symir::SymTy;
use dada_core::symir::SymTyName;
use dada_core::symir::SymVariable;

fn var(id: u32, kind: SymGenericKind) -> SymVariable {
    SymVariable { id, kind, name: None, span: Span { start: 0, end: 0 } }
}

fn tree() -> ScopeTree {
    // a class with one generic parameter, containing a function with one
    // more; the class declares its parameter shared
    ScopeTree {
        nodes: vec![
            ScopeTreeNode {
                item: ScopeItem::SymModule(0),
                parent: None,
                generics: vec![],
                where_clauses: vec![],
            },
            ScopeTreeNode {
                item: ScopeItem::Class(0),
                parent: Some(0),
                generics: vec![var(0, SymGenericKind::Type)],
                where_clauses: vec![SymWhereClause { subject: 0, predicate: Predicate::Shared }],
            },
            ScopeTreeNode {
                item: ScopeItem::SymFunction(0),
                parent: Some(1),
                generics: vec![var(1, SymGenericKind::Perm)],
                where_clauses: vec![SymWhereClause { subject: 1, predicate: Predicate::Owned }],
            },
        ],
    }
}

#[test]
fn transitive_generics_are_outermost_first() {
    let t = tree();
    let g = t.transitive_generic_parameters(2);
    assert_eq!(g.len(), 2);
    assert_eq!(g[0].id, 0);
    assert_eq!(g[1].id, 1);
    assert_eq!(t.expected_generic_parameters(2), 2);
    assert_eq!(t.expected_generic_parameters(0), 0);
}

#[test]
fn where_clauses_collect_transitively_into_env() {
    let t = tree();
    let source = SymFunctionSource {
        scope_node: 2,
        is_async: false,
        input_symbols: vec![var(10, SymGenericKind::Place)],
        input_tys: vec![SymTy::Never],
        output_ty: None,
    };
    let prepared = prepare_env(&t, &source);
    assert_eq!(prepared.where_clauses.len(), 2);
    assert_eq!(prepared.where_clauses[0].subject, 0);
    assert_eq!(prepared.where_clauses[1].subject, 1);
    // the induced declaration environment has the flags set
    assert!(prepared.env.var_is_declared_to_be(0, Predicate::Shared));
    assert!(prepared.env.var_is_declared_to_be(1, Predicate::Owned));
    assert!(!prepared.env.var_is_declared_to_be(0, Predicate::Owned));
    // a missing return type is unit
    assert!(matches!(
        prepared.output_ty_body,
        SymTy::Named(SymTyName::Tuple { arity: 0 }, _)
    ));
}

#[test]
fn async_function_returns_future_to_caller() {
    let t = tree();
    let source = SymFunctionSource {
        scope_node: 2,
        is_async: true,
        input_symbols: vec![],
        input_tys: vec![],
        output_ty: Some(SymTy::Never),
    };
    let sig = check_function_signature(&t, &source);
    assert!(matches!(sig.output_ty, SymTy::Named(SymTyName::Future, _)));
    let prepared = prepare_env(&t, &source);
    assert!(matches!(prepared.output_ty_body, SymTy::Never));
}
