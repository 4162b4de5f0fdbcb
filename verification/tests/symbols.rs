use luma::ast::types::TypeKind;
use luma::semantics::symbol::{Symbol, SymbolTable, SymbolsTable, TypeSymbol, ValueSymbol};

#[test]
fn declare_then_lookup_finds_the_symbol() {
    let mut table: SymbolTable<ValueSymbol> = SymbolTable::new();
    let a = table.declare("a".to_string());
    assert_eq!(a, 0);
    let found = table.lookup_name("a").expect("a was declared");
    assert_eq!(found.id, a);
    assert_eq!(found.name(), "a");
    assert_eq!(found.shadow_id(), None);
    assert!(table.lookup_name("b").is_none());
}

#[test]
fn declaring_a_name_again_hides_the_first_symbol() {
    let mut table: SymbolTable<ValueSymbol> = SymbolTable::new();
    let first = table.declare("x".to_string());
    let second = table.declare("x".to_string());
    assert_eq!(second, 1);
    let found = table.lookup_name("x").expect("x was declared");
    assert_eq!(found.id, second);
    assert_eq!(found.shadow_id(), Some(first));
    assert_eq!(table.lookup_id(first).map(|s| s.id), Some(first));
}

#[test]
fn declaring_keeps_other_names() {
    let mut table: SymbolTable<TypeSymbol> = SymbolTable::with_capacity(4);
    let a = table.declare("a".to_string());
    let _b = table.declare("b".to_string());
    assert_eq!(table.lookup_name("a").map(|s| s.id), Some(a));
}

#[test]
fn leaving_a_scope_restores_what_names_reach() {
    let mut table: SymbolTable<ValueSymbol> = SymbolTable::new();
    let outer = table.declare("v".to_string());
    table.enter_scope();
    let inner = table.declare("v".to_string());
    let only_inner = table.declare("w".to_string());
    assert_eq!(table.lookup_name("v").map(|s| s.id), Some(inner));
    assert_eq!(table.lookup_name("w").map(|s| s.id), Some(only_inner));
    table.leave_scope();
    assert_eq!(table.lookup_name("v").map(|s| s.id), Some(outer));
    assert!(table.lookup_name("w").is_none());
    assert!(table.lookup_id(only_inner).is_some());
}

#[test]
fn lookup_by_id_past_the_end_finds_nothing() {
    let mut table: SymbolTable<ValueSymbol> = SymbolTable::new();
    table.declare("a".to_string());
    assert!(table.lookup_id(1).is_none());
    assert!(table.lookup_id(0).is_some());
}

#[test]
fn set_type_changes_only_that_symbol() {
    let mut table: SymbolTable<ValueSymbol> = SymbolTable::new();
    let a = table.declare("a".to_string());
    let b = table.declare("b".to_string());
    table.set_type(b, TypeKind::Bool);
    assert!(matches!(table.lookup_id(b).unwrap().ty, TypeKind::Bool));
    assert!(matches!(table.lookup_id(a).unwrap().ty, TypeKind::Unknown));
}

#[test]
fn symbols_table_scopes_every_table() {
    let mut tables = SymbolsTable::new();
    let f = tables.declare_value("f".to_string(), TypeKind::Int32);
    tables.enter_scope();
    assert_eq!(tables.depth, 1);
    let t = tables.declare_type("T".to_string());
    let l = tables.declare_control_flow("outer".to_string());
    assert_eq!(tables.type_table.lookup_name("T").map(|s| s.id), Some(t));
    assert_eq!(tables.control_flow_table.lookup_name("outer").map(|s| s.id), Some(l));
    tables.leave_scope();
    assert_eq!(tables.depth, 0);
    assert!(tables.type_table.lookup_name("T").is_none());
    assert!(tables.control_flow_table.lookup_name("outer").is_none());
    let found = tables.value_table.lookup_name("f").unwrap();
    assert_eq!(found.id, f);
    assert!(matches!(found.ty, TypeKind::Int32));
}

#[test]
fn leaving_nested_scopes_restores_what_names_reach() {
    let mut table: SymbolTable<ValueSymbol> = SymbolTable::new();
    let outer = table.declare("v".to_string());
    table.enter_scope();
    let middle = table.declare("v".to_string());
    table.enter_scope();
    let inner = table.declare("v".to_string());
    let _w = table.declare("w".to_string());
    assert_eq!(table.lookup_name("v").map(|s| s.id), Some(inner));
    table.leave_scope();
    assert_eq!(table.lookup_name("v").map(|s| s.id), Some(middle));
    assert!(table.lookup_name("w").is_none());
    table.enter_scope();
    table.leave_scope();
    table.leave_scope();
    assert_eq!(table.lookup_name("v").map(|s| s.id), Some(outer));
    assert_eq!(table.lookup_id(inner).map(|s| s.id), Some(inner));
}

#[test]
fn the_latest_visible_declaration_shadows_the_others() {
    let mut table: SymbolTable<ValueSymbol> = SymbolTable::new();
    let _a = table.declare("a".to_string());
    let _b = table.declare("b".to_string());
    let a2 = table.declare("a".to_string());
    let _c = table.declare("c".to_string());
    assert_eq!(table.lookup_name("a").map(|s| s.id), Some(a2));
    assert!(table.lookup_name("d").is_none());
}
