use es_core::{SymbolRegistry, SymbolRep};

#[test]
fn have_identity() {
    let a = SymbolRep::named("foo".to_string());
    let b = SymbolRep::named("foo".to_string());

    assert_eq!(a, a);
    assert_ne!(a, b);
}

#[test]
fn can_be_retrieved() {
    let mut registry = SymbolRegistry::default();
    let a = registry.get("foo".to_string());
    let b = registry.get("foo".to_string());

    assert_eq!(a, b);
}

#[test]
fn registry_keeps_descriptions_apart() {
    let mut registry = SymbolRegistry::new();
    let a = registry.get("x".to_string());
    let b = registry.get("y".to_string());
    let c = registry.get("x".to_string());

    assert_ne!(a, b);
    assert_eq!(a, c);
    assert_eq!(a.id(), c.id());
    assert_eq!(a.description(), &Some("x".to_string()));
    assert_eq!(b.description(), &Some("y".to_string()));
}

#[test]
fn named_twice_gives_distinct_symbols() {
    let a = SymbolRep::named("x".to_string());
    let b = SymbolRep::named("x".to_string());
    assert_ne!(a, b);
    assert_ne!(a.id(), b.id());
}

#[test]
fn symbol_equality_ignores_clone_and_description() {
    let a = SymbolRep::anon();
    let b = a.clone();
    assert_eq!(a, b);
    assert_eq!(a.description(), &None);
    let c = SymbolRep::new(Some("d".to_string()));
    assert_eq!(c.description(), &Some("d".to_string()));
    assert_ne!(a, c);
}
