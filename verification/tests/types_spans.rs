use luma::ast::types::TypeKind;
use luma::span::{CodeSourceId, Span};

#[test]
fn promotion_widens_to_the_larger_type() {
    assert!(matches!(TypeKind::promote(&TypeKind::Int8, &TypeKind::Int32), Some(TypeKind::Int32)));
    assert!(matches!(TypeKind::promote(&TypeKind::Int32, &TypeKind::Int8), Some(TypeKind::Int32)));
    assert!(matches!(TypeKind::promote(&TypeKind::UInt8, &TypeKind::Int8), Some(TypeKind::Int16)));
    assert!(matches!(TypeKind::promote(&TypeKind::UInt32, &TypeKind::Int32), Some(TypeKind::Int64)));
    assert!(matches!(TypeKind::promote(&TypeKind::Float32, &TypeKind::Float64), Some(TypeKind::Float64)));
    assert!(matches!(TypeKind::promote(&TypeKind::Int64, &TypeKind::Float32), Some(TypeKind::Float32)));
}

#[test]
fn equal_types_promote_to_themselves_and_unrelated_ones_do_not_promote() {
    assert!(matches!(TypeKind::promote(&TypeKind::Bool, &TypeKind::Bool), Some(TypeKind::Bool)));
    assert!(TypeKind::promote(&TypeKind::Bool, &TypeKind::Int32).is_none());
    assert!(TypeKind::promote(&TypeKind::String, &TypeKind::Char).is_none());
    assert!(matches!(TypeKind::from_tuple(TypeKind::Bool, TypeKind::Int32), TypeKind::Unknown));
}

#[test]
fn type_names_read_as_primitives_or_named_types() {
    assert!(matches!(TypeKind::from_name("u8"), TypeKind::UInt8));
    assert!(matches!(TypeKind::from_name("bool"), TypeKind::Bool));
    match TypeKind::from_name("Point") {
        TypeKind::Named { name, def_id } => {
            assert_eq!(name, "Point");
            assert_eq!(def_id, None);
        },
        _ => panic!("Point is no primitive"),
    }
    assert_eq!(TypeKind::Int16.bits(), Some(16));
    assert_eq!(TypeKind::Bool.bits(), None);
    assert!(matches!(TypeKind::UInt32.as_signed(), TypeKind::Int32));
    assert_eq!(TypeKind::String.kind_name(), "string");
}

#[test]
fn structural_equality_looks_inside_types() {
    let a = TypeKind::Function { param_types: vec![TypeKind::UInt8], return_type: Box::new(TypeKind::Bool) };
    let b = TypeKind::Function { param_types: vec![TypeKind::UInt8], return_type: Box::new(TypeKind::Bool) };
    let c = TypeKind::Function { param_types: vec![TypeKind::UInt16], return_type: Box::new(TypeKind::Bool) };
    assert!(a.eq(&b));
    assert!(!a.eq(&c));
    assert!(a.duplicate().eq(&a));
}

#[test]
fn merging_spans_covers_both() {
    let id = CodeSourceId::zero();
    let a = Span::new(id, 4, 9);
    let b = Span::new(id, 2, 6);
    assert_eq!(a.merged(&b), Span::new(id, 2, 9));
    assert_eq!(b.merged(&a), Span::new(id, 2, 9));
    assert_eq!(a.merged(&Span::new(id, 5, 7)), a);
    let mut m = a;
    m.maybe_merge(None);
    assert_eq!(m, a);
    m.merge(&Span::new(id, 8, 12));
    assert_eq!(m, Span::new(id, 4, 12));
    assert_eq!(m.len(), 8);
    assert_eq!(m.as_range(), 4..12);
}
