use vstd::prelude::*;

use crate::span::{Cursor, Span};
use crate::text::str_eq;

verus! {

broadcast use vstd::std_specs::vec::group_vec_axioms;

/// The types of the language.
#[derive(Debug)]
pub enum TypeKind {
    UInt8,
    UInt16,
    UInt32,
    UInt64,
    Int8,
    Int16,
    Int32,
    Int64,
    Float32,
    Float64,
    Bool,
    Char,
    String,
    Tuple(Vec<TypeKind>),
    Unit,
    Ptr(Box<TypeKind>),
    Named { name: String, def_id: Option<usize> },
    /// A type that has not been inferred (yet).
    Unknown,
    Function { param_types: Vec<TypeKind>, return_type: Box<TypeKind> },
    Array(Box<TypeKind>),
}

/// A type annotation as written in the source.
#[derive(Debug)]
pub struct Type {
    pub kind: TypeKind,
    pub span: Span,
    pub cursor: Cursor,
}

/// Structural equality of types: names are compared by their characters,
/// component lists element by element.
pub open spec fn same_type(a: TypeKind, b: TypeKind) -> bool
    decreases a, 1nat,
{
    match a {
        TypeKind::Tuple(xs) => match b {
            TypeKind::Tuple(ys) => same_types(xs@, ys@),
            _ => false,
        },
        TypeKind::Ptr(x) => match b {
            TypeKind::Ptr(y) => same_type(*x, *y),
            _ => false,
        },
        TypeKind::Named { name, def_id } => match b {
            TypeKind::Named { name: n2, def_id: d2 } => name@ == n2@ && def_id == d2,
            _ => false,
        },
        TypeKind::Function { param_types, return_type } => match b {
            TypeKind::Function { param_types: p2, return_type: r2 } => same_types(
                param_types@,
                p2@,
            ) && same_type(*return_type, *r2),
            _ => false,
        },
        TypeKind::Array(x) => match b {
            TypeKind::Array(y) => same_type(*x, *y),
            _ => false,
        },
        _ => a.is_plain() && a == b,
    }
}

pub open spec fn same_types(xs: Seq<TypeKind>, ys: Seq<TypeKind>) -> bool
    decreases xs, 0nat,
{
    if xs.len() != ys.len() {
        false
    } else if xs.len() == 0 {
        true
    } else {
        same_type(xs[0], ys[0]) && same_types(xs.drop_first(), ys.drop_first())
    }
}

/// `same_type` is an equivalence: it is reflexive.
pub proof fn lemma_same_type_refl(a: TypeKind)
    ensures
        same_type(a, a),
    decreases a, 1nat,
{
    match a {
        TypeKind::Tuple(xs) => lemma_same_types_refl(xs@),
        TypeKind::Ptr(x) => lemma_same_type_refl(*x),
        TypeKind::Function { param_types, return_type } => {
            lemma_same_types_refl(param_types@);
            lemma_same_type_refl(*return_type);
        },
        TypeKind::Array(x) => lemma_same_type_refl(*x),
        _ => {},
    }
}

pub proof fn lemma_same_types_refl(xs: Seq<TypeKind>)
    ensures
        same_types(xs, xs),
    decreases xs, 0nat,
{
    if xs.len() > 0 {
        lemma_same_type_refl(xs[0]);
        lemma_same_types_refl(xs.drop_first());
    }
}

/// `same_type` is symmetric.
pub proof fn lemma_same_type_symm(a: TypeKind, b: TypeKind)
    requires
        same_type(a, b),
    ensures
        same_type(b, a),
    decreases a, 1nat,
{
    match (a, b) {
        (TypeKind::Tuple(xs), TypeKind::Tuple(ys)) => lemma_same_types_symm(xs@, ys@),
        (TypeKind::Ptr(x), TypeKind::Ptr(y)) => lemma_same_type_symm(*x, *y),
        (TypeKind::Function { param_types, return_type }, TypeKind::Function { param_types: p2, return_type: r2 }) => {
            lemma_same_types_symm(param_types@, p2@);
            lemma_same_type_symm(*return_type, *r2);
        },
        (TypeKind::Array(x), TypeKind::Array(y)) => lemma_same_type_symm(*x, *y),
        _ => {},
    }
}

/// `same_type` is transitive.
pub proof fn lemma_same_type_trans(a: TypeKind, b: TypeKind, c: TypeKind)
    requires
        same_type(a, b),
        same_type(b, c),
    ensures
        same_type(a, c),
    decreases a, 1nat,
{
    match (a, b, c) {
        (TypeKind::Tuple(xs), TypeKind::Tuple(ys), TypeKind::Tuple(zs)) => lemma_same_types_trans(xs@, ys@, zs@),
        (TypeKind::Ptr(x), TypeKind::Ptr(y), TypeKind::Ptr(z)) => lemma_same_type_trans(*x, *y, *z),
        (
            TypeKind::Function { param_types, return_type },
            TypeKind::Function { param_types: p2, return_type: r2 },
            TypeKind::Function { param_types: p3, return_type: r3 },
        ) => {
            lemma_same_types_trans(param_types@, p2@, p3@);
            lemma_same_type_trans(*return_type, *r2, *r3);
        },
        (TypeKind::Array(x), TypeKind::Array(y), TypeKind::Array(z)) => lemma_same_type_trans(*x, *y, *z),
        _ => {},
    }
}

pub proof fn lemma_same_types_trans(xs: Seq<TypeKind>, ys: Seq<TypeKind>, zs: Seq<TypeKind>)
    requires
        same_types(xs, ys),
        same_types(ys, zs),
    ensures
        same_types(xs, zs),
    decreases xs, 0nat,
{
    if xs.len() > 0 {
        lemma_same_type_trans(xs[0], ys[0], zs[0]);
        lemma_same_types_trans(xs.drop_first(), ys.drop_first(), zs.drop_first());
    }
}

pub proof fn lemma_same_types_symm(xs: Seq<TypeKind>, ys: Seq<TypeKind>)
    requires
        same_types(xs, ys),
    ensures
        same_types(ys, xs),
    decreases xs, 0nat,
{
    if xs.len() > 0 {
        lemma_same_type_symm(xs[0], ys[0]);
        lemma_same_types_symm(xs.drop_first(), ys.drop_first());
    }
}

/// The primitive type that a type name denotes, if any.
pub open spec fn primitive_of_name(n: Seq<char>) -> Option<TypeKind> {
    if n == "u8"@ {
        Some(TypeKind::UInt8)
    } else if n == "u16"@ {
        Some(TypeKind::UInt16)
    } else if n == "u32"@ {
        Some(TypeKind::UInt32)
    } else if n == "u64"@ {
        Some(TypeKind::UInt64)
    } else if n == "i8"@ {
        Some(TypeKind::Int8)
    } else if n == "i16"@ {
        Some(TypeKind::Int16)
    } else if n == "i32"@ {
        Some(TypeKind::Int32)
    } else if n == "i64"@ {
        Some(TypeKind::Int64)
    } else if n == "f32"@ {
        Some(TypeKind::Float32)
    } else if n == "f64"@ {
        Some(TypeKind::Float64)
    } else if n == "bool"@ {
        Some(TypeKind::Bool)
    } else if n == "char"@ {
        Some(TypeKind::Char)
    } else if n == "string"@ {
        Some(TypeKind::String)
    } else if n == "unit"@ {
        Some(TypeKind::Unit)
    } else {
        None
    }
}

/// The result of promoting two distinct primitive types for a binary operation.
pub open spec fn spec_promote_distinct(l: TypeKind, r: TypeKind) -> Option<TypeKind> {
    match (l, r) {
        (TypeKind::Float32, TypeKind::Float64) | (TypeKind::Float64, TypeKind::Float32) => Some(TypeKind::Float64),
        (TypeKind::Float32, _) | (_, TypeKind::Float32) => Some(TypeKind::Float32),
        (TypeKind::Float64, _) | (_, TypeKind::Float64) => Some(TypeKind::Float64),
        (TypeKind::Int8, TypeKind::Int16) | (TypeKind::Int16, TypeKind::Int8) => Some(TypeKind::Int16),
        (TypeKind::Int8, TypeKind::Int32) | (TypeKind::Int32, TypeKind::Int8) => Some(TypeKind::Int32),
        (TypeKind::Int8, TypeKind::Int64) | (TypeKind::Int64, TypeKind::Int8) => Some(TypeKind::Int64),
        (TypeKind::Int16, TypeKind::Int32) | (TypeKind::Int32, TypeKind::Int16) => Some(TypeKind::Int32),
        (TypeKind::Int16, TypeKind::Int64) | (TypeKind::Int64, TypeKind::Int16) => Some(TypeKind::Int64),
        (TypeKind::Int32, TypeKind::Int64) | (TypeKind::Int64, TypeKind::Int32) => Some(TypeKind::Int64),
        (TypeKind::UInt8, TypeKind::UInt16) | (TypeKind::UInt16, TypeKind::UInt8) => Some(TypeKind::UInt16),
        (TypeKind::UInt8, TypeKind::UInt32) | (TypeKind::UInt32, TypeKind::UInt8) => Some(TypeKind::UInt32),
        (TypeKind::UInt8, TypeKind::UInt64) | (TypeKind::UInt64, TypeKind::UInt8) => Some(TypeKind::UInt64),
        (TypeKind::UInt16, TypeKind::UInt32) | (TypeKind::UInt32, TypeKind::UInt16) => Some(TypeKind::UInt32),
        (TypeKind::UInt16, TypeKind::UInt64) | (TypeKind::UInt64, TypeKind::UInt16) => Some(TypeKind::UInt64),
        (TypeKind::UInt32, TypeKind::UInt64) | (TypeKind::UInt64, TypeKind::UInt32) => Some(TypeKind::UInt64),
        (TypeKind::Int8, TypeKind::UInt8) | (TypeKind::UInt8, TypeKind::Int8) => Some(TypeKind::Int16),
        (TypeKind::Int16, TypeKind::UInt16) | (TypeKind::UInt16, TypeKind::Int16) => Some(TypeKind::Int32),
        (TypeKind::Int32, TypeKind::UInt32) | (TypeKind::UInt32, TypeKind::Int32) => Some(TypeKind::Int64),
        (TypeKind::Int64, TypeKind::UInt64) | (TypeKind::UInt64, TypeKind::Int64) => Some(TypeKind::Int64),
        _ => None,
    }
}

impl TypeKind {
    /// A type without components (no name, no element or parameter types).
    pub open spec fn is_plain(self) -> bool {
        !(self is Tuple || self is Ptr || self is Named || self is Function || self is Array)
    }

    pub open spec fn spec_is_int(self) -> bool {
        self is Int8 || self is Int16 || self is Int32 || self is Int64
    }

    pub open spec fn spec_is_uint(self) -> bool {
        self is UInt8 || self is UInt16 || self is UInt32 || self is UInt64
    }

    pub open spec fn spec_is_float(self) -> bool {
        self is Float32 || self is Float64
    }

    pub open spec fn spec_is_numeric(self) -> bool {
        self.spec_is_int() || self.spec_is_uint() || self.spec_is_float()
    }

    pub open spec fn spec_bits(self) -> Option<usize> {
        match self {
            TypeKind::UInt8 | TypeKind::Int8 => Some(8),
            TypeKind::UInt16 | TypeKind::Int16 => Some(16),
            TypeKind::UInt32 | TypeKind::Int32 | TypeKind::Float32 => Some(32),
            TypeKind::UInt64 | TypeKind::Int64 | TypeKind::Float64 => Some(64),
            _ => None,
        }
    }

    /// The signed counterpart of an unsigned integer type; other types are their own.
    pub open spec fn spec_as_signed(self) -> TypeKind {
        match self {
            TypeKind::UInt8 => TypeKind::Int8,
            TypeKind::UInt16 => TypeKind::Int16,
            TypeKind::UInt32 => TypeKind::Int32,
            TypeKind::UInt64 => TypeKind::Int64,
            _ => self,
        }
    }

    pub fn is_int(&self) -> (r: bool)
        ensures
            r == self.spec_is_int(),
    {
        matches!(self, TypeKind::Int8 | TypeKind::Int16 | TypeKind::Int32 | TypeKind::Int64)
    }

    pub fn is_uint(&self) -> (r: bool)
        ensures
            r == self.spec_is_uint(),
    {
        matches!(self, TypeKind::UInt8 | TypeKind::UInt16 | TypeKind::UInt32 | TypeKind::UInt64)
    }

    pub fn is_float(&self) -> (r: bool)
        ensures
            r == self.spec_is_float(),
    {
        matches!(self, TypeKind::Float32 | TypeKind::Float64)
    }

    pub fn is_numeric(&self) -> (r: bool)
        ensures
            r == self.spec_is_numeric(),
    {
        self.is_int() || self.is_uint() || self.is_float()
    }

    pub fn is_string(&self) -> (r: bool)
        ensures
            r == (*self is String),
    {
        matches!(self, TypeKind::String)
    }

    pub fn is_char(&self) -> (r: bool)
        ensures
            r == (*self is Char),
    {
        matches!(self, TypeKind::Char)
    }

    pub fn is_ptr(&self) -> (r: bool)
        ensures
            r == (*self is Ptr),
    {
        matches!(self, TypeKind::Ptr(_))
    }

    pub fn is_named(&self) -> (r: bool)
        ensures
            r == (*self is Named),
    {
        matches!(self, TypeKind::Named { .. })
    }

    pub fn is_tuple(&self) -> (r: bool)
        ensures
            r == (*self is Tuple),
    {
        matches!(self, TypeKind::Tuple(_))
    }

    pub fn is_bool(&self) -> (r: bool)
        ensures
            r == (*self is Bool),
    {
        matches!(self, TypeKind::Bool)
    }

    pub fn is_array(&self) -> (r: bool)
        ensures
            r == (*self is Array),
    {
        matches!(self, TypeKind::Array(_))
    }

    pub fn is_unknown(&self) -> (r: bool)
        ensures
            r == (*self is Unknown),
    {
        matches!(self, TypeKind::Unknown)
    }

    /// The width in bits of a numeric type.
    pub fn bits(&self) -> (r: Option<usize>)
        ensures
            r == self.spec_bits(),
    {
        match self {
            TypeKind::UInt8 | TypeKind::Int8 => Some(8),
            TypeKind::UInt16 | TypeKind::Int16 => Some(16),
            TypeKind::UInt32 | TypeKind::Int32 | TypeKind::Float32 => Some(32),
            TypeKind::UInt64 | TypeKind::Int64 | TypeKind::Float64 => Some(64),
            _ => None,
        }
    }

    /// Structural equality (see [`same_type`]).
    pub fn eq(&self, other: &TypeKind) -> (r: bool)
        ensures
            r == same_type(*self, *other),
        decreases *self,
    {
        match self {
            TypeKind::Tuple(xs) => match other {
                TypeKind::Tuple(ys) => eq_vec(xs, ys),
                _ => false,
            },
            TypeKind::Ptr(x) => match other {
                TypeKind::Ptr(y) => (**x).eq(&**y),
                _ => false,
            },
            TypeKind::Named { name, def_id } => match other {
                TypeKind::Named { name: n2, def_id: d2 } => {
                    let b = str_eq(name.as_str(), n2.as_str());
                    b && match (def_id, d2) {
                        (Some(a), Some(c)) => *a == *c,
                        (None, None) => true,
                        _ => false,
                    }
                },
                _ => false,
            },
            TypeKind::Function { param_types, return_type } => match other {
                TypeKind::Function { param_types: p2, return_type: r2 } => {
                    eq_vec(param_types, p2) && (**return_type).eq(&**r2)
                },
                _ => false,
            },
            TypeKind::Array(x) => match other {
                TypeKind::Array(y) => (**x).eq(&**y),
                _ => false,
            },
            _ => self.eq_plain(other),
        }
    }

    fn eq_plain(&self, other: &TypeKind) -> (r: bool)
        requires
            self.is_plain(),
        ensures
            r == (*self == *other),
    {
        match (self, other) {
            (TypeKind::UInt8, TypeKind::UInt8) => true,
            (TypeKind::UInt16, TypeKind::UInt16) => true,
            (TypeKind::UInt32, TypeKind::UInt32) => true,
            (TypeKind::UInt64, TypeKind::UInt64) => true,
            (TypeKind::Int8, TypeKind::Int8) => true,
            (TypeKind::Int16, TypeKind::Int16) => true,
            (TypeKind::Int32, TypeKind::Int32) => true,
            (TypeKind::Int64, TypeKind::Int64) => true,
            (TypeKind::Float32, TypeKind::Float32) => true,
            (TypeKind::Float64, TypeKind::Float64) => true,
            (TypeKind::Bool, TypeKind::Bool) => true,
            (TypeKind::Char, TypeKind::Char) => true,
            (TypeKind::String, TypeKind::String) => true,
            (TypeKind::Unit, TypeKind::Unit) => true,
            (TypeKind::Unknown, TypeKind::Unknown) => true,
            _ => false,
        }
    }

    /// A deep copy of the type.
    pub fn duplicate(&self) -> (r: TypeKind)
        ensures
            same_type(r, *self),
            self.is_plain() ==> r == *self,
        decreases *self,
    {
        match self {
            TypeKind::UInt8 => TypeKind::UInt8,
            TypeKind::UInt16 => TypeKind::UInt16,
            TypeKind::UInt32 => TypeKind::UInt32,
            TypeKind::UInt64 => TypeKind::UInt64,
            TypeKind::Int8 => TypeKind::Int8,
            TypeKind::Int16 => TypeKind::Int16,
            TypeKind::Int32 => TypeKind::Int32,
            TypeKind::Int64 => TypeKind::Int64,
            TypeKind::Float32 => TypeKind::Float32,
            TypeKind::Float64 => TypeKind::Float64,
            TypeKind::Bool => TypeKind::Bool,
            TypeKind::Char => TypeKind::Char,
            TypeKind::String => TypeKind::String,
            TypeKind::Unit => TypeKind::Unit,
            TypeKind::Unknown => TypeKind::Unknown,
            TypeKind::Tuple(xs) => TypeKind::Tuple(duplicate_vec(xs)),
            TypeKind::Ptr(x) => TypeKind::Ptr(Box::new((**x).duplicate())),
            TypeKind::Named { name, def_id } => TypeKind::Named { name: name.clone(), def_id: *def_id },
            TypeKind::Function { param_types, return_type } => TypeKind::Function {
                param_types: duplicate_vec(param_types),
                return_type: Box::new((**return_type).duplicate()),
            },
            TypeKind::Array(x) => TypeKind::Array(Box::new((**x).duplicate())),
        }
    }

    /// The type that a type name in an annotation denotes: a primitive type, or a named type.
    pub fn from_name(name: &str) -> (r: TypeKind)
        ensures
            match primitive_of_name(name@) {
                Some(t) => r == t,
                None => r matches TypeKind::Named { name: n, def_id: None } && n@ == name@,
            },
    {
        if str_eq(name, "u8") {
            TypeKind::UInt8
        } else if str_eq(name, "u16") {
            TypeKind::UInt16
        } else if str_eq(name, "u32") {
            TypeKind::UInt32
        } else if str_eq(name, "u64") {
            TypeKind::UInt64
        } else if str_eq(name, "i8") {
            TypeKind::Int8
        } else if str_eq(name, "i16") {
            TypeKind::Int16
        } else if str_eq(name, "i32") {
            TypeKind::Int32
        } else if str_eq(name, "i64") {
            TypeKind::Int64
        } else if str_eq(name, "f32") {
            TypeKind::Float32
        } else if str_eq(name, "f64") {
            TypeKind::Float64
        } else if str_eq(name, "bool") {
            TypeKind::Bool
        } else if str_eq(name, "char") {
            TypeKind::Char
        } else if str_eq(name, "string") {
            TypeKind::String
        } else if str_eq(name, "unit") {
            TypeKind::Unit
        } else {
            TypeKind::Named { name: name.to_owned(), def_id: None }
        }
    }

    /// The signed counterpart of an unsigned integer type; any other type is returned unchanged.
    pub fn as_signed(self) -> (r: TypeKind)
        ensures
            r == self.spec_as_signed(),
    {
        match self {
            TypeKind::UInt8 => TypeKind::Int8,
            TypeKind::UInt16 => TypeKind::Int16,
            TypeKind::UInt32 => TypeKind::Int32,
            TypeKind::UInt64 => TypeKind::Int64,
            other => other,
        }
    }

    /// The type that a binary operation on `left` and `right` produces:
    /// equal types give themselves, distinct numeric types are promoted
    /// (floats win, then the wider integer; mixed signedness gives a wider signed type).
    pub fn promote(left: &TypeKind, right: &TypeKind) -> (r: Option<TypeKind>)
        ensures
            same_type(*left, *right) ==> (r matches Some(t) && same_type(t, *left)),
            !same_type(*left, *right) ==> r == spec_promote_distinct(*left, *right),
    {
        if left.eq(right) {
            return Some(left.duplicate());
        }
        match (left, right) {
            (TypeKind::Float32, TypeKind::Float64) | (TypeKind::Float64, TypeKind::Float32) => Some(TypeKind::Float64),
            (TypeKind::Float32, _) | (_, TypeKind::Float32) => Some(TypeKind::Float32),
            (TypeKind::Float64, _) | (_, TypeKind::Float64) => Some(TypeKind::Float64),
            (TypeKind::Int8, TypeKind::Int16) | (TypeKind::Int16, TypeKind::Int8) => Some(TypeKind::Int16),
            (TypeKind::Int8, TypeKind::Int32) | (TypeKind::Int32, TypeKind::Int8) => Some(TypeKind::Int32),
            (TypeKind::Int8, TypeKind::Int64) | (TypeKind::Int64, TypeKind::Int8) => Some(TypeKind::Int64),
            (TypeKind::Int16, TypeKind::Int32) | (TypeKind::Int32, TypeKind::Int16) => Some(TypeKind::Int32),
            (TypeKind::Int16, TypeKind::Int64) | (TypeKind::Int64, TypeKind::Int16) => Some(TypeKind::Int64),
            (TypeKind::Int32, TypeKind::Int64) | (TypeKind::Int64, TypeKind::Int32) => Some(TypeKind::Int64),
            (TypeKind::UInt8, TypeKind::UInt16) | (TypeKind::UInt16, TypeKind::UInt8) => Some(TypeKind::UInt16),
            (TypeKind::UInt8, TypeKind::UInt32) | (TypeKind::UInt32, TypeKind::UInt8) => Some(TypeKind::UInt32),
            (TypeKind::UInt8, TypeKind::UInt64) | (TypeKind::UInt64, TypeKind::UInt8) => Some(TypeKind::UInt64),
            (TypeKind::UInt16, TypeKind::UInt32) | (TypeKind::UInt32, TypeKind::UInt16) => Some(TypeKind::UInt32),
            (TypeKind::UInt16, TypeKind::UInt64) | (TypeKind::UInt64, TypeKind::UInt16) => Some(TypeKind::UInt64),
            (TypeKind::UInt32, TypeKind::UInt64) | (TypeKind::UInt64, TypeKind::UInt32) => Some(TypeKind::UInt64),
            (TypeKind::Int8, TypeKind::UInt8) | (TypeKind::UInt8, TypeKind::Int8) => Some(TypeKind::Int16),
            (TypeKind::Int16, TypeKind::UInt16) | (TypeKind::UInt16, TypeKind::Int16) => Some(TypeKind::Int32),
            (TypeKind::Int32, TypeKind::UInt32) | (TypeKind::UInt32, TypeKind::Int32) => Some(TypeKind::Int64),
            (TypeKind::Int64, TypeKind::UInt64) | (TypeKind::UInt64, TypeKind::Int64) => Some(TypeKind::Int64),
            _ => None,
        }
    }

    /// The type of a binary operation on operands of type `left` and `right`:
    /// their promotion, or `Unknown` where they cannot be promoted.
    pub fn from_tuple(left: TypeKind, right: TypeKind) -> (r: TypeKind)
        ensures
            same_type(left, right) ==> same_type(r, left),
            !same_type(left, right) ==> r == match spec_promote_distinct(left, right) {
                Some(t) => t,
                None => TypeKind::Unknown,
            },
    {
        match TypeKind::promote(&left, &right) {
            Some(t) => t,
            None => TypeKind::Unknown,
        }
    }

    /// The lower-case name of the type's kind, as diagnostics print it.
    pub fn kind_name(&self) -> (r: &'static str)
        ensures
            r@ == self.spec_kind_name(),
    {
        match self {
            TypeKind::UInt8 => "uint8",
            TypeKind::UInt16 => "uint16",
            TypeKind::UInt32 => "uint32",
            TypeKind::UInt64 => "uint64",
            TypeKind::Int8 => "int8",
            TypeKind::Int16 => "int16",
            TypeKind::Int32 => "int32",
            TypeKind::Int64 => "int64",
            TypeKind::Float32 => "float32",
            TypeKind::Float64 => "float64",
            TypeKind::Bool => "bool",
            TypeKind::Char => "char",
            TypeKind::String => "string",
            TypeKind::Tuple(_) => "tuple",
            TypeKind::Unit => "unit",
            TypeKind::Ptr(_) => "ptr",
            TypeKind::Named { .. } => "named",
            TypeKind::Unknown => "unknown",
            TypeKind::Function { .. } => "function",
            TypeKind::Array(_) => "array",
        }
    }

    pub open spec fn spec_kind_name(self) -> Seq<char> {
        match self {
            TypeKind::UInt8 => "uint8"@,
            TypeKind::UInt16 => "uint16"@,
            TypeKind::UInt32 => "uint32"@,
            TypeKind::UInt64 => "uint64"@,
            TypeKind::Int8 => "int8"@,
            TypeKind::Int16 => "int16"@,
            TypeKind::Int32 => "int32"@,
            TypeKind::Int64 => "int64"@,
            TypeKind::Float32 => "float32"@,
            TypeKind::Float64 => "float64"@,
            TypeKind::Bool => "bool"@,
            TypeKind::Char => "char"@,
            TypeKind::String => "string"@,
            TypeKind::Tuple(_) => "tuple"@,
            TypeKind::Unit => "unit"@,
            TypeKind::Ptr(_) => "ptr"@,
            TypeKind::Named { .. } => "named"@,
            TypeKind::Unknown => "unknown"@,
            TypeKind::Function { .. } => "function"@,
            TypeKind::Array(_) => "array"@,
        }
    }
}

impl Type {
    pub fn new(kind: TypeKind, span: Span, cursor: Cursor) -> (r: Type)
        ensures
            r == (Type { kind, span, cursor }),
    {
        Type { kind, span, cursor }
    }

    /// A deep copy of the annotation.
    pub fn duplicate(&self) -> (r: Type)
        ensures
            same_type(r.kind, self.kind),
            r.span == self.span,
            r.cursor == self.cursor,
    {
        Type { kind: self.kind.duplicate(), span: self.span, cursor: self.cursor }
    }
}

fn eq_vec(xs: &Vec<TypeKind>, ys: &Vec<TypeKind>) -> (r: bool)
    ensures
        r == same_types(xs@, ys@),
    decreases xs,
{
    if xs.len() != ys.len() {
        return false;
    }
    let mut i: usize = 0;
    assert(xs@.skip(0) =~= xs@);
    assert(ys@.skip(0) =~= ys@);
    while i < xs.len()
        invariant
            xs.len() == ys.len(),
            i <= xs.len(),
            same_types(xs@, ys@) == same_types(xs@.skip(i as int), ys@.skip(i as int)),
        decreases xs.len() - i,
    {
        assert(xs@.skip(i as int).drop_first() =~= xs@.skip(i + 1));
        assert(ys@.skip(i as int).drop_first() =~= ys@.skip(i + 1));
        if !xs[i].eq(&ys[i]) {
            return false;
        }
        i = i + 1;
    }
    assert(xs@.skip(i as int) =~= Seq::<TypeKind>::empty());
    assert(ys@.skip(i as int) =~= Seq::<TypeKind>::empty());
    true
}

fn duplicate_vec(xs: &Vec<TypeKind>) -> (r: Vec<TypeKind>)
    ensures
        same_types(r@, xs@),
    decreases xs,
{
    let mut out: Vec<TypeKind> = Vec::new();
    let mut i: usize = 0;
    while i < xs.len()
        invariant
            i <= xs.len(),
            out@.len() == i,
            forall|j: int| 0 <= j < i ==> same_type(#[trigger] out@[j], xs@[j]),
        decreases xs.len() - i,
    {
        let t = xs[i].duplicate();
        out.push(t);
        i = i + 1;
    }
    proof {
        lemma_pointwise_same_types(out@, xs@);
    }
    out
}

pub proof fn lemma_pointwise_same_types(xs: Seq<TypeKind>, ys: Seq<TypeKind>)
    requires
        xs.len() == ys.len(),
        forall|j: int| 0 <= j < xs.len() ==> same_type(#[trigger] xs[j], ys[j]),
    ensures
        same_types(xs, ys),
    decreases xs.len(),
{
    if xs.len() > 0 {
        assert forall|j: int| 0 <= j < xs.drop_first().len() implies same_type(
            #[trigger] xs.drop_first()[j],
            ys.drop_first()[j],
        ) by {
            assert(xs.drop_first()[j] == xs[j + 1]);
            assert(same_type(xs[j + 1], ys[j + 1]));
        }
        assert(same_type(xs[0], ys[0]));
        lemma_pointwise_same_types(xs.drop_first(), ys.drop_first());
    }
}

/// Promotion does not depend on the order of the operands.
pub proof fn lemma_promote_distinct_commutative(l: TypeKind, r: TypeKind)
    ensures
        spec_promote_distinct(l, r) == spec_promote_distinct(r, l),
{
}

/// A promoted type is numeric, and at least as wide as each operand.
pub proof fn lemma_promote_distinct_widens(l: TypeKind, r: TypeKind)
    requires
        spec_promote_distinct(l, r) is Some,
    ensures
        l.spec_is_numeric() || r.spec_is_numeric(),
        spec_promote_distinct(l, r).unwrap().spec_is_numeric(),
        l.spec_is_numeric() && !l.spec_is_float() && r.spec_is_numeric() && !r.spec_is_float() ==> {
            &&& spec_promote_distinct(l, r).unwrap().spec_bits().unwrap() >= l.spec_bits().unwrap()
            &&& spec_promote_distinct(l, r).unwrap().spec_bits().unwrap() >= r.spec_bits().unwrap()
        },
{
}

} // verus!
