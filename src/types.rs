//! The type algebra of a component interface and its canonical names.
use vstd::prelude::*;
use vstd::string::StringExecFns;

verus! {

/// The shape of a value as declared in the interface.
#[derive(Debug, PartialEq, Eq)]
pub enum Type {
    Int8,
    UInt8,
    Int16,
    UInt16,
    Int32,
    UInt32,
    Int64,
    UInt64,
    Float32,
    Float64,
    Boolean,
    String,
    Enum(std::string::String),
    Object(std::string::String),
    Error(std::string::String),
    Record(std::string::String),
    Optional(Box<Type>),
    Sequence(Box<Type>),
    Dictionary(Box<Type>),
}

/// The low-level representations that cross the boundary.
#[derive(PartialEq, Eq, Structural, Clone, Copy, Debug)]
pub enum FFIType {
    Int8,
    UInt8,
    Int16,
    UInt16,
    Int32,
    UInt32,
    Int64,
    UInt64,
    Float32,
    Float64,
    RustBuffer,
    RustError,
    RustString,
    ForeignStringRef,
}

/// Structural equality of two types, comparing declared names as text.
pub open spec fn same_type(a: Type, b: Type) -> bool
    decreases a,
{
    match (a, b) {
        (Type::Enum(x), Type::Enum(y)) => x@ == y@,
        (Type::Object(x), Type::Object(y)) => x@ == y@,
        (Type::Error(x), Type::Error(y)) => x@ == y@,
        (Type::Record(x), Type::Record(y)) => x@ == y@,
        (Type::Optional(x), Type::Optional(y)) => same_type(*x, *y),
        (Type::Sequence(x), Type::Sequence(y)) => same_type(*x, *y),
        (Type::Dictionary(x), Type::Dictionary(y)) => same_type(*x, *y),
        (Type::Int8, Type::Int8) => true,
        (Type::UInt8, Type::UInt8) => true,
        (Type::Int16, Type::Int16) => true,
        (Type::UInt16, Type::UInt16) => true,
        (Type::Int32, Type::Int32) => true,
        (Type::UInt32, Type::UInt32) => true,
        (Type::Int64, Type::Int64) => true,
        (Type::UInt64, Type::UInt64) => true,
        (Type::Float32, Type::Float32) => true,
        (Type::Float64, Type::Float64) => true,
        (Type::Boolean, Type::Boolean) => true,
        (Type::String, Type::String) => true,
        _ => false,
    }
}

/// The deterministic name of a type, derived from its structure.
pub open spec fn canonical_name_of(t: Type) -> Seq<char>
    decreases t,
{
    match t {
        Type::Int8 => "i8"@,
        Type::UInt8 => "u8"@,
        Type::Int16 => "i16"@,
        Type::UInt16 => "u16"@,
        Type::Int32 => "i32"@,
        Type::UInt32 => "u32"@,
        Type::Int64 => "i64"@,
        Type::UInt64 => "u64"@,
        Type::Float32 => "f32"@,
        Type::Float64 => "f64"@,
        Type::Boolean => "bool"@,
        Type::String => "string"@,
        Type::Enum(n) => "Enum"@ + n@,
        Type::Object(n) => "Object"@ + n@,
        Type::Error(n) => "Error"@ + n@,
        Type::Record(n) => "Record"@ + n@,
        Type::Optional(inner) => "Optional"@ + canonical_name_of(*inner),
        Type::Sequence(inner) => "Sequence"@ + canonical_name_of(*inner),
        Type::Dictionary(inner) => "Map"@ + canonical_name_of(*inner),
    }
}

/// Types serialized into a length-prefixed buffer through a shared helper.
pub open spec fn is_buffer_type(t: Type) -> bool {
    t is Record || t is Optional || t is Sequence || t is Dictionary
}

/// The first two characters of each type's canonical name.
pub open spec fn name_head(t: Type) -> (char, char) {
    match t {
        Type::Int8 => ('i', '8'),
        Type::UInt8 => ('u', '8'),
        Type::Int16 => ('i', '1'),
        Type::UInt16 => ('u', '1'),
        Type::Int32 => ('i', '3'),
        Type::UInt32 => ('u', '3'),
        Type::Int64 => ('i', '6'),
        Type::UInt64 => ('u', '6'),
        Type::Float32 => ('f', '3'),
        Type::Float64 => ('f', '6'),
        Type::Boolean => ('b', 'o'),
        Type::String => ('s', 't'),
        Type::Enum(_) => ('E', 'n'),
        Type::Object(_) => ('O', 'b'),
        Type::Error(_) => ('E', 'r'),
        Type::Record(_) => ('R', 'e'),
        Type::Optional(_) => ('O', 'p'),
        Type::Sequence(_) => ('S', 'e'),
        Type::Dictionary(_) => ('M', 'a'),
    }
}

proof fn lemma_prefix_cancel(p: Seq<char>, x: Seq<char>, y: Seq<char>)
    requires
        p + x == p + y,
    ensures
        x == y,
{
    assert(x =~= (p + x).skip(p.len() as int));
    assert(y =~= (p + y).skip(p.len() as int));
}

proof fn lemma_name_head(t: Type)
    ensures
        canonical_name_of(t).len() >= 2,
        canonical_name_of(t)[0] == name_head(t).0,
        canonical_name_of(t)[1] == name_head(t).1,
{
    reveal_strlit("i8");
    reveal_strlit("u8");
    reveal_strlit("i16");
    reveal_strlit("u16");
    reveal_strlit("i32");
    reveal_strlit("u32");
    reveal_strlit("i64");
    reveal_strlit("u64");
    reveal_strlit("f32");
    reveal_strlit("f64");
    reveal_strlit("bool");
    reveal_strlit("string");
    reveal_strlit("Enum");
    reveal_strlit("Object");
    reveal_strlit("Error");
    reveal_strlit("Record");
    reveal_strlit("Optional");
    reveal_strlit("Sequence");
    reveal_strlit("Map");
    let c = canonical_name_of(t);
    match t {
        Type::Enum(n) => {
            assert(c[0] == "Enum"@[0] && c[1] == "Enum"@[1]);
        },
        Type::Object(n) => {
            assert(c[0] == "Object"@[0] && c[1] == "Object"@[1]);
        },
        Type::Error(n) => {
            assert(c[0] == "Error"@[0] && c[1] == "Error"@[1]);
        },
        Type::Record(n) => {
            assert(c[0] == "Record"@[0] && c[1] == "Record"@[1]);
        },
        Type::Optional(n) => {
            assert(c[0] == "Optional"@[0] && c[1] == "Optional"@[1]);
        },
        Type::Sequence(n) => {
            assert(c[0] == "Sequence"@[0] && c[1] == "Sequence"@[1]);
        },
        Type::Dictionary(n) => {
            assert(c[0] == "Map"@[0] && c[1] == "Map"@[1]);
        },
        _ => {},
    }
}

/// Canonical names identify types: two types get the same canonical name
/// exactly when they have the same structure, so one helper routine per name
/// serves every occurrence of a type and distinct types never share one.
pub proof fn lemma_canonical_name_injective(a: Type, b: Type)
    ensures
        canonical_name_of(a) == canonical_name_of(b) <==> same_type(a, b),
    decreases a,
{
    lemma_name_head(a);
    lemma_name_head(b);
    match (a, b) {
        (Type::Enum(x), Type::Enum(y)) => {
            if canonical_name_of(a) == canonical_name_of(b) {
                lemma_prefix_cancel("Enum"@, x@, y@);
            }
        },
        (Type::Object(x), Type::Object(y)) => {
            if canonical_name_of(a) == canonical_name_of(b) {
                lemma_prefix_cancel("Object"@, x@, y@);
            }
        },
        (Type::Error(x), Type::Error(y)) => {
            if canonical_name_of(a) == canonical_name_of(b) {
                lemma_prefix_cancel("Error"@, x@, y@);
            }
        },
        (Type::Record(x), Type::Record(y)) => {
            if canonical_name_of(a) == canonical_name_of(b) {
                lemma_prefix_cancel("Record"@, x@, y@);
            }
        },
        (Type::Optional(x), Type::Optional(y)) => {
            lemma_canonical_name_injective(*x, *y);
            if canonical_name_of(a) == canonical_name_of(b) {
                lemma_prefix_cancel("Optional"@, canonical_name_of(*x), canonical_name_of(*y));
            }
        },
        (Type::Sequence(x), Type::Sequence(y)) => {
            lemma_canonical_name_injective(*x, *y);
            if canonical_name_of(a) == canonical_name_of(b) {
                lemma_prefix_cancel("Sequence"@, canonical_name_of(*x), canonical_name_of(*y));
            }
        },
        (Type::Dictionary(x), Type::Dictionary(y)) => {
            lemma_canonical_name_injective(*x, *y);
            if canonical_name_of(a) == canonical_name_of(b) {
                lemma_prefix_cancel("Map"@, canonical_name_of(*x), canonical_name_of(*y));
            }
        },
        _ => {},
    }
}

impl Type {
    /// The canonical name of this type.
    pub fn canonical_name(&self) -> (r: std::string::String)
        ensures
            r@ == canonical_name_of(*self),
        decreases self,
    {
        match self {
            Type::Int8 => std::string::String::from_str("i8"),
            Type::UInt8 => std::string::String::from_str("u8"),
            Type::Int16 => std::string::String::from_str("i16"),
            Type::UInt16 => std::string::String::from_str("u16"),
            Type::Int32 => std::string::String::from_str("i32"),
            Type::UInt32 => std::string::String::from_str("u32"),
            Type::Int64 => std::string::String::from_str("i64"),
            Type::UInt64 => std::string::String::from_str("u64"),
            Type::Float32 => std::string::String::from_str("f32"),
            Type::Float64 => std::string::String::from_str("f64"),
            Type::Boolean => std::string::String::from_str("bool"),
            Type::String => std::string::String::from_str("string"),
            Type::Enum(n) => {
                let mut r = std::string::String::from_str("Enum");
                r.append(n.as_str());
                r
            },
            Type::Object(n) => {
                let mut r = std::string::String::from_str("Object");
                r.append(n.as_str());
                r
            },
            Type::Error(n) => {
                let mut r = std::string::String::from_str("Error");
                r.append(n.as_str());
                r
            },
            Type::Record(n) => {
                let mut r = std::string::String::from_str("Record");
                r.append(n.as_str());
                r
            },
            Type::Optional(inner) => {
                let mut r = std::string::String::from_str("Optional");
                let s = inner.canonical_name();
                r.append(s.as_str());
                r
            },
            Type::Sequence(inner) => {
                let mut r = std::string::String::from_str("Sequence");
                let s = inner.canonical_name();
                r.append(s.as_str());
                r
            },
            Type::Dictionary(inner) => {
                let mut r = std::string::String::from_str("Map");
                let s = inner.canonical_name();
                r.append(s.as_str());
                r
            },
        }
    }
}

} // verus!
