//! The expression generators: wire tokens, coercion, lowering, lifting and
//! serialized size.
use vstd::prelude::*;
use vstd::string::StringExecFns;

use crate::naming::{camel_case_of, class_name_py};
use crate::types::{
    canonical_name_of, is_buffer_type, lemma_canonical_name_injective, same_type, FFIType, Type,
};

verus! {

/// A generation step that has no support for a kind of type.
#[derive(PartialEq, Eq, Structural, Clone, Copy, Debug)]
pub enum Operation {
    Lower,
    Lift,
    WriteSize,
}

/// Why a fragment could not be generated.
#[derive(PartialEq, Eq, Structural, Clone, Copy, Debug)]
pub enum GenError {
    UnsupportedOperation(Operation),
}

/// The ctypes declaration of each wire type.
pub open spec fn ffi_token(t: FFIType) -> Seq<char> {
    match t {
        FFIType::Int8 => "ctypes.c_int8"@,
        FFIType::UInt8 => "ctypes.c_uint8"@,
        FFIType::Int16 => "ctypes.c_int16"@,
        FFIType::UInt16 => "ctypes.c_uint16"@,
        FFIType::Int32 => "ctypes.c_int32"@,
        FFIType::UInt32 => "ctypes.c_uint32"@,
        FFIType::Int64 => "ctypes.c_int64"@,
        FFIType::UInt64 => "ctypes.c_uint64"@,
        FFIType::Float32 => "ctypes.c_float"@,
        FFIType::Float64 => "ctypes.c_double"@,
        FFIType::RustBuffer => "RustBuffer"@,
        FFIType::RustError => "POINTER(RustError)"@,
        FFIType::RustString => "RustString"@,
        FFIType::ForeignStringRef => "ctypes.c_char_p"@,
    }
}

/// The ctypes declaration of a wire type, for foreign function signatures.
pub fn type_ffi(type_: &FFIType) -> (r: String)
    ensures
        r@ == ffi_token(*type_),
{
    let s = match type_ {
        FFIType::Int8 => "ctypes.c_int8",
        FFIType::UInt8 => "ctypes.c_uint8",
        FFIType::Int16 => "ctypes.c_int16",
        FFIType::UInt16 => "ctypes.c_uint16",
        FFIType::Int32 => "ctypes.c_int32",
        FFIType::UInt32 => "ctypes.c_uint32",
        FFIType::Int64 => "ctypes.c_int64",
        FFIType::UInt64 => "ctypes.c_uint64",
        FFIType::Float32 => "ctypes.c_float",
        FFIType::Float64 => "ctypes.c_double",
        FFIType::RustBuffer => "RustBuffer",
        FFIType::RustError => "POINTER(RustError)",
        FFIType::RustString => "RustString",
        FFIType::ForeignStringRef => "ctypes.c_char_p",
    };
    String::from_str(s)
}

/// Distinct wire types are declared with distinct ctypes tokens.
pub proof fn lemma_ffi_tokens_distinct(a: FFIType, b: FFIType)
    requires
        a != b,
    ensures
        ffi_token(a) != ffi_token(b),
{
    reveal_strlit("ctypes.c_int8");
    reveal_strlit("ctypes.c_uint8");
    reveal_strlit("ctypes.c_int16");
    reveal_strlit("ctypes.c_uint16");
    reveal_strlit("ctypes.c_int32");
    reveal_strlit("ctypes.c_uint32");
    reveal_strlit("ctypes.c_int64");
    reveal_strlit("ctypes.c_uint64");
    reveal_strlit("ctypes.c_float");
    reveal_strlit("ctypes.c_double");
    reveal_strlit("RustBuffer");
    reveal_strlit("POINTER(RustError)");
    reveal_strlit("RustString");
    reveal_strlit("ctypes.c_char_p");
    let x = ffi_token(a);
    let y = ffi_token(b);
    if x == y {
        assert(x[0] == y[0] && x[7] == y[7] && x[9] == y[9] && x[10] == y[10]);
        assert(x[11] == y[11] && x[12] == y[12]);
        assert(x[x.len() - 1] == y[y.len() - 1] && x[x.len() - 2] == y[y.len() - 2]);
    }
}

pub open spec fn digit_text(d: nat) -> Seq<char> {
    if d == 0 {
        "0"@
    } else if d == 1 {
        "1"@
    } else if d == 2 {
        "2"@
    } else if d == 3 {
        "3"@
    } else if d == 4 {
        "4"@
    } else if d == 5 {
        "5"@
    } else if d == 6 {
        "6"@
    } else if d == 7 {
        "7"@
    } else if d == 8 {
        "8"@
    } else {
        "9"@
    }
}

/// The decimal digits of a natural number.
pub open spec fn decimal_of(n: nat) -> Seq<char>
    decreases n,
{
    if n < 10 {
        digit_text(n)
    } else {
        decimal_of(n / 10) + digit_text(n % 10)
    }
}

fn digit(d: u64) -> (r: &'static str)
    requires
        d < 10,
    ensures
        r@ == digit_text(d as nat),
{
    if d == 0 {
        "0"
    } else if d == 1 {
        "1"
    } else if d == 2 {
        "2"
    } else if d == 3 {
        "3"
    } else if d == 4 {
        "4"
    } else if d == 5 {
        "5"
    } else if d == 6 {
        "6"
    } else if d == 7 {
        "7"
    } else if d == 8 {
        "8"
    } else {
        "9"
    }
}

fn decimal(n: u64) -> (r: String)
    ensures
        r@ == decimal_of(n as nat),
    decreases n,
{
    if n < 10 {
        String::from_str(digit(n))
    } else {
        let mut r = decimal(n / 10);
        r.append(digit(n % 10));
        r
    }
}

/// The element name bound at a given nesting depth, so that nested
/// comprehensions never shadow one another.
pub open spec fn bound_name(prefix: Seq<char>, depth: nat) -> Seq<char> {
    prefix + decimal_of(depth)
}

proof fn lemma_digit_text(d: nat)
    requires
        d < 10,
    ensures
        digit_text(d).len() == 1,
        forall|e: nat| e < 10 && e != d ==> digit_text(e) != digit_text(d),
{
    reveal_strlit("0");
    reveal_strlit("1");
    reveal_strlit("2");
    reveal_strlit("3");
    reveal_strlit("4");
    reveal_strlit("5");
    reveal_strlit("6");
    reveal_strlit("7");
    reveal_strlit("8");
    reveal_strlit("9");
    assert forall|e: nat| e < 10 && e != d implies digit_text(e) != digit_text(d) by {
        assert(digit_text(e)[0] != digit_text(d)[0]);
    }
}

proof fn lemma_decimal_len(n: nat)
    ensures
        decimal_of(n).len() >= 1,
        n >= 10 ==> decimal_of(n).len() >= 2,
    decreases n,
{
    lemma_digit_text(n % 10);
    if n >= 10 {
        lemma_decimal_len(n / 10);
    }
}

/// Distinct numbers have distinct decimal texts.
pub proof fn lemma_decimal_injective(a: nat, b: nat)
    ensures
        decimal_of(a) == decimal_of(b) ==> a == b,
    decreases a,
{
    lemma_decimal_len(a);
    lemma_decimal_len(b);
    lemma_digit_text(a % 10);
    lemma_digit_text(b % 10);
    if decimal_of(a) == decimal_of(b) && a >= 10 && b >= 10 {
        let pa = decimal_of(a / 10);
        let pb = decimal_of(b / 10);
        let da = digit_text(a % 10);
        let db = digit_text(b % 10);
        assert(pa =~= (pa + da).take(pa.len() as int));
        assert(pb =~= (pb + db).take(pb.len() as int));
        assert(da =~= (pa + da).skip(pa.len() as int));
        assert(db =~= (pb + db).skip(pb.len() as int));
        assert(pa.len() == pb.len());
        assert(pa == pb);
        assert(da == db);
        lemma_decimal_injective(a / 10, b / 10);
    }
}

/// Comprehensions at different nesting depths bind different names, so an
/// inner element name never shadows an outer one.
pub proof fn lemma_bound_names_distinct(prefix: Seq<char>, d1: nat, d2: nat)
    requires
        d1 != d2,
    ensures
        bound_name(prefix, d1) != bound_name(prefix, d2),
{
    let a = bound_name(prefix, d1);
    let b = bound_name(prefix, d2);
    if a == b {
        assert(decimal_of(d1) =~= a.skip(prefix.len() as int));
        assert(decimal_of(d2) =~= b.skip(prefix.len() as int));
        lemma_decimal_injective(d1, d2);
    }
}

fn bound_name_exec(prefix: &str, depth: u64) -> (r: String)
    ensures
        r@ == bound_name(prefix@, depth as nat),
{
    let mut r = String::from_str(prefix);
    let d = decimal(depth);
    r.append(d.as_str());
    r
}

/// The depth of the comprehensions directly inside one at depth `d`. Depths
/// stop growing at the largest `u64`, far beyond any type that fits in memory.
pub open spec fn next_depth(d: nat) -> nat {
    if d < u64::MAX {
        d + 1
    } else {
        d
    }
}

/// The coercion of `nm` to type `t`, where `depth` comprehensions enclose it.
pub open spec fn coerce_text(nm: Seq<char>, t: Type, depth: nat) -> Seq<char>
    decreases t,
{
    match t {
        Type::Float32 | Type::Float64 => "float("@ + nm + ")"@,
        Type::Boolean => "bool("@ + nm + ")"@,
        Type::String | Type::Object(_) | Type::Error(_) | Type::Record(_) => nm,
        Type::Enum(name) => camel_case_of(name@) + "("@ + nm + ")"@,
        Type::Optional(inner) => "(None if "@ + nm + " is None else "@ + coerce_text(
            nm,
            *inner,
            depth,
        ) + ")"@,
        Type::Sequence(inner) => {
            let x = bound_name("x"@, depth);
            "list("@ + coerce_text(x, *inner, next_depth(depth)) + " for "@ + x + " in "@ + nm + ")"@
        },
        Type::Dictionary(inner) => {
            let k = bound_name("k"@, depth);
            let v = bound_name("v"@, depth);
            "dict(("@ + k + ","@ + coerce_text(v, *inner, next_depth(depth)) + ") for ("@ + k + ", "@ + v
                + ") in "@ + nm + ".items())"@
        },
        _ => "int("@ + nm + ")"@,
    }
}

fn deeper(d: u64) -> (r: u64)
    ensures
        r as nat == next_depth(d as nat),
{
    if d < u64::MAX {
        d + 1
    } else {
        d
    }
}

fn wrap(before: &str, nm: &str, after: &str) -> (r: String)
    ensures
        r@ == before@ + nm@ + after@,
{
    let mut r = String::from_str(before);
    r.append(nm);
    r.append(after);
    r
}

fn coerce_at(nm: &str, type_: &Type, depth: u64) -> (r: String)
    ensures
        r@ == coerce_text(nm@, *type_, depth as nat),
    decreases type_,
{
    match type_ {
        Type::Int8 | Type::UInt8 | Type::Int16 | Type::UInt16 | Type::Int32 | Type::UInt32
        | Type::Int64 | Type::UInt64 => wrap("int(", nm, ")"),
        Type::Float32 | Type::Float64 => wrap("float(", nm, ")"),
        Type::Boolean => wrap("bool(", nm, ")"),
        Type::String | Type::Object(_) | Type::Error(_) | Type::Record(_) => String::from_str(nm),
        Type::Enum(name) => {
            let mut r = class_name_py(name.as_str());
            r.append("(");
            r.append(nm);
            r.append(")");
            r
        },
        Type::Optional(inner) => {
            let c = coerce_at(nm, inner, depth);
            let mut r = wrap("(None if ", nm, " is None else ");
            r.append(c.as_str());
            r.append(")");
            r
        },
        Type::Sequence(inner) => {
            let x = bound_name_exec("x", depth);
            let c = coerce_at(x.as_str(), inner, deeper(depth));
            let mut r = wrap("list(", c.as_str(), " for ");
            r.append(x.as_str());
            r.append(" in ");
            r.append(nm);
            r.append(")");
            r
        },
        Type::Dictionary(inner) => {
            let k = bound_name_exec("k", depth);
            let v = bound_name_exec("v", depth);
            let c = coerce_at(v.as_str(), inner, deeper(depth));
            let mut r = wrap("dict((", k.as_str(), ",");
            r.append(c.as_str());
            r.append(") for (");
            r.append(k.as_str());
            r.append(", ");
            r.append(v.as_str());
            r.append(") in ");
            r.append(nm);
            r.append(".items())");
            r
        },
    }
}

/// An expression that normalizes the value named `nm` to the declared type.
/// Element names bound inside it carry their nesting depth as a suffix.
pub fn coerce_py(nm: &str, type_: &Type) -> (r: String)
    ensures
        r@ == coerce_text(nm@, *type_, 0),
{
    coerce_at(nm, type_, 0)
}

/// The name shared by the buffer helper routines of a composite type.
pub open spec fn helper_suffix(t: Type) -> Seq<char> {
    camel_case_of(canonical_name_of(t))
}

fn helper_suffix_exec(type_: &Type) -> (r: String)
    ensures
        r@ == helper_suffix(*type_),
{
    let c = type_.canonical_name();
    class_name_py(c.as_str())
}

/// Types whose values can be lowered to the wire.
pub open spec fn lowering_supported(t: Type) -> bool {
    !(t is Error)
}

/// The lowering of `nm` to the wire, where it is supported.
pub open spec fn lower_text(nm: Seq<char>, t: Type) -> Seq<char> {
    match t {
        Type::Boolean => "(1 if "@ + nm + " else 0)"@,
        Type::String => "RustString.allocFromString("@ + nm + ")"@,
        Type::Enum(_) => "("@ + nm + ".value)"@,
        Type::Object(_) => "("@ + nm + "._uniffi_handle)"@,
        Type::Record(_) | Type::Optional(_) | Type::Sequence(_) | Type::Dictionary(_) =>
            "RustBuffer.allocFrom"@ + helper_suffix(t) + "("@ + nm + ")"@,
        _ => nm,
    }
}

/// An expression that turns the coerced value named `nm` into its wire
/// representation. Lowering an error type is not supported.
pub fn lower_py(nm: &str, type_: &Type) -> (r: Result<String, GenError>)
    ensures
        r is Ok <==> lowering_supported(*type_),
        r matches Ok(s) ==> s@ == lower_text(nm@, *type_),
        r matches Err(e) ==> e == GenError::UnsupportedOperation(Operation::Lower),
{
    match type_ {
        Type::Int8 | Type::UInt8 | Type::Int16 | Type::UInt16 | Type::Int32 | Type::UInt32
        | Type::Int64 | Type::UInt64 | Type::Float32 | Type::Float64 => Ok(String::from_str(nm)),
        Type::Boolean => Ok(wrap("(1 if ", nm, " else 0)")),
        Type::String => Ok(wrap("RustString.allocFromString(", nm, ")")),
        Type::Enum(_) => Ok(wrap("(", nm, ".value)")),
        Type::Object(_) => Ok(wrap("(", nm, "._uniffi_handle)")),
        Type::Error(_) => Err(GenError::UnsupportedOperation(Operation::Lower)),
        Type::Record(_) | Type::Optional(_) | Type::Sequence(_) | Type::Dictionary(_) => {
            let h = helper_suffix_exec(type_);
            let mut r = wrap("RustBuffer.allocFrom", h.as_str(), "(");
            r.append(nm);
            r.append(")");
            Ok(r)
        },
    }
}

/// Types whose values can be lifted from the wire.
pub open spec fn lifting_supported(t: Type) -> bool {
    !(t is Object || t is Error)
}

/// The lifting of the wire value `nm`, where it is supported.
pub open spec fn lift_text(nm: Seq<char>, t: Type) -> Seq<char> {
    match t {
        Type::Float32 | Type::Float64 => "float("@ + nm + ")"@,
        Type::Boolean => "(True if "@ + nm + " else False)"@,
        Type::String => nm + ".consumeIntoString()"@,
        Type::Enum(name) => camel_case_of(name@) + "("@ + nm + ")"@,
        Type::Record(_) | Type::Optional(_) | Type::Sequence(_) | Type::Dictionary(_) => nm
            + ".consumeInto"@ + helper_suffix(t) + "()"@,
        _ => "int("@ + nm + ")"@,
    }
}

/// An expression that turns the wire value named `nm` back into a Python
/// value. Lifting objects and errors is not supported.
pub fn lift_py(nm: &str, type_: &Type) -> (r: Result<String, GenError>)
    ensures
        r is Ok <==> lifting_supported(*type_),
        r matches Ok(s) ==> s@ == lift_text(nm@, *type_),
        r matches Err(e) ==> e == GenError::UnsupportedOperation(Operation::Lift),
{
    match type_ {
        Type::Int8 | Type::UInt8 | Type::Int16 | Type::UInt16 | Type::Int32 | Type::UInt32
        | Type::Int64 | Type::UInt64 => Ok(wrap("int(", nm, ")")),
        Type::Float32 | Type::Float64 => Ok(wrap("float(", nm, ")")),
        Type::Boolean => Ok(wrap("(True if ", nm, " else False)")),
        Type::String => {
            let mut r = String::from_str(nm);
            r.append(".consumeIntoString()");
            Ok(r)
        },
        Type::Enum(name) => {
            let mut r = class_name_py(name.as_str());
            r.append("(");
            r.append(nm);
            r.append(")");
            Ok(r)
        },
        Type::Object(_) | Type::Error(_) => Err(GenError::UnsupportedOperation(Operation::Lift)),
        Type::Record(_) | Type::Optional(_) | Type::Sequence(_) | Type::Dictionary(_) => {
            let h = helper_suffix_exec(type_);
            let mut r = String::from_str(nm);
            r.append(".consumeInto");
            r.append(h.as_str());
            r.append("()");
            Ok(r)
        },
    }
}

/// Types whose serialized size can be computed.
pub open spec fn sizing_supported(t: Type) -> bool {
    !(t is Object || t is Error)
}

/// The fixed number of bytes a value of `t` occupies in a buffer, for the
/// types whose size does not depend on the value.
pub open spec fn fixed_width(t: Type) -> Option<nat> {
    match t {
        Type::Int8 | Type::UInt8 | Type::Boolean => Some(1),
        Type::Int16 | Type::UInt16 => Some(2),
        Type::Int32 | Type::UInt32 | Type::Float32 | Type::Enum(_) => Some(4),
        Type::Int64 | Type::UInt64 | Type::Float64 => Some(8),
        _ => None,
    }
}

/// The serialized size of the value `nm`, where it is supported.
pub open spec fn write_size_text(nm: Seq<char>, t: Type) -> Seq<char> {
    match fixed_width(t) {
        Some(w) => decimal_of(w),
        None => match t {
            Type::String => "4 + len("@ + nm + ".encode('utf-8'))"@,
            _ => "RustBuffer.calculateWriteSizeOf"@ + helper_suffix(t) + "("@ + nm + ")"@,
        },
    }
}

/// An expression for the exact number of bytes that lowering the value named
/// `nm` writes into a buffer. Objects and errors have no supported size.
pub fn calculate_write_size(nm: &str, type_: &Type) -> (r: Result<String, GenError>)
    ensures
        r is Ok <==> sizing_supported(*type_),
        r matches Ok(s) ==> s@ == write_size_text(nm@, *type_),
        r matches Err(e) ==> e == GenError::UnsupportedOperation(Operation::WriteSize),
{
    match type_ {
        Type::Int8 | Type::UInt8 | Type::Boolean => Ok(decimal(1)),
        Type::Int16 | Type::UInt16 => Ok(decimal(2)),
        Type::Int32 | Type::UInt32 | Type::Float32 | Type::Enum(_) => Ok(decimal(4)),
        Type::Int64 | Type::UInt64 | Type::Float64 => Ok(decimal(8)),
        Type::String => Ok(wrap("4 + len(", nm, ".encode('utf-8'))")),
        Type::Object(_) | Type::Error(_) => Err(
            GenError::UnsupportedOperation(Operation::WriteSize),
        ),
        Type::Record(_) | Type::Optional(_) | Type::Sequence(_) | Type::Dictionary(_) => {
            let h = helper_suffix_exec(type_);
            let mut r = wrap("RustBuffer.calculateWriteSizeOf", h.as_str(), "(");
            r.append(nm);
            r.append(")");
            Ok(r)
        },
    }
}

/// Structurally identical types get identical fragments from every generator:
/// in particular two occurrences of one composite type name the same helper
/// routines, which are therefore generated once and shared.
pub proof fn lemma_same_type_same_fragments(nm: Seq<char>, a: Type, b: Type, depth: nat)
    requires
        same_type(a, b),
    ensures
        helper_suffix(a) == helper_suffix(b),
        coerce_text(nm, a, depth) == coerce_text(nm, b, depth),
        lowering_supported(a) == lowering_supported(b),
        lower_text(nm, a) == lower_text(nm, b),
        lifting_supported(a) == lifting_supported(b),
        lift_text(nm, a) == lift_text(nm, b),
        sizing_supported(a) == sizing_supported(b),
        write_size_text(nm, a) == write_size_text(nm, b),
    decreases a,
{
    lemma_canonical_name_injective(a, b);
    match (a, b) {
        (Type::Optional(x), Type::Optional(y)) => {
            lemma_same_type_same_fragments(nm, *x, *y, depth);
        },
        (Type::Sequence(x), Type::Sequence(y)) => {
            lemma_same_type_same_fragments(bound_name("x"@, depth), *x, *y, next_depth(depth));
        },
        (Type::Dictionary(x), Type::Dictionary(y)) => {
            lemma_same_type_same_fragments(bound_name("v"@, depth), *x, *y, next_depth(depth));
        },
        _ => {},
    }
}

/// Lowering, lifting and sizing a composite type go through one family of
/// buffer helpers: the allocate, consume and size routines of the same name,
/// which write and read one wire layout.
pub proof fn lemma_buffer_helpers_pair_up(nm: Seq<char>, w: Seq<char>, t: Type)
    requires
        is_buffer_type(t),
    ensures
        lowering_supported(t) && lifting_supported(t) && sizing_supported(t),
        lower_text(nm, t) == "RustBuffer.allocFrom"@ + helper_suffix(t) + "("@ + nm + ")"@,
        lift_text(w, t) == w + ".consumeInto"@ + helper_suffix(t) + "()"@,
        write_size_text(nm, t) == "RustBuffer.calculateWriteSizeOf"@ + helper_suffix(t) + "("@
            + nm + ")"@,
{
}

} // verus!
