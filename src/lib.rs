//! Expression generators for the Python side of a foreign-function boundary.
//!
//! Each generator maps a declared interface type to a fragment of Python
//! text: coercion of loosely typed input, lowering to the wire
//! representation, lifting back from it, and the serialized size. The
//! buffer layout those fragments rely on is stated in `wire`.

pub mod filters;
pub mod naming;
pub mod registry;
pub mod types;
pub mod wire;
pub mod wrapper;

pub use filters::{
    calculate_write_size, coerce_py, lift_py, lower_py, type_ffi, GenError, Operation,
};
pub use naming::{class_name_py, enum_name_py, fn_name_py, var_name_py};
pub use types::{FFIType, Type};
pub use wrapper::{ComponentInterface, Config, PythonWrapper};
