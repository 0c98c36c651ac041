//! Asset import bookkeeping that does not depend on the parsed file's floating-point data.

pub mod fbx;
