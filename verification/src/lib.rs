//! A safe model of the MEX native-array binding surface: the class-id codec,
//! dimension and element-count bookkeeping, typed projections of an array's
//! raw element storage, and the entry-point argument-count handling, each with
//! a verified contract. The foreign calls themselves live outside the library.

pub mod array;
pub mod class_id;
pub mod data;
pub mod dims;
pub mod entry;
pub mod host;
pub mod le;
pub mod text;

pub use class_id::MxClassID;
