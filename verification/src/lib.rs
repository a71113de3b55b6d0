//! A Java virtual machine: class-file loading, bytecode decoding and the
//! interpreter core, with their contracts proved by Verus.
pub mod attribute;
pub mod class;
pub mod class_loader;
pub mod code;
pub mod constant_pool;
pub mod data;
pub mod instruction;
pub mod raw_class;
pub mod text;
pub mod stacking;
pub mod error;
pub mod prepare;
pub mod object;
pub mod heap;
pub mod frame;
pub mod thread;
pub mod dynamic;
pub mod native;
