//! The core of a tensor backend for ROCm devices.
//!
//! HIP and hipBLAS are loaded when they are needed, and every call into them is
//! a foreign one. This crate makes none of those calls. It says where the
//! libraries are looked for ([`library`], [`search`]), what their status codes
//! mean ([`hip`], [`error`]), how tensor data becomes bytes and back
//! ([`storage`]), how a matrix product is put to hipBLAS ([`layout`],
//! [`matmul`], [`product`]), and which calls each piece of work takes, one
//! after the other ([`operation`], [`device`], [`probe`], [`rocm_storage`],
//! [`native`]). What holds of whole runs of such work stands in [`runs`].

pub mod device;
pub mod error;
pub mod hip;
pub mod layout;
pub mod library;
pub mod matmul;
pub mod native;
pub mod operation;
pub mod probe;
pub mod product;
pub mod rocm_storage;
pub mod runs;
pub mod search;
pub mod storage;
pub mod text;
