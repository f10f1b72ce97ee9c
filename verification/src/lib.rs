//! Middle end and back ends of a small ahead-of-time compiler.
//!
//! The library lowers an abstract syntax tree into a linear three-address
//! intermediate representation (LTAC) and emits assembly text for the
//! x86_64, AArch64 and RISC-V 64 targets.  Everything here is pure
//! computation on plain values; reading source files and running the
//! system assembler and linker are left to the surrounding application.

pub mod aarch64;
pub mod ast;
pub mod blocks;
pub mod domain;
pub mod errors;
pub mod labels;
pub mod laws;
pub mod llir;
pub mod llir_builder;
pub mod ltac;
pub mod ltac_builder;
pub mod ltac_flow;
pub mod ltac_func;
pub mod ltac_var;
pub mod numtext;
pub mod riscv64;
pub mod x86;
