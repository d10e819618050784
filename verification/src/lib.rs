//! KERN: rule engine, semantic analysis, virtual machine safety layer,
//! front end and PSI knowledge structures, with verified contracts.
#![allow(non_camel_case_types)]
#![allow(non_snake_case)]

pub mod maps;
pub mod text;
pub mod sorting;
pub mod rule_engine;
pub mod vm_safety;
pub mod vm;
pub mod semantic;
pub mod front;
pub mod psi;
