//! Automatic differentiation of WebAssembly modules.
//!
//! A module is transformed into a module that computes derivatives along with what the module
//! computes. In forward mode every floating-point value is followed by its tangent. In reverse
//! mode every function becomes a forward pass, which records on tapes what the derivative
//! needs, and a backward pass, which takes the adjoints of the results and gives the adjoints of
//! the parameters.
//!
//! [`api`] holds the configuration and the two transformations. They read a module as
//! [`module`] describes it and write the transformed module in the binary format, which
//! [`instruction`], [`sections`] and [`binary`] state byte by byte.
//!
//! Reverse mode is the larger part. [`reverse`] goes through the instructions of a function
//! once and writes both passes as it goes, [`backward`] keeps the backward pass by basic blocks
//! and puts the blocks behind a dispatch loop at the end, [`helper`] holds the functions that
//! keep the tapes, [`assemble`] puts the sections of the module together, and [`names`] names
//! what the module holds. [`laws`] states what holds of all this as a whole, and [`layout`] where
//! the types of the transformed module stand. [`vm`] turns the programs of a small register
//! machine into modules that can then be differentiated.

pub mod api;
pub mod assemble;
pub mod backward;
pub mod binary;
pub mod bytes;
pub mod error;
pub mod forward;
pub mod helper;
pub mod instruction;
pub mod laws;
pub mod layout;
pub mod leb128;
pub mod module;
pub mod name;
pub mod names;
pub mod reverse;
pub mod sections;
pub mod stack;
pub mod util;
pub mod vm;
