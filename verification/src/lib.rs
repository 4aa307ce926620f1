//! The decisions of a host that runs DuckDB, compiled to a WebAssembly component, beside
//! extensions that are components too.
//!
//! Engines, sandboxes, files and the components themselves belong to the program around
//! this library. What the library decides, it decides on plain values: each module takes
//! what was observed and says what follows from it. Where the host has to act in between,
//! a module is a state machine: a step takes the answer to the last action and gives the
//! next one.
pub mod alias;
pub mod archive;
pub mod assoc;
pub mod attach;
pub mod bytes;
pub mod cli_types;
pub mod columnar;
pub mod convert;
pub mod core_types;
pub mod cwasm;
pub mod dispatch;
pub mod dotcmd;
pub mod driver;
pub mod extension_types;
pub mod ident;
pub mod json;
pub mod load;
pub mod loader;
pub mod manager;
pub mod model;
pub mod names;
pub mod paths;
pub mod plan_shape;
pub mod prefix;
pub mod preopens;
pub mod reg;
pub mod render;
pub mod resolve;
pub mod resources;
pub mod scan;
pub mod services;
pub mod settings;
pub mod sibling;
pub mod spelling;
pub mod sqltype;
pub mod startup;
pub mod statement;
pub mod storage;
pub mod text;
pub mod transaction;
pub mod tvm;
pub mod write;
