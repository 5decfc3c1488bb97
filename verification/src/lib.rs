//! A typed-slot, reusable-graph runtime for OpenCL, with its scheduling logic
//! verified.
//!
//! The library decides *what* is handed to the device and in which order; the
//! driver that performs each command is supplied by the application through
//! [`exec_ctx::Driver`].

pub mod access;
pub mod binding;
pub mod buffer_laws;
pub mod cb;
pub mod cb_laws;
pub mod chain;
pub mod combinators;
pub mod contents_laws;
pub mod copies;
pub mod device_op;
pub mod entries;
pub mod error;
pub mod exec_ctx;
pub mod failure_laws;
pub mod fan_out;
pub mod fill_kernel;
pub mod fill_laws;
pub mod format;
pub mod fresh_laws;
pub mod future;
pub mod graph;
pub mod graph_laws;
pub mod host;
pub mod ids;
pub mod image;
pub mod image_laws;
pub mod image_ops;
pub mod input;
pub mod input_laws;
pub mod kernel_op;
pub mod launch;
pub mod launch_laws;
pub mod launch_op;
pub mod leaf;
pub mod leaf_laws;
pub mod leaf_op;
pub mod leaves;
pub mod map_primitive;
pub mod obj;
pub mod once_laws;
pub mod op_laws;
pub mod plain;
pub mod rearm_laws;
pub mod run_laws;
pub mod seam_laws;
pub mod seeds;
pub mod shape_laws;
pub mod slot_laws;
pub mod slots;
pub mod store;
pub mod store_laws;
pub mod terminal_laws;
pub mod terminals;
pub mod text;
pub mod wait_laws;
pub mod walk;
