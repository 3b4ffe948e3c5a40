//! Compile-time JSON text building blocks: a state machine that tracks where a
//! chunk of JSON text stands, a checker that scans JSON text from a state,
//! fixed-capacity text buffers that grow together with their state, and the
//! token-stream helpers that the derive side uses to read Rust item headers.
#![allow(unused_imports)]

pub mod state;
pub mod utf8;
pub mod texts;
pub mod chunk;
pub mod laws;
pub mod compile_time;
pub mod syn_generic;
pub mod utils;
pub mod array_string;
pub mod expand_props;
pub mod item_attrs;
pub mod json_item;
pub mod json_array;
pub mod to_json;
pub mod props;
pub mod derive;
pub mod expand_errors;
pub mod to_default;
pub mod variant_pat;
pub mod arg_props;
pub mod struct_json;
pub mod enum_json;
