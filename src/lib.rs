//! A register machine with eight 32-bit registers, a table of independently
//! allocated word segments, and a fetch-decode-execute control unit.
pub mod decode;
pub mod fault;
pub mod image;
pub mod machine;
pub mod store;

pub use decode::{
    decode, op_code, rega_offset, regb_offset, regc_offset, rego_offset, rego_value, Instruction,
};
pub use fault::Fault;
pub use image::decode_image;
pub use machine::{Action, Machine, RunReport, RunStatus};
pub use store::{SegmentStore, StoreView};
