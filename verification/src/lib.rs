//! Decoding of layered network-capture containers: little-endian frame and
//! packet parsing, opcode classification and artifact naming.

pub mod bytes;
pub mod container;
pub mod emit;
pub mod error;
pub mod frame;
pub mod opcodes;
pub mod packet;
pub mod record;
pub mod text;
