//! ARM Flow Decoder: builds basic-block level control flow graphs of
//! disassembled AArch64 (ARM 64-bit) programs.
pub mod module;
pub mod pattern;
pub mod text;
