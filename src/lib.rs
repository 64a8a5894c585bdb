//! Decoders for JVM class files and Android DEX files.
//!
//! Each decoder reads a byte buffer that is held in full and states, over the
//! bytes, what it returns and when it succeeds. The class-file decoder
//! resolves names through the constant pool it has read; the DEX decoder
//! through the id tables it has read. Both are plain values owned by the
//! decoded file, so two files can be decoded side by side.

// Shared primitives.
pub mod error;
pub mod bytes;
pub mod leb128;
pub mod utf;
pub mod float;
pub mod access_flag;

// JVM class files.
pub mod constant_pool;
pub mod opcodes;
pub mod stack_map_table;
pub mod attribute;
pub mod member;
pub mod raw_class;

// DEX files.
pub mod raw_dex;
pub mod class_def;
pub mod map_list;

// Small state types used by viewers of decoded files.
pub mod paragraph;
pub mod env;
