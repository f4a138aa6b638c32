//! A small embeddable language runtime: a binary bytecode format, an
//! assembler for it, a module loader and a stack-based virtual machine.
//!
//! The parts, from the bytes up:
//!
//! - [`wire`], [`byte_reader`] and [`byte_writer`]: the primitive values of
//!   the format, big-endian throughout.
//! - [`bytecode`]: the opcode table.
//! - [`instruction`], [`encoding`] and [`decoding`]: instructions, with their
//!   blocks nested in them, to bytes and back; [`round_trip`] shows that the
//!   way back undoes the way there, and [`sequel`] that decoding goes on
//!   behind what it has decoded.
//! - [`builder`]: an assembler that writes the bytes of a module block by
//!   block.
//! - [`module`]: functions by name, loaded from bytes or registered by hand.
//! - [`semantics`]: what running code means; [`laws`] holds what follows from
//!   it.
//! - [`machine`] and [`virtual_machine`]: the interpreter, which does what
//!   [`semantics`] says.
//!
//! Floats are held as their IEEE 754 binary32 bit patterns. The machine
//! compares them itself and leaves their arithmetic to the [`Host`] that it
//! was made with, as it leaves native functions to the callbacks that a
//! module was given.
//!
//! A run that cannot go on ends in an error, never in a default value, and
//! leaves the machine empty. Every run ends: loops and calls nest no deeper
//! than the limit of the machine.

pub mod builder;
pub mod byte_reader;
pub mod byte_writer;
pub mod bytecode;
pub mod decoding;
pub mod encoding;
pub mod function;
pub mod instruction;
pub mod laws;
pub mod machine;
pub mod module;
pub mod options;
pub mod round_trip;
pub mod semantics;
pub mod sequel;
pub mod table;
pub mod text;
pub mod value;
pub mod version;
pub mod virtual_machine;
pub mod wire;

pub use builder::{Block, ModuleBuilder};
pub use byte_reader::ByteReader;
pub use bytecode::ByteCode;
pub use decoding::{DecodeError, Field};
pub use function::{Callback, Function, NativeFunction};
pub use instruction::{Code, Instruction};
pub use machine::{Completion, Host};
pub use module::{LoadError, Module};
pub use options::Options;
pub use semantics::{BinaryOp, ExecError, FloatOp};
pub use value::{NativeObject, Object, Value};
pub use virtual_machine::VirtualMachine;
