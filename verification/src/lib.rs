//! Byte-level parser combinators.
//!
//! A [`Parser`] reads a value from the front of a byte slice and hands back
//! the value and the rest of the slice. The primitive parsers read integers,
//! fixed counts of bytes, tags and the end of the input; [`ParserExt`] builds
//! new parsers out of old ones, and tuples of parsers run one after the other.
//! Every parser states in `parses` what its outcomes are, and proves that it
//! only ever reads a prefix of its input.
pub mod error;
pub mod parser;
pub mod bytes;
pub mod primitives;
pub mod ints;
pub mod combinators;
pub mod repeat;
pub mod either;
mod tuples;
pub mod laws;
pub mod tuple_laws;
pub mod int_laws;

pub use error::{ExpectedEof, TagError, TagMismatch, UnexpectedEof};
pub use parser::{run, Parser, ParserExt};
pub use primitives::{consume, eof, error, tag, take, Consume, Eof, Error, Tag, Take};
pub use ints::{
    i16_be, i16_le, i16_ne, i32_be, i32_le, i32_ne, i64_be, i64_le, i64_ne, i8, u16_be, u16_le,
    u16_ne, u32_be, u32_le, u32_ne, u64_be, u64_le, u64_ne, u8, I16Be, I16Le, I16Ne, I32Be, I32Le,
    I32Ne, I64Be, I64Le, I64Ne, I8, U16Be, U16Le, U16Ne, U32Be, U32Le, U32Ne, U64Be, U64Le, U64Ne,
    U8,
};
pub use combinators::{And, AndThen, MapErr, MapParser, MapRes, Mapped, Peek};
pub use repeat::{Repeat, RepeatUntilEof};
pub use either::Either;
