//! A sequential, self-framing field format: typed, named fields (unsigned and
//! signed integers, length-prefixed blobs), each introduced by a three-byte
//! marker and closed by a line feed.
//!
//! - [`bi_core`]: the bytes of the grammar, fields and their encoding, decimal
//!   text, errors.
//! - [`validator`]: the rules that reader and writer share.
//! - [`writer`]: the encoder, and a writer into a buffer.
//! - [`parser`]: the decoder, a reader over a buffer, a decoder that is fed
//!   piece by piece, and the proofs that reading undoes writing and that
//!   damaged input is refused.
//! - [`rere`]: recording and replaying shell commands on top of the format.
//!
//! Every executable function carries a contract over the byte-level model of
//! the format, and Verus proves the functions against their contracts.

pub mod bi_core;
pub mod parser;
pub mod prelude;
pub mod rere;
pub mod validator;
pub mod writer;
