//! A buffered, incremental UTF-8 decoding reader.
//!
//! The reader pulls bytes from a [`ByteSource`], decodes one Unicode scalar
//! value at a time, and offers three scanning primitives on top of the
//! decoder: extract the next whitespace-delimited token and parse it
//! ([`RInStream::read`]), extract the next line ([`RInStream::read_line`]),
//! and discard a line ([`RInStream::skip_line`]). This suits sources that are
//! very large single-line streams, where reading the whole input at once
//! would be wasteful.

pub mod decode;
pub mod laws;
pub mod reader;
pub mod scan;
pub mod source;
pub mod stream;
pub mod token;

pub use reader::RInStream;
pub use reader::DEFAULT_BUF_SIZE;
pub use source::ByteSource;
pub use source::FillOutcome;
pub use source::VecSource;
pub use token::FromToken;
