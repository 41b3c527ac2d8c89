//! Hybrid syslog message parsing: legacy (RFC 3164 style) and RFC 5424
//! framing, declared-charset handling and a cascade of decoding fallbacks.
pub mod charset;
pub mod config;
pub mod decode;
pub mod framing;
pub mod parser;
pub mod raw;
pub mod severity;
pub mod text;
pub mod viewer;
