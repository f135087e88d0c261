//! Verified protocol engine for a USB FPGA-programming device.
//!
//! The library covers everything about the wire protocol that can be
//! computed and checked on the host: the rotating-key obfuscation cipher
//! and its key-table transform, the configuration-register snapshot, the
//! bitstream text decoder, the endianness-pinned word/byte codecs, the
//! partial-transfer bookkeeping of the bulk-transport retry layer, the
//! upload chunk plan, and the session state machine that sequences
//! open, initialize, program and close.  The actual USB bulk transfers
//! are performed by an unverified shell that feeds every byte it reads
//! into this engine and writes out exactly the bytes the engine hands it.

pub mod bitstream;
pub mod cfg;
pub mod cipher;
pub mod device_error;
pub mod endpoint;
pub mod session;
pub mod transfer;
pub mod wire;
