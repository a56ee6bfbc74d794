//! Bridge between JSON-RPC tool calls and a microcontroller on a serial
//! line. Clients call named tools; each call becomes a compact command
//! frame, goes over a SLIP-framed serial link with a CRC-8 trailer, and the
//! response frame is read back as the manifest of the device declares it.
//!
//! The modules, from the wire upwards:
//! - `crc`, `slip`: the checksum and the framing of the serial link;
//! - `protocol`: typed fields, and the payloads of command and response
//!   frames;
//! - `json`: JSON values as the router handles them;
//! - `manifest`, `manifest_file`, `listing`: the function table of a device,
//!   how it is read from a file, and the registry of manifests;
//! - `arguments`: checking the arguments of a call and laying them out;
//! - `connection`: the states of the link and the one exchange of a call;
//! - `server`: the router's decisions for every request;
//! - `python_runner`: the script file of the script tool and its answer;
//! - `simulator`: the device side, as a stand-in for a board;
//! - `text`: helpers for messages.
//!
//! Nothing here reads or writes a device, a file or a socket: every function
//! takes what was read and returns what has to be written or done next.

pub mod arguments;
pub mod connection;
pub mod crc;
pub mod json;
pub mod listing;
pub mod manifest;
pub mod manifest_file;
pub mod protocol;
pub mod python_runner;
pub mod server;
pub mod simulator;
pub mod slip;
pub mod text;
