//! Logic of a command-line client for Bluetooth LE peripherals that offer a
//! serial link over GATT (the "UART service"): address formatting, scan
//! ranking, device and characteristic lookup, and the decisions of a send
//! session and of an interactive session.

pub mod address;
pub mod error;
pub mod locate;
pub mod protocol;
pub mod scan;
pub mod session;
pub mod text;
