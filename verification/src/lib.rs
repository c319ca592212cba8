//! Bridge logic for Hunter BTT Bluetooth tap timers: the GATT payload
//! codecs, the command and status rules, the connection-resilience
//! escalation ladder and its supervisor, the configuration, and the HCI
//! framing used to hold the connection interval.

pub mod ble;
pub mod command;
pub mod config;
pub mod dbus_control;
pub mod hci;
pub mod hci_monitor;
pub mod protocol;
pub mod resilience;
pub mod supervisor;

pub use crate::command::ZoneNames;
