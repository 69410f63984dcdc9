//! Network interfaces of a host and their addresses, as a small typed model,
//! with the formatting of hardware (MAC-48) addresses.
//!
//! The host is not queried here: [`Interface::get_all`] builds the model from
//! what a discovery layer reported, so that every rule of the mapping is
//! checked for every report.

pub mod addr;
pub mod display;
pub mod flags;
pub mod hwaddr;
pub mod interface;
pub mod text;

pub use addr::{to_address, Address, IpAddr, Kind, NextHop, RawAddr, SocketAddr};
pub use flags::{InterfaceFlags, IFF_UP};
pub use hwaddr::HardwareAddr;
pub use interface::{Interface, InterfacesError, RawInterface};
