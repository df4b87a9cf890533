//! A small network-reporting library: a greeting formatter and a
//! network-interface reporter that lists each non-loopback interface's
//! name, IP address, and hardware (MAC) address.

pub mod greeting;
pub mod mac;
pub mod report;
pub mod text;

pub use greeting::greet;
pub use greeting::greeting_of;
pub use mac::get_mac_address;
pub use mac::parse_getmac_csv;
pub use mac::parse_ifconfig_mac;
pub use mac::parse_sysfs_mac;
pub use mac::Platform;
pub use report::build_records;
pub use report::discover_interfaces;
pub use report::filter_non_loopback;
pub use report::make_record;
pub use report::NetworkInterface;
pub use report::RawInterface;
