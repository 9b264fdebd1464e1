//! Stateful detection of network reconnaissance: stalled-SYN scans, ICMP
//! destination-unreachable floods and plaintext anonymous FTP logins.
//!
//! The engine is fed one captured frame at a time together with the current
//! time and answers with the alerts that the frame gave rise to.

pub mod alert;
pub mod decode;
pub mod engine;
pub mod flow;
pub mod ftp;
pub mod history;
pub mod identity;
pub mod laws;
pub mod registry;
pub mod signature;
pub mod syn_scan;
pub mod text;
pub mod udp_scan;
