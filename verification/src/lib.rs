//! Local-network host discovery: candidate enumeration, liveness bookkeeping,
//! ARP resolution and report assembly, each function proved against its
//! contract with Verus.

pub mod addr;
pub mod arp;
pub mod block;
pub mod candidates;
pub mod db;
pub mod discovery;
pub mod frame;
pub mod iface;
pub mod lines;
pub mod option;
pub mod output;
pub mod probe;
pub mod report;
pub mod sys;
pub mod target;
pub mod text;
pub mod validator;
