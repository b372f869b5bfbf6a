//! Statistics over the diagnostic log of a supervised dnsmasq process: a line
//! grammar that turns log lines into typed events, and an aggregate state that
//! the events are applied to.

pub mod text;
pub mod address;
pub mod line_parser;
pub mod counters;
pub mod timeline;
pub mod dnsmasq;
pub mod supervisor;
pub mod responses;
pub mod laws;
