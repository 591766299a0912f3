//! The logic of a benchmark client: it pings a server over one stream, reports latency,
//! throughput and interface traffic once a second, and shows them live or as a plot.
pub mod bench;
pub mod chart;
pub mod column;
pub mod dashboard;
pub mod layout;
pub mod live;
pub mod net;
pub mod plot;
pub mod report;
pub mod text;
pub mod tui;
