//! A small TCP honeypot core: port specifications, configuration values,
//! the echo session, the accept loop and the outbound port scan, each as
//! verified decisions over plain values. Sockets, files and timers are
//! driven by the application around this library.
pub mod portspec;
pub mod config;
pub mod scanner;
pub mod session;
pub mod listener;
