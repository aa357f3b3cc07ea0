pub mod breaker;
pub mod control;
pub mod forwarding;
pub mod http;
pub mod laws;
pub mod proxy;
pub mod tables;
pub mod telemetry;
pub mod text;
pub mod tls;
