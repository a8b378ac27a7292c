//! Polling of an MH-Z19 CO2 sensor: the wire protocol, one request/response
//! exchange, and the bookkeeping of the poll loop.

pub mod buffer;
pub mod codec;
pub mod collector;
pub mod command;
pub mod frame;
pub mod sensor;
