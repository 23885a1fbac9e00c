//! A bus that serialises every request between a processing unit and its
//! peripherals, with synchronous reads routed back to the one caller that
//! issued them.

pub mod message;
pub mod queue;
pub mod peripherals;
pub mod cpu;
pub mod bus;
pub mod machine;
