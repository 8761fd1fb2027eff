//! The social service: message processing, its health answer and the
//! identity it logs under.

pub mod dead_letter;
pub mod health;
pub mod telemetry;
