//! Simulated IoT temperature readings and the dispatch machinery that sends
//! them to a message-streaming topic.
//!
//! The library has three parts: a reading generator (`sensor`), a verified
//! textual codec for the interchange payload (`codec` and `text`), and the
//! state machine that drives the two publishing strategies (`dispatch`).
//! The messaging client itself is an outside collaborator: the library only
//! decides what to publish and how a cycle reacts to the outcomes.

pub mod codec;
pub mod dispatch;
pub mod sensor;
pub mod text;
mod trusted;

pub use codec::DecodedReading;
pub use codec::JsonRecord;
pub use sensor::FixedRandom;
pub use sensor::RandomSource;
pub use sensor::SensorReading;
pub use sensor::SerializationError;
pub use sensor::TempratureSensor;
pub use sensor::ThreadRandom;
