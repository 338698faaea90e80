//! Flow Morphing Engine: traffic models, chaff, profiles and packet shaping.
pub mod chaff;
pub mod collect;
pub mod compare;
pub mod distribution;
pub mod library;
pub mod mimicry;
pub mod model;
pub mod morpher;
pub mod profiles;
pub mod scheduler;
