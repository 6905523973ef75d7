//! Pseudo-melodic note sequence generation and its audio layout.
//!
//! Random draws are fixed-point fractions of [0, 1), configuration values are
//! stored in thousandths, and note preferences use fixed-point weights, so
//! every decision of the generator is exact integer arithmetic.
pub mod instrument;
pub mod sequence;
pub mod generator;
pub mod transformer;

pub use generator::SequenceGenerator;
pub use instrument::InstrumentType;
pub use transformer::MusicTransformer;
