//! The types and traits that a user of an output needs in scope.
pub use crate::morse::MorseError;
pub use crate::OnOffSequenceOutput;
pub use crate::OutputLine;
pub use crate::OutputUpdate;
pub use crate::Repeat;
