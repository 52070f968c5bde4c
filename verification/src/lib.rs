//! Parser for vers-like specifiers (vls): the `<constraints>` part of a vers
//! URL without the `vers:<type>/` prefix.

pub mod comparator;
pub mod constraint;
pub mod laws;
pub mod order;
pub mod valid_chars;
pub mod version;
pub mod vls;

pub use comparator::Comparator;
pub use constraint::{Constraint, ConstraintError};
pub use valid_chars::{collect_invalid_characters, VlsSpecialCharSet};
pub use version::VersionString;
pub use vls::{Vls, VlsError};
