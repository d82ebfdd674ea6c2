//! Pure, filesystem-free path values: parsing under POSIX or Windows lexical
//! rules, decomposition into components, and immutable transformations.

pub mod error;
pub mod model;
pub mod text;
pub mod wildcard;
pub mod components;
pub mod transform;
pub mod glob;
pub mod reserved;
pub mod uri;
pub mod pure;
pub mod flavors;
pub mod facade;
pub mod laws;
pub mod lemmas;

pub use crate::components::Components;
pub use crate::error::{IoKind, PathError};
pub use crate::facade::{Path, PathKind};
pub use crate::flavors::{MockPath, PurePosixPath, PureWindowsPath};
pub use crate::pure::{PurePath, SystemPath};
pub use crate::wildcard::_is_wildcard_pattern;
