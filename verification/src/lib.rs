//! Configuration variables: a navigable tree of named, typed values and
//! callable actions, addressed by dot-separated string paths.
//!
//! A host builds a [`Visit`] holding [`Node`]s (properties, nested lists and
//! actions) and interacts with it through the string-based operations in
//! [`console`]: resolve a dotted path, read or write a property, reset to
//! defaults, invoke actions, or walk the whole tree.

pub mod console;
pub mod digits;
pub mod node;
pub mod path;
pub mod value;

pub use crate::node::Action;
pub use crate::node::ClampedProp;
pub use crate::node::HexProp;
pub use crate::node::List;
pub use crate::node::Node;
pub use crate::node::OwnedProp;
pub use crate::node::PropNode;
pub use crate::node::PropState;
pub use crate::node::Property;
pub use crate::node::ReadOnlyProp;
pub use crate::node::Visit;
pub use crate::path::ComparePath;
pub use crate::value::Value;
