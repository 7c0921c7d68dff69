//! Components: the building blocks that UI descriptions name.
pub mod registry;

use vstd::prelude::*;

verus! {

/// A kind of component, with the type of the properties it is configured by.
pub trait Component {
    /// The component's properties.
    type Properties;
}

} // verus!
