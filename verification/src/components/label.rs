use crate::component::Component;
use vstd::prelude::*;

verus! {

/// The built-in label component.
pub struct LabelComponent {}

/// The properties of a [`LabelComponent`].
pub struct LabelProps {
    label: String,
}

impl LabelProps {
    /// Properties showing `label`.
    pub fn new(label: String) -> (props: Self)
        ensures
            props.label() == label@,
    {
        LabelProps { label }
    }

    /// The text shown.
    pub closed spec fn label(&self) -> Seq<char> {
        self.label@
    }

    /// The text shown.
    pub fn label_text(&self) -> (label: &str)
        ensures
            label@ == self.label(),
    {
        self.label.as_str()
    }
}

impl Component for LabelComponent {
    type Properties = LabelProps;
}

} // verus!
