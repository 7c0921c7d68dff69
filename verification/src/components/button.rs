use crate::component::Component;
use vstd::prelude::*;

verus! {

/// The built-in button component.
pub struct ButtonComponent {}

/// The properties of a [`ButtonComponent`].
pub struct ButtonProps {
    label: String,
}

impl ButtonProps {
    /// Properties showing `label`.
    pub fn new(label: String) -> (props: Self)
        ensures
            props.label() == label@,
    {
        ButtonProps { label }
    }

    /// The text shown.
    pub closed spec fn label(&self) -> Seq<char> {
        self.label@
    }

    /// The text shown.
    pub fn label_text(&self) -> (label: &str)
        ensures
            label@ == self.label(),
    {
        self.label.as_str()
    }
}

impl Component for ButtonComponent {
    type Properties = ButtonProps;
}

} // verus!
