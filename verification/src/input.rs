//! The text field of the edit dialog.

use vstd::prelude::*;

verus! {

/// What the owner of a text field hands to it.
#[derive(Debug)]
pub struct TextInputProps {
    /// The text to show.
    pub value: String,
}

impl Clone for TextInputProps {
    fn clone(&self) -> (copy: Self)
        ensures
            copy == *self,
    {
        TextInputProps { value: self.value.clone() }
    }
}

/// A text field. It keeps the text it shows and reports every edit upward.
#[derive(Debug)]
pub struct TextInput {
    value: String,
}

impl View for TextInput {
    type V = Seq<char>;

    /// The text shown.
    closed spec fn view(&self) -> Seq<char> {
        self.value@
    }
}

/// What happens to a text field.
#[derive(Debug)]
pub enum TextInputMsg {
    /// The user changed the text to this.
    Changed(String),
}

/// What the owner does after a message to the field.
#[derive(Debug)]
pub struct TextInputOutcome {
    /// Whether the field is drawn again.
    pub render: bool,
    /// The text reported to the owner.
    pub input: String,
}

impl TextInput {
    /// A field that shows the text of `props`.
    pub fn create(props: TextInputProps) -> (field: TextInput)
        ensures
            field@ == props.value@,
    {
        TextInput { value: props.value }
    }

    /// The text shown.
    pub fn value(&self) -> (value: &String)
        ensures
            value@ == self@,
    {
        &self.value
    }

    /// Reports the edited text to the owner. The field itself keeps what it
    /// shows until the owner hands the text back through [`TextInput::change`],
    /// so it is not drawn again.
    pub fn update(&mut self, msg: TextInputMsg) -> (outcome: TextInputOutcome)
        ensures
            final(self)@ == old(self)@,
            !outcome.render,
            match msg {
                TextInputMsg::Changed(value) => outcome.input == value,
            },
    {
        match msg {
            TextInputMsg::Changed(value) => TextInputOutcome { render: false, input: value },
        }
    }

    /// Takes over the text that the owner hands down, and asks to be drawn
    /// again.
    pub fn change(&mut self, props: TextInputProps) -> (render: bool)
        ensures
            final(self)@ == props.value@,
            render,
    {
        self.value = props.value;
        true
    }
}

} // verus!
