use vstd::prelude::*;

verus! {

/// A modal dialog shown to the player: an element id, a title, a body
/// message, and whether the dialog is currently open.
#[derive(Clone, Debug)]
pub struct Dialog {
    pub id: String,
    pub title: String,
    pub message: String,
    pub is_active: bool,
}

impl Dialog {
    /// A dialog with the given id, title, message and visibility.
    pub fn new(id: String, title: String, message: String, is_active: bool) -> (d: Dialog)
        ensures
            d.id@ == id@,
            d.title@ == title@,
            d.message@ == message@,
            d.is_active == is_active,
    {
        Dialog { id, title, message, is_active }
    }

    /// A warning dialog: fixed id and title, with the given message.
    pub fn warning_dialog(message: String, is_active: bool) -> (d: Dialog)
        ensures
            d.id@ == "warning-dialog"@,
            d.title@ == "Warning"@,
            d.message@ == message@,
            d.is_active == is_active,
    {
        Dialog::new(
            String::from_str("warning-dialog"),
            String::from_str("Warning"),
            message,
            is_active,
        )
    }

    /// The dialog's element id.
    pub fn get_id(&self) -> (r: String)
        ensures
            r@ == self.id@,
    {
        self.id.clone()
    }
}

} // verus!
