//! The box in which the current path is shown and can be typed.

use vstd::prelude::*;

verus! {

/// What the path box shows, and whether the user is typing in it. While the
/// user is not typing, the box follows the current directory; a text that
/// was typed is handed out once, when the box loses the focus.
#[derive(Debug)]
pub struct PathBox {
    displayed_path: String,
    is_editing_path: bool,
}

impl PathBox {
    /// The text in the box.
    pub closed spec fn text(&self) -> Seq<char> {
        self.displayed_path@
    }

    /// Whether the user is typing in the box.
    pub closed spec fn editing(&self) -> bool {
        self.is_editing_path
    }

    /// An empty box in which nobody is typing.
    pub fn new() -> (path_box: PathBox)
        ensures
            path_box.text().len() == 0,
            !path_box.editing(),
    {
        PathBox { displayed_path: String::new(), is_editing_path: false }
    }

    /// Before the box is drawn: unless the user is typing, the box takes
    /// over `current_path`, so that a text that was typed and not accepted
    /// gives way to the directory that is shown.
    pub fn refresh(&mut self, current_path: String)
        ensures
            final(self).editing() == old(self).editing(),
            final(self).text() == if old(self).editing() {
                old(self).text()
            } else {
                current_path@
            },
    {
        if !self.is_editing_path {
            self.displayed_path = current_path;
        }
    }

    /// The text to draw in the box.
    pub fn displayed_path(&self) -> (text: &String)
        ensures
            text@ == self.text(),
    {
        &self.displayed_path
    }

    /// Whether the user is typing in the box.
    pub fn is_editing(&self) -> (editing: bool)
        ensures
            editing == self.editing(),
    {
        self.is_editing_path
    }

    /// After the box was drawn: `text` is what the box holds now, and
    /// `has_focus` whether it has the keyboard. The user is typing while the
    /// box has the focus. When the box loses the focus after the user typed,
    /// the text is handed out as the path to go to; at no other time is
    /// anything handed out.
    pub fn update(&mut self, text: String, has_focus: bool) -> (submitted: Option<String>)
        ensures
            final(self).text() == text@,
            final(self).editing() == has_focus,
            submitted is Some <==> old(self).editing() && !has_focus,
            submitted matches Some(path) ==> path@ == text@,
    {
        let submit = self.is_editing_path && !has_focus;
        self.is_editing_path = has_focus;
        if submit {
            self.displayed_path = text.clone();
            Some(text)
        } else {
            self.displayed_path = text;
            None
        }
    }
}

} // verus!
