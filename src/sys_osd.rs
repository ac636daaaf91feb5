//! The on-screen display: one line of status text.
use vstd::prelude::*;

verus! {

/// Holds the status line that the renderer shows.
pub struct Osd {
    pub text: String,
}

impl Osd {
    pub fn new() -> (r: Self)
        ensures
            r.text@ == "OSD Placeholder"@,
    {
        Osd { text: "OSD Placeholder".to_owned() }
    }

    /// Replaces the status line.
    pub fn set_text(&mut self, text: &str)
        ensures
            final(self).text@ == text@,
    {
        self.text = text.to_owned();
    }
}

} // verus!
