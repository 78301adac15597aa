//! Test instrumentation values shared between the engine and its callers.

use vstd::prelude::*;

verus! {

/// A capture of the contents of the screen at a certain point in time.
/// When the recorder handles a screenshot event it collects the handle in
/// its `screenshots` list; a rendering driver then fills the handle in
/// with its view of the frame, and the caller reads it back from there.
#[derive(Debug, Default, Eq, PartialEq)]
pub struct TestingScreenshot {
    pub contents: Option<String>,
}

impl Clone for TestingScreenshot {
    fn clone(&self) -> (r: Self)
        ensures
            crate::types::view_of_opt_string(r.contents) == crate::types::view_of_opt_string(
                self.contents,
            ),
    {
        TestingScreenshot { contents: crate::types::clone_opt_string(&self.contents) }
    }
}

impl TestingScreenshot {
    /// Stores the captured screen contents.
    pub fn set(&mut self, new_contents: String)
        ensures
            final(self).contents == Some(new_contents),
    {
        self.contents = Some(new_contents);
    }

    /// Produce an `Event` which, when handled, makes the recorder collect
    /// this handle's copy in its `screenshots` list for the renderer to
    /// fill in.
    pub fn event(&self) -> (r: crate::event::Event)
        ensures
            r is TakeScreenshot,
    {
        crate::event::Event::TakeScreenshot(self.clone())
    }
}

/// The terminal backend to drive.
#[derive(Clone, Copy, Debug, PartialEq, Eq, Structural)]
pub enum TerminalKind {
    /// A real terminal driven by an external backend.
    Crossterm,
    /// A virtual terminal of the given size, for tests.
    Testing { width: usize, height: usize },
}

} // verus!
