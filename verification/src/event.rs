//! The engine's input alphabet.  The caller maps key presses to these
//! events; the reducer consumes them.

use vstd::prelude::*;
use crate::input::TestingScreenshot;

verus! {

/// One user-level input event.
#[derive(Clone, Debug, Eq, PartialEq)]
pub enum Event {
    Nothing,
    QuitAccept,
    QuitCancel,
    QuitInterrupt,
    QuitEscape,
    TakeScreenshot(TestingScreenshot),
    Redraw,
    EnsureSelectionInViewport,
    ScrollUp,
    ScrollDown,
    PageUp,
    PageDown,
    FocusPrev,
    /// Move focus to the previous item of the same kind (file, section or
    /// line).
    FocusPrevSameKind,
    FocusPrevPage,
    FocusNext,
    /// Move focus to the next item of the same kind.
    FocusNextSameKind,
    FocusNextPage,
    FocusInner,
    /// If `fold_section` is set and the current section is expanded, the
    /// section is collapsed without moving focus; otherwise focus moves
    /// outwards.
    FocusOuter { fold_section: bool },
    ToggleItem,
    ToggleItemAndAdvance,
    ToggleAll,
    ToggleAllUniform,
    ExpandItem,
    ExpandAll,
    ToggleCommitViewMode,
    EditCommitMessage,
    Help,
}

} // verus!
