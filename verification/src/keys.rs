//! Compact identifiers for files, sections and lines, the selection key,
//! and the component identifiers used by the drawn-rectangle ledger.

use vstd::prelude::*;
use crate::widgets::QuitDialogButtonId;

verus! {

/// Identifies one file of one commit.
#[derive(Clone, Copy, Debug, Eq, Hash, PartialEq, PartialOrd, Ord, Structural)]
pub struct FileKey {
    pub commit_idx: usize,
    pub file_idx: usize,
}

/// Identifies one section of one file.
#[derive(Clone, Copy, Debug, Eq, Hash, PartialEq, PartialOrd, Ord, Structural)]
pub struct SectionKey {
    pub commit_idx: usize,
    pub file_idx: usize,
    pub section_idx: usize,
}

/// Identifies one changed line of one section.
#[derive(Clone, Copy, Debug, Eq, Hash, PartialEq, PartialOrd, Ord, Structural)]
pub struct LineKey {
    pub commit_idx: usize,
    pub file_idx: usize,
    pub section_idx: usize,
    pub line_idx: usize,
}

/// The focused item: nothing, a file, a section, or a line.
#[derive(Clone, Copy, Debug, Eq, Hash, PartialEq, PartialOrd, Ord, Structural)]
pub enum SelectionKey {
    Nothing,
    File(FileKey),
    Section(SectionKey),
    Line(LineKey),
}

impl Default for SelectionKey {
    fn default() -> (r: Self)
        ensures
            r == SelectionKey::Nothing,
    {
        Self::Nothing
    }
}

/// Stable identity of a rendered component in the drawn-rectangle ledger.
#[derive(Clone, Copy, Debug, Eq, Hash, PartialEq, PartialOrd, Ord, Structural)]
pub enum ComponentId {
    App,
    AppFiles,
    CommitMessageView,
    CommitEditMessageButton(usize),
    FileViewHeader(FileKey),
    SelectableItem(SelectionKey),
    ToggleBox(SelectionKey),
    ExpandBox(SelectionKey),
    QuitDialog,
    QuitDialogButton(QuitDialogButtonId),
    HelpDialog,
    HelpDialogQuitButton,
}

} // verus!
