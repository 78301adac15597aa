//! One rendered file: its header row with the expand and toggle boxes and
//! the path label, and its list of section views.

use vstd::prelude::*;
use vstd::string::StringExecFns;
use crate::keys::{ComponentId, FileKey, SelectionKey};
use crate::section::SectionView;
use crate::types::{spec_editable, Tristate};
use crate::widgets::TristateBox;

verus! {

/// One rendered file.
#[derive(Clone, Debug)]
pub struct FileView {
    pub debug: bool,
    pub file_key: FileKey,
    pub toggle_box: TristateBox<ComponentId>,
    pub expand_box: TristateBox<ComponentId>,
    pub is_header_selected: bool,
    pub old_path: Option<String>,
    pub path: String,
    pub section_views: Vec<SectionView>,
}

impl FileView {
    /// Whether the file is drawn expanded; a partially expanded file still
    /// counts as expanded.
    pub fn is_expanded(&self) -> (r: bool)
        ensures
            r == !(self.expand_box.tristate is False),
    {
        match self.expand_box.tristate {
            Tristate::False => false,
            Tristate::Partial | Tristate::True => true,
        }
    }

    /// The ledger identity of this file.
    pub fn id(&self) -> (r: ComponentId)
        ensures
            r == ComponentId::SelectableItem(SelectionKey::File(self.file_key)),
    {
        ComponentId::SelectableItem(SelectionKey::File(self.file_key))
    }
}

/// The header row of a file, as repainted for the sticky header.
#[derive(Clone, Debug)]
pub struct FileViewHeader {
    pub file_key: FileKey,
    pub path: String,
    pub old_path: Option<String>,
    pub is_selected: bool,
    pub toggle_box: TristateBox<ComponentId>,
    pub expand_box: TristateBox<ComponentId>,
}

/// The header's path label: `"{old_path} → {path}"` when the file was
/// renamed, the path alone otherwise.
pub open spec fn spec_path_label(old_path: Option<Seq<char>>, path: Seq<char>) -> Seq<char> {
    match old_path {
        Some(o) => o + " \u{2192} "@ + path,
        None => path,
    }
}

impl FileViewHeader {
    /// The ledger identity of this header.
    pub fn id(&self) -> (r: ComponentId)
        ensures
            r == ComponentId::FileViewHeader(self.file_key),
    {
        ComponentId::FileViewHeader(self.file_key)
    }

    /// The path label shown in the header, with the rename arrow when an
    /// old path is present.
    pub fn path_label(&self) -> (r: String)
        ensures
            r@ == spec_path_label(
                crate::types::view_of_opt_string(self.old_path),
                self.path@,
            ),
    {
        match &self.old_path {
            Some(o) => {
                let mut s = String::new();
                s.append(o.as_str());
                s.append(" \u{2192} ");
                s.append(self.path.as_str());
                proof {
                    assert(s@ =~= self.old_path->0@ + " \u{2192} "@ + self.path@);
                }
                s
            },
            None => self.path.clone(),
        }
    }
}

/// Whether a section view is drawn expanded and belongs to an editable
/// section.
pub open spec fn sv_expanded_editable(sv: SectionView) -> bool {
    !(sv.expand_box.tristate is False) && spec_editable(sv.section@)
}

/// Whether the section at `i` is drawn at all: an editable section always
/// is; a context section only when an adjacent editable section is
/// expanded, since its lines frame that section's changes.
pub open spec fn spec_section_shown(svs: Seq<SectionView>, i: int) -> bool {
    ||| spec_editable(svs[i].section@)
    ||| (i > 0 && sv_expanded_editable(svs[i - 1]))
    ||| (i + 1 < svs.len() && sv_expanded_editable(svs[i + 1]))
}

/// Whether one section view is drawn expanded and editable.
fn expanded_editable(sv: &SectionView) -> (r: bool)
    ensures
        r == sv_expanded_editable(*sv),
{
    sv.is_expanded() && sv.section.is_editable()
}

impl FileView {
    /// Which of the file's sections are drawn: a mask over
    /// `section_views`, one flag per section, per the skip rule for
    /// context sections with no expanded editable neighbour.
    pub fn section_visibility_mask(&self) -> (r: Vec<bool>)
        ensures
            r@.len() == self.section_views@.len(),
            forall|i: int|
                0 <= i < r@.len() ==> r@[i] == spec_section_shown(self.section_views@, i),
    {
        let n = self.section_views.len();
        let mut r: Vec<bool> = Vec::new();
        let mut i: usize = 0;
        while i < n
            invariant
                0 <= i <= n,
                n == self.section_views@.len(),
                r@.len() == i,
                forall|j: int|
                    0 <= j < i ==> r@[j] == spec_section_shown(self.section_views@, j),
            decreases n - i,
        {
            let own = self.section_views[i].section.is_editable();
            let prev = i > 0 && expanded_editable(&self.section_views[i - 1]);
            let next = i + 1 < n && expanded_editable(&self.section_views[i + 1]);
            r.push(own || prev || next);
            i += 1;
        }
        r
    }
}

} // verus!
