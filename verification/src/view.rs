//! Building the view tree: the application view with one commit view per
//! visible commit, file views with their section views, and the counters
//! (section numbering, line numbering) the headers display.

use vstd::prelude::*;
use crate::app::{spec_file_expanded, App};
use crate::commit::{CommitMessageView, CommitView};
use crate::file::FileView;
use crate::keys::{ComponentId, FileKey, SectionKey, SelectionKey};
use crate::render::DrawnRect;
use crate::section::{SectionSelection, SectionView};
use crate::types::{
    spec_editable, spec_file_tristate, spec_section_tristate, tri_of_bool, view_of_opt_string,
    LineModel, RecordModel, Section, SectionModel,
};
use crate::widgets::{CommitViewMode, HelpDialog, QuitDialog, TristateBox, TristateIconStyle};

verus! {

// ---------------------------------------------------------------------------
// The display counters.
// ---------------------------------------------------------------------------

/// How many of the first `n` lines are removals.
pub open spec fn count_removed(lines: Seq<LineModel>, n: int) -> int
    decreases n,
{
    if n <= 0 {
        0
    } else {
        count_removed(lines, n - 1) + (if lines[n - 1].change_type is Removed {
            1int
        } else {
            0int
        })
    }
}

/// How many old-file lines a section spans: all of a context section, the
/// removed lines of a hunk, nothing for a mode change or binary change.
pub open spec fn spec_section_line_count(s: SectionModel) -> int {
    match s {
        SectionModel::Unchanged { lines } => lines.len() as int,
        SectionModel::Changed { lines } => count_removed(lines, lines.len() as int),
        _ => 0,
    }
}

/// The one-based line number at which section `i` starts.
pub open spec fn spec_line_start(sections: Seq<SectionModel>, i: int) -> int
    decreases i,
{
    if i <= 0 {
        1
    } else {
        spec_line_start(sections, i - 1) + spec_section_line_count(sections[i - 1])
    }
}

/// How many of the first `n` sections are editable.
pub open spec fn count_editable(sections: Seq<SectionModel>, n: int) -> int
    decreases n,
{
    if n <= 0 {
        0
    } else {
        count_editable(sections, n - 1) + (if spec_editable(sections[n - 1]) {
            1int
        } else {
            0int
        })
    }
}

proof fn lemma_count_removed_bounds(lines: Seq<LineModel>, n: int)
    requires
        0 <= n <= lines.len(),
    ensures
        0 <= count_removed(lines, n) <= n,
    decreases n,
{
    if n > 0 {
        lemma_count_removed_bounds(lines, n - 1);
    }
}

proof fn lemma_section_line_count_nonneg(s: SectionModel)
    ensures
        spec_section_line_count(s) >= 0,
{
    match s {
        SectionModel::Changed { lines } => {
            lemma_count_removed_bounds(lines, lines.len() as int);
        },
        _ => {},
    }
}

/// Line starts grow with the section index.
pub proof fn lemma_line_start_monotonic(sections: Seq<SectionModel>, i: int, j: int)
    requires
        0 <= i <= j,
    ensures
        spec_line_start(sections, i) <= spec_line_start(sections, j),
    decreases j - i,
{
    if i < j {
        lemma_line_start_monotonic(sections, i, j - 1);
        lemma_section_line_count_nonneg(sections[j - 1]);
    }
}

proof fn lemma_count_editable_bounds(sections: Seq<SectionModel>, n: int)
    requires
        0 <= n,
    ensures
        0 <= count_editable(sections, n) <= n,
    decreases n,
{
    if n > 0 {
        lemma_count_editable_bounds(sections, n - 1);
    }
}

/// How many old-file lines a section spans.
fn section_line_count(s: &Section) -> (r: usize)
    ensures
        r == spec_section_line_count(s@),
{
    match s {
        Section::Unchanged { lines } => lines.len(),
        Section::Changed { lines } => {
            let mut count: usize = 0;
            let mut i: usize = 0;
            while i < lines.len()
                invariant
                    0 <= i <= lines@.len(),
                    count <= i,
                    count == count_removed(
                        crate::types::line_models(lines@),
                        i as int,
                    ),
                decreases lines@.len() - i,
            {
                let removed = match lines[i].change_type {
                    crate::types::ChangeType::Removed => true,
                    crate::types::ChangeType::Added => false,
                };
                if removed {
                    count += 1;
                }
                proof {
                    assert(crate::types::line_models(lines@)[i as int] == lines@[i as int]@);
                }
                i += 1;
            }
            count
        },
        _ => 0,
    }
}

// ---------------------------------------------------------------------------
// What a well-built view looks like.
// ---------------------------------------------------------------------------

/// The focus marker a section view carries: the header when the section
/// itself is selected, the line index when one of its lines is.
pub open spec fn spec_section_selection(sel: SelectionKey, skey: SectionKey) -> Option<
    SectionSelection,
> {
    match sel {
        SelectionKey::Section(s2) => if s2 == skey {
            Some(SectionSelection::SectionHeader)
        } else {
            None
        },
        SelectionKey::Line(lk) => if (SectionKey {
            commit_idx: lk.commit_idx,
            file_idx: lk.file_idx,
            section_idx: lk.section_idx,
        }) == skey {
            Some(SectionSelection::ChangedLine(lk.line_idx))
        } else {
            None
        },
        _ => None,
    }
}

/// What the section view at `(fi, si)` must hold.
pub open spec fn section_view_ok(
    sv: SectionView,
    m: RecordModel,
    exp: Set<SelectionKey>,
    sel: SelectionKey,
    commit_idx: usize,
    fi: int,
    si: int,
    is_read_only: bool,
) -> bool {
    let sections = m.files[fi].sections;
    let skey = SectionKey { commit_idx, file_idx: fi as usize, section_idx: si as usize };
    &&& sv.section_key == skey
    &&& sv.is_read_only == is_read_only
    &&& sv.toggle_box.id == ComponentId::ToggleBox(SelectionKey::Section(skey))
    &&& sv.toggle_box.icon_style is Check
    &&& sv.toggle_box.tristate == spec_section_tristate(sections[si])
    &&& sv.toggle_box.is_read_only == is_read_only
    &&& sv.expand_box.id == ComponentId::ExpandBox(SelectionKey::Section(skey))
    &&& sv.expand_box.icon_style is Expand
    &&& sv.expand_box.tristate == tri_of_bool(exp.contains(SelectionKey::Section(skey)))
    &&& !sv.expand_box.is_read_only
    &&& sv.selection == spec_section_selection(sel, skey)
    &&& sv.total_num_sections == sections.len()
    &&& sv.editable_section_num == count_editable(sections, si + 1)
    &&& sv.total_num_editable_sections == count_editable(sections, sections.len() as int)
    &&& sv.section@ == sections[si]
    &&& sv.line_start_num == spec_line_start(sections, si)
}

/// What the file view at `fi` must hold.
pub open spec fn file_view_ok(
    fv: FileView,
    m: RecordModel,
    exp: Set<SelectionKey>,
    sel: SelectionKey,
    commit_idx: usize,
    fi: int,
    is_read_only: bool,
    debug: bool,
) -> bool {
    let fkey = FileKey { commit_idx, file_idx: fi as usize };
    &&& fv.debug == debug
    &&& fv.file_key == fkey
    &&& fv.toggle_box.id == ComponentId::ToggleBox(SelectionKey::File(fkey))
    &&& fv.toggle_box.icon_style is Check
    &&& fv.toggle_box.tristate == spec_file_tristate(m.files[fi])
    &&& fv.toggle_box.is_read_only == is_read_only
    &&& fv.expand_box.id == ComponentId::ExpandBox(SelectionKey::File(fkey))
    &&& fv.expand_box.icon_style is Expand
    &&& fv.expand_box.tristate == spec_file_expanded(m, exp, fkey)
    &&& !fv.expand_box.is_read_only
    &&& fv.is_header_selected == (sel == SelectionKey::File(fkey))
    &&& view_of_opt_string(fv.old_path) == m.files[fi].old_path
    &&& fv.path@ == m.files[fi].path
    &&& fv.section_views@.len() == m.files[fi].sections.len()
    &&& forall|si: int|
        0 <= si < m.files[fi].sections.len() ==> section_view_ok(
            #[trigger] fv.section_views@[si],
            m,
            exp,
            sel,
            commit_idx,
            fi,
            si,
            is_read_only,
        )
}

/// Every file's line numbering fits in a machine word.
pub open spec fn line_numbers_fit(m: RecordModel) -> bool {
    forall|fi: int|
        0 <= fi < m.files.len() ==> spec_line_start(
            (#[trigger] m.files[fi]).sections,
            m.files[fi].sections.len() as int,
        ) <= usize::MAX
}

// ---------------------------------------------------------------------------
// The top-level view values.
// ---------------------------------------------------------------------------

/// A snapshot of layout state, rendered by the debug overlay.
#[derive(Clone, Debug)]
pub struct AppDebugInfo {
    pub term_height: usize,
    pub scroll_offset_y: isize,
    pub selection_key: SelectionKey,
    pub selection_key_y: Option<isize>,
    pub drawn_rects: Vec<(ComponentId, DrawnRect)>,
}

/// The whole frame: the commit views side by side or inline, and whichever
/// dialog is open on top.
#[derive(Clone, Debug)]
pub struct AppView {
    pub debug_info: Option<AppDebugInfo>,
    pub commit_view_mode: CommitViewMode,
    pub commit_views: Vec<CommitView>,
    pub help_dialog: Option<HelpDialog>,
    pub quit_dialog: Option<QuitDialog>,
}

/// What the commit view for commit `ci` must hold.
pub open spec fn commit_view_ok(
    cv: CommitView,
    m: RecordModel,
    exp: Set<SelectionKey>,
    sel: SelectionKey,
    ci: usize,
    is_read_only: bool,
    debug: bool,
) -> bool {
    &&& cv.commit_message_view.commit_idx == ci
    &&& cv.commit_message_view.commit@ == m.commits[ci as int]
    &&& cv.file_views@.len() == m.files.len()
    &&& forall|fi: int|
        0 <= fi < m.files.len() ==> file_view_ok(
            #[trigger] cv.file_views@[fi],
            m,
            exp,
            sel,
            ci,
            fi,
            is_read_only,
            debug,
        )
}

impl App {
    /// Builds the file views of one commit column: one view per file, in
    /// order, with the boxes, focus marks and counters the headers show.
    pub fn make_file_views(&self, commit_idx: usize, debug: bool) -> (r: Vec<FileView>)
        requires
            line_numbers_fit(self.state@),
        ensures
            r@.len() == self.state@.files.len(),
            forall|fi: int|
                0 <= fi < self.state@.files.len() ==> file_view_ok(
                    #[trigger] r@[fi],
                    self.state@,
                    self.ui.expanded_items@,
                    self.ui.selection_key,
                    commit_idx,
                    fi,
                    self.state@.is_read_only,
                    debug,
                ),
    {
        let is_read_only = self.state.is_read_only;
        let sel = self.ui.selection_key;
        let mut result: Vec<FileView> = Vec::new();
        let nf = self.state.files.len();
        let mut fi: usize = 0;
        while fi < nf
            invariant
                0 <= fi <= nf,
                nf == self.state@.files.len(),
                is_read_only == self.state@.is_read_only,
                sel == self.ui.selection_key,
                line_numbers_fit(self.state@),
                result@.len() == fi,
                forall|j: int|
                    0 <= j < fi ==> file_view_ok(
                        #[trigger] result@[j],
                        self.state@,
                        self.ui.expanded_items@,
                        self.ui.selection_key,
                        commit_idx,
                        j,
                        self.state@.is_read_only,
                        debug,
                    ),
            decreases nf - fi,
        {
            let fv = self.make_one_file_view(commit_idx, fi, debug);
            result.push(fv);
            fi += 1;
        }
        result
    }

    /// Builds the view of one file.
    fn make_one_file_view(&self, commit_idx: usize, fi: usize, debug: bool) -> (r: FileView)
        requires
            fi < self.state@.files.len(),
            line_numbers_fit(self.state@),
        ensures
            file_view_ok(
                r,
                self.state@,
                self.ui.expanded_items@,
                self.ui.selection_key,
                commit_idx,
                fi as int,
                self.state@.is_read_only,
                debug,
            ),
    {
        let is_read_only = self.state.is_read_only;
        let sel = self.ui.selection_key;
        let file_key = FileKey { commit_idx, file_idx: fi };
        let file_toggled = self.state.files[fi].tristate();
        let file_expanded = self.file_expanded(file_key);
        let is_focused = match sel {
            SelectionKey::File(selected) => file_key == selected,
            _ => false,
        };
        let sections = &self.state.files[fi].sections;
        let ghost smods = crate::types::section_models(sections@);
        let total_num_sections = sections.len();
        let total_num_editable_sections = {
            let mut count: usize = 0;
            let mut i: usize = 0;
            while i < sections.len()
                invariant
                    0 <= i <= sections@.len(),
                    smods == crate::types::section_models(sections@),
                    count <= i,
                    count == count_editable(smods, i as int),
                decreases sections@.len() - i,
            {
                if sections[i].is_editable() {
                    count += 1;
                }
                proof {
                    assert(smods[i as int] == sections@[i as int]@);
                }
                i += 1;
            }
            count
        };
        let mut section_views: Vec<SectionView> = Vec::new();
        let mut line_num: usize = 1;
        let mut editable_section_num: usize = 0;
        let mut si: usize = 0;
        while si < sections.len()
            invariant
                0 <= si <= sections@.len(),
                smods == crate::types::section_models(sections@),
                fi < self.state@.files.len(),
                smods == self.state@.files[fi as int].sections,
                is_read_only == self.state@.is_read_only,
                sel == self.ui.selection_key,
                line_numbers_fit(self.state@),
                total_num_sections == sections@.len(),
                total_num_editable_sections == count_editable(smods, smods.len() as int),
                editable_section_num <= si,
                editable_section_num == count_editable(smods, si as int),
                line_num == spec_line_start(smods, si as int),
                section_views@.len() == si,
                forall|j: int|
                    0 <= j < si ==> section_view_ok(
                        #[trigger] section_views@[j],
                        self.state@,
                        self.ui.expanded_items@,
                        self.ui.selection_key,
                        commit_idx,
                        fi as int,
                        j,
                        self.state@.is_read_only,
                    ),
            decreases sections@.len() - si,
        {
            proof {
                assert(smods[si as int] == sections@[si as int]@);
            }
            let section_key = SectionKey { commit_idx, file_idx: fi, section_idx: si };
            let section_toggled = sections[si].tristate();
            let section_expanded = crate::types::Tristate::from_bool(
                self.ui.expanded_items.contains(SelectionKey::Section(section_key)),
            );
            if sections[si].is_editable() {
                editable_section_num += 1;
            }
            let selection = match sel {
                SelectionKey::Section(selected) => {
                    if selected == section_key {
                        Some(SectionSelection::SectionHeader)
                    } else {
                        None
                    }
                },
                SelectionKey::Line(lk) => {
                    let selected = SectionKey {
                        commit_idx: lk.commit_idx,
                        file_idx: lk.file_idx,
                        section_idx: lk.section_idx,
                    };
                    if selected == section_key {
                        Some(SectionSelection::ChangedLine(lk.line_idx))
                    } else {
                        None
                    }
                },
                _ => None,
            };
            let sv = SectionView {
                is_read_only,
                section_key,
                toggle_box: TristateBox {
                    id: ComponentId::ToggleBox(SelectionKey::Section(section_key)),
                    tristate: section_toggled,
                    icon_style: TristateIconStyle::Check,
                    is_read_only,
                },
                expand_box: TristateBox {
                    id: ComponentId::ExpandBox(SelectionKey::Section(section_key)),
                    tristate: section_expanded,
                    icon_style: TristateIconStyle::Expand,
                    is_read_only: false,
                },
                selection,
                total_num_sections,
                editable_section_num,
                total_num_editable_sections,
                section: sections[si].clone(),
                line_start_num: line_num,
            };
            section_views.push(sv);
            let count = section_line_count(&sections[si]);
            proof {
                lemma_line_start_monotonic(smods, si + 1, smods.len() as int);
                lemma_line_start_monotonic(smods, 0, si as int);
                lemma_section_line_count_nonneg(smods[si as int]);
            }
            line_num = line_num + count;
            si += 1;
        }
        FileView {
            debug,
            file_key,
            toggle_box: TristateBox {
                id: ComponentId::ToggleBox(SelectionKey::File(file_key)),
                tristate: file_toggled,
                icon_style: TristateIconStyle::Check,
                is_read_only,
            },
            expand_box: TristateBox {
                id: ComponentId::ExpandBox(SelectionKey::File(file_key)),
                tristate: file_expanded,
                icon_style: TristateIconStyle::Expand,
                is_read_only: false,
            },
            is_header_selected: is_focused,
            old_path: crate::types::clone_opt_string(&self.state.files[fi].old_path),
            path: self.state.files[fi].path.clone(),
            section_views,
        }
    }

    /// Builds the frame: one commit view of the focused commit inline, or
    /// one per commit side by side, with whichever dialog is open.
    pub fn view(&self, debug_info: Option<AppDebugInfo>) -> (r: AppView)
        requires
            line_numbers_fit(self.state@),
            self.ui.focused_commit_idx < self.state@.commits.len(),
        ensures
            r.debug_info is None,
            r.commit_view_mode == self.ui.commit_view_mode,
            r.help_dialog == self.ui.help_dialog,
            r.quit_dialog == self.ui.quit_dialog,
            ({
                let m = self.state@;
                let exp = self.ui.expanded_items@;
                let sel = self.ui.selection_key;
                let debug = debug_info is Some;
                match self.ui.commit_view_mode {
                    CommitViewMode::Inline => r.commit_views@.len() == 1 && commit_view_ok(
                        r.commit_views@[0],
                        m,
                        exp,
                        sel,
                        self.ui.focused_commit_idx,
                        m.is_read_only,
                        debug,
                    ),
                    CommitViewMode::Adjacent => r.commit_views@.len() == m.commits.len()
                        && forall|ci: int|
                        0 <= ci < m.commits.len() ==> commit_view_ok(
                            #[trigger] r.commit_views@[ci],
                            m,
                            exp,
                            sel,
                            ci as usize,
                            m.is_read_only,
                            debug,
                        ),
                }
            }),
    {
        let debug = debug_info.is_some();
        let mut commit_views: Vec<CommitView> = Vec::new();
        match self.ui.commit_view_mode {
            CommitViewMode::Inline => {
                let ci = self.ui.focused_commit_idx;
                let cv = CommitView {
                    commit_message_view: CommitMessageView {
                        commit_idx: ci,
                        commit: self.state.commits[ci].clone(),
                    },
                    file_views: self.make_file_views(ci, debug),
                };
                commit_views.push(cv);
                proof {
                    assert(crate::types::commit_models(self.state.commits@)[ci as int]
                        == self.state.commits@[ci as int]@);
                }
            },
            CommitViewMode::Adjacent => {
                let nc = self.state.commits.len();
                let mut ci: usize = 0;
                while ci < nc
                    invariant
                        0 <= ci <= nc,
                        nc == self.state@.commits.len(),
                        line_numbers_fit(self.state@),
                        commit_views@.len() == ci,
                        forall|j: int|
                            0 <= j < ci ==> commit_view_ok(
                                #[trigger] commit_views@[j],
                                self.state@,
                                self.ui.expanded_items@,
                                self.ui.selection_key,
                                j as usize,
                                self.state@.is_read_only,
                                debug,
                            ),
                    decreases nc - ci,
                {
                    let cv = CommitView {
                        commit_message_view: CommitMessageView {
                            commit_idx: ci,
                            commit: self.state.commits[ci].clone(),
                        },
                        file_views: self.make_file_views(ci, debug),
                    };
                    commit_views.push(cv);
                    proof {
                        assert(crate::types::commit_models(self.state.commits@)[ci as int]
                            == self.state.commits@[ci as int]@);
                    }
                    ci += 1;
                }
            },
        }
        AppView {
            debug_info: None,
            commit_view_mode: self.ui.commit_view_mode,
            commit_views,
            help_dialog: self.ui.help_dialog,
            quit_dialog: self.ui.quit_dialog,
        }
    }
}

impl App {
    /// Whether every file's line numbering fits in a machine word, which
    /// `view` and `make_file_views` require.  A caller that cannot know
    /// this tests it here first.
    pub fn check_line_numbers_fit(&self) -> (r: bool)
        ensures
            r == line_numbers_fit(self.state@),
    {
        let nf = self.state.files.len();
        let mut fi: usize = 0;
        while fi < nf
            invariant
                0 <= fi <= nf,
                nf == self.state@.files.len(),
                forall|j: int|
                    0 <= j < fi ==> spec_line_start(
                        (#[trigger] self.state@.files[j]).sections,
                        self.state@.files[j].sections.len() as int,
                    ) <= usize::MAX,
            decreases nf - fi,
        {
            let sections = &self.state.files[fi].sections;
            let ghost smods = crate::types::section_models(sections@);
            let ns = sections.len();
            let mut acc: usize = 1;
            let mut si: usize = 0;
            while si < ns
                invariant
                    0 <= si <= ns,
                    ns == sections@.len(),
                    smods == crate::types::section_models(sections@),
                    fi < self.state@.files.len(),
                    smods == self.state@.files[fi as int].sections,
                    acc == spec_line_start(smods, si as int),
                decreases ns - si,
            {
                proof {
                    assert(smods[si as int] == sections@[si as int]@);
                }
                let count = section_line_count(&sections[si]);
                if count > usize::MAX - acc {
                    proof {
                        lemma_line_start_monotonic(smods, si + 1, smods.len() as int);
                    }
                    return false;
                }
                acc = acc + count;
                si += 1;
            }
            fi += 1;
        }
        true
    }
}

} // verus!
