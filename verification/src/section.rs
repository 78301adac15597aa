//! One rendered section: its header widgets and, for a context section,
//! the window of lines that is actually shown around the ellipsis.

use vstd::prelude::*;
use crate::keys::{ComponentId, LineKey, SectionKey, SelectionKey};
use crate::line::{SectionLineView, SectionLineViewInner};
use crate::types::{tri_of_bool, LineModel, Section, SectionModel, Tristate};
use crate::widgets::{TristateBox, TristateIconStyle};

verus! {

/// How many context lines are shown before and after the ellipsis of an
/// unchanged section.
pub const NUM_CONTEXT_LINES: usize = 12;

/// Which part of a section holds the focus.
#[derive(Clone, Copy, Debug, PartialEq, Eq, Structural)]
pub enum SectionSelection {
    SectionHeader,
    ChangedLine(usize),
}

/// One rendered section.
#[derive(Clone, Debug)]
pub struct SectionView {
    pub is_read_only: bool,
    pub section_key: SectionKey,
    pub toggle_box: TristateBox<ComponentId>,
    pub expand_box: TristateBox<ComponentId>,
    pub selection: Option<SectionSelection>,
    pub total_num_sections: usize,
    pub editable_section_num: usize,
    pub total_num_editable_sections: usize,
    pub section: Section,
    pub line_start_num: usize,
}

impl SectionView {
    /// Whether the section is drawn expanded; a partially expanded
    /// container still counts as expanded.
    pub fn is_expanded(&self) -> (r: bool)
        ensures
            r == !(self.expand_box.tristate is False),
    {
        match self.expand_box.tristate {
            Tristate::False => false,
            Tristate::Partial => true,
            Tristate::True => true,
        }
    }
}

/// The number of context lines shown on each side: at most
/// `NUM_CONTEXT_LINES`.
pub open spec fn context_count(n: int) -> int {
    if n < 12 {
        n
    } else {
        12
    }
}

/// Whether the leading and trailing windows of an unchanged section touch
/// or overlap, so that the whole section is shown without an ellipsis.
/// Only a middle section merges; the first and last sections elide their
/// outer side instead.
pub open spec fn spec_window_merged(section_idx: int, total: int, n: int) -> bool {
    &&& n > 0
    &&& context_count(n) - 1 + 1 >= n - context_count(n)
    &&& section_idx != 0
    &&& section_idx + 1 != total
}

/// The ascending line indices `lo`, `lo + 1`, ..., `lo + n - 1`.
pub open spec fn index_range(lo: int, n: int) -> Seq<usize> {
    Seq::new(
        if n >= 0 {
            n as nat
        } else {
            0
        },
        |i: int| (lo + i) as usize,
    )
}

/// The indices of the leading window: the whole section when the windows
/// merge; nothing for a first section, whose leading context is elided.
pub open spec fn spec_window_before(section_idx: int, total: int, n: int) -> Seq<usize> {
    if spec_window_merged(section_idx, total, n) {
        index_range(0, n)
    } else if section_idx != 0 {
        index_range(0, context_count(n))
    } else {
        Seq::empty()
    }
}

/// Whether an ellipsis row is shown between the windows.
pub open spec fn spec_window_ellipsis(section_idx: int, total: int, n: int) -> bool {
    if spec_window_merged(section_idx, total, n) {
        false
    } else {
        n > 12
    }
}

/// The indices of the trailing window; nothing when the windows merge or
/// for a last section, whose trailing context is elided.
pub open spec fn spec_window_after(section_idx: int, total: int, n: int) -> Seq<usize> {
    if spec_window_merged(section_idx, total, n) {
        Seq::empty()
    } else if section_idx + 1 != total {
        index_range(n - context_count(n), context_count(n))
    } else {
        Seq::empty()
    }
}

/// The window of an unchanged section that is actually rendered: a leading
/// block, an optional ellipsis row, and a trailing block.
pub struct UnchangedWindow {
    pub before: Vec<usize>,
    pub show_ellipsis: bool,
    pub after: Vec<usize>,
}

/// The ascending indices `lo`, ..., `lo + n - 1` as a vector.
fn build_index_range(lo: usize, n: usize) -> (r: Vec<usize>)
    requires
        lo + n <= usize::MAX,
    ensures
        r@ == index_range(lo as int, n as int),
{
    let mut r: Vec<usize> = Vec::new();
    let mut i: usize = 0;
    while i < n
        invariant
            0 <= i <= n,
            lo + n <= usize::MAX,
            r@.len() == i,
            forall|j: int| 0 <= j < i ==> #[trigger] r@[j] == (lo + j) as usize,
        decreases n - i,
    {
        r.push(lo + i);
        i += 1;
    }
    proof {
        assert(r@ =~= index_range(lo as int, n as int));
    }
    r
}

/// Computes which lines of an unchanged section are rendered: the leading
/// `NUM_CONTEXT_LINES` (elided for the first section), an ellipsis when
/// lines are hidden, and the trailing `NUM_CONTEXT_LINES` (elided for the
/// last section); a middle section whose windows touch is shown whole.
pub fn unchanged_window(section_idx: usize, total_num_sections: usize, num_lines: usize) -> (r:
    UnchangedWindow)
    requires
        section_idx < total_num_sections,
    ensures
        r.before@ == spec_window_before(
            section_idx as int,
            total_num_sections as int,
            num_lines as int,
        ),
        r.show_ellipsis == spec_window_ellipsis(
            section_idx as int,
            total_num_sections as int,
            num_lines as int,
        ),
        r.after@ == spec_window_after(
            section_idx as int,
            total_num_sections as int,
            num_lines as int,
        ),
{
    let n = num_lines;
    let ctx = if n < NUM_CONTEXT_LINES {
        n
    } else {
        NUM_CONTEXT_LINES
    };
    let is_first = section_idx == 0;
    let is_last = section_idx + 1 == total_num_sections;
    let merged = n > 0 && ctx >= n - ctx && !is_first && !is_last;
    if merged {
        UnchangedWindow {
            before: build_index_range(0, n),
            show_ellipsis: false,
            after: Vec::new(),
        }
    } else {
        let before = if !is_first {
            build_index_range(0, ctx)
        } else {
            Vec::new()
        };
        let after = if !is_last {
            build_index_range(n - ctx, ctx)
        } else {
            Vec::new()
        };
        UnchangedWindow { before, show_ellipsis: n > NUM_CONTEXT_LINES, after }
    }
}

/// A middle unchanged section with at most `NUM_CONTEXT_LINES` lines is
/// rendered whole: every line index appears, in order, with no ellipsis.
pub proof fn lemma_small_middle_section_shows_all(section_idx: int, total: int, n: int)
    requires
        0 < n <= 12,
        0 < section_idx,
        section_idx + 1 < total,
    ensures
        spec_window_before(section_idx, total, n) == index_range(0, n),
        spec_window_before(section_idx, total, n).len() == n,
        forall|j: int| 0 <= j < n ==> spec_window_before(section_idx, total, n)[j] == j as usize,
        !spec_window_ellipsis(section_idx, total, n),
        spec_window_after(section_idx, total, n) == Seq::<usize>::empty(),
{
    assert(spec_window_merged(section_idx, total, n));
}

impl SectionView {
    /// The ledger identity of this section.
    pub fn id(&self) -> (r: ComponentId)
        ensures
            r == ComponentId::SelectableItem(SelectionKey::Section(self.section_key)),
    {
        ComponentId::SelectableItem(SelectionKey::Section(self.section_key))
    }
}

/// What the view of changed line `i` must hold.
pub open spec fn changed_line_view_ok(
    v: SectionLineView,
    skey: SectionKey,
    lines: Seq<LineModel>,
    i: int,
    is_read_only: bool,
) -> bool {
    let lk = LineKey {
        commit_idx: skey.commit_idx,
        file_idx: skey.file_idx,
        section_idx: skey.section_idx,
        line_idx: i as usize,
    };
    &&& v.line_key == lk
    &&& match v.inner {
        SectionLineViewInner::Changed { toggle_box, change_type, line } => {
            &&& toggle_box.id == ComponentId::ToggleBox(SelectionKey::Line(lk))
            &&& toggle_box.icon_style is Check
            &&& toggle_box.tristate == tri_of_bool(lines[i].is_checked)
            &&& toggle_box.is_read_only == is_read_only
            &&& change_type == lines[i].change_type
            &&& line@ == lines[i].line
        },
        _ => false,
    }
}

/// What the view of context line `idx` must hold.
pub open spec fn unchanged_line_view_ok(
    v: SectionLineView,
    skey: SectionKey,
    lines: Seq<Seq<char>>,
    idx: int,
    line_start_num: usize,
) -> bool {
    &&& v.line_key == (LineKey {
        commit_idx: skey.commit_idx,
        file_idx: skey.file_idx,
        section_idx: skey.section_idx,
        line_idx: idx as usize,
    })
    &&& match v.inner {
        SectionLineViewInner::Unchanged { line, line_num } => {
            &&& line@ == lines[idx]
            &&& line_num == line_start_num + idx
        },
        _ => false,
    }
}

impl SectionView {
    /// The line views this section renders: one per changed line of a
    /// hunk; the windowed context lines, numbered from the section's first
    /// line, of an unchanged section; nothing for a mode change or binary
    /// change, whose single row is their header.
    pub fn line_views(&self) -> (r: Vec<SectionLineView>)
        requires
            self.line_start_num + (match self.section@ {
                SectionModel::Unchanged { lines } => lines.len() as int,
                _ => 0,
            }) <= usize::MAX,
            self.section_key.section_idx < self.total_num_sections,
        ensures
            match self.section@ {
                SectionModel::Changed { lines } => r@.len() == lines.len() && forall|i: int|
                    0 <= i < lines.len() ==> changed_line_view_ok(
                        #[trigger] r@[i],
                        self.section_key,
                        lines,
                        i,
                        self.is_read_only,
                    ),
                SectionModel::Unchanged { lines } => ({
                    let before = spec_window_before(
                        self.section_key.section_idx as int,
                        self.total_num_sections as int,
                        lines.len() as int,
                    );
                    let after = spec_window_after(
                        self.section_key.section_idx as int,
                        self.total_num_sections as int,
                        lines.len() as int,
                    );
                    &&& r@.len() == before.len() + after.len()
                    &&& forall|k: int|
                        0 <= k < r@.len() ==> unchanged_line_view_ok(
                            #[trigger] r@[k],
                            self.section_key,
                            lines,
                            (if k < before.len() {
                                before[k]
                            } else {
                                after[k - before.len()]
                            }) as int,
                            self.line_start_num,
                        )
                }),
                _ => r@.len() == 0,
            },
    {
        let mut r: Vec<SectionLineView> = Vec::new();
        match &self.section {
            Section::Changed { lines } => {
                let ghost lmods = crate::types::line_models(lines@);
                let mut i: usize = 0;
                while i < lines.len()
                    invariant
                        0 <= i <= lines@.len(),
                        lmods == crate::types::line_models(lines@),
                        r@.len() == i,
                        forall|j: int|
                            0 <= j < i ==> changed_line_view_ok(
                                #[trigger] r@[j],
                                self.section_key,
                                lmods,
                                j,
                                self.is_read_only,
                            ),
                    decreases lines@.len() - i,
                {
                    proof {
                        assert(lmods[i as int] == lines@[i as int]@);
                    }
                    let line_key = LineKey {
                        commit_idx: self.section_key.commit_idx,
                        file_idx: self.section_key.file_idx,
                        section_idx: self.section_key.section_idx,
                        line_idx: i,
                    };
                    let view = SectionLineView {
                        line_key,
                        inner: SectionLineViewInner::Changed {
                            toggle_box: TristateBox {
                                id: ComponentId::ToggleBox(SelectionKey::Line(line_key)),
                                tristate: Tristate::from_bool(lines[i].is_checked),
                                icon_style: TristateIconStyle::Check,
                                is_read_only: self.is_read_only,
                            },
                            change_type: lines[i].change_type,
                            line: lines[i].line.clone(),
                        },
                    };
                    r.push(view);
                    i += 1;
                }
            },
            Section::Unchanged { lines } => {
                let ghost smods = crate::types::string_views(lines@);
                let window = unchanged_window(
                    self.section_key.section_idx,
                    self.total_num_sections,
                    lines.len(),
                );
                let ghost before = window.before@;
                let ghost after = window.after@;
                let mut k: usize = 0;
                while k < window.before.len()
                    invariant
                        0 <= k <= before.len(),
                        before == window.before@,
                        smods == crate::types::string_views(lines@),
                        before == spec_window_before(
                            self.section_key.section_idx as int,
                            self.total_num_sections as int,
                            lines@.len() as int,
                        ),
                        self.line_start_num + lines@.len() <= usize::MAX,
                        forall|j: int| 0 <= j < before.len() ==> 0 <= #[trigger] before[j]
                            < lines@.len(),
                        r@.len() == k,
                        forall|j: int|
                            0 <= j < k ==> unchanged_line_view_ok(
                                #[trigger] r@[j],
                                self.section_key,
                                smods,
                                before[j] as int,
                                self.line_start_num,
                            ),
                    decreases before.len() - k,
                {
                    let idx = window.before[k];
                    let view = SectionLineView {
                        line_key: LineKey {
                            commit_idx: self.section_key.commit_idx,
                            file_idx: self.section_key.file_idx,
                            section_idx: self.section_key.section_idx,
                            line_idx: idx,
                        },
                        inner: SectionLineViewInner::Unchanged {
                            line: lines[idx].clone(),
                            line_num: self.line_start_num + idx,
                        },
                    };
                    r.push(view);
                    k += 1;
                }
                let mut k2: usize = 0;
                while k2 < window.after.len()
                    invariant
                        0 <= k2 <= after.len(),
                        before == window.before@,
                        after == window.after@,
                        smods == crate::types::string_views(lines@),
                        before == spec_window_before(
                            self.section_key.section_idx as int,
                            self.total_num_sections as int,
                            lines@.len() as int,
                        ),
                        after == spec_window_after(
                            self.section_key.section_idx as int,
                            self.total_num_sections as int,
                            lines@.len() as int,
                        ),
                        self.line_start_num + lines@.len() <= usize::MAX,
                        forall|j: int| 0 <= j < after.len() ==> 0 <= #[trigger] after[j]
                            < lines@.len(),
                        r@.len() == before.len() + k2,
                        forall|j: int|
                            0 <= j < r@.len() ==> unchanged_line_view_ok(
                                #[trigger] r@[j],
                                self.section_key,
                                smods,
                                (if j < before.len() {
                                    before[j]
                                } else {
                                    after[j - before.len()]
                                }) as int,
                                self.line_start_num,
                            ),
                    decreases after.len() - k2,
                {
                    let idx = window.after[k2];
                    let view = SectionLineView {
                        line_key: LineKey {
                            commit_idx: self.section_key.commit_idx,
                            file_idx: self.section_key.file_idx,
                            section_idx: self.section_key.section_idx,
                            line_idx: idx,
                        },
                        inner: SectionLineViewInner::Unchanged {
                            line: lines[idx].clone(),
                            line_num: self.line_start_num + idx,
                        },
                    };
                    r.push(view);
                    k2 += 1;
                }
            },
            _ => {},
        }
        r
    }
}

} // verus!
