//! The application core: the record state together with the UI state, the
//! canonical enumeration of selectable keys, visibility, navigation, the
//! toggle plumbing and the event reducer.

use vstd::prelude::*;
use crate::keys::{ComponentId, FileKey, LineKey, SectionKey, SelectionKey};
use crate::render::{rect_of, rect_wf, DrawnRect, DrawnRects};
use crate::event::Event;
use crate::types::{
    file_models, spec_file_set_checked, spec_file_toggle, spec_file_toggle_line,
    spec_file_toggle_section, spec_file_tristate, spec_section_tristate, tri_join, Commit,
    CommitModel, FileModel, RecordError, RecordModel, RecordState, Section, SectionModel,
    Tristate,
};
use crate::widgets::{CommitViewMode, HelpDialog, QuitDialog, QuitDialogButtonId};
use crate::input::TestingScreenshot;

verus! {

// ---------------------------------------------------------------------------
// A small set of selection keys, used for the expansion state.
// ---------------------------------------------------------------------------

/// Whether a vector of keys holds `k`.
fn vec_contains_key(keys: &Vec<SelectionKey>, k: SelectionKey) -> (r: bool)
    ensures
        r == keys@.contains(k),
{
    let mut j: usize = 0;
    while j < keys.len()
        invariant
            0 <= j <= keys@.len(),
            forall|w: int| 0 <= w < j ==> keys@[w] != k,
        decreases keys@.len() - j,
    {
        if keys[j] == k {
            return true;
        }
        j += 1;
    }
    false
}

/// The set of keys a sequence holds.
pub open spec fn seq_key_set(keys: Seq<SelectionKey>) -> Set<SelectionKey> {
    Set::new(|k: SelectionKey| keys.contains(k))
}

/// A set of selection keys, backed by a duplicate-free vector.
#[derive(Clone, Debug)]
pub struct KeySet {
    pub items: Vec<SelectionKey>,
}

impl View for KeySet {
    type V = Set<SelectionKey>;

    open spec fn view(&self) -> Set<SelectionKey> {
        seq_key_set(self.items@)
    }
}

impl KeySet {
    /// No key is stored twice.
    pub open spec fn wf(&self) -> bool {
        forall|i: int, j: int|
            0 <= i < j < self.items@.len() ==> #[trigger] self.items@[i] != #[trigger] self.items@[j]
    }

    /// The empty set.
    pub fn new() -> (r: Self)
        ensures
            r.wf(),
            r@ == Set::<SelectionKey>::empty(),
    {
        let r = KeySet { items: Vec::new() };
        proof {
            assert(r@ =~= Set::<SelectionKey>::empty());
        }
        r
    }

    /// Membership.
    pub fn contains(&self, k: SelectionKey) -> (r: bool)
        ensures
            r == self@.contains(k),
    {
        let mut i: usize = 0;
        while i < self.items.len()
            invariant
                0 <= i <= self.items@.len(),
                forall|j: int| 0 <= j < i ==> self.items@[j] != k,
            decreases self.items@.len() - i,
        {
            if self.items[i] == k {
                return true;
            }
            i += 1;
        }
        false
    }

    /// Inserts a key; returns whether it was new.
    pub fn insert(&mut self, k: SelectionKey) -> (newly: bool)
        requires
            old(self).wf(),
        ensures
            final(self).wf(),
            final(self)@ == old(self)@.insert(k),
            newly == !old(self)@.contains(k),
    {
        if self.contains(k) {
            proof {
                assert(final(self)@ =~= old(self)@.insert(k));
            }
            false
        } else {
            self.items.push(k);
            proof {
                assert(forall|j: int|
                    0 <= j < old(self).items@.len() ==> self.items@[j] == old(self).items@[j]);
                assert(self.items@[old(self).items@.len() as int] == k);
                assert forall|x: SelectionKey| self.items@.contains(x) implies old(self).items@.contains(x) || x == k by {
                    let w = choose|w: int| 0 <= w < self.items@.len() && self.items@[w] == x;
                    if w < old(self).items@.len() {
                        assert(old(self).items@[w] == x);
                    }
                }
                assert(final(self)@ =~= old(self)@.insert(k));
            }
            true
        }
    }

    /// Removes a key if present.
    pub fn remove(&mut self, k: SelectionKey)
        requires
            old(self).wf(),
        ensures
            final(self).wf(),
            final(self)@ == old(self)@.remove(k),
    {
        let ghost all = old(self).items@;
        let mut i: usize = 0;
        while i < self.items.len()
            invariant
                0 <= i <= all.len(),
                all == self.items@,
                all == old(self).items@,
                old(self).wf(),
                forall|j: int| 0 <= j < i ==> all[j] != k,
            decreases all.len() - i,
        {
            if self.items[i] == k {
                self.items.remove(i);
                proof {
                    assert(self.items@.len() == all.len() - 1) by {
                        assert(all.subrange(0, i as int).len() == i);
                        assert(all.subrange(i + 1, all.len() as int).len() == all.len() - i - 1);
                    }
                    assert forall|j: int| 0 <= j < self.items@.len() implies #[trigger] self.items@[j] == (
                    if j < i {
                        all[j]
                    } else {
                        all[j + 1]
                    }) by {
                        if j < i {
                            assert(all.subrange(0, i as int)[j] == all[j]);
                        } else {
                            assert(all.subrange(i + 1, all.len() as int)[j - i] == all[j + 1]);
                        }
                    }
                    assert forall|p: int, q: int|
                        0 <= p < q < self.items@.len() implies #[trigger] self.items@[p] != (
                    #[trigger] self.items@[q]) by {
                        let p0 = if p < i { p } else { p + 1 };
                        let q0 = if q < i { q } else { q + 1 };
                        assert(self.items@[p] == all[p0]);
                        assert(self.items@[q] == all[q0]);
                        assert(old(self).items@[p0] != old(self).items@[q0]);
                    }
                    assert forall|x: SelectionKey| self.items@.contains(x) implies all.contains(x)
                        && x != k by {
                        let w = choose|w: int|
                            0 <= w < self.items@.len() && #[trigger] self.items@[w] == x;
                        let w0 = if w < i { w } else { w + 1 };
                        assert(all[w0] == x);
                        assert(old(self).items@[w0] == x);
                        assert(old(self).items@[i as int] == k);
                        assert(old(self).items@[w0] != old(self).items@[i as int] || w0 == i);
                    }
                    assert forall|x: SelectionKey| all.contains(x) && x != k implies self.items@
                        .contains(x) by {
                        let w = choose|w: int| 0 <= w < all.len() && all[w] == x;
                        if w < i {
                            assert(self.items@[w] == x);
                        } else if w > i {
                            assert(self.items@[w - 1] == x);
                        }
                    }
                    assert(final(self)@ =~= old(self)@.remove(k));
                }
                return ;
            }
            i += 1;
        }
        proof {
            assert(!all.contains(k));
            assert(final(self)@ =~= old(self)@.remove(k));
        }
    }

    /// Builds a set from a sequence of keys, dropping duplicates.
    pub fn from_keys(keys: &Vec<SelectionKey>) -> (r: Self)
        ensures
            r.wf(),
            r@ == seq_key_set(keys@),
    {
        let mut r = KeySet::new();
        let mut i: usize = 0;
        while i < keys.len()
            invariant
                0 <= i <= keys@.len(),
                r.wf(),
                r@ == seq_key_set(keys@.take(i as int)),
            decreases keys@.len() - i,
        {
            r.insert(keys[i]);
            proof {
                assert forall|x: SelectionKey| keys@.take(i + 1).contains(x) implies keys@.take(
                    i as int,
                ).contains(x) || x == keys@[i as int] by {
                    let w = choose|w: int| 0 <= w < i + 1 && #[trigger] keys@.take(i + 1)[w] == x;
                    if w < i {
                        assert(keys@.take(i as int)[w] == x);
                    }
                }
                assert forall|x: SelectionKey|
                    keys@.take(i as int).contains(x) || x == keys@[i as int] implies keys@.take(
                    i + 1,
                ).contains(x) by {
                    if x == keys@[i as int] {
                        assert(keys@.take(i + 1)[i as int] == x);
                    } else {
                        let w = choose|w: int|
                            0 <= w < i && #[trigger] keys@.take(i as int)[w] == x;
                        assert(keys@.take(i + 1)[w] == x);
                    }
                }
                assert(r@ =~= seq_key_set(keys@.take(i + 1)));
            }
            i += 1;
        }
        proof {
            assert(keys@.take(keys@.len() as int) =~= keys@);
            assert(r@ =~= seq_key_set(keys@));
        }
        r
    }

    /// Whether every key of `keys` is in the set.
    pub fn contains_all(&self, keys: &Vec<SelectionKey>) -> (r: bool)
        ensures
            r == forall|j: int| 0 <= j < keys@.len() ==> self@.contains(#[trigger] keys@[j]),
    {
        let mut i: usize = 0;
        while i < keys.len()
            invariant
                0 <= i <= keys@.len(),
                forall|j: int| 0 <= j < i ==> self@.contains(#[trigger] keys@[j]),
            decreases keys@.len() - i,
        {
            if !self.contains(keys[i]) {
                return false;
            }
            i += 1;
        }
        true
    }

    /// Whether every stored key occurs in `keys`.
    pub fn within(&self, keys: &Vec<SelectionKey>) -> (r: bool)
        ensures
            r == forall|j: int| 0 <= j < self.items@.len() ==> keys@.contains(
                #[trigger] self.items@[j],
            ),
    {
        let mut i: usize = 0;
        while i < self.items.len()
            invariant
                0 <= i <= self.items@.len(),
                forall|j: int| 0 <= j < i ==> keys@.contains(#[trigger] self.items@[j]),
            decreases self.items@.len() - i,
        {
            if !vec_contains_key(keys, self.items[i]) {
                return false;
            }
            i += 1;
        }
        true
    }
}

// ---------------------------------------------------------------------------
// The canonical enumeration of selectable keys.
// ---------------------------------------------------------------------------

/// The keys one section contributes, in draw order: nothing for context
/// lines; the section itself, then each line, for a changed hunk; just the
/// section for a mode change or binary change.
pub open spec fn section_entry_keys(s: SectionModel, file_idx: int, section_idx: int) -> Seq<
    SelectionKey,
> {
    match s {
        SectionModel::Unchanged { .. } => Seq::empty(),
        SectionModel::Changed { lines } => seq![
            SelectionKey::Section(
                SectionKey {
                    commit_idx: 0,
                    file_idx: file_idx as usize,
                    section_idx: section_idx as usize,
                },
            ),
        ] + line_keys(file_idx, section_idx, lines.len() as int),
        SectionModel::FileMode { .. } | SectionModel::Binary { .. } => seq![
            SelectionKey::Section(
                SectionKey {
                    commit_idx: 0,
                    file_idx: file_idx as usize,
                    section_idx: section_idx as usize,
                },
            ),
        ],
    }
}

/// The line keys of one changed hunk.
pub open spec fn line_keys(file_idx: int, section_idx: int, n: int) -> Seq<SelectionKey> {
    Seq::new(
        if n >= 0 {
            n as nat
        } else {
            0
        },
        |i: int| SelectionKey::Line(
            LineKey {
                commit_idx: 0,
                file_idx: file_idx as usize,
                section_idx: section_idx as usize,
                line_idx: i as usize,
            },
        ),
    )
}

/// The keys the first `n` sections of a file contribute.
pub open spec fn sections_keys(sections: Seq<SectionModel>, file_idx: int, n: int) -> Seq<
    SelectionKey,
>
    decreases n,
{
    if n <= 0 {
        Seq::empty()
    } else {
        sections_keys(sections, file_idx, n - 1) + section_entry_keys(
            sections[n - 1],
            file_idx,
            n - 1,
        )
    }
}

/// The keys one file contributes: the file itself, then its sections.
pub open spec fn file_entry_keys(f: FileModel, file_idx: int) -> Seq<SelectionKey> {
    seq![SelectionKey::File(FileKey { commit_idx: 0, file_idx: file_idx as usize })]
        + sections_keys(f.sections, file_idx, f.sections.len() as int)
}

/// The keys the first `n` files contribute.
pub open spec fn files_keys(files: Seq<FileModel>, n: int) -> Seq<SelectionKey>
    decreases n,
{
    if n <= 0 {
        Seq::empty()
    } else {
        files_keys(files, n - 1) + file_entry_keys(files[n - 1], n - 1)
    }
}

/// The canonical enumeration of every selectable key, in draw order.  Only
/// the first commit contributes: further commits are reserved for the
/// adjacent view and do not widen the selection space.
pub open spec fn spec_all_keys(m: RecordModel) -> Seq<SelectionKey> {
    if m.commits.len() == 0 {
        Seq::empty()
    } else {
        files_keys(m.files, m.files.len() as int)
    }
}

/// The keys one section contributes, as a vector.
fn section_keys_of(s: &Section, file_idx: usize, section_idx: usize) -> (r: Vec<SelectionKey>)
    ensures
        r@ == section_entry_keys(s@, file_idx as int, section_idx as int),
{
    match s {
        Section::Unchanged { .. } => {
            let r: Vec<SelectionKey> = Vec::new();
            proof {
                assert(r@ =~= section_entry_keys(s@, file_idx as int, section_idx as int));
            }
            r
        },
        Section::Changed { lines } => {
            let mut r: Vec<SelectionKey> = Vec::new();
            r.push(
                SelectionKey::Section(SectionKey { commit_idx: 0, file_idx, section_idx }),
            );
            let n = lines.len();
            let mut li: usize = 0;
            while li < n
                invariant
                    0 <= li <= n,
                    r@ =~= seq![
                        SelectionKey::Section(
                            SectionKey { commit_idx: 0, file_idx, section_idx },
                        ),
                    ] + line_keys(file_idx as int, section_idx as int, li as int),
                decreases n - li,
            {
                r.push(
                    SelectionKey::Line(
                        LineKey { commit_idx: 0, file_idx, section_idx, line_idx: li },
                    ),
                );
                proof {
                    assert(r@ =~= seq![
                        SelectionKey::Section(
                            SectionKey { commit_idx: 0, file_idx, section_idx },
                        ),
                    ] + line_keys(file_idx as int, section_idx as int, li + 1));
                }
                li += 1;
            }
            proof {
                assert(r@ =~= section_entry_keys(s@, file_idx as int, section_idx as int));
            }
            r
        },
        Section::FileMode { .. } | Section::Binary { .. } => {
            let mut r: Vec<SelectionKey> = Vec::new();
            r.push(
                SelectionKey::Section(SectionKey { commit_idx: 0, file_idx, section_idx }),
            );
            proof {
                assert(r@ =~= section_entry_keys(s@, file_idx as int, section_idx as int));
            }
            r
        },
    }
}

// ---------------------------------------------------------------------------
// Visibility.
// ---------------------------------------------------------------------------

/// Whether a key is currently visible: files always are; a section is
/// visible when its file is expanded; a line when both its file and its
/// section are.
pub open spec fn spec_is_visible(k: SelectionKey, expanded: Set<SelectionKey>) -> bool {
    match k {
        SelectionKey::Nothing => false,
        SelectionKey::File(_) => true,
        SelectionKey::Section(sk) => expanded.contains(
            SelectionKey::File(FileKey { commit_idx: sk.commit_idx, file_idx: sk.file_idx }),
        ),
        SelectionKey::Line(lk) => expanded.contains(
            SelectionKey::File(FileKey { commit_idx: lk.commit_idx, file_idx: lk.file_idx }),
        ) && expanded.contains(
            SelectionKey::Section(
                SectionKey {
                    commit_idx: lk.commit_idx,
                    file_idx: lk.file_idx,
                    section_idx: lk.section_idx,
                },
            ),
        ),
    }
}

/// The visible keys among the first `n` of `keys`, in order.
pub open spec fn visible_prefix(
    keys: Seq<SelectionKey>,
    expanded: Set<SelectionKey>,
    n: int,
) -> Seq<SelectionKey>
    decreases n,
{
    if n <= 0 {
        Seq::empty()
    } else {
        visible_prefix(keys, expanded, n - 1) + (if spec_is_visible(keys[n - 1], expanded) {
            seq![keys[n - 1]]
        } else {
            Seq::empty()
        })
    }
}

/// The visible subset of the canonical enumeration.
pub open spec fn spec_visible_keys(m: RecordModel, expanded: Set<SelectionKey>) -> Seq<
    SelectionKey,
> {
    visible_prefix(spec_all_keys(m), expanded, spec_all_keys(m).len() as int)
}

/// Every key of a visible prefix satisfies the visibility predicate.
pub proof fn lemma_visible_prefix_visible(
    keys: Seq<SelectionKey>,
    expanded: Set<SelectionKey>,
    n: int,
)
    requires
        n <= keys.len(),
    ensures
        forall|i: int|
            0 <= i < visible_prefix(keys, expanded, n).len() ==> spec_is_visible(
                #[trigger] visible_prefix(keys, expanded, n)[i],
                expanded,
            ),
    decreases n,
{
    if n > 0 {
        lemma_visible_prefix_visible(keys, expanded, n - 1);
        let pre = visible_prefix(keys, expanded, n - 1);
        let cur = visible_prefix(keys, expanded, n);
        assert forall|i: int| 0 <= i < cur.len() implies spec_is_visible(
            #[trigger] cur[i],
            expanded,
        ) by {
            if i < pre.len() {
                assert(cur[i] == pre[i]);
            } else {
                assert(cur[i] == keys[n - 1]);
            }
        }
    }
}

/// Whether `k` is visible under the expansion set.
fn is_key_visible(expanded: &KeySet, k: SelectionKey) -> (r: bool)
    ensures
        r == spec_is_visible(k, expanded@),
{
    match k {
        SelectionKey::Nothing => false,
        SelectionKey::File(_) => true,
        SelectionKey::Section(sk) => expanded.contains(
            SelectionKey::File(FileKey { commit_idx: sk.commit_idx, file_idx: sk.file_idx }),
        ),
        SelectionKey::Line(lk) => {
            let file_visible = expanded.contains(
                SelectionKey::File(FileKey { commit_idx: lk.commit_idx, file_idx: lk.file_idx }),
            );
            let section_visible = expanded.contains(
                SelectionKey::Section(
                    SectionKey {
                        commit_idx: lk.commit_idx,
                        file_idx: lk.file_idx,
                        section_idx: lk.section_idx,
                    },
                ),
            );
            file_visible && section_visible
        },
    }
}

// ---------------------------------------------------------------------------
// The application state.
// ---------------------------------------------------------------------------

/// The ephemeral UI state: what is selected, what is expanded, which dialog
/// is open, and how far the view is scrolled.
#[derive(Clone, Debug)]
pub struct UiState {
    pub commit_view_mode: CommitViewMode,
    pub expanded_items: KeySet,
    pub selection_key: SelectionKey,
    pub focused_commit_idx: usize,
    pub help_dialog: Option<HelpDialog>,
    pub quit_dialog: Option<QuitDialog>,
    pub scroll_offset_y: isize,
}

/// The record state under review together with the UI state, and the logic
/// that updates both in response to events.
#[derive(Debug)]
pub struct App {
    pub state: RecordState,
    pub ui: UiState,
}

/// One engine action computed by the reducer and applied by the driver.
#[derive(Clone, Debug, PartialEq)]
pub enum StateUpdate {
    Nothing,
    QuitAccept,
    QuitCancel,
    SetQuitDialog(Option<QuitDialog>),
    SetHelpDialog(Option<HelpDialog>),
    TakeScreenshot(TestingScreenshot),
    Redraw,
    EnsureSelectionInViewport,
    ScrollTo(isize),
    SelectItem { selection_key: SelectionKey, ensure_in_viewport: bool },
    ToggleItem(SelectionKey),
    ToggleItemAndAdvance(SelectionKey, SelectionKey),
    ToggleAll,
    ToggleAllUniform,
    SetExpandItem(SelectionKey, bool),
    ToggleExpandItem(SelectionKey),
    ToggleExpandAll,
    ToggleCommitViewMode,
    EditCommitMessage { commit_idx: usize },
}

/// The first selectable key: the first file, or nothing.
pub open spec fn spec_first_key(m: RecordModel, focused_commit_idx: usize) -> SelectionKey {
    if m.files.len() > 0 {
        SelectionKey::File(FileKey { commit_idx: focused_commit_idx, file_idx: 0 })
    } else {
        SelectionKey::Nothing
    }
}

/// The index of the first occurrence of `k`, if any.
pub open spec fn first_index_of(keys: Seq<SelectionKey>, k: SelectionKey) -> Option<int>
    decreases keys.len(),
{
    if keys.len() == 0 {
        None
    } else if keys[0] == k {
        Some(0)
    } else {
        match first_index_of(keys.drop_first(), k) {
            None => None,
            Some(i) => Some(i + 1),
        }
    }
}

/// What `first_index_of` returns: the position of the first occurrence.
pub proof fn lemma_first_index_props(keys: Seq<SelectionKey>, k: SelectionKey)
    ensures
        match first_index_of(keys, k) {
            None => forall|j: int| 0 <= j < keys.len() ==> keys[j] != k,
            Some(i) => 0 <= i < keys.len() && keys[i] == k && forall|j: int|
                0 <= j < i ==> keys[j] != k,
        },
    decreases keys.len(),
{
    if keys.len() > 0 && keys[0] != k {
        lemma_first_index_props(keys.drop_first(), k);
        let rest = keys.drop_first();
        match first_index_of(rest, k) {
            None => {
                assert forall|j: int| 0 <= j < keys.len() implies keys[j] != k by {
                    if j > 0 {
                        assert(rest[j - 1] == keys[j]);
                    }
                }
            },
            Some(i) => {
                assert(rest[i] == keys[i + 1]);
                assert forall|j: int| 0 <= j < i + 1 implies keys[j] != k by {
                    if j > 0 {
                        assert(rest[j - 1] == keys[j]);
                    }
                }
            },
        }
    }
}

/// The converse: a witness at `x` with nothing earlier pins the index.
pub proof fn lemma_first_index_witness(keys: Seq<SelectionKey>, k: SelectionKey, x: int)
    requires
        0 <= x < keys.len(),
        keys[x] == k,
        forall|j: int| 0 <= j < x ==> keys[j] != k,
    ensures
        first_index_of(keys, k) == Some(x),
    decreases keys.len(),
{
    if x > 0 {
        assert(forall|j: int|
            0 <= j < keys.len() - 1 ==> #[trigger] keys.drop_first()[j] == keys[j + 1]);
        lemma_first_index_witness(keys.drop_first(), k, x - 1);
    }
}

/// No occurrence means no index.
pub proof fn lemma_first_index_absent(keys: Seq<SelectionKey>, k: SelectionKey)
    requires
        forall|j: int| 0 <= j < keys.len() ==> keys[j] != k,
    ensures
        first_index_of(keys, k) == None::<int>,
    decreases keys.len(),
{
    if keys.len() > 0 {
        assert(forall|j: int|
            0 <= j < keys.len() - 1 ==> #[trigger] keys.drop_first()[j] == keys[j + 1]);
        lemma_first_index_absent(keys.drop_first(), k);
    }
}

/// An `Option<int>` index as an `Option<usize>`.
pub open spec fn spec_opt_usize(i: Option<int>) -> Option<usize> {
    match i {
        None => None,
        Some(x) => Some(x as usize),
    }
}

/// Whether two keys are of the same kind (both files, both sections, ...).
pub open spec fn same_kind(a: SelectionKey, b: SelectionKey) -> bool {
    match (a, b) {
        (SelectionKey::Nothing, SelectionKey::Nothing) => true,
        (SelectionKey::File(_), SelectionKey::File(_)) => true,
        (SelectionKey::Section(_), SelectionKey::Section(_)) => true,
        (SelectionKey::Line(_), SelectionKey::Line(_)) => true,
        _ => false,
    }
}

/// Scanning backwards from just before `i` for a key of `cur`'s kind;
/// `cur` itself when there is none.
pub open spec fn scan_prev_same_kind(keys: Seq<SelectionKey>, i: int, cur: SelectionKey) -> (
    SelectionKey)
    decreases i,
{
    if i <= 0 {
        cur
    } else if same_kind(keys[i - 1], cur) {
        keys[i - 1]
    } else {
        scan_prev_same_kind(keys, i - 1, cur)
    }
}

/// Scanning forwards from `j` for a key of `cur`'s kind; `cur` itself when
/// there is none.
pub open spec fn scan_next_same_kind(keys: Seq<SelectionKey>, j: int, cur: SelectionKey) -> (
    SelectionKey)
    decreases keys.len() - j,
{
    if j < 0 || j >= keys.len() {
        cur
    } else if same_kind(keys[j], cur) {
        keys[j]
    } else {
        scan_next_same_kind(keys, j + 1, cur)
    }
}

/// Whether `next` is one level deeper than `cur`: a section under a file,
/// or a line under a section.
pub open spec fn inner_pred(cur: SelectionKey, next: SelectionKey) -> bool {
    match (cur, next) {
        (SelectionKey::Nothing, SelectionKey::Nothing) => false,
        (SelectionKey::Nothing, _) => true,
        (SelectionKey::File(_), SelectionKey::Section(_)) => true,
        (SelectionKey::Section(_), SelectionKey::Line(_)) => true,
        _ => false,
    }
}

/// Scanning forwards from `j` for a key one level deeper than `cur`; `cur`
/// itself when there is none.
pub open spec fn scan_inner(keys: Seq<SelectionKey>, j: int, cur: SelectionKey) -> SelectionKey
    decreases keys.len() - j,
{
    if j < 0 || j >= keys.len() {
        cur
    } else if inner_pred(cur, keys[j]) {
        keys[j]
    } else {
        scan_inner(keys, j + 1, cur)
    }
}

impl App {
    /// The structural invariant of the application state: the expansion set
    /// holds no duplicates and the scroll offset stays in the range the
    /// scroll arithmetic needs.
    pub open spec fn wf(&self) -> bool {
        &&& self.ui.expanded_items.wf()
        &&& -0x4000_0000 <= self.ui.scroll_offset_y <= 0x4000_0000
    }

    /// The first selectable key: the first file, or nothing.
    pub fn first_selection_key(&self) -> (r: SelectionKey)
        ensures
            r == spec_first_key(self.state@, self.ui.focused_commit_idx),
    {
        if self.state.files.len() > 0 {
            SelectionKey::File(
                FileKey { commit_idx: self.ui.focused_commit_idx, file_idx: 0 },
            )
        } else {
            SelectionKey::Nothing
        }
    }

    /// The canonical enumeration of every selectable key, in draw order.
    pub fn all_selection_keys(&self) -> (r: Vec<SelectionKey>)
        ensures
            r@ == spec_all_keys(self.state@),
    {
        let mut result: Vec<SelectionKey> = Vec::new();
        if self.state.commits.len() == 0 {
            proof {
                assert(result@ =~= spec_all_keys(self.state@));
            }
            return result;
        }
        let nf = self.state.files.len();
        let ghost fmods = file_models(self.state.files@);
        let mut fi: usize = 0;
        while fi < nf
            invariant
                0 <= fi <= nf,
                nf == self.state.files@.len(),
                fmods == file_models(self.state.files@),
                self.state.commits@.len() > 0,
                result@ == files_keys(fmods, fi as int),
            decreases nf - fi,
        {
            result.push(SelectionKey::File(FileKey { commit_idx: 0, file_idx: fi }));
            let ghost base = files_keys(fmods, fi as int) + seq![
                SelectionKey::File(FileKey { commit_idx: 0, file_idx: fi }),
            ];
            let ns = self.state.files[fi].sections.len();
            let mut si: usize = 0;
            proof {
                assert(result@ =~= base + sections_keys(
                    fmods[fi as int].sections,
                    fi as int,
                    0,
                ));
            }
            while si < ns
                invariant
                    0 <= si <= ns,
                    fi < nf,
                    nf == self.state.files@.len(),
                    ns == self.state.files@[fi as int].sections@.len(),
                    fmods == file_models(self.state.files@),
                    base == files_keys(fmods, fi as int) + seq![
                        SelectionKey::File(FileKey { commit_idx: 0, file_idx: fi }),
                    ],
                    result@ == base + sections_keys(
                        fmods[fi as int].sections,
                        fi as int,
                        si as int,
                    ),
                decreases ns - si,
            {
                let mut ks = section_keys_of(&self.state.files[fi].sections[si], fi, si);
                result.append(&mut ks);
                proof {
                    assert(fmods[fi as int].sections[si as int] == self.state.files@[fi as int]
                        .sections@[si as int]@);
                    assert(result@ =~= base + sections_keys(
                        fmods[fi as int].sections,
                        fi as int,
                        si + 1,
                    ));
                }
                si += 1;
            }
            proof {
                assert(fmods[fi as int].sections.len() == ns);
                assert(result@ =~= files_keys(fmods, fi + 1));
            }
            fi += 1;
        }
        proof {
            assert(result@ =~= spec_all_keys(self.state@));
        }
        result
    }

    /// The visible keys in order, and the position of the current selection
    /// among them, if it is visible.
    pub fn find_selection(&self) -> (r: (Vec<SelectionKey>, Option<usize>))
        ensures
            r.0@ == spec_visible_keys(self.state@, self.ui.expanded_items@),
            r.1 == spec_opt_usize(first_index_of(r.0@, self.ui.selection_key)),
    {
        let all = self.all_selection_keys();
        let ghost exp = self.ui.expanded_items@;
        let sel = self.ui.selection_key;
        let mut visible: Vec<SelectionKey> = Vec::new();
        let mut index: Option<usize> = None;
        let mut i: usize = 0;
        while i < all.len()
            invariant
                0 <= i <= all@.len(),
                exp == self.ui.expanded_items@,
                sel == self.ui.selection_key,
                visible@ == visible_prefix(all@, exp, i as int),
                match index {
                    Some(x) => x < visible@.len() && visible@[x as int] == sel && forall|j: int|
                        0 <= j < x ==> visible@[j] != sel,
                    None => forall|j: int| 0 <= j < visible@.len() ==> visible@[j] != sel,
                },
            decreases all@.len() - i,
        {
            let k = all[i];
            if is_key_visible(&self.ui.expanded_items, k) {
                if index.is_none() && k == sel {
                    index = Some(visible.len());
                }
                visible.push(k);
                proof {
                    assert(visible@ =~= visible_prefix(all@, exp, i + 1));
                }
            } else {
                proof {
                    assert(visible@ =~= visible_prefix(all@, exp, i + 1));
                }
            }
            i += 1;
        }
        proof {
            match index {
                Some(x) => lemma_first_index_witness(visible@, sel, x as int),
                None => lemma_first_index_absent(visible@, sel),
            }
        }
        (visible, index)
    }

    /// One step backwards in the visible list; the first file when the
    /// selection is not visible; unchanged at the top.
    pub fn select_prev(&self, keys: &Vec<SelectionKey>, index: Option<usize>) -> (r: SelectionKey)
        requires
            match index {
                Some(i) => i < keys@.len(),
                None => true,
            },
        ensures
            r == match index {
                None => spec_first_key(self.state@, self.ui.focused_commit_idx),
                Some(i) => if i > 0 {
                    keys@[i - 1]
                } else {
                    keys@[i as int]
                },
            },
    {
        match index {
            None => self.first_selection_key(),
            Some(index) => {
                if index > 0 {
                    keys[index - 1]
                } else {
                    keys[index]
                }
            },
        }
    }

    /// One step forwards in the visible list; the first file when the
    /// selection is not visible; unchanged at the end.
    pub fn select_next(&self, keys: &Vec<SelectionKey>, index: Option<usize>) -> (r: SelectionKey)
        requires
            match index {
                Some(i) => i < keys@.len(),
                None => true,
            },
        ensures
            r == match index {
                None => spec_first_key(self.state@, self.ui.focused_commit_idx),
                Some(i) => if i + 1 < keys@.len() {
                    keys@[i + 1]
                } else {
                    keys@[i as int]
                },
            },
    {
        match index {
            None => self.first_selection_key(),
            Some(index) => {
                let n = keys.len();
                if index + 1 < n {
                    keys[index + 1]
                } else {
                    keys[index]
                }
            },
        }
    }

    /// The nearest visible key of the current kind, scanning backwards or
    /// forwards; the current key when there is none, and the first file
    /// when the selection is not visible.
    pub fn select_prev_or_next_of_same_kind(&self, select_previous: bool) -> (r: SelectionKey)
        ensures
            ({
                let keys = spec_visible_keys(self.state@, self.ui.expanded_items@);
                match first_index_of(keys, self.ui.selection_key) {
                    None => r == spec_first_key(self.state@, self.ui.focused_commit_idx),
                    Some(i) => r == if select_previous {
                        scan_prev_same_kind(keys, i, self.ui.selection_key)
                    } else {
                        scan_next_same_kind(keys, i + 1, self.ui.selection_key)
                    },
                }
            }),
    {
        let (keys, index) = self.find_selection();
        let sel = self.ui.selection_key;
        match index {
            None => self.first_selection_key(),
            Some(index) => {
                proof {
                    lemma_first_index_props(keys@, sel);
                    assert(index < keys@.len());
                }
                if select_previous {
                    let mut i: usize = index;
                    while i > 0
                        invariant
                            select_previous,
                            0 <= i <= index < keys@.len(),
                            sel == self.ui.selection_key,
                            keys@ == spec_visible_keys(self.state@, self.ui.expanded_items@),
                            first_index_of(keys@, sel) == Some(index as int),
                            scan_prev_same_kind(keys@, index as int, sel) == scan_prev_same_kind(
                                keys@,
                                i as int,
                                sel,
                            ),
                        decreases i,
                    {
                        if same_kind_exec(keys[i - 1], sel) {
                            proof {
                                assert(scan_prev_same_kind(keys@, i as int, sel) == keys@[
                                    i - 1
                                ]);
                            }
                            return keys[i - 1];
                        }
                        i -= 1;
                    }
                    sel
                } else {
                    let mut j: usize = index + 1;
                    while j < keys.len()
                        invariant
                            !select_previous,
                            index < j <= keys@.len(),
                            index < keys@.len(),
                            sel == self.ui.selection_key,
                            keys@ == spec_visible_keys(self.state@, self.ui.expanded_items@),
                            first_index_of(keys@, sel) == Some(index as int),
                            scan_next_same_kind(keys@, index + 1, sel) == scan_next_same_kind(
                                keys@,
                                j as int,
                                sel,
                            ),
                        decreases keys@.len() - j,
                    {
                        if same_kind_exec(keys[j], sel) {
                            proof {
                                assert(scan_next_same_kind(keys@, j as int, sel) == keys@[
                                    j as int
                                ]);
                            }
                            return keys[j];
                        }
                        j += 1;
                    }
                    sel
                }
            },
        }
    }

    /// The next key one level deeper than the current one, scanning the
    /// canonical list; the current key when there is none.
    pub fn select_inner(&self) -> (r: SelectionKey)
        ensures
            ({
                let all = spec_all_keys(self.state@);
                match first_index_of(all, self.ui.selection_key) {
                    None => r == self.ui.selection_key,
                    Some(i) => r == scan_inner(all, i + 1, self.ui.selection_key),
                }
            }),
    {
        let all = self.all_selection_keys();
        let sel = self.ui.selection_key;
        // Find the current position.
        let mut pos: Option<usize> = None;
        let mut i: usize = 0;
        while i < all.len() && pos.is_none()
            invariant
                0 <= i <= all@.len(),
                sel == self.ui.selection_key,
                match pos {
                    Some(p) => p < i && all@[p as int] == sel && forall|j: int|
                        0 <= j < p ==> all@[j] != sel,
                    None => forall|j: int| 0 <= j < i ==> all@[j] != sel,
                },
            decreases all@.len() - i,
        {
            if all[i] == sel {
                pos = Some(i);
            }
            i += 1;
        }
        match pos {
            None => {
                proof {
                    lemma_first_index_absent(all@, sel);
                }
                sel
            },
            Some(p) => {
                proof {
                    lemma_first_index_witness(all@, sel, p as int);
                    assert(p < all@.len());
                }
                let mut j: usize = p + 1;
                while j < all.len()
                    invariant
                        p < j <= all@.len(),
                        p < all@.len(),
                        sel == self.ui.selection_key,
                        all@ == spec_all_keys(self.state@),
                        first_index_of(all@, sel) == Some(p as int),
                        scan_inner(all@, p + 1, sel) == scan_inner(all@, j as int, sel),
                    decreases all@.len() - j,
                {
                    if inner_pred_exec(sel, all[j]) {
                        return all[j];
                    }
                    j += 1;
                }
                sel
            },
        }
    }

    /// Focus outwards: collapse a file; collapse an expanded section when
    /// folding is requested, otherwise select its file; select a line's
    /// section.
    pub fn select_outer(&self, fold_section: bool) -> (r: StateUpdate)
        ensures
            r == match self.ui.selection_key {
                SelectionKey::Nothing => StateUpdate::Nothing,
                SelectionKey::File(_) => StateUpdate::SetExpandItem(
                    self.ui.selection_key,
                    false,
                ),
                SelectionKey::Section(sk) => {
                    if fold_section && self.ui.expanded_items@.contains(self.ui.selection_key) {
                        StateUpdate::SetExpandItem(self.ui.selection_key, false)
                    } else {
                        StateUpdate::SelectItem {
                            selection_key: SelectionKey::File(
                                FileKey { commit_idx: sk.commit_idx, file_idx: sk.file_idx },
                            ),
                            ensure_in_viewport: true,
                        }
                    }
                },
                SelectionKey::Line(lk) => StateUpdate::SelectItem {
                    selection_key: SelectionKey::Section(
                        SectionKey {
                            commit_idx: lk.commit_idx,
                            file_idx: lk.file_idx,
                            section_idx: lk.section_idx,
                        },
                    ),
                    ensure_in_viewport: true,
                },
            },
    {
        match self.ui.selection_key {
            SelectionKey::Nothing => StateUpdate::Nothing,
            SelectionKey::File(_) => StateUpdate::SetExpandItem(self.ui.selection_key, false),
            SelectionKey::Section(sk) => {
                if fold_section && self.ui.expanded_items.contains(self.ui.selection_key) {
                    StateUpdate::SetExpandItem(self.ui.selection_key, false)
                } else {
                    StateUpdate::SelectItem {
                        selection_key: SelectionKey::File(
                            FileKey { commit_idx: sk.commit_idx, file_idx: sk.file_idx },
                        ),
                        ensure_in_viewport: true,
                    }
                }
            },
            SelectionKey::Line(lk) => StateUpdate::SelectItem {
                selection_key: SelectionKey::Section(
                    SectionKey {
                        commit_idx: lk.commit_idx,
                        file_idx: lk.file_idx,
                        section_idx: lk.section_idx,
                    },
                ),
                ensure_in_viewport: true,
            },
        }
    }

    /// After a toggle, the next key of the current kind in the canonical
    /// list; nothing when the selection is not in it; the current key when
    /// no later key matches.
    pub fn advance_to_next_of_kind(&self) -> (r: SelectionKey)
        ensures
            ({
                let all = spec_all_keys(self.state@);
                match first_index_of(all, self.ui.selection_key) {
                    None => r == SelectionKey::Nothing,
                    Some(i) => r == scan_next_same_kind(all, i + 1, self.ui.selection_key),
                }
            }),
    {
        let all = self.all_selection_keys();
        let sel = self.ui.selection_key;
        let mut pos: Option<usize> = None;
        let mut i: usize = 0;
        while i < all.len() && pos.is_none()
            invariant
                0 <= i <= all@.len(),
                sel == self.ui.selection_key,
                match pos {
                    Some(p) => p < i && all@[p as int] == sel && forall|j: int|
                        0 <= j < p ==> all@[j] != sel,
                    None => forall|j: int| 0 <= j < i ==> all@[j] != sel,
                },
            decreases all@.len() - i,
        {
            if all[i] == sel {
                pos = Some(i);
            }
            i += 1;
        }
        match pos {
            None => {
                proof {
                    lemma_first_index_absent(all@, sel);
                }
                SelectionKey::Nothing
            },
            Some(p) => {
                proof {
                    lemma_first_index_witness(all@, sel, p as int);
                    assert(p < all@.len());
                }
                let mut j: usize = p + 1;
                while j < all.len()
                    invariant
                        p < j <= all@.len(),
                        p < all@.len(),
                        sel == self.ui.selection_key,
                        all@ == spec_all_keys(self.state@),
                        first_index_of(all@, sel) == Some(p as int),
                        scan_next_same_kind(all@, p + 1, sel) == scan_next_same_kind(
                            all@,
                            j as int,
                            sel,
                        ),
                    decreases all@.len() - j,
                {
                    if same_kind_exec(all[j], sel) {
                        return all[j];
                    }
                    j += 1;
                }
                sel
            },
        }
    }
}

/// Executable form of `same_kind`.
fn same_kind_exec(a: SelectionKey, b: SelectionKey) -> (r: bool)
    ensures
        r == same_kind(a, b),
{
    match (a, b) {
        (SelectionKey::Nothing, SelectionKey::Nothing) => true,
        (SelectionKey::File(_), SelectionKey::File(_)) => true,
        (SelectionKey::Section(_), SelectionKey::Section(_)) => true,
        (SelectionKey::Line(_), SelectionKey::Line(_)) => true,
        _ => false,
    }
}

/// Executable form of `inner_pred`.
fn inner_pred_exec(cur: SelectionKey, next: SelectionKey) -> (r: bool)
    ensures
        r == inner_pred(cur, next),
{
    match (cur, next) {
        (SelectionKey::Nothing, SelectionKey::Nothing) => false,
        (SelectionKey::Nothing, _) => true,
        (SelectionKey::File(_), SelectionKey::Section(_)) => true,
        (SelectionKey::Section(_), SelectionKey::Line(_)) => true,
        _ => false,
    }
}

// ---------------------------------------------------------------------------
// Viewport and scrolling.
// ---------------------------------------------------------------------------

/// The recorded rectangle of a selectable key, if any.
pub open spec fn spec_selection_rect(
    rects: Seq<(ComponentId, DrawnRect)>,
    key: SelectionKey,
) -> Option<DrawnRect> {
    match key {
        SelectionKey::Nothing => None,
        _ => rect_of(rects, ComponentId::SelectableItem(key)),
    }
}

/// The recorded vertical position of a selectable key, if any.
pub open spec fn y_of_key(rects: Seq<(ComponentId, DrawnRect)>, k: SelectionKey) -> Option<int> {
    match spec_selection_rect(rects, k) {
        None => None,
        Some(dr) => Some(dr.rect.y as int),
    }
}

/// Walking upwards from `j` to the first visible key drawn at or above
/// `target`; index 0 when none is.
pub open spec fn page_scan_prev(
    keys: Seq<SelectionKey>,
    rects: Seq<(ComponentId, DrawnRect)>,
    j: int,
    target: int,
) -> int
    decreases j,
{
    if j <= 0 {
        0
    } else {
        match y_of_key(rects, keys[j - 1]) {
            Some(y) => if y <= target {
                j - 1
            } else {
                page_scan_prev(keys, rects, j - 1, target)
            },
            None => page_scan_prev(keys, rects, j - 1, target),
        }
    }
}

/// Walking downwards from `j` to the first visible key drawn at or below
/// `target`; the last index when none is.
pub open spec fn page_scan_next(
    keys: Seq<SelectionKey>,
    rects: Seq<(ComponentId, DrawnRect)>,
    j: int,
    target: int,
) -> int
    decreases keys.len() - j,
{
    if j + 1 >= keys.len() || j < 0 {
        j
    } else {
        match y_of_key(rects, keys[j + 1]) {
            Some(y) => if y >= target {
                j + 1
            } else {
                page_scan_next(keys, rects, j + 1, target)
            },
            None => page_scan_next(keys, rects, j + 1, target),
        }
    }
}

/// The sticky-header margin a key calls for, and the scroll offset that
/// brings its rectangle into the viewport: none if it fits, its top when it
/// is tall or above, else its bottom.
pub open spec fn spec_ensure_in_viewport(
    scroll: int,
    term_height: int,
    rects: Seq<(ComponentId, DrawnRect)>,
    key: SelectionKey,
) -> Option<int> {
    let margin: int = match key {
        SelectionKey::Nothing | SelectionKey::File(_) => 0,
        SelectionKey::Section(_) | SelectionKey::Line(_) => 1,
    };
    match spec_selection_rect(rects, key) {
        None => None,
        Some(dr) => {
            let viewport_top = scroll + margin;
            let viewport_height = term_height - margin;
            let viewport_bottom = viewport_top + viewport_height;
            let sel_top = dr.rect.y as int;
            let sel_height = dr.rect.height as int;
            let sel_bottom = sel_top + sel_height;
            Some(
                if viewport_top <= sel_top && sel_bottom < viewport_bottom {
                    scroll
                } else if sel_height >= viewport_height || sel_top < viewport_top {
                    sel_top - margin
                } else {
                    sel_bottom - margin - viewport_height
                },
            )
        },
    }
}

impl App {
    /// The rectangle the selectable key was last drawn at.  A key that was
    /// not drawn this frame yields `None`; callers treat that as "do
    /// nothing".
    pub fn selection_rect(&self, drawn_rects: &DrawnRects, selection_key: SelectionKey) -> (r:
        Option<DrawnRect>)
        ensures
            r == spec_selection_rect(drawn_rects.entries@, selection_key),
    {
        match selection_key {
            SelectionKey::Nothing => None,
            _ => drawn_rects.get(ComponentId::SelectableItem(selection_key)),
        }
    }

    /// The vertical position the selectable key was last drawn at.
    pub fn selection_key_y(&self, drawn_rects: &DrawnRects, selection_key: SelectionKey) -> (r:
        Option<isize>)
        ensures
            r == match y_of_key(drawn_rects.entries@, selection_key) {
                None => None::<isize>,
                Some(y) => Some(y as isize),
            },
    {
        match self.selection_rect(drawn_rects, selection_key) {
            None => None,
            Some(dr) => Some(dr.rect.y),
        }
    }

    /// The scroll offset that brings the selection into the viewport, with
    /// one row of margin for the sticky file header when the selection is a
    /// section or line; `None` when the key has no recorded rectangle.
    pub fn ensure_in_viewport(
        &self,
        term_height: usize,
        drawn_rects: &DrawnRects,
        selection_key: SelectionKey,
    ) -> (r: Option<isize>)
        requires
            self.wf(),
            drawn_rects.wf(),
            term_height <= 0x1000_0000,
        ensures
            r == match spec_ensure_in_viewport(
                self.ui.scroll_offset_y as int,
                term_height as int,
                drawn_rects.entries@,
                selection_key,
            ) {
                None => None::<isize>,
                Some(y) => Some(y as isize),
            },
    {
        let sticky_file_header_height: isize = match selection_key {
            SelectionKey::Nothing | SelectionKey::File(_) => 0,
            SelectionKey::Section(_) | SelectionKey::Line(_) => 1,
        };
        let top_margin = sticky_file_header_height;
        let viewport_top_y = self.ui.scroll_offset_y + top_margin;
        let viewport_height = (term_height as isize) - top_margin;
        let viewport_bottom_y = viewport_top_y + viewport_height;
        let selection_rect = match self.selection_rect(drawn_rects, selection_key) {
            None => {
                return None;
            },
            Some(dr) => dr,
        };
        proof {
            lemma_rect_of_wf(drawn_rects, ComponentId::SelectableItem(selection_key));
        }
        let selection_top_y = selection_rect.rect.y;
        let selection_height = selection_rect.rect.height as isize;
        let selection_bottom_y = selection_top_y + selection_height;
        let result = if viewport_top_y <= selection_top_y && selection_bottom_y
            < viewport_bottom_y {
            self.ui.scroll_offset_y
        } else if selection_height >= viewport_height || selection_top_y < viewport_top_y {
            selection_top_y - top_margin
        } else {
            selection_bottom_y - top_margin - viewport_height
        };
        Some(result)
    }

    /// The visible key about half a page above the selection, judged by the
    /// drawn rectangles; nothing when the selection has no position.
    pub fn select_prev_page(&self, term_height: usize, drawn_rects: &DrawnRects) -> (r:
        SelectionKey)
        requires
            self.wf(),
            drawn_rects.wf(),
            term_height <= 0x1000_0000,
        ensures
            ({
                let keys = spec_visible_keys(self.state@, self.ui.expanded_items@);
                match first_index_of(keys, self.ui.selection_key) {
                    None => r == SelectionKey::Nothing,
                    Some(i) => match y_of_key(drawn_rects.entries@, self.ui.selection_key) {
                        None => r == SelectionKey::Nothing,
                        Some(y) => r == keys[page_scan_prev(
                            keys,
                            drawn_rects.entries@,
                            i,
                            y - term_height / 2,
                        )],
                    },
                }
            }),
    {
        let (keys, index) = self.find_selection();
        let mut index = match index {
            Some(index) => index,
            None => {
                return SelectionKey::Nothing;
            },
        };
        proof {
            lemma_first_index_props(keys@, self.ui.selection_key);
        }
        let original_y = match self.selection_key_y(drawn_rects, self.ui.selection_key) {
            Some(original_y) => original_y,
            None => {
                return SelectionKey::Nothing;
            },
        };
        proof {
            lemma_rect_of_wf(
                drawn_rects,
                ComponentId::SelectableItem(self.ui.selection_key),
            );
        }
        let target_y = original_y - ((term_height / 2) as isize);
        let ghost keys0 = keys@;
        let ghost rects0 = drawn_rects.entries@;
        let ghost start = index as int;
        let mut done = false;
        while !done && index > 0
            invariant
                0 <= index <= start < keys0.len(),
                keys0 == keys@,
                rects0 == drawn_rects.entries@,
                !done ==> page_scan_prev(keys0, rects0, start, target_y as int)
                    == page_scan_prev(keys0, rects0, index as int, target_y as int),
                done ==> page_scan_prev(keys0, rects0, start, target_y as int) == index as int,
            decreases index + (if done { 0int } else { 1int }),
        {
            index -= 1;
            let selection_key_y = self.selection_key_y(drawn_rects, keys[index]);
            if let Some(y) = selection_key_y {
                if y <= target_y {
                    done = true;
                }
            }
        }
        keys[index]
    }

    /// The visible key about half a page below the selection, judged by the
    /// drawn rectangles; nothing when the selection has no position.
    pub fn select_next_page(&self, term_height: usize, drawn_rects: &DrawnRects) -> (r:
        SelectionKey)
        requires
            self.wf(),
            drawn_rects.wf(),
            term_height <= 0x1000_0000,
        ensures
            ({
                let keys = spec_visible_keys(self.state@, self.ui.expanded_items@);
                match first_index_of(keys, self.ui.selection_key) {
                    None => r == SelectionKey::Nothing,
                    Some(i) => match y_of_key(drawn_rects.entries@, self.ui.selection_key) {
                        None => r == SelectionKey::Nothing,
                        Some(y) => r == keys[page_scan_next(
                            keys,
                            drawn_rects.entries@,
                            i,
                            y + term_height / 2,
                        )],
                    },
                }
            }),
    {
        let (keys, index) = self.find_selection();
        let mut index = match index {
            Some(index) => index,
            None => {
                return SelectionKey::Nothing;
            },
        };
        proof {
            lemma_first_index_props(keys@, self.ui.selection_key);
        }
        let original_y = match self.selection_key_y(drawn_rects, self.ui.selection_key) {
            Some(original_y) => original_y,
            None => {
                return SelectionKey::Nothing;
            },
        };
        proof {
            lemma_rect_of_wf(
                drawn_rects,
                ComponentId::SelectableItem(self.ui.selection_key),
            );
        }
        let target_y = original_y + ((term_height / 2) as isize);
        let ghost keys0 = keys@;
        let ghost rects0 = drawn_rects.entries@;
        let ghost start = index as int;
        let n = keys.len();
        let mut done = false;
        while !done && index + 1 < n
            invariant
                0 <= start <= index < keys0.len(),
                n == keys0.len(),
                keys0 == keys@,
                rects0 == drawn_rects.entries@,
                !done ==> page_scan_next(keys0, rects0, start, target_y as int)
                    == page_scan_next(keys0, rects0, index as int, target_y as int),
                done ==> page_scan_next(keys0, rects0, start, target_y as int) == index as int,
            decreases (n - index) + (if done { 0int } else { 1int }),
        {
            index += 1;
            let selection_key_y = self.selection_key_y(drawn_rects, keys[index]);
            if let Some(y) = selection_key_y {
                if y >= target_y {
                    done = true;
                }
            }
        }
        keys[index]
    }
}

/// A recorded rectangle of a well-formed ledger is itself well formed.
pub proof fn lemma_rect_of_wf(rects: &DrawnRects, id: ComponentId)
    requires
        rects.wf(),
    ensures
        match rect_of(rects.entries@, id) {
            Some(dr) => rect_wf(dr.rect),
            None => true,
        },
{
    lemma_rect_of_wf_rec(rects.entries@, id);
}

proof fn lemma_rect_of_wf_rec(entries: Seq<(ComponentId, DrawnRect)>, id: ComponentId)
    requires
        forall|i: int| 0 <= i < entries.len() ==> rect_wf((#[trigger] entries[i]).1.rect),
    ensures
        match rect_of(entries, id) {
            Some(dr) => rect_wf(dr.rect),
            None => true,
        },
    decreases entries.len(),
{
    if entries.len() > 0 && entries[0].0 != id {
        assert(forall|i: int|
            0 <= i < entries.len() - 1 ==> #[trigger] entries.drop_first()[i] == entries[i + 1]);
        lemma_rect_of_wf_rec(entries.drop_first(), id);
    }
}

// ---------------------------------------------------------------------------
// Toggling through the application.
// ---------------------------------------------------------------------------

/// The record with one file replaced.
pub open spec fn spec_update_file(m: RecordModel, fi: int, f2: FileModel) -> RecordModel {
    RecordModel { files: m.files.update(fi, f2), ..m }
}

/// Whether a key points at existing data, so that a toggle can reach it.
/// The commit index is not consulted: the commit axis multiplexes the same
/// files.
pub open spec fn toggle_key_valid(m: RecordModel, key: SelectionKey) -> bool {
    match key {
        SelectionKey::Nothing => true,
        SelectionKey::File(fk) => fk.file_idx < m.files.len(),
        SelectionKey::Section(sk) => sk.file_idx < m.files.len() && sk.section_idx
            < m.files[sk.file_idx as int].sections.len(),
        SelectionKey::Line(lk) => lk.file_idx < m.files.len() && lk.section_idx
            < m.files[lk.file_idx as int].sections.len() && (match m.files[lk.file_idx as int]
            .sections[lk.section_idx as int] {
            SectionModel::Changed { lines } => lk.line_idx < lines.len(),
            _ => true,
        }),
    }
}

/// What toggling a key does to the record: nothing for no key; the group
/// toggle for a file; the section or line toggle, with its coherence rules,
/// otherwise.
pub open spec fn spec_toggle_item(m: RecordModel, key: SelectionKey) -> RecordModel {
    match key {
        SelectionKey::Nothing => m,
        SelectionKey::File(fk) => spec_update_file(
            m,
            fk.file_idx as int,
            spec_file_toggle(m.files[fk.file_idx as int]),
        ),
        SelectionKey::Section(sk) => spec_update_file(
            m,
            sk.file_idx as int,
            spec_file_toggle_section(m.files[sk.file_idx as int], sk.section_idx as int),
        ),
        SelectionKey::Line(lk) => spec_update_file(
            m,
            lk.file_idx as int,
            spec_file_toggle_line(
                m.files[lk.file_idx as int],
                lk.section_idx as int,
                lk.line_idx as int,
            ),
        ),
    }
}

/// Every file group-toggled independently.
pub open spec fn spec_toggle_all(m: RecordModel) -> RecordModel {
    RecordModel {
        files: Seq::new(m.files.len(), |i: int| spec_file_toggle(m.files[i])),
        ..m
    }
}

/// The fold of all files' tristates, mirroring the uniform toggle's scan.
pub open spec fn files_fold_rec(files: Seq<FileModel>, acc: Option<Tristate>) -> Tristate
    decreases files.len(),
{
    if files.len() == 0 {
        match acc {
            None => Tristate::False,
            Some(t) => t,
        }
    } else {
        let acc2 = match acc {
            None => Some(spec_file_tristate(files[0])),
            Some(t) => Some(tri_join(t, spec_file_tristate(files[0]))),
        };
        files_fold_rec(files.drop_first(), acc2)
    }
}

/// The uniform toggle: if all files agree, flip that value; if they
/// disagree, drive everything to checked.
pub open spec fn spec_toggle_all_uniform(m: RecordModel) -> RecordModel {
    let folded = files_fold_rec(m.files, None);
    let checked = folded != Tristate::True;
    RecordModel {
        files: Seq::new(m.files.len(), |i: int| spec_file_set_checked(m.files[i], checked)),
        ..m
    }
}

impl App {
    /// Toggles the selected item and runs the coherence rules.  In
    /// read-only mode nothing changes; a key that points at nothing fails
    /// with a `Bug` error and changes nothing.  The UI state is untouched.
    pub fn toggle_item(&mut self, selection: SelectionKey) -> (r: Result<(), RecordError>)
        ensures
            final(self).ui == old(self).ui,
            ({
                let m = old(self).state@;
                if m.is_read_only {
                    r is Ok && final(self).state@ == m
                } else if toggle_key_valid(m, selection) {
                    r is Ok && final(self).state@ == spec_toggle_item(m, selection)
                } else {
                    r is Err && r->Err_0 is Bug && final(self).state@ == m
                }
            }),
    {
        if self.state.is_read_only {
            return Ok(());
        }
        match selection {
            SelectionKey::Nothing => Ok(()),
            SelectionKey::File(fk) => {
                if fk.file_idx >= self.state.files.len() {
                    return Err(RecordError::Bug("out-of-bounds file index".to_owned()));
                }
                let file = &mut self.state.files[fk.file_idx];
                file.toggle_all();
                proof {
                    assert(final(self).state@ =~= spec_toggle_item(
                        old(self).state@,
                        selection,
                    ));
                }
                Ok(())
            },
            SelectionKey::Section(sk) => {
                if sk.file_idx >= self.state.files.len() {
                    return Err(RecordError::Bug("out-of-bounds file index".to_owned()));
                }
                let r = {
                    let file = &mut self.state.files[sk.file_idx];
                    file.toggle_section_at(sk.section_idx)
                };
                proof {
                    if sk.section_idx < old(self).state@.files[sk.file_idx as int]
                        .sections.len() {
                        assert(self.state@ =~= spec_toggle_item(old(self).state@, selection));
                    } else {
                        assert(self.state@ =~= old(self).state@);
                    }
                }
                r
            },
            SelectionKey::Line(lk) => {
                if lk.file_idx >= self.state.files.len() {
                    return Err(RecordError::Bug("out-of-bounds file index".to_owned()));
                }
                let r = {
                    let file = &mut self.state.files[lk.file_idx];
                    file.toggle_line_at(lk.section_idx, lk.line_idx)
                };
                proof {
                    if toggle_key_valid(old(self).state@, selection) {
                        assert(self.state@ =~= spec_toggle_item(old(self).state@, selection));
                    } else {
                        assert(self.state@ =~= old(self).state@);
                    }
                }
                r
            },
        }
    }

    /// Group-toggles every file independently; a no-op in read-only mode.
    pub fn toggle_all(&mut self)
        ensures
            final(self).ui == old(self).ui,
            final(self).state@ == if old(self).state@.is_read_only {
                old(self).state@
            } else {
                spec_toggle_all(old(self).state@)
            },
    {
        if self.state.is_read_only {
            return ;
        }
        let n = self.state.files.len();
        let mut i: usize = 0;
        while i < n
            invariant
                0 <= i <= n,
                n == self.state.files@.len(),
                self.ui == old(self).ui,
                self.state.is_read_only == old(self).state.is_read_only,
                self.state.commits == old(self).state.commits,
                self.state.files@.len() == old(self).state.files@.len(),
                forall|j: int|
                    0 <= j < i ==> #[trigger] self.state.files@[j]@ == spec_file_toggle(
                        old(self).state.files@[j]@,
                    ),
                forall|j: int|
                    i <= j < n ==> #[trigger] self.state.files@[j]@ == old(self).state.files@[j]@,
            decreases n - i,
        {
            let file = &mut self.state.files[i];
            file.toggle_all();
            i += 1;
        }
        proof {
            assert(final(self).state@ =~= spec_toggle_all(old(self).state@));
        }
    }

    /// The uniform toggle over all files; a no-op in read-only mode.
    pub fn toggle_all_uniform(&mut self)
        ensures
            final(self).ui == old(self).ui,
            final(self).state@ == if old(self).state@.is_read_only {
                old(self).state@
            } else {
                spec_toggle_all_uniform(old(self).state@)
            },
    {
        if self.state.is_read_only {
            return ;
        }
        let ghost fmods = file_models(self.state.files@);
        let mut acc: Option<Tristate> = None;
        let mut i: usize = 0;
        proof {
            assert(fmods.skip(0) =~= fmods);
        }
        while i < self.state.files.len()
            invariant
                0 <= i <= self.state.files@.len(),
                self.ui == old(self).ui,
                self.state == old(self).state,
                fmods == file_models(self.state.files@),
                files_fold_rec(fmods, None) == files_fold_rec(fmods.skip(i as int), acc),
            decreases self.state.files@.len() - i,
        {
            let ghost acc0 = acc;
            let t = self.state.files[i].tristate();
            acc = match acc {
                None => Some(t),
                Some(a) => Some(a.join(t)),
            };
            proof {
                assert(fmods.skip(i as int)[0] == fmods[i as int]);
                assert(fmods.skip(i as int).drop_first() =~= fmods.skip(i + 1));
                assert(files_fold_rec(fmods.skip(i as int), acc0) == files_fold_rec(
                    fmods.skip(i + 1),
                    acc,
                ));
            }
            i += 1;
        }
        proof {
            assert(fmods.skip(fmods.len() as int) =~= Seq::<FileModel>::empty());
        }
        let folded = match acc {
            None => Tristate::False,
            Some(t) => t,
        };
        let checked = match folded {
            Tristate::False | Tristate::Partial => true,
            Tristate::True => false,
        };
        let n = self.state.files.len();
        let mut k: usize = 0;
        while k < n
            invariant
                0 <= k <= n,
                n == self.state.files@.len(),
                self.ui == old(self).ui,
                self.state.is_read_only == old(self).state.is_read_only,
                self.state.commits == old(self).state.commits,
                self.state.files@.len() == old(self).state.files@.len(),
                forall|j: int|
                    0 <= j < k ==> #[trigger] self.state.files@[j]@ == spec_file_set_checked(
                        old(self).state.files@[j]@,
                        checked,
                    ),
                forall|j: int|
                    k <= j < n ==> #[trigger] self.state.files@[j]@ == old(self).state.files@[j]@,
            decreases n - k,
        {
            let file = &mut self.state.files[k];
            file.set_checked(checked);
            k += 1;
        }
        proof {
            assert(file_models(old(self).state.files@) == fmods);
            assert(final(self).state@ =~= spec_toggle_all_uniform(old(self).state@));
        }
    }
}

// ---------------------------------------------------------------------------
// Expansion.
// ---------------------------------------------------------------------------

/// The enclosing file of a section or line key; files and nothing stay put.
pub open spec fn ancestor_file_key(k: SelectionKey) -> SelectionKey {
    match k {
        SelectionKey::Nothing | SelectionKey::File(_) => k,
        SelectionKey::Section(sk) => SelectionKey::File(
            FileKey { commit_idx: sk.commit_idx, file_idx: sk.file_idx },
        ),
        SelectionKey::Line(lk) => SelectionKey::File(
            FileKey { commit_idx: lk.commit_idx, file_idx: lk.file_idx },
        ),
    }
}

/// The expansion set after the ancestors of `k` are forced open.
pub open spec fn spec_expand_ancestors(exp: Set<SelectionKey>, k: SelectionKey) -> Set<
    SelectionKey,
> {
    match k {
        SelectionKey::Nothing | SelectionKey::File(_) => exp,
        SelectionKey::Section(sk) => exp.insert(
            SelectionKey::File(FileKey { commit_idx: sk.commit_idx, file_idx: sk.file_idx }),
        ),
        SelectionKey::Line(lk) => exp.insert(
            SelectionKey::File(FileKey { commit_idx: lk.commit_idx, file_idx: lk.file_idx }),
        ).insert(
            SelectionKey::Section(
                SectionKey {
                    commit_idx: lk.commit_idx,
                    file_idx: lk.file_idx,
                    section_idx: lk.section_idx,
                },
            ),
        ),
    }
}

/// The section keys of the canonical enumeration: the initial expansion.
pub open spec fn spec_initial_expanded(m: RecordModel) -> Set<SelectionKey> {
    Set::new(|k: SelectionKey| spec_all_keys(m).contains(k) && k is Section)
}

/// The keys that can be expanded: the file and section keys of the
/// canonical enumeration.  Line keys are never in the expansion set.
pub open spec fn spec_expandable_keys(m: RecordModel) -> Set<SelectionKey> {
    Set::new(
        |k: SelectionKey| spec_all_keys(m).contains(k) && (k is File || k is Section),
    )
}

impl App {
    /// Expands the ancestors of the new selection so that it is visible.
    pub fn expand_item_ancestors(&mut self, selection: SelectionKey)
        requires
            old(self).wf(),
        ensures
            final(self).wf(),
            final(self).state == old(self).state,
            final(self).ui.expanded_items@ == spec_expand_ancestors(
                old(self).ui.expanded_items@,
                selection,
            ),
            final(self).ui.selection_key == old(self).ui.selection_key,
            final(self).ui.commit_view_mode == old(self).ui.commit_view_mode,
            final(self).ui.focused_commit_idx == old(self).ui.focused_commit_idx,
            final(self).ui.help_dialog == old(self).ui.help_dialog,
            final(self).ui.quit_dialog == old(self).ui.quit_dialog,
            final(self).ui.scroll_offset_y == old(self).ui.scroll_offset_y,
    {
        match selection {
            SelectionKey::Nothing | SelectionKey::File(_) => {},
            SelectionKey::Section(sk) => {
                self.ui.expanded_items.insert(
                    SelectionKey::File(
                        FileKey { commit_idx: sk.commit_idx, file_idx: sk.file_idx },
                    ),
                );
            },
            SelectionKey::Line(lk) => {
                self.ui.expanded_items.insert(
                    SelectionKey::File(
                        FileKey { commit_idx: lk.commit_idx, file_idx: lk.file_idx },
                    ),
                );
                self.ui.expanded_items.insert(
                    SelectionKey::Section(
                        SectionKey {
                            commit_idx: lk.commit_idx,
                            file_idx: lk.file_idx,
                            section_idx: lk.section_idx,
                        },
                    ),
                );
            },
        }
    }

    /// Expands or collapses one key.
    pub fn set_expand_item(&mut self, selection: SelectionKey, is_expanded: bool)
        requires
            old(self).wf(),
        ensures
            final(self).wf(),
            final(self).state == old(self).state,
            final(self).ui.expanded_items@ == if is_expanded {
                old(self).ui.expanded_items@.insert(selection)
            } else {
                old(self).ui.expanded_items@.remove(selection)
            },
            final(self).ui.selection_key == old(self).ui.selection_key,
            final(self).ui.commit_view_mode == old(self).ui.commit_view_mode,
            final(self).ui.focused_commit_idx == old(self).ui.focused_commit_idx,
            final(self).ui.help_dialog == old(self).ui.help_dialog,
            final(self).ui.quit_dialog == old(self).ui.quit_dialog,
            final(self).ui.scroll_offset_y == old(self).ui.scroll_offset_y,
    {
        if is_expanded {
            self.ui.expanded_items.insert(selection);
        } else {
            self.ui.expanded_items.remove(selection);
        }
    }

    /// Toggles the expansion of a file or section key; lines have no
    /// expansion of their own.
    pub fn toggle_expand_item(&mut self, selection: SelectionKey) -> (r: Result<
        (),
        RecordError,
    >)
        requires
            old(self).wf(),
        ensures
            r is Ok,
            final(self).wf(),
            final(self).state == old(self).state,
            final(self).ui.expanded_items@ == match selection {
                SelectionKey::File(_) | SelectionKey::Section(_) => {
                    if old(self).ui.expanded_items@.contains(selection) {
                        old(self).ui.expanded_items@.remove(selection)
                    } else {
                        old(self).ui.expanded_items@.insert(selection)
                    }
                },
                _ => old(self).ui.expanded_items@,
            },
            final(self).ui.selection_key == old(self).ui.selection_key,
            final(self).ui.commit_view_mode == old(self).ui.commit_view_mode,
            final(self).ui.focused_commit_idx == old(self).ui.focused_commit_idx,
            final(self).ui.help_dialog == old(self).ui.help_dialog,
            final(self).ui.quit_dialog == old(self).ui.quit_dialog,
            final(self).ui.scroll_offset_y == old(self).ui.scroll_offset_y,
    {
        match selection {
            SelectionKey::Nothing | SelectionKey::Line(_) => {},
            SelectionKey::File(_) | SelectionKey::Section(_) => {
                if self.ui.expanded_items.contains(selection) {
                    self.ui.expanded_items.remove(selection);
                    proof {
                        assert(final(self).ui.expanded_items@ =~= old(self).ui.expanded_items@.remove(selection));
                    }
                } else {
                    self.ui.expanded_items.insert(selection);
                }
            },
        }
        Ok(())
    }

    /// The initial expansion: every section key of the canonical
    /// enumeration starts expanded, and no file does, so each file shows
    /// as a collapsed header until it is opened.
    pub fn expand_initial_items(&mut self)
        requires
            old(self).wf(),
        ensures
            final(self).wf(),
            final(self).state == old(self).state,
            final(self).ui.expanded_items@ == spec_initial_expanded(old(self).state@),
            final(self).ui.selection_key == old(self).ui.selection_key,
            final(self).ui.commit_view_mode == old(self).ui.commit_view_mode,
            final(self).ui.focused_commit_idx == old(self).ui.focused_commit_idx,
            final(self).ui.help_dialog == old(self).ui.help_dialog,
            final(self).ui.quit_dialog == old(self).ui.quit_dialog,
            final(self).ui.scroll_offset_y == old(self).ui.scroll_offset_y,
    {
        let all = self.all_selection_keys();
        let mut filtered: Vec<SelectionKey> = Vec::new();
        let mut i: usize = 0;
        while i < all.len()
            invariant
                0 <= i <= all@.len(),
                forall|w: int|
                    0 <= w < filtered@.len() ==> (#[trigger] filtered@[w]) is Section
                    && all@.contains(filtered@[w]),
                forall|j: int|
                    0 <= j < i && (#[trigger] all@[j]) is Section ==> filtered@.contains(
                        all@[j],
                    ),
            decreases all@.len() - i,
        {
            let k = all[i];
            let is_section = match k {
                SelectionKey::Section(_) => true,
                _ => false,
            };
            if is_section {
                let ghost pre = filtered@;
                filtered.push(k);
                proof {
                    assert(filtered@[pre.len() as int] == k);
                    assert forall|j: int|
                        0 <= j < i + 1 && (#[trigger] all@[j]) is Section implies filtered@
                        .contains(all@[j]) by {
                        if j < i {
                            let w = choose|w: int|
                                0 <= w < pre.len() && #[trigger] pre[w] == all@[j];
                            assert(filtered@[w] == all@[j]);
                        }
                    }
                }
            }
            i += 1;
        }
        let ks = KeySet::from_keys(&filtered);
        proof {
            assert forall|x: SelectionKey|
                seq_key_set(filtered@).contains(x) implies #[trigger] spec_initial_expanded(
                self.state@,
            ).contains(x) by {
                let w = choose|w: int|
                    0 <= w < filtered@.len() && #[trigger] filtered@[w] == x;
            }
            assert forall|x: SelectionKey|
                spec_initial_expanded(self.state@).contains(x) implies #[trigger] seq_key_set(
                filtered@,
            ).contains(x) by {
                let j = choose|j: int| 0 <= j < all@.len() && #[trigger] all@[j] == x;
            }
            assert(ks@ =~= spec_initial_expanded(self.state@));
        }
        self.ui.expanded_items = ks;
    }

    /// Expands every file and section, or collapses everything when all of
    /// them are already expanded; in the latter case the selection moves
    /// to its enclosing file so that it stays visible.  Line keys never
    /// enter the expansion set.
    pub fn toggle_expand_all(&mut self) -> (r: Result<(), RecordError>)
        requires
            old(self).wf(),
        ensures
            r is Ok,
            final(self).wf(),
            final(self).state == old(self).state,
            ({
                let was_all = old(self).ui.expanded_items@ == spec_expandable_keys(
                    old(self).state@,
                );
                if was_all {
                    final(self).ui.expanded_items@ == Set::<SelectionKey>::empty() && final(self).ui.selection_key == ancestor_file_key(old(self).ui.selection_key)
                } else {
                    final(self).ui.expanded_items@ == spec_expandable_keys(old(self).state@)
                        && final(self).ui.selection_key == old(self).ui.selection_key
                }
            }),
            final(self).ui.commit_view_mode == old(self).ui.commit_view_mode,
            final(self).ui.focused_commit_idx == old(self).ui.focused_commit_idx,
            final(self).ui.help_dialog == old(self).ui.help_dialog,
            final(self).ui.quit_dialog == old(self).ui.quit_dialog,
            final(self).ui.scroll_offset_y == old(self).ui.scroll_offset_y,
    {
        let all = self.all_selection_keys();
        let mut expandable: Vec<SelectionKey> = Vec::new();
        let mut i: usize = 0;
        while i < all.len()
            invariant
                0 <= i <= all@.len(),
                forall|w: int|
                    0 <= w < expandable@.len() ==> ((#[trigger] expandable@[w]) is File
                        || expandable@[w] is Section) && all@.contains(expandable@[w]),
                forall|j: int|
                    0 <= j < i && ((#[trigger] all@[j]) is File || all@[j] is Section)
                        ==> expandable@.contains(all@[j]),
            decreases all@.len() - i,
        {
            let k = all[i];
            let keep = match k {
                SelectionKey::File(_) | SelectionKey::Section(_) => true,
                _ => false,
            };
            if keep {
                let ghost pre = expandable@;
                expandable.push(k);
                proof {
                    assert(expandable@[pre.len() as int] == k);
                    assert forall|j: int|
                        0 <= j < i + 1 && ((#[trigger] all@[j]) is File || all@[j] is Section)
                        implies expandable@.contains(all@[j]) by {
                        if j < i {
                            let w = choose|w: int|
                                0 <= w < pre.len() && #[trigger] pre[w] == all@[j];
                            assert(expandable@[w] == all@[j]);
                        }
                    }
                }
            }
            i += 1;
        }
        proof {
            assert forall|x: SelectionKey|
                seq_key_set(expandable@).contains(x) implies #[trigger] spec_expandable_keys(
                self.state@,
            ).contains(x) by {
                let w = choose|w: int|
                    0 <= w < expandable@.len() && #[trigger] expandable@[w] == x;
            }
            assert forall|x: SelectionKey|
                spec_expandable_keys(self.state@).contains(x) implies #[trigger] seq_key_set(
                expandable@,
            ).contains(x) by {
                let j = choose|j: int| 0 <= j < all@.len() && #[trigger] all@[j] == x;
            }
            assert(seq_key_set(expandable@) =~= spec_expandable_keys(self.state@));
        }
        let has_all = self.ui.expanded_items.contains_all(&expandable);
        let only_all = self.ui.expanded_items.within(&expandable);
        let ghost exp = self.ui.expanded_items@;
        proof {
            if has_all && only_all {
                assert forall|x: SelectionKey| exp.contains(x) implies #[trigger] seq_key_set(
                    expandable@,
                ).contains(x) by {
                    let w = choose|w: int|
                        0 <= w < self.ui.expanded_items.items@.len()
                            && #[trigger] self.ui.expanded_items.items@[w] == x;
                }
                assert forall|x: SelectionKey|
                    seq_key_set(expandable@).contains(x) implies #[trigger] exp.contains(x) by {
                    let j = choose|j: int|
                        0 <= j < expandable@.len() && #[trigger] expandable@[j] == x;
                }
                assert(exp =~= seq_key_set(expandable@));
            } else {
                if exp == seq_key_set(expandable@) {
                    assert forall|j: int|
                        0 <= j < expandable@.len() implies exp.contains(
                        #[trigger] expandable@[j]) by {}
                    assert forall|j: int|
                        0 <= j < self.ui.expanded_items.items@.len() implies expandable@
                        .contains(#[trigger] self.ui.expanded_items.items@[j]) by {
                        assert(exp.contains(self.ui.expanded_items.items@[j]));
                    }
                    assert(false);
                }
            }
        }
        if has_all && only_all {
            self.ui.selection_key = match self.ui.selection_key {
                k@ (SelectionKey::Nothing | SelectionKey::File(_)) => k,
                SelectionKey::Section(sk) => SelectionKey::File(
                    FileKey { commit_idx: sk.commit_idx, file_idx: sk.file_idx },
                ),
                SelectionKey::Line(lk) => SelectionKey::File(
                    FileKey { commit_idx: lk.commit_idx, file_idx: lk.file_idx },
                ),
            };
            self.ui.expanded_items = KeySet::new();
        } else {
            self.ui.expanded_items = KeySet::from_keys(&expandable);
        }
        Ok(())
    }

    /// The expansion tristate of a file: collapsed, open with some hunk
    /// collapsed, or fully open.
    pub fn file_expanded(&self, file_key: FileKey) -> (r: Tristate)
        requires
            file_key.file_idx < self.state@.files.len(),
        ensures
            r == spec_file_expanded(self.state@, self.ui.expanded_items@, file_key),
    {
        if !self.ui.expanded_items.contains(SelectionKey::File(file_key)) {
            return Tristate::False;
        }
        let sections = &self.state.files[file_key.file_idx].sections;
        let mut any_unexpanded = false;
        let mut i: usize = 0;
        while i < sections.len()
            invariant
                0 <= i <= sections@.len(),
                sections@ == self.state.files@[file_key.file_idx as int].sections@,
                file_key.file_idx < self.state.files@.len(),
                any_unexpanded == exists|j: int|
                    0 <= j < i && #[trigger] section_unexpanded(
                        self.state@,
                        self.ui.expanded_items@,
                        file_key,
                        j,
                    ),
            decreases sections@.len() - i,
        {
            let is_changed = match &sections[i] {
                Section::Changed { .. } => true,
                _ => false,
            };
            if is_changed && !self.ui.expanded_items.contains(
                SelectionKey::Section(
                    SectionKey {
                        commit_idx: file_key.commit_idx,
                        file_idx: file_key.file_idx,
                        section_idx: i,
                    },
                ),
            ) {
                any_unexpanded = true;
                proof {
                    assert(section_unexpanded(
                        self.state@,
                        self.ui.expanded_items@,
                        file_key,
                        i as int,
                    ));
                }
            }
            i += 1;
        }
        if any_unexpanded {
            Tristate::Partial
        } else {
            Tristate::True
        }
    }

    /// The selection tristate of a file, or a `Bug` error for a key that
    /// points at nothing.
    pub fn file_tristate(&self, file_key: FileKey) -> (r: Result<Tristate, RecordError>)
        ensures
            if file_key.file_idx < self.state@.files.len() {
                r == Ok::<Tristate, RecordError>(
                    spec_file_tristate(self.state@.files[file_key.file_idx as int]),
                )
            } else {
                r is Err && r->Err_0 is Bug
            },
    {
        if file_key.file_idx >= self.state.files.len() {
            return Err(RecordError::Bug("out-of-bounds file index".to_owned()));
        }
        Ok(self.state.files[file_key.file_idx].tristate())
    }

    /// The selection tristate of a section, or a `Bug` error for a key that
    /// points at nothing.
    pub fn section_tristate(&self, section_key: SectionKey) -> (r: Result<Tristate, RecordError>)
        ensures
            if section_key.file_idx < self.state@.files.len() && section_key.section_idx
                < self.state@.files[section_key.file_idx as int].sections.len() {
                r == Ok::<Tristate, RecordError>(
                    spec_section_tristate(
                        self.state@.files[section_key.file_idx as int]
                            .sections[section_key.section_idx as int],
                    ),
                )
            } else {
                r is Err && r->Err_0 is Bug
            },
    {
        if section_key.file_idx >= self.state.files.len() {
            return Err(RecordError::Bug("out-of-bounds file index".to_owned()));
        }
        if section_key.section_idx >= self.state.files[section_key.file_idx].sections.len() {
            return Err(RecordError::Bug("out-of-bounds section index".to_owned()));
        }
        Ok(self.state.files[section_key.file_idx].sections[section_key.section_idx].tristate())
    }
}

/// Whether section `j` of the file is a changed hunk that is not expanded.
pub open spec fn section_unexpanded(
    m: RecordModel,
    exp: Set<SelectionKey>,
    fk: FileKey,
    j: int,
) -> bool {
    &&& m.files[fk.file_idx as int].sections[j] is Changed
    &&& !exp.contains(
        SelectionKey::Section(
            SectionKey {
                commit_idx: fk.commit_idx,
                file_idx: fk.file_idx,
                section_idx: j as usize,
            },
        ),
    )
}

/// The expansion tristate of a file: `False` when the file key is not
/// expanded; else `Partial` when some changed hunk is not expanded, `True`
/// otherwise.
pub open spec fn spec_file_expanded(
    m: RecordModel,
    exp: Set<SelectionKey>,
    fk: FileKey,
) -> Tristate {
    if !exp.contains(SelectionKey::File(fk)) {
        Tristate::False
    } else if exists|j: int|
        0 <= j < m.files[fk.file_idx as int].sections.len() && #[trigger] section_unexpanded(
            m,
            exp,
            fk,
            j,
        ) {
        Tristate::Partial
    } else {
        Tristate::True
    }
}

// ---------------------------------------------------------------------------
// The event reducer.
// ---------------------------------------------------------------------------

/// Whether a commit carries a non-empty message.
pub open spec fn has_nonempty_message(c: CommitModel) -> bool {
    match c.message {
        Some(m) => m.len() > 0,
        None => false,
    }
}

/// How many of the first `n` commits carry a non-empty message.
pub open spec fn count_messages(cs: Seq<CommitModel>, n: int) -> int
    decreases n,
{
    if n <= 0 {
        0
    } else {
        count_messages(cs, n - 1) + (if has_nonempty_message(cs[n - 1]) {
            1int
        } else {
            0int
        })
    }
}

/// How many of the first `n` files hold any selection.
pub open spec fn count_changed_files(fs: Seq<FileModel>, n: int) -> int
    decreases n,
{
    if n <= 0 {
        0
    } else {
        count_changed_files(fs, n - 1) + (if spec_file_tristate(fs[n - 1]) != Tristate::False {
            1int
        } else {
            0int
        })
    }
}

/// Whether quitting would throw work away: an edited commit message, or a
/// file with any selection.
pub open spec fn spec_has_unsaved(m: RecordModel) -> bool {
    count_messages(m.commits, m.commits.len() as int) > 0 || count_changed_files(
        m.files,
        m.files.len() as int,
    ) > 0
}

/// A fresh quit-confirmation dialog, with the quit button focused.
pub open spec fn spec_new_quit_dialog(m: RecordModel) -> QuitDialog {
    QuitDialog {
        num_commit_messages: count_messages(m.commits, m.commits.len() as int) as usize,
        num_changed_files: count_changed_files(m.files, m.files.len() as int) as usize,
        focused_button: QuitDialogButtonId::Quit,
    }
}

/// One step of plain previous/next navigation over the visible keys.
pub open spec fn spec_nav_select(
    m: RecordModel,
    exp: Set<SelectionKey>,
    sel: SelectionKey,
    focused: usize,
    prev: bool,
) -> SelectionKey {
    let keys = spec_visible_keys(m, exp);
    match first_index_of(keys, sel) {
        None => spec_first_key(m, focused),
        Some(i) => if prev {
            if i > 0 {
                keys[i - 1]
            } else {
                keys[i]
            }
        } else {
            if i + 1 < keys.len() {
                keys[i + 1]
            } else {
                keys[i]
            }
        },
    }
}

/// Same-kind navigation over the visible keys.
pub open spec fn spec_same_kind_select(
    m: RecordModel,
    exp: Set<SelectionKey>,
    sel: SelectionKey,
    focused: usize,
    prev: bool,
) -> SelectionKey {
    let keys = spec_visible_keys(m, exp);
    match first_index_of(keys, sel) {
        None => spec_first_key(m, focused),
        Some(i) => if prev {
            scan_prev_same_kind(keys, i, sel)
        } else {
            scan_next_same_kind(keys, i + 1, sel)
        },
    }
}

/// Half-page navigation over the visible keys, judged by the ledger.
pub open spec fn spec_page_select(
    m: RecordModel,
    exp: Set<SelectionKey>,
    sel: SelectionKey,
    rects: Seq<(ComponentId, DrawnRect)>,
    term_height: int,
    prev: bool,
) -> SelectionKey {
    let keys = spec_visible_keys(m, exp);
    match first_index_of(keys, sel) {
        None => SelectionKey::Nothing,
        Some(i) => match y_of_key(rects, sel) {
            None => SelectionKey::Nothing,
            Some(y) => if prev {
                keys[page_scan_prev(keys, rects, i, y - term_height / 2)]
            } else {
                keys[page_scan_next(keys, rects, i, y + term_height / 2)]
            },
        },
    }
}

/// Inward navigation over the canonical list.
pub open spec fn spec_select_inner(m: RecordModel, sel: SelectionKey) -> SelectionKey {
    let all = spec_all_keys(m);
    match first_index_of(all, sel) {
        None => sel,
        Some(i) => scan_inner(all, i + 1, sel),
    }
}

/// Outward navigation: collapse, or move to the parent.
pub open spec fn spec_select_outer(
    exp: Set<SelectionKey>,
    sel: SelectionKey,
    fold_section: bool,
) -> StateUpdate {
    match sel {
        SelectionKey::Nothing => StateUpdate::Nothing,
        SelectionKey::File(_) => StateUpdate::SetExpandItem(sel, false),
        SelectionKey::Section(sk) => {
            if fold_section && exp.contains(sel) {
                StateUpdate::SetExpandItem(sel, false)
            } else {
                StateUpdate::SelectItem {
                    selection_key: SelectionKey::File(
                        FileKey { commit_idx: sk.commit_idx, file_idx: sk.file_idx },
                    ),
                    ensure_in_viewport: true,
                }
            }
        },
        SelectionKey::Line(lk) => StateUpdate::SelectItem {
            selection_key: SelectionKey::Section(
                SectionKey {
                    commit_idx: lk.commit_idx,
                    file_idx: lk.file_idx,
                    section_idx: lk.section_idx,
                },
            ),
            ensure_in_viewport: true,
        },
    }
}

/// Post-toggle advance: the next key of the current kind in the canonical
/// list.
pub open spec fn spec_advance(m: RecordModel, sel: SelectionKey) -> SelectionKey {
    let all = spec_all_keys(m);
    match first_index_of(all, sel) {
        None => SelectionKey::Nothing,
        Some(i) => scan_next_same_kind(all, i + 1, sel),
    }
}

/// The pure reducer: what one event does to the application, as a state
/// update for the driver to apply.  The help dialog swallows everything but
/// its closing keys; the quit dialog takes its own small event language;
/// otherwise each event maps to its action.
pub open spec fn spec_handle_event(
    app: App,
    event: Event,
    term_height: usize,
    rects: Seq<(ComponentId, DrawnRect)>,
) -> StateUpdate {
    let m = app.state@;
    let exp = app.ui.expanded_items@;
    let sel = app.ui.selection_key;
    let focused = app.ui.focused_commit_idx;
    let scroll = app.ui.scroll_offset_y as int;
    if app.ui.help_dialog is Some {
        match event {
            Event::Help | Event::QuitEscape | Event::QuitCancel | Event::ToggleItem
                | Event::ToggleItemAndAdvance => StateUpdate::SetHelpDialog(None),
            _ => StateUpdate::Nothing,
        }
    } else {
        match app.ui.quit_dialog {
            Some(d) => match event {
                Event::FocusOuter { .. } => StateUpdate::SetQuitDialog(
                    Some(QuitDialog { focused_button: QuitDialogButtonId::GoBack, ..d }),
                ),
                Event::FocusInner => StateUpdate::SetQuitDialog(
                    Some(QuitDialog { focused_button: QuitDialogButtonId::Quit, ..d }),
                ),
                Event::ToggleItem | Event::ToggleItemAndAdvance => {
                    if d.focused_button == QuitDialogButtonId::Quit {
                        StateUpdate::QuitCancel
                    } else {
                        StateUpdate::SetQuitDialog(None)
                    }
                },
                Event::QuitCancel | Event::QuitEscape => StateUpdate::SetQuitDialog(None),
                Event::QuitInterrupt => StateUpdate::QuitCancel,
                _ => StateUpdate::Nothing,
            },
            None => match event {
                Event::Nothing => StateUpdate::Nothing,
                Event::Redraw => StateUpdate::Redraw,
                Event::EnsureSelectionInViewport => StateUpdate::EnsureSelectionInViewport,
                Event::Help => StateUpdate::SetHelpDialog(Some(HelpDialog())),
                Event::QuitAccept => StateUpdate::QuitAccept,
                Event::QuitCancel => if spec_has_unsaved(m) {
                    StateUpdate::SetQuitDialog(Some(spec_new_quit_dialog(m)))
                } else {
                    StateUpdate::QuitCancel
                },
                Event::QuitInterrupt => StateUpdate::SetQuitDialog(
                    Some(spec_new_quit_dialog(m)),
                ),
                Event::QuitEscape => StateUpdate::Nothing,
                Event::TakeScreenshot(s) => StateUpdate::TakeScreenshot(s),
                Event::ScrollUp => StateUpdate::ScrollTo((scroll - 1) as isize),
                Event::ScrollDown => StateUpdate::ScrollTo((scroll + 1) as isize),
                Event::PageUp => StateUpdate::ScrollTo((scroll - term_height) as isize),
                Event::PageDown => StateUpdate::ScrollTo((scroll + term_height) as isize),
                Event::FocusPrev => StateUpdate::SelectItem {
                    selection_key: spec_nav_select(m, exp, sel, focused, true),
                    ensure_in_viewport: true,
                },
                Event::FocusNext => StateUpdate::SelectItem {
                    selection_key: spec_nav_select(m, exp, sel, focused, false),
                    ensure_in_viewport: true,
                },
                Event::FocusPrevSameKind => StateUpdate::SelectItem {
                    selection_key: spec_same_kind_select(m, exp, sel, focused, true),
                    ensure_in_viewport: true,
                },
                Event::FocusNextSameKind => StateUpdate::SelectItem {
                    selection_key: spec_same_kind_select(m, exp, sel, focused, false),
                    ensure_in_viewport: true,
                },
                Event::FocusPrevPage => StateUpdate::SelectItem {
                    selection_key: spec_page_select(
                        m,
                        exp,
                        sel,
                        rects,
                        term_height as int,
                        true,
                    ),
                    ensure_in_viewport: true,
                },
                Event::FocusNextPage => StateUpdate::SelectItem {
                    selection_key: spec_page_select(
                        m,
                        exp,
                        sel,
                        rects,
                        term_height as int,
                        false,
                    ),
                    ensure_in_viewport: true,
                },
                Event::FocusOuter { fold_section } => spec_select_outer(exp, sel, fold_section),
                Event::FocusInner => StateUpdate::SelectItem {
                    selection_key: spec_select_inner(m, sel),
                    ensure_in_viewport: true,
                },
                Event::ToggleItem => StateUpdate::ToggleItem(sel),
                Event::ToggleItemAndAdvance => StateUpdate::ToggleItemAndAdvance(
                    sel,
                    spec_advance(m, sel),
                ),
                Event::ToggleAll => StateUpdate::ToggleAll,
                Event::ToggleAllUniform => StateUpdate::ToggleAllUniform,
                Event::ExpandItem => StateUpdate::ToggleExpandItem(sel),
                Event::ExpandAll => StateUpdate::ToggleExpandAll,
                Event::ToggleCommitViewMode => StateUpdate::ToggleCommitViewMode,
                Event::EditCommitMessage => StateUpdate::EditCommitMessage {
                    commit_idx: focused,
                },
            },
        }
    }
}

/// The commits padded with placeholders so that there are two of them.
pub open spec fn spec_padded_commits(cs: Seq<CommitModel>) -> Seq<CommitModel> {
    if cs.len() >= 2 {
        cs
    } else {
        cs + Seq::new((2 - cs.len()) as nat, |i: int| CommitModel { message: None })
    }
}

impl App {
    /// Builds the application state around the given record: the commit
    /// list is padded to two placeholders, the first file is selected and
    /// every section starts expanded.  More than two commits are
    /// unsupported and refused by the caller contract.
    pub fn new(state: RecordState) -> (r: App)
        requires
            state.commits@.len() <= 2,
        ensures
            r.wf(),
            r.state@.is_read_only == state@.is_read_only,
            r.state@.files == state@.files,
            r.state@.commits == spec_padded_commits(state@.commits),
            r.ui.commit_view_mode == CommitViewMode::Inline,
            r.ui.selection_key == spec_first_key(r.state@, 0),
            r.ui.focused_commit_idx == 0,
            r.ui.help_dialog is None,
            r.ui.quit_dialog is None,
            r.ui.scroll_offset_y == 0,
            r.ui.expanded_items@ == spec_initial_expanded(r.state@),
    {
        let mut state = state;
        let ghost cs0 = crate::types::commit_models(state.commits@);
        if state.commits.len() == 0 {
            state.commits.push(Commit { message: None });
        }
        if state.commits.len() == 1 {
            state.commits.push(Commit { message: None });
        }
        proof {
            assert(crate::types::commit_models(state.commits@) =~= spec_padded_commits(cs0));
        }
        let mut app = App {
            state,
            ui: UiState {
                commit_view_mode: CommitViewMode::Inline,
                expanded_items: KeySet::new(),
                selection_key: SelectionKey::Nothing,
                focused_commit_idx: 0,
                help_dialog: None,
                quit_dialog: None,
                scroll_offset_y: 0,
            },
        };
        let first = app.first_selection_key();
        app.ui.selection_key = first;
        app.expand_initial_items();
        proof {
            assert(app.state@.files =~= state@.files);
        }
        app
    }

    /// How many commits carry a non-empty message.
    pub fn count_commit_messages(&self) -> (r: usize)
        ensures
            r == count_messages(self.state@.commits, self.state@.commits.len() as int),
    {
        let mut count: usize = 0;
        let mut i: usize = 0;
        while i < self.state.commits.len()
            invariant
                0 <= i <= self.state.commits@.len(),
                count <= i,
                count == count_messages(
                    crate::types::commit_models(self.state.commits@),
                    i as int,
                ),
            decreases self.state.commits@.len() - i,
        {
            let nonempty = match &self.state.commits[i].message {
                Some(msg) => !msg.as_str().is_empty(),
                None => false,
            };
            if nonempty {
                count += 1;
            }
            proof {
                assert(crate::types::commit_models(self.state.commits@)[i as int]
                    == self.state.commits@[i as int]@);
            }
            i += 1;
        }
        count
    }

    /// How many files hold any selection.
    pub fn count_changed_files(&self) -> (r: usize)
        ensures
            r == count_changed_files(self.state@.files, self.state@.files.len() as int),
    {
        let mut count: usize = 0;
        let mut i: usize = 0;
        while i < self.state.files.len()
            invariant
                0 <= i <= self.state.files@.len(),
                count <= i,
                count == count_changed_files(file_models(self.state.files@), i as int),
            decreases self.state.files@.len() - i,
        {
            let t = self.state.files[i].tristate();
            let changed = match t {
                Tristate::False => false,
                _ => true,
            };
            if changed {
                count += 1;
            }
            proof {
                assert(file_models(self.state.files@)[i as int] == self.state.files@[i as int]@);
            }
            i += 1;
        }
        count
    }

    /// The reducer: computes the state update one event calls for, without
    /// changing anything.
    pub fn handle_event(
        &self,
        event: Event,
        term_height: usize,
        drawn_rects: &DrawnRects,
    ) -> (r: Result<StateUpdate, RecordError>)
        requires
            self.wf(),
            drawn_rects.wf(),
            term_height <= 0x1000_0000,
        ensures
            r == Ok::<StateUpdate, RecordError>(
                spec_handle_event(*self, event, term_height, drawn_rects.entries@),
            ),
    {
        if self.ui.help_dialog.is_some() {
            return Ok(
                match event {
                    Event::Help | Event::QuitEscape | Event::QuitCancel | Event::ToggleItem
                        | Event::ToggleItemAndAdvance => StateUpdate::SetHelpDialog(None),
                    _ => StateUpdate::Nothing,
                },
            );
        }
        if let Some(d) = self.ui.quit_dialog {
            return Ok(
                match event {
                    Event::FocusOuter { .. } => StateUpdate::SetQuitDialog(
                        Some(
                            QuitDialog { focused_button: QuitDialogButtonId::GoBack, ..d },
                        ),
                    ),
                    Event::FocusInner => StateUpdate::SetQuitDialog(
                        Some(QuitDialog { focused_button: QuitDialogButtonId::Quit, ..d }),
                    ),
                    Event::ToggleItem | Event::ToggleItemAndAdvance => {
                        if d.focused_button == QuitDialogButtonId::Quit {
                            StateUpdate::QuitCancel
                        } else {
                            StateUpdate::SetQuitDialog(None)
                        }
                    },
                    Event::QuitCancel | Event::QuitEscape => StateUpdate::SetQuitDialog(None),
                    Event::QuitInterrupt => StateUpdate::QuitCancel,
                    _ => StateUpdate::Nothing,
                },
            );
        }
        let state_update = match event {
            Event::Nothing => StateUpdate::Nothing,
            Event::Redraw => StateUpdate::Redraw,
            Event::EnsureSelectionInViewport => StateUpdate::EnsureSelectionInViewport,
            Event::Help => StateUpdate::SetHelpDialog(Some(HelpDialog())),
            Event::QuitAccept => StateUpdate::QuitAccept,
            Event::QuitCancel => {
                let nm = self.count_commit_messages();
                let nc = self.count_changed_files();
                if nm > 0 || nc > 0 {
                    StateUpdate::SetQuitDialog(
                        Some(
                            QuitDialog {
                                num_commit_messages: nm,
                                num_changed_files: nc,
                                focused_button: QuitDialogButtonId::Quit,
                            },
                        ),
                    )
                } else {
                    StateUpdate::QuitCancel
                }
            },
            Event::QuitInterrupt => {
                let nm = self.count_commit_messages();
                let nc = self.count_changed_files();
                StateUpdate::SetQuitDialog(
                    Some(
                        QuitDialog {
                            num_commit_messages: nm,
                            num_changed_files: nc,
                            focused_button: QuitDialogButtonId::Quit,
                        },
                    ),
                )
            },
            Event::QuitEscape => StateUpdate::Nothing,
            Event::TakeScreenshot(s) => StateUpdate::TakeScreenshot(s),
            Event::ScrollUp => StateUpdate::ScrollTo(self.ui.scroll_offset_y - 1),
            Event::ScrollDown => StateUpdate::ScrollTo(self.ui.scroll_offset_y + 1),
            Event::PageUp => StateUpdate::ScrollTo(
                self.ui.scroll_offset_y - (term_height as isize),
            ),
            Event::PageDown => StateUpdate::ScrollTo(
                self.ui.scroll_offset_y + (term_height as isize),
            ),
            Event::FocusPrev => {
                let (keys, index) = self.find_selection();
                proof {
                    lemma_first_index_props(keys@, self.ui.selection_key);
                }
                let selection_key = self.select_prev(&keys, index);
                StateUpdate::SelectItem { selection_key, ensure_in_viewport: true }
            },
            Event::FocusNext => {
                let (keys, index) = self.find_selection();
                proof {
                    lemma_first_index_props(keys@, self.ui.selection_key);
                }
                let selection_key = self.select_next(&keys, index);
                StateUpdate::SelectItem { selection_key, ensure_in_viewport: true }
            },
            Event::FocusPrevSameKind => {
                let selection_key = self.select_prev_or_next_of_same_kind(true);
                StateUpdate::SelectItem { selection_key, ensure_in_viewport: true }
            },
            Event::FocusNextSameKind => {
                let selection_key = self.select_prev_or_next_of_same_kind(false);
                StateUpdate::SelectItem { selection_key, ensure_in_viewport: true }
            },
            Event::FocusPrevPage => {
                let selection_key = self.select_prev_page(term_height, drawn_rects);
                StateUpdate::SelectItem { selection_key, ensure_in_viewport: true }
            },
            Event::FocusNextPage => {
                let selection_key = self.select_next_page(term_height, drawn_rects);
                StateUpdate::SelectItem { selection_key, ensure_in_viewport: true }
            },
            Event::FocusOuter { fold_section } => self.select_outer(fold_section),
            Event::FocusInner => {
                let selection_key = self.select_inner();
                StateUpdate::SelectItem { selection_key, ensure_in_viewport: true }
            },
            Event::ToggleItem => StateUpdate::ToggleItem(self.ui.selection_key),
            Event::ToggleItemAndAdvance => {
                let advanced_key = self.advance_to_next_of_kind();
                StateUpdate::ToggleItemAndAdvance(self.ui.selection_key, advanced_key)
            },
            Event::ToggleAll => StateUpdate::ToggleAll,
            Event::ToggleAllUniform => StateUpdate::ToggleAllUniform,
            Event::ExpandItem => StateUpdate::ToggleExpandItem(self.ui.selection_key),
            Event::ExpandAll => StateUpdate::ToggleExpandAll,
            Event::ToggleCommitViewMode => StateUpdate::ToggleCommitViewMode,
            Event::EditCommitMessage => StateUpdate::EditCommitMessage {
                commit_idx: self.ui.focused_commit_idx,
            },
        };
        Ok(state_update)
    }
}

impl App {
    /// The file a key points at, or a `Bug` error for a key that points at
    /// nothing.
    pub fn file(&self, file_key: FileKey) -> (r: Result<&crate::types::File, RecordError>)
        ensures
            if file_key.file_idx < self.state@.files.len() {
                r is Ok && (*r->Ok_0)@ == self.state@.files[file_key.file_idx as int]
            } else {
                r is Err && r->Err_0 is Bug
            },
    {
        if file_key.file_idx < self.state.files.len() {
            Ok(&self.state.files[file_key.file_idx])
        } else {
            Err(RecordError::Bug("out-of-bounds file index".to_owned()))
        }
    }

    /// The section a key points at, or a `Bug` error for a key that points
    /// at nothing.
    pub fn section(&self, section_key: SectionKey) -> (r: Result<&Section, RecordError>)
        ensures
            if section_key.file_idx < self.state@.files.len() && section_key.section_idx
                < self.state@.files[section_key.file_idx as int].sections.len() {
                r is Ok && (*r->Ok_0)@ == self.state@.files[section_key.file_idx as int]
                    .sections[section_key.section_idx as int]
            } else {
                r is Err && r->Err_0 is Bug
            },
    {
        if section_key.file_idx >= self.state.files.len() {
            return Err(RecordError::Bug("out-of-bounds file index".to_owned()));
        }
        if section_key.section_idx >= self.state.files[section_key.file_idx].sections.len() {
            return Err(RecordError::Bug("out-of-bounds section index".to_owned()));
        }
        Ok(&self.state.files[section_key.file_idx].sections[section_key.section_idx])
    }
}

} // verus!
