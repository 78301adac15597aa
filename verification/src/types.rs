//! The data model: commits, files, sections, changed lines, and the
//! three-valued selection state folded over them.

use vstd::prelude::*;

verus! {

/// Three-valued selection state: unchecked, checked, or mixed.
#[derive(Clone, Copy, Debug, PartialEq, Eq, Hash, Structural)]
pub enum Tristate {
    False,
    True,
    Partial,
}

/// Whether a changed line adds or removes content.
#[derive(Clone, Copy, Debug, PartialEq, Eq, Hash, Structural)]
pub enum ChangeType {
    Added,
    Removed,
}

/// A file's mode on one side of the diff: a Unix mode word, or absent
/// (the file does not exist on that side).
#[derive(Clone, Copy, Debug, PartialEq, Eq, Hash, Structural)]
pub enum FileMode {
    Unix(u32),
    Absent,
}

impl FileMode {
    /// The default mode of an ordinary file, `0o100644`.
    pub fn file_default() -> (r: FileMode)
        ensures
            r == FileMode::Unix(0o100644u32),
    {
        FileMode::Unix(0o100644)
    }
}

/// One added or removed line inside a changed section.
#[derive(Debug, PartialEq, Eq)]
pub struct SectionChangedLine {
    pub is_checked: bool,
    pub change_type: ChangeType,
    pub line: String,
}

/// A contiguous region of a file's diff.
#[derive(Debug, PartialEq, Eq)]
pub enum Section {
    /// Context lines; not editable and not expandable.
    Unchanged { lines: Vec<String> },
    /// A hunk of added/removed lines; editable and expandable.
    Changed { lines: Vec<SectionChangedLine> },
    /// A mode-change pseudo-section (creation or deletion); editable.
    FileMode { is_checked: bool, mode: FileMode },
    /// An opaque binary change; editable.
    Binary {
        is_checked: bool,
        old_description: Option<String>,
        new_description: Option<String>,
    },
}

/// One file under review.
#[derive(Debug, PartialEq, Eq)]
pub struct File {
    pub old_path: Option<String>,
    pub path: String,
    pub file_mode: FileMode,
    pub sections: Vec<Section>,
}

/// A prospective commit; a commit without a message is a placeholder.
#[derive(Debug, PartialEq, Eq)]
pub struct Commit {
    pub message: Option<String>,
}

/// The root state handed to the engine and returned on a successful quit.
#[derive(Debug, PartialEq, Eq)]
pub struct RecordState {
    pub is_read_only: bool,
    pub commits: Vec<Commit>,
    pub files: Vec<File>,
}

/// The engine's error taxonomy.  Causes are carried as plain text.
#[derive(Clone, Debug, PartialEq, Eq)]
pub enum RecordError {
    Cancelled,
    SetUpTerminal(String),
    CleanUpTerminal(String),
    RenderFrame(String),
    WriteFile(String),
    SerializeJson(String),
    EditCommitMessage(String),
    Bug(String),
}

// ---------------------------------------------------------------------------
// Mathematical model of the data types.
// ---------------------------------------------------------------------------

/// Model of a changed line.
#[verifier::ext_equal]
pub struct LineModel {
    pub is_checked: bool,
    pub change_type: ChangeType,
    pub line: Seq<char>,
}

/// Model of a section.
#[verifier::ext_equal]
pub enum SectionModel {
    Unchanged { lines: Seq<Seq<char>> },
    Changed { lines: Seq<LineModel> },
    FileMode { is_checked: bool, mode: FileMode },
    Binary {
        is_checked: bool,
        old_description: Option<Seq<char>>,
        new_description: Option<Seq<char>>,
    },
}

/// Model of a file.
#[verifier::ext_equal]
pub struct FileModel {
    pub old_path: Option<Seq<char>>,
    pub path: Seq<char>,
    pub file_mode: FileMode,
    pub sections: Seq<SectionModel>,
}

/// Model of a commit.
#[verifier::ext_equal]
pub struct CommitModel {
    pub message: Option<Seq<char>>,
}

/// Model of the root state.
#[verifier::ext_equal]
pub struct RecordModel {
    pub is_read_only: bool,
    pub commits: Seq<CommitModel>,
    pub files: Seq<FileModel>,
}

pub open spec fn view_of_opt_string(s: Option<String>) -> Option<Seq<char>> {
    match s {
        Some(x) => Some(x@),
        None => None,
    }
}

/// The models of a sequence of strings.
pub open spec fn string_views(v: Seq<String>) -> Seq<Seq<char>> {
    Seq::new(v.len(), |i: int| v[i]@)
}

/// The models of a sequence of changed lines.
pub open spec fn line_models(v: Seq<SectionChangedLine>) -> Seq<LineModel> {
    Seq::new(v.len(), |i: int| v[i]@)
}

/// The models of a sequence of sections.
pub open spec fn section_models(v: Seq<Section>) -> Seq<SectionModel> {
    Seq::new(v.len(), |i: int| v[i]@)
}

/// The models of a sequence of commits.
pub open spec fn commit_models(v: Seq<Commit>) -> Seq<CommitModel> {
    Seq::new(v.len(), |i: int| v[i]@)
}

/// The models of a sequence of files.
pub open spec fn file_models(v: Seq<File>) -> Seq<FileModel> {
    Seq::new(v.len(), |i: int| v[i]@)
}

impl View for SectionChangedLine {
    type V = LineModel;

    open spec fn view(&self) -> LineModel {
        LineModel {
            is_checked: self.is_checked,
            change_type: self.change_type,
            line: self.line@,
        }
    }
}

impl View for Section {
    type V = SectionModel;

    open spec fn view(&self) -> SectionModel {
        match self {
            Section::Unchanged { lines } => SectionModel::Unchanged {
                lines: string_views(lines@),
            },
            Section::Changed { lines } => SectionModel::Changed { lines: line_models(lines@) },
            Section::FileMode { is_checked, mode } => SectionModel::FileMode {
                is_checked: *is_checked,
                mode: *mode,
            },
            Section::Binary { is_checked, old_description, new_description } => {
                SectionModel::Binary {
                    is_checked: *is_checked,
                    old_description: view_of_opt_string(*old_description),
                    new_description: view_of_opt_string(*new_description),
                }
            },
        }
    }
}

impl View for File {
    type V = FileModel;

    open spec fn view(&self) -> FileModel {
        FileModel {
            old_path: view_of_opt_string(self.old_path),
            path: self.path@,
            file_mode: self.file_mode,
            sections: section_models(self.sections@),
        }
    }
}

impl View for Commit {
    type V = CommitModel;

    open spec fn view(&self) -> CommitModel {
        CommitModel { message: view_of_opt_string(self.message) }
    }
}

impl View for RecordState {
    type V = RecordModel;

    open spec fn view(&self) -> RecordModel {
        RecordModel {
            is_read_only: self.is_read_only,
            commits: commit_models(self.commits@),
            files: file_models(self.files@),
        }
    }
}

// ---------------------------------------------------------------------------
// The tristate fold.
// ---------------------------------------------------------------------------

pub open spec fn tri_of_bool(b: bool) -> Tristate {
    if b {
        Tristate::True
    } else {
        Tristate::False
    }
}

/// The fold's combining step: agreement keeps the value, disagreement is
/// `Partial`.
pub open spec fn tri_join(a: Tristate, b: Tristate) -> Tristate {
    if a == b {
        a
    } else {
        Tristate::Partial
    }
}

/// Folding tristates into an accumulator with `tri_join`, left to right.
pub open spec fn tri_fold_from(a: Tristate, ts: Seq<Tristate>) -> Tristate
    decreases ts.len(),
{
    if ts.len() == 0 {
        a
    } else {
        tri_fold_from(tri_join(a, ts[0]), ts.drop_first())
    }
}

/// Fold a sequence of tristates with `tri_join`; an empty sequence folds to
/// `False`.
pub open spec fn tri_fold(ts: Seq<Tristate>) -> Tristate {
    if ts.len() == 0 {
        Tristate::False
    } else {
        tri_fold_from(ts[0], ts.drop_first())
    }
}

/// The accumulator fold is `True` exactly when the accumulator and every
/// element are.
pub proof fn lemma_tri_fold_from_true(a: Tristate, ts: Seq<Tristate>)
    ensures
        tri_fold_from(a, ts) == Tristate::True <==> (a == Tristate::True && forall|i: int|
            0 <= i < ts.len() ==> ts[i] == Tristate::True),
    decreases ts.len(),
{
    if ts.len() > 0 {
        let rest = ts.drop_first();
        lemma_tri_fold_from_true(tri_join(a, ts[0]), rest);
        if tri_fold_from(a, ts) == Tristate::True {
            assert forall|i: int| 0 <= i < ts.len() implies ts[i] == Tristate::True by {
                if i > 0 {
                    assert(rest[i - 1] == ts[i]);
                }
            }
        }
        if a == Tristate::True && (forall|i: int|
            0 <= i < ts.len() ==> ts[i] == Tristate::True) {
            assert forall|i: int| 0 <= i < rest.len() implies rest[i] == Tristate::True by {
                assert(rest[i] == ts[i + 1]);
            }
        }
    }
}

/// The accumulator fold is `False` exactly when the accumulator and every
/// element are.
pub proof fn lemma_tri_fold_from_false(a: Tristate, ts: Seq<Tristate>)
    ensures
        tri_fold_from(a, ts) == Tristate::False <==> (a == Tristate::False && forall|i: int|
            0 <= i < ts.len() ==> ts[i] == Tristate::False),
    decreases ts.len(),
{
    if ts.len() > 0 {
        let rest = ts.drop_first();
        lemma_tri_fold_from_false(tri_join(a, ts[0]), rest);
        if tri_fold_from(a, ts) == Tristate::False {
            assert forall|i: int| 0 <= i < ts.len() implies ts[i] == Tristate::False by {
                if i > 0 {
                    assert(rest[i - 1] == ts[i]);
                }
            }
        }
        if a == Tristate::False && (forall|i: int|
            0 <= i < ts.len() ==> ts[i] == Tristate::False) {
            assert forall|i: int| 0 <= i < rest.len() implies rest[i] == Tristate::False by {
                assert(rest[i] == ts[i + 1]);
            }
        }
    }
}

/// The fold is `True` exactly when the sequence is non-empty and uniformly
/// `True`.
pub proof fn lemma_tri_fold_true(ts: Seq<Tristate>)
    ensures
        tri_fold(ts) == Tristate::True <==> (ts.len() > 0 && forall|i: int|
            0 <= i < ts.len() ==> ts[i] == Tristate::True),
{
    if ts.len() > 0 {
        let rest = ts.drop_first();
        lemma_tri_fold_from_true(ts[0], rest);
        if tri_fold(ts) == Tristate::True {
            assert forall|i: int| 0 <= i < ts.len() implies ts[i] == Tristate::True by {
                if i > 0 {
                    assert(rest[i - 1] == ts[i]);
                }
            }
        }
        if ts.len() > 0 && (forall|i: int| 0 <= i < ts.len() ==> ts[i] == Tristate::True) {
            assert forall|i: int| 0 <= i < rest.len() implies rest[i] == Tristate::True by {
                assert(rest[i] == ts[i + 1]);
            }
        }
    }
}

/// The fold is `False` exactly when the sequence is empty or uniformly
/// `False`.
pub proof fn lemma_tri_fold_false(ts: Seq<Tristate>)
    ensures
        tri_fold(ts) == Tristate::False <==> (forall|i: int|
            0 <= i < ts.len() ==> ts[i] == Tristate::False),
{
    if ts.len() > 0 {
        let rest = ts.drop_first();
        lemma_tri_fold_from_false(ts[0], rest);
        if tri_fold(ts) == Tristate::False {
            assert forall|i: int| 0 <= i < ts.len() implies ts[i] == Tristate::False by {
                if i > 0 {
                    assert(rest[i - 1] == ts[i]);
                }
            }
        }
        if forall|i: int| 0 <= i < ts.len() ==> ts[i] == Tristate::False {
            assert forall|i: int| 0 <= i < rest.len() implies rest[i] == Tristate::False by {
                assert(rest[i] == ts[i + 1]);
            }
        }
    }
}

// ---------------------------------------------------------------------------
// Section-level specs.
// ---------------------------------------------------------------------------

/// Only changed hunks, mode changes and binary changes may be toggled.
pub open spec fn spec_editable(s: SectionModel) -> bool {
    !(s is Unchanged)
}

/// Tristate of a changed hunk: `False` if no line is checked, `True` if all
/// are (and there is at least one), `Partial` otherwise.  An empty hunk is
/// `False`.
pub open spec fn changed_tristate(lines: Seq<LineModel>) -> Tristate {
    if forall|i: int| 0 <= i < lines.len() ==> !lines[i].is_checked {
        Tristate::False
    } else if forall|i: int| 0 <= i < lines.len() ==> lines[i].is_checked {
        Tristate::True
    } else {
        Tristate::Partial
    }
}

/// Tristate of any section.
pub open spec fn spec_section_tristate(s: SectionModel) -> Tristate {
    match s {
        SectionModel::Unchanged { .. } => Tristate::False,
        SectionModel::Changed { lines } => changed_tristate(lines),
        SectionModel::FileMode { is_checked, .. } => tri_of_bool(is_checked),
        SectionModel::Binary { is_checked, .. } => tri_of_bool(is_checked),
    }
}

/// One changed line with its checked flag overwritten.
pub open spec fn line_set_checked(l: LineModel, checked: bool) -> LineModel {
    LineModel { is_checked: checked, ..l }
}

/// Every line of a hunk with its checked flag overwritten.
pub open spec fn lines_set_checked(lines: Seq<LineModel>, checked: bool) -> Seq<LineModel> {
    Seq::new(lines.len(), |i: int| line_set_checked(lines[i], checked))
}

/// Setting a section's checked state: every line of a changed hunk, or the
/// flag of a mode-change or binary section.  Context sections are untouched.
pub open spec fn spec_section_set_checked(s: SectionModel, checked: bool) -> SectionModel {
    match s {
        SectionModel::Unchanged { lines } => SectionModel::Unchanged { lines },
        SectionModel::Changed { lines } => SectionModel::Changed {
            lines: lines_set_checked(lines, checked),
        },
        SectionModel::FileMode { is_checked, mode } => SectionModel::FileMode {
            is_checked: checked,
            mode,
        },
        SectionModel::Binary { is_checked, old_description, new_description } => {
            SectionModel::Binary { is_checked: checked, old_description, new_description }
        },
    }
}

// ---------------------------------------------------------------------------
// File-level specs.
// ---------------------------------------------------------------------------

/// Forward accumulator form of the editable-section fold, mirroring the
/// executable loop.
pub open spec fn file_tristate_rec(sections: Seq<SectionModel>, acc: Option<Tristate>) -> Tristate
    decreases sections.len(),
{
    if sections.len() == 0 {
        match acc {
            None => Tristate::False,
            Some(t) => t,
        }
    } else {
        let s = sections[0];
        let acc2 = if spec_editable(s) {
            match acc {
                None => Some(spec_section_tristate(s)),
                Some(t) => Some(tri_join(t, spec_section_tristate(s))),
            }
        } else {
            acc
        };
        file_tristate_rec(sections.drop_first(), acc2)
    }
}

/// Tristate of a file: the fold of its editable sections' tristates; a file
/// with no editable section is `False`.
pub open spec fn spec_file_tristate(f: FileModel) -> Tristate {
    file_tristate_rec(f.sections, None)
}

/// Every editable section of a file with its checked state overwritten.
pub open spec fn sections_set_checked(s: Seq<SectionModel>, checked: bool) -> Seq<SectionModel> {
    Seq::new(s.len(), |i: int| spec_section_set_checked(s[i], checked))
}

/// Setting every editable section of a file.
pub open spec fn spec_file_set_checked(f: FileModel, checked: bool) -> FileModel {
    FileModel { sections: sections_set_checked(f.sections, checked), ..f }
}

/// The group toggle of one file: check everything exactly when the file's
/// tristate is `False`, otherwise uncheck everything.
pub open spec fn spec_file_toggle(f: FileModel) -> FileModel {
    spec_file_set_checked(f, spec_file_tristate(f) == Tristate::False)
}

// ---------------------------------------------------------------------------
// Executable operations.
// ---------------------------------------------------------------------------

impl Tristate {
    /// The tristate mirroring a plain checkbox.
    pub fn from_bool(b: bool) -> (r: Tristate)
        ensures
            r == tri_of_bool(b),
    {
        if b {
            Tristate::True
        } else {
            Tristate::False
        }
    }

    /// One combining step of the selection fold.
    pub fn join(self, other: Tristate) -> (r: Tristate)
        ensures
            r == tri_join(self, other),
    {
        match (self, other) {
            (Tristate::False, Tristate::False) => Tristate::False,
            (Tristate::True, Tristate::True) => Tristate::True,
            (Tristate::Partial, Tristate::Partial) => Tristate::Partial,
            _ => Tristate::Partial,
        }
    }
}

impl Clone for SectionChangedLine {
    fn clone(&self) -> (r: Self)
        ensures
            r@ == self@,
    {
        SectionChangedLine {
            is_checked: self.is_checked,
            change_type: self.change_type,
            line: self.line.clone(),
        }
    }
}

/// Clones an optional string, preserving the model.
pub fn clone_opt_string(s: &Option<String>) -> (r: Option<String>)
    ensures
        view_of_opt_string(r) == view_of_opt_string(*s),
{
    match s {
        Some(x) => Some(x.clone()),
        None => None,
    }
}

impl Clone for Section {
    fn clone(&self) -> (r: Self)
        ensures
            r@ == self@,
    {
        match self {
            Section::Unchanged { lines } => {
                let cl = lines.clone();
                proof {
                    assert(string_views(cl@) =~= string_views(lines@));
                }
                let r = Section::Unchanged { lines: cl };
                proof {
                    assert(r@ =~= self@);
                }
                r
            },
            Section::Changed { lines } => {
                let cl = lines.clone();
                proof {
                    assert(line_models(cl@) =~= line_models(lines@));
                }
                let r = Section::Changed { lines: cl };
                proof {
                    assert(r@ =~= self@);
                }
                r
            },
            Section::FileMode { is_checked, mode } => Section::FileMode {
                is_checked: *is_checked,
                mode: *mode,
            },
            Section::Binary { is_checked, old_description, new_description } => Section::Binary {
                is_checked: *is_checked,
                old_description: clone_opt_string(old_description),
                new_description: clone_opt_string(new_description),
            },
        }
    }
}

impl Section {
    /// Whether this section can be toggled.
    pub fn is_editable(&self) -> (r: bool)
        ensures
            r == spec_editable(self@),
    {
        match self {
            Section::Unchanged { .. } => false,
            _ => true,
        }
    }

    /// The folded selection state of this section.
    pub fn tristate(&self) -> (r: Tristate)
        ensures
            r == spec_section_tristate(self@),
    {
        match self {
            Section::Unchanged { .. } => Tristate::False,
            Section::FileMode { is_checked, .. } => Tristate::from_bool(*is_checked),
            Section::Binary { is_checked, .. } => Tristate::from_bool(*is_checked),
            Section::Changed { lines } => {
                let mut any_checked = false;
                let mut any_unchecked = false;
                let mut i: usize = 0;
                while i < lines.len()
                    invariant
                        0 <= i <= lines.len(),
                        any_checked == exists|j: int|
                            0 <= j < i && line_models(lines@)[j].is_checked,
                        any_unchecked == exists|j: int|
                            0 <= j < i && !line_models(lines@)[j].is_checked,
                    decreases lines.len() - i,
                {
                    if lines[i].is_checked {
                        any_checked = true;
                        proof {
                            assert(line_models(lines@)[i as int].is_checked);
                        }
                    } else {
                        any_unchecked = true;
                        proof {
                            assert(!line_models(lines@)[i as int].is_checked);
                        }
                    }
                    i += 1;
                }
                if !any_checked {
                    Tristate::False
                } else if !any_unchecked {
                    Tristate::True
                } else {
                    Tristate::Partial
                }
            },
        }
    }

    /// Sets the checked state of every togglable part of this section.
    pub fn set_checked(&mut self, checked: bool)
        ensures
            final(self)@ == spec_section_set_checked(old(self)@, checked),
    {
        let new = match &*self {
            Section::Unchanged { lines } => {
                let cl = lines.clone();
                proof {
                    assert(string_views(cl@) =~= string_views(lines@));
                }
                let r = Section::Unchanged { lines: cl };
                proof {
                    assert(r@ =~= spec_section_set_checked(self@, checked));
                }
                r
            },
            Section::Changed { lines } => {
                let mut new_lines: Vec<SectionChangedLine> = Vec::new();
                let mut i: usize = 0;
                while i < lines.len()
                    invariant
                        0 <= i <= lines.len(),
                        new_lines@.len() == i,
                        forall|j: int|
                            0 <= j < i ==> #[trigger] new_lines@[j]@ == line_set_checked(
                                lines@[j]@,
                                checked,
                            ),
                    decreases lines.len() - i,
                {
                    new_lines.push(
                        SectionChangedLine {
                            is_checked: checked,
                            change_type: lines[i].change_type,
                            line: lines[i].line.clone(),
                        },
                    );
                    i += 1;
                }
                let r = Section::Changed { lines: new_lines };
                proof {
                    assert(line_models(new_lines@) =~= lines_set_checked(
                        line_models(lines@),
                        checked,
                    ));
                    assert(r@ =~= spec_section_set_checked(self@, checked));
                }
                r
            },
            Section::FileMode { is_checked: _, mode } => Section::FileMode {
                is_checked: checked,
                mode: *mode,
            },
            Section::Binary { is_checked: _, old_description, new_description } => {
                Section::Binary {
                    is_checked: checked,
                    old_description: clone_opt_string(old_description),
                    new_description: clone_opt_string(new_description),
                }
            },
        };
        *self = new;
    }
}

impl Clone for File {
    fn clone(&self) -> (r: Self)
        ensures
            r@ == self@,
    {
        let mut sections: Vec<Section> = Vec::new();
        let mut i: usize = 0;
        while i < self.sections.len()
            invariant
                0 <= i <= self.sections.len(),
                sections@.len() == i,
                forall|j: int| 0 <= j < i ==> #[trigger] sections@[j]@ == self.sections@[j]@,
            decreases self.sections.len() - i,
        {
            sections.push(self.sections[i].clone());
            i += 1;
        }
        proof {
            assert(section_models(sections@) =~= section_models(self.sections@));
        }
        let r = File {
            old_path: clone_opt_string(&self.old_path),
            path: self.path.clone(),
            file_mode: self.file_mode,
            sections,
        };
        proof {
            assert(r@ =~= self@);
        }
        r
    }
}

impl File {
    /// The folded selection state of this file's editable sections.
    pub fn tristate(&self) -> (r: Tristate)
        ensures
            r == spec_file_tristate(self@),
    {
        let ghost sm = section_models(self.sections@);
        let mut acc: Option<Tristate> = None;
        let mut i: usize = 0;
        proof {
            assert(sm.skip(0) =~= sm);
        }
        while i < self.sections.len()
            invariant
                0 <= i <= self.sections.len(),
                sm == section_models(self.sections@),
                file_tristate_rec(sm, None) == file_tristate_rec(sm.skip(i as int), acc),
            decreases self.sections.len() - i,
        {
            let ghost acc0 = acc;
            let s = &self.sections[i];
            if s.is_editable() {
                let t = s.tristate();
                acc = match acc {
                    None => Some(t),
                    Some(a) => Some(a.join(t)),
                };
            }
            proof {
                assert(sm.skip(i as int)[0] == sm[i as int]);
                assert(sm.skip(i as int).drop_first() =~= sm.skip(i + 1));
                assert(file_tristate_rec(sm.skip(i as int), acc0) == file_tristate_rec(
                    sm.skip(i + 1),
                    acc,
                ));
            }
            i += 1;
        }
        proof {
            assert(sm.skip(sm.len() as int) =~= Seq::<SectionModel>::empty());
        }
        match acc {
            None => Tristate::False,
            Some(t) => t,
        }
    }

    /// Sets the checked state of every editable section.
    pub fn set_checked(&mut self, checked: bool)
        ensures
            final(self)@ == spec_file_set_checked(old(self)@, checked),
    {
        let n = self.sections.len();
        let mut i: usize = 0;
        while i < n
            invariant
                0 <= i <= n,
                n == self.sections.len(),
                self.old_path == old(self).old_path,
                self.path == old(self).path,
                self.file_mode == old(self).file_mode,
                self.sections@.len() == old(self).sections@.len(),
                forall|j: int|
                    0 <= j < i ==> #[trigger] self.sections@[j]@ == spec_section_set_checked(
                        old(self).sections@[j]@,
                        checked,
                    ),
                forall|j: int|
                    i <= j < n ==> #[trigger] self.sections@[j]@ == old(self).sections@[j]@,
            decreases n - i,
        {
            let section = &mut self.sections[i];
            section.set_checked(checked);
            i += 1;
        }
        proof {
            assert(section_models(self.sections@) =~= sections_set_checked(
                section_models(old(self).sections@),
                checked,
            ));
            assert(final(self)@ =~= spec_file_set_checked(old(self)@, checked));
        }
    }

    /// The group toggle: check everything exactly when the file's tristate
    /// is `False`, otherwise uncheck everything.
    pub fn toggle_all(&mut self)
        ensures
            final(self)@ == spec_file_toggle(old(self)@),
    {
        let t = self.tristate();
        let checked_new = match t {
            Tristate::False => true,
            Tristate::True | Tristate::Partial => false,
        };
        self.set_checked(checked_new);
    }
}

impl Clone for Commit {
    fn clone(&self) -> (r: Self)
        ensures
            r@ == self@,
    {
        Commit { message: clone_opt_string(&self.message) }
    }
}

impl Clone for RecordState {
    fn clone(&self) -> (r: Self)
        ensures
            r@ == self@,
    {
        let mut commits: Vec<Commit> = Vec::new();
        let mut i: usize = 0;
        while i < self.commits.len()
            invariant
                0 <= i <= self.commits.len(),
                commits@.len() == i,
                forall|j: int| 0 <= j < i ==> #[trigger] commits@[j]@ == self.commits@[j]@,
            decreases self.commits.len() - i,
        {
            commits.push(self.commits[i].clone());
            i += 1;
        }
        let mut files: Vec<File> = Vec::new();
        let mut k: usize = 0;
        while k < self.files.len()
            invariant
                0 <= k <= self.files.len(),
                files@.len() == k,
                forall|j: int| 0 <= j < k ==> #[trigger] files@[j]@ == self.files@[j]@,
            decreases self.files.len() - k,
        {
            files.push(self.files[k].clone());
            k += 1;
        }
        proof {
            assert(commit_models(commits@) =~= commit_models(self.commits@));
            assert(file_models(files@) =~= file_models(self.files@));
        }
        let r = RecordState { is_read_only: self.is_read_only, commits, files };
        proof {
            assert(r@ =~= self@);
        }
        r
    }
}

// ---------------------------------------------------------------------------
// Toggling one section or line, with the cross-section coherence rules.
// ---------------------------------------------------------------------------

/// A changed hunk becomes fully checked; any other section is untouched.
pub open spec fn section_check_changed(s: SectionModel) -> SectionModel {
    if s is Changed {
        spec_section_set_checked(s, true)
    } else {
        s
    }
}

/// Checking a deletion forces every changed hunk of the file to be checked:
/// deleting the file deletes every line.
pub open spec fn spec_check_changed_sections(f: FileModel) -> FileModel {
    FileModel {
        sections: Seq::new(f.sections.len(), |i: int| section_check_changed(f.sections[i])),
        ..f
    }
}

/// The coherence rule a toggled hunk or line imposes on one mode-change
/// pseudo-section: unchecking content of a to-be-deleted file withdraws the
/// deletion; checking content of a not-yet-created file forces the creation.
pub open spec fn section_mode_coherence(
    s: SectionModel,
    file_mode: FileMode,
    toggled_to: bool,
) -> SectionModel {
    match s {
        SectionModel::FileMode { is_checked, mode } => {
            let c1 = if !toggled_to && mode == FileMode::Absent {
                false
            } else {
                is_checked
            };
            let c2 = if toggled_to && file_mode == FileMode::Absent {
                true
            } else {
                c1
            };
            SectionModel::FileMode { is_checked: c2, mode }
        },
        _ => s,
    }
}

/// The coherence pass over a whole file after a hunk or line was toggled.
pub open spec fn spec_coherence_changed(f: FileModel, toggled_to: bool) -> FileModel {
    FileModel {
        sections: Seq::new(
            f.sections.len(),
            |i: int| section_mode_coherence(f.sections[i], f.file_mode, toggled_to),
        ),
        ..f
    }
}

/// Toggling the section at `j`: round the section's tristate (checked
/// exactly when it was `False`), then run the coherence rule that the
/// section's kind calls for.
pub open spec fn spec_file_toggle_section(f: FileModel, j: int) -> FileModel {
    let s = f.sections[j];
    let checked_new = spec_section_tristate(s) == Tristate::False;
    let f2 = FileModel {
        sections: f.sections.update(j, spec_section_set_checked(s, checked_new)),
        ..f
    };
    match s {
        SectionModel::FileMode { mode, .. } => {
            if checked_new && mode == FileMode::Absent {
                spec_check_changed_sections(f2)
            } else if !checked_new && f.file_mode == FileMode::Absent {
                spec_file_set_checked(f2, false)
            } else {
                f2
            }
        },
        SectionModel::Changed { .. } => spec_coherence_changed(f2, checked_new),
        _ => f2,
    }
}

/// Toggling the line at `(j, li)` of a changed hunk: flip the line, then
/// run the content coherence pass.
pub open spec fn spec_file_toggle_line(f: FileModel, j: int, li: int) -> FileModel {
    match f.sections[j] {
        SectionModel::Changed { lines } => {
            let toggled_to = !lines[li].is_checked;
            let s2 = SectionModel::Changed {
                lines: lines.update(li, LineModel { is_checked: toggled_to, ..lines[li] }),
            };
            let f2 = FileModel { sections: f.sections.update(j, s2), ..f };
            spec_coherence_changed(f2, toggled_to)
        },
        _ => f,
    }
}

impl Section {
    /// The number of changed lines; zero for any other section kind.
    pub fn num_changed_lines(&self) -> (r: usize)
        ensures
            r == (match self@ {
                SectionModel::Changed { lines } => lines.len(),
                _ => 0,
            }),
    {
        match self {
            Section::Changed { lines } => lines.len(),
            _ => 0,
        }
    }

    /// Flips one line of a changed hunk; returns the line's new state.
    pub fn toggle_line(&mut self, li: usize) -> (toggled_to: bool)
        requires
            old(self)@ is Changed,
            li < old(self)@.arrow_Changed_lines().len(),
        ensures
            ({
                let lines = old(self)@.arrow_Changed_lines();
                &&& toggled_to == !lines[li as int].is_checked
                &&& final(self)@ == SectionModel::Changed {
                    lines: lines.update(
                        li as int,
                        LineModel { is_checked: toggled_to, ..lines[li as int] },
                    ),
                }
            }),
    {
        match self {
            Section::Changed { lines } => {
                let new_checked = !lines[li].is_checked;
                let change_type = lines[li].change_type;
                let content = lines[li].line.clone();
                lines[li] = SectionChangedLine { is_checked: new_checked, change_type, line: content };
                proof {
                    assert(line_models(lines@) =~= old(self)@.arrow_Changed_lines().update(
                        li as int,
                        LineModel {
                            is_checked: new_checked,
                            ..old(self)@.arrow_Changed_lines()[li as int]
                        },
                    ));
                }
                new_checked
            },
            _ => false,
        }
    }
}


/// The replacement a mode-change pseudo-section needs under the content
/// coherence rules, or `None` when the section is of another kind.
fn mode_coherence_update(s: &Section, file_mode: FileMode, toggled_to: bool) -> (r: Option<
    (bool, FileMode),
>)
    ensures
        match r {
            Some(p) => section_mode_coherence(s@, file_mode, toggled_to) == (
            SectionModel::FileMode { is_checked: p.0, mode: p.1 }),
            None => section_mode_coherence(s@, file_mode, toggled_to) == s@,
        },
{
    match s {
        Section::FileMode { is_checked, mode } => {
            let c1 = if !toggled_to && *mode == FileMode::Absent {
                false
            } else {
                *is_checked
            };
            let c2 = if toggled_to && file_mode == FileMode::Absent {
                true
            } else {
                c1
            };
            return Some((c2, *mode));
        },
        _ => {
            return None;
        },
    }
}

impl File {
    /// Checks every changed hunk; the other sections keep their state.
    pub fn check_changed_sections(&mut self)
        ensures
            final(self)@ == spec_check_changed_sections(old(self)@),
    {
        let n = self.sections.len();
        let mut i: usize = 0;
        while i < n
            invariant
                0 <= i <= n,
                n == self.sections.len(),
                self.old_path == old(self).old_path,
                self.path == old(self).path,
                self.file_mode == old(self).file_mode,
                self.sections@.len() == old(self).sections@.len(),
                forall|j: int|
                    0 <= j < i ==> #[trigger] self.sections@[j]@ == section_check_changed(
                        old(self).sections@[j]@,
                    ),
                forall|j: int|
                    i <= j < n ==> #[trigger] self.sections@[j]@ == old(self).sections@[j]@,
            decreases n - i,
        {
            let editable_hunk = match &self.sections[i] {
                Section::Changed { .. } => true,
                _ => false,
            };
            if editable_hunk {
                let section = &mut self.sections[i];
                section.set_checked(true);
            }
            i += 1;
        }
        proof {
            assert(final(self)@ =~= spec_check_changed_sections(old(self)@));
        }
    }

    /// Applies the content coherence rules to every mode-change
    /// pseudo-section after a hunk or line was toggled to `toggled_to`.
    pub fn apply_changed_coherence(&mut self, toggled_to: bool)
        ensures
            final(self)@ == spec_coherence_changed(old(self)@, toggled_to),
    {
        let fm = self.file_mode;
        let n = self.sections.len();
        let mut i: usize = 0;
        while i < n
            invariant
                0 <= i <= n,
                n == self.sections.len(),
                fm == old(self).file_mode,
                self.old_path == old(self).old_path,
                self.path == old(self).path,
                self.file_mode == old(self).file_mode,
                self.sections@.len() == old(self).sections@.len(),
                forall|j: int|
                    0 <= j < i ==> #[trigger] self.sections@[j]@ == section_mode_coherence(
                        old(self).sections@[j]@,
                        fm,
                        toggled_to,
                    ),
                forall|j: int|
                    i <= j < n ==> #[trigger] self.sections@[j]@ == old(self).sections@[j]@,
            decreases n - i,
        {
            let upd: Option<(bool, FileMode)> = mode_coherence_update(
                &self.sections[i],
                fm,
                toggled_to,
            );
            if let Some((c2, mode)) = upd {
                self.sections[i] = Section::FileMode { is_checked: c2, mode };
            }
            i += 1;
        }
        proof {
            assert(final(self)@ =~= spec_coherence_changed(old(self)@, toggled_to));
        }
    }

    /// Toggles the section at `j` and runs the coherence rules.  Fails, and
    /// changes nothing, exactly when `j` is out of range.
    pub fn toggle_section_at(&mut self, j: usize) -> (r: Result<(), RecordError>)
        ensures
            j < old(self)@.sections.len() ==> r is Ok && final(self)@ == spec_file_toggle_section(
                old(self)@,
                j as int,
            ),
            j >= old(self)@.sections.len() ==> r is Err && r->Err_0 is Bug && final(self)@ == old(
                self,
            )@,
    {
        if j >= self.sections.len() {
            return Err(RecordError::Bug("out-of-bounds section index".to_owned()));
        }
        let checked_new = match self.sections[j].tristate() {
            Tristate::False => true,
            Tristate::True | Tristate::Partial => false,
        };
        let kind: (bool, FileMode, bool) = match &self.sections[j] {
            Section::FileMode { mode, .. } => (true, *mode, false),
            Section::Changed { .. } => (false, FileMode::Absent, true),
            _ => (false, FileMode::Absent, false),
        };
        let old_file_mode = self.file_mode;
        {
            let section = &mut self.sections[j];
            section.set_checked(checked_new);
        }
        let ghost mid = FileModel {
            sections: old(self)@.sections.update(
                j as int,
                spec_section_set_checked(old(self)@.sections[j as int], checked_new),
            ),
            ..old(self)@
        };
        proof {
            assert(self@ =~= mid);
        }
        let (is_mode, mode, is_changed) = kind;
        if is_mode {
            if checked_new && mode == FileMode::Absent {
                self.check_changed_sections();
            } else if !checked_new && old_file_mode == FileMode::Absent {
                self.set_checked(false);
            }
        } else if is_changed {
            self.apply_changed_coherence(checked_new);
        }
        proof {
            assert(final(self)@ =~= spec_file_toggle_section(old(self)@, j as int));
        }
        Ok(())
    }

    /// Toggles the line at `(j, li)` and runs the coherence rules.  A line
    /// index into a section that is not a changed hunk is ignored, as such a
    /// section has no togglable lines; an out-of-range index fails and
    /// changes nothing.
    pub fn toggle_line_at(&mut self, j: usize, li: usize) -> (r: Result<(), RecordError>)
        ensures
            ({
                let f = old(self)@;
                if j >= f.sections.len() {
                    r is Err && r->Err_0 is Bug && final(self)@ == f
                } else {
                    match f.sections[j as int] {
                        SectionModel::Changed { lines } => {
                            if li < lines.len() {
                                r is Ok && final(self)@ == spec_file_toggle_line(
                                    f,
                                    j as int,
                                    li as int,
                                )
                            } else {
                                r is Err && r->Err_0 is Bug && final(self)@ == f
                            }
                        },
                        _ => r is Ok && final(self)@ == f,
                    }
                }
            }),
    {
        if j >= self.sections.len() {
            return Err(RecordError::Bug("out-of-bounds section index".to_owned()));
        }
        let is_changed_hunk = match &self.sections[j] {
            Section::Changed { .. } => true,
            _ => false,
        };
        if !is_changed_hunk {
            return Ok(());
        }
        if li >= self.sections[j].num_changed_lines() {
            return Err(RecordError::Bug("out-of-bounds line index".to_owned()));
        }
        let toggled_to = {
            let section = &mut self.sections[j];
            section.toggle_line(li)
        };
        proof {
            let f = old(self)@;
            let lines = f.sections[j as int].arrow_Changed_lines();
            let s2 = SectionModel::Changed {
                lines: lines.update(
                    li as int,
                    LineModel { is_checked: toggled_to, ..lines[li as int] },
                ),
            };
            assert(self@ =~= FileModel { sections: f.sections.update(j as int, s2), ..f });
        }
        self.apply_changed_coherence(toggled_to);
        proof {
            assert(final(self)@ =~= spec_file_toggle_line(old(self)@, j as int, li as int));
        }
        Ok(())
    }
}

} // verus!
