//! The engine's general laws, stated and proved over the model: the
//! tristate fold agrees across levels, double toggles restore the model,
//! visibility is closed under ancestors, and a lost selection snaps back to
//! the first file.

use vstd::prelude::*;
use crate::app::{
    first_index_of, lemma_visible_prefix_visible, spec_all_keys, spec_ensure_in_viewport,
    spec_first_key, spec_is_visible, spec_nav_select, spec_selection_rect, spec_visible_keys,
};
use crate::keys::ComponentId;
use crate::render::DrawnRect;
use crate::keys::{FileKey, SectionKey, SelectionKey};
use crate::types::{
    changed_tristate, lines_set_checked, FileMode, section_mode_coherence, spec_coherence_changed, spec_editable,
    spec_file_set_checked, spec_file_toggle, spec_file_toggle_line, spec_file_toggle_section,
    spec_file_tristate, spec_section_set_checked, spec_section_tristate, file_tristate_rec,
    tri_fold, tri_fold_from, tri_join, FileModel, LineModel, SectionModel, Tristate,
};

verus! {

// ---------------------------------------------------------------------------
// Tristate agreement: the file tristate is the fold of its editable
// sections' tristates.
// ---------------------------------------------------------------------------

/// The tristates of the editable sections, in order.
pub open spec fn editable_tristates(sections: Seq<SectionModel>) -> Seq<Tristate>
    decreases sections.len(),
{
    if sections.len() == 0 {
        Seq::empty()
    } else if spec_editable(sections[0]) {
        seq![spec_section_tristate(sections[0])] + editable_tristates(sections.drop_first())
    } else {
        editable_tristates(sections.drop_first())
    }
}

proof fn lemma_agreement_acc(sections: Seq<SectionModel>, a: Tristate)
    ensures
        file_tristate_rec(sections, Some(a)) == tri_fold_from(a, editable_tristates(sections)),
    decreases sections.len(),
{
    if sections.len() > 0 {
        let rest = sections.drop_first();
        if spec_editable(sections[0]) {
            let t0 = spec_section_tristate(sections[0]);
            lemma_agreement_acc(rest, tri_join(a, t0));
            assert((seq![t0] + editable_tristates(rest)).drop_first() =~= editable_tristates(
                rest,
            ));
        } else {
            lemma_agreement_acc(rest, a);
        }
    }
}

/// Tristate agreement: `spec_file_tristate` equals the fold of
/// `spec_section_tristate` over the file's editable sections.
pub proof fn lemma_tristate_agreement(f: FileModel)
    ensures
        spec_file_tristate(f) == tri_fold(editable_tristates(f.sections)),
    decreases f.sections.len(),
{
    lemma_agreement_none(f.sections);
}

proof fn lemma_agreement_none(sections: Seq<SectionModel>)
    ensures
        file_tristate_rec(sections, None) == tri_fold(editable_tristates(sections)),
    decreases sections.len(),
{
    if sections.len() > 0 {
        let rest = sections.drop_first();
        if spec_editable(sections[0]) {
            let t0 = spec_section_tristate(sections[0]);
            lemma_agreement_acc(rest, t0);
            assert((seq![t0] + editable_tristates(rest)).drop_first() =~= editable_tristates(
                rest,
            ));
        } else {
            lemma_agreement_none(rest);
        }
    }
}

// ---------------------------------------------------------------------------
// Pointwise consequences of the file tristate.
// ---------------------------------------------------------------------------

proof fn lemma_editable_tris_all(sections: Seq<SectionModel>, v: Tristate)
    ensures
        (forall|i: int|
            0 <= i < editable_tristates(sections).len() ==> editable_tristates(sections)[i]
                == v) <==> (forall|j: int|
            0 <= j < sections.len() && spec_editable(#[trigger] sections[j])
                ==> spec_section_tristate(sections[j]) == v),
    decreases sections.len(),
{
    if sections.len() > 0 {
        let rest = sections.drop_first();
        lemma_editable_tris_all(rest, v);
        let ets = editable_tristates(sections);
        let etr = editable_tristates(rest);
        if spec_editable(sections[0]) {
            let t0 = spec_section_tristate(sections[0]);
            assert(ets == seq![t0] + etr);
            assert(ets[0] == t0);
            if forall|i: int| 0 <= i < ets.len() ==> ets[i] == v {
                assert forall|i: int| 0 <= i < etr.len() implies #[trigger] etr[i] == v by {
                    assert(ets[i + 1] == etr[i]);
                }
                assert forall|j: int|
                    0 <= j < sections.len() && spec_editable(#[trigger] sections[j]) implies
                    spec_section_tristate(sections[j]) == v by {
                    if j == 0 {
                        assert(ets[0] == v);
                    } else {
                        assert(rest[j - 1] == sections[j]);
                    }
                }
            }
            if forall|j: int|
                0 <= j < sections.len() && spec_editable(#[trigger] sections[j])
                    ==> spec_section_tristate(sections[j]) == v {
                assert forall|j: int|
                    0 <= j < rest.len() && spec_editable(#[trigger] rest[j]) implies
                    spec_section_tristate(rest[j]) == v by {
                    assert(rest[j] == sections[j + 1]);
                }
                assert forall|i: int| 0 <= i < ets.len() implies ets[i] == v by {
                    if i > 0 {
                        assert(ets[i] == etr[i - 1]);
                    }
                }
            }
        } else {
            assert(ets == etr);
            if forall|i: int| 0 <= i < ets.len() ==> ets[i] == v {
                assert forall|j: int|
                    0 <= j < sections.len() && spec_editable(#[trigger] sections[j]) implies
                    spec_section_tristate(sections[j]) == v by {
                    assert(j > 0);
                    assert(rest[j - 1] == sections[j]);
                }
            }
            if forall|j: int|
                0 <= j < sections.len() && spec_editable(#[trigger] sections[j])
                    ==> spec_section_tristate(sections[j]) == v {
                assert forall|j: int|
                    0 <= j < rest.len() && spec_editable(#[trigger] rest[j]) implies
                    spec_section_tristate(rest[j]) == v by {
                    assert(rest[j] == sections[j + 1]);
                }
            }
        }
    }
}

proof fn lemma_editable_tris_empty(sections: Seq<SectionModel>)
    ensures
        editable_tristates(sections).len() == 0 <==> (forall|j: int|
            0 <= j < sections.len() ==> !spec_editable(#[trigger] sections[j])),
    decreases sections.len(),
{
    if sections.len() > 0 {
        let rest = sections.drop_first();
        lemma_editable_tris_empty(rest);
        let ets = editable_tristates(sections);
        let etr = editable_tristates(rest);
        if spec_editable(sections[0]) {
            assert(ets == seq![spec_section_tristate(sections[0])] + etr);
            assert(ets.len() > 0);
        } else {
            assert(ets == etr);
            if ets.len() == 0 {
                assert forall|j: int| 0 <= j < sections.len() implies !spec_editable(
                    #[trigger] sections[j],
                ) by {
                    if j > 0 {
                        assert(rest[j - 1] == sections[j]);
                    }
                }
            }
            if forall|j: int| 0 <= j < sections.len() ==> !spec_editable(
                #[trigger] sections[j],
            ) {
                assert forall|j: int| 0 <= j < rest.len() implies !spec_editable(
                    #[trigger] rest[j],
                ) by {
                    assert(rest[j] == sections[j + 1]);
                }
            }
        }
    }
}

/// A file's tristate is `False` exactly when every section's is.
pub proof fn lemma_file_tristate_false(f: FileModel)
    ensures
        spec_file_tristate(f) == Tristate::False <==> (forall|j: int|
            0 <= j < f.sections.len() ==> spec_section_tristate(#[trigger] f.sections[j])
                == Tristate::False),
{
    lemma_tristate_agreement(f);
    let ts = editable_tristates(f.sections);
    crate::types::lemma_tri_fold_false(ts);
    lemma_editable_tris_all(f.sections, Tristate::False);
    assert forall|j: int|
        0 <= j < f.sections.len() && !spec_editable(#[trigger] f.sections[j]) implies
        spec_section_tristate(f.sections[j]) == Tristate::False by {}
}

/// A file's tristate is `True` only when it has an editable section and
/// every editable section's tristate is `True`.
pub proof fn lemma_file_tristate_true(f: FileModel)
    requires
        spec_file_tristate(f) == Tristate::True,
    ensures
        exists|j: int| 0 <= j < f.sections.len() && spec_editable(#[trigger] f.sections[j]),
        forall|j: int|
            0 <= j < f.sections.len() && spec_editable(#[trigger] f.sections[j])
                ==> spec_section_tristate(f.sections[j]) == Tristate::True,
{
    lemma_tristate_agreement(f);
    let ts = editable_tristates(f.sections);
    crate::types::lemma_tri_fold_true(ts);
    lemma_editable_tris_all(f.sections, Tristate::True);
    lemma_editable_tris_empty(f.sections);
}

// ---------------------------------------------------------------------------
// Section-level identities.
// ---------------------------------------------------------------------------

/// Overwriting the checked state twice is overwriting it once.
pub proof fn lemma_section_set_checked_twice(s: SectionModel, a: bool, b: bool)
    ensures
        spec_section_set_checked(spec_section_set_checked(s, a), b) == spec_section_set_checked(
            s,
            b,
        ),
{
    match s {
        SectionModel::Changed { lines } => {
            assert(lines_set_checked(lines_set_checked(lines, a), b) =~= lines_set_checked(
                lines,
                b,
            ));
            assert(spec_section_set_checked(spec_section_set_checked(s, a), b)
                =~= spec_section_set_checked(s, b));
        },
        _ => {},
    }
}

/// A section whose tristate is `False` is unchanged by unchecking it.
pub proof fn lemma_section_uncheck_false(s: SectionModel)
    requires
        spec_section_tristate(s) == Tristate::False,
    ensures
        spec_section_set_checked(s, false) == s,
{
    match s {
        SectionModel::Changed { lines } => {
            assert(lines_set_checked(lines, false) =~= lines);
            assert(spec_section_set_checked(s, false) =~= s);
        },
        _ => {},
    }
}

/// A section whose tristate is `True` is unchanged by checking it.
pub proof fn lemma_section_check_true(s: SectionModel)
    requires
        spec_section_tristate(s) == Tristate::True,
    ensures
        spec_section_set_checked(s, true) == s,
{
    match s {
        SectionModel::Changed { lines } => {
            assert(lines_set_checked(lines, true) =~= lines);
            assert(spec_section_set_checked(s, true) =~= s);
        },
        _ => {},
    }
}

/// Overwriting every section twice is overwriting it once.
pub proof fn lemma_file_set_checked_twice(f: FileModel, a: bool, b: bool)
    ensures
        spec_file_set_checked(spec_file_set_checked(f, a), b) == spec_file_set_checked(f, b),
{
    assert forall|j: int|
        0 <= j < f.sections.len() implies spec_section_set_checked(
        spec_section_set_checked(#[trigger] f.sections[j], a),
        b,
    ) == spec_section_set_checked(f.sections[j], b) by {
        lemma_section_set_checked_twice(f.sections[j], a, b);
    }
    assert(spec_file_set_checked(spec_file_set_checked(f, a), b) =~= spec_file_set_checked(
        f,
        b,
    ));
}

// ---------------------------------------------------------------------------
// Double toggles restore the model.
// ---------------------------------------------------------------------------

/// Toggling a file twice restores it bitwise, whenever its tristate is not
/// mixed.  (A mixed file rounds to unchecked, and toggling again checks
/// everything: the mix is gone by design, so mixed inputs are excluded.)
pub proof fn lemma_toggle_file_twice(f: FileModel)
    requires
        spec_file_tristate(f) != Tristate::Partial,
    ensures
        spec_file_toggle(spec_file_toggle(f)) == f,
{
    let t = spec_file_tristate(f);
    if t == Tristate::False {
        let g = spec_file_set_checked(f, true);
        let tg = spec_file_tristate(g);
        lemma_file_tristate_false(f);
        if tg == Tristate::False {
            lemma_file_tristate_false(g);
            assert forall|j: int|
                0 <= j < f.sections.len() implies spec_section_set_checked(
                #[trigger] f.sections[j],
                true,
            ) == f.sections[j] by {
                let sj = f.sections[j];
                assert(g.sections[j] == spec_section_set_checked(sj, true));
                match sj {
                    SectionModel::Changed { lines } => {
                        if lines.len() > 0 {
                            assert(spec_section_tristate(g.sections[j]) == changed_tristate(
                                lines_set_checked(lines, true),
                            ));
                            assert(lines_set_checked(lines, true)[0].is_checked);
                            assert(spec_section_tristate(g.sections[j]) != Tristate::False);
                            assert(false);
                        } else {
                            assert(lines_set_checked(lines, true) =~= lines);
                            assert(spec_section_set_checked(sj, true) =~= sj);
                        }
                    },
                    SectionModel::FileMode { .. } => {
                        assert(spec_section_tristate(g.sections[j]) == Tristate::True);
                        assert(false);
                    },
                    SectionModel::Binary { .. } => {
                        assert(spec_section_tristate(g.sections[j]) == Tristate::True);
                        assert(false);
                    },
                    SectionModel::Unchanged { .. } => {},
                }
            }
            assert(g =~= f);
            assert(spec_file_toggle(g) == spec_file_set_checked(g, true));
            lemma_file_set_checked_twice(f, true, true);
        } else {
            assert(spec_file_toggle(g) == spec_file_set_checked(g, false));
            lemma_file_set_checked_twice(f, true, false);
            assert forall|j: int|
                0 <= j < f.sections.len() implies spec_section_set_checked(
                #[trigger] f.sections[j],
                false,
            ) == f.sections[j] by {
                lemma_section_uncheck_false(f.sections[j]);
            }
            assert(spec_file_set_checked(f, false) =~= f);
        }
    } else {
        let g = spec_file_set_checked(f, false);
        lemma_file_tristate_true(f);
        assert forall|j: int|
            0 <= j < g.sections.len() implies spec_section_tristate(#[trigger] g.sections[j])
            == Tristate::False by {
            let sj = f.sections[j];
            assert(g.sections[j] == spec_section_set_checked(sj, false));
            match sj {
                SectionModel::Changed { lines } => {
                    assert(forall|i: int|
                        0 <= i < lines.len() ==> !lines_set_checked(lines, false)[i].is_checked);
                },
                _ => {},
            }
        }
        lemma_file_tristate_false(g);
        assert(spec_file_tristate(g) == Tristate::False);
        assert(spec_file_toggle(g) == spec_file_set_checked(g, true));
        lemma_file_set_checked_twice(f, false, true);
        assert forall|j: int|
            0 <= j < f.sections.len() implies spec_section_set_checked(
            #[trigger] f.sections[j],
            true,
        ) == f.sections[j] by {
            if spec_editable(f.sections[j]) {
                lemma_section_check_true(f.sections[j]);
            }
        }
        assert(spec_file_set_checked(f, true) =~= f);
    }
}

/// When neither content coherence rule can fire — the file's old mode is
/// present, and no mode-change pseudo-section proposes a deletion — the
/// coherence pass changes nothing, whichever way the toggle went.
pub proof fn lemma_coherence_changed_no_fire(f: FileModel, toggled_to: bool)
    requires
        f.file_mode != FileMode::Absent,
        forall|k: int|
            0 <= k < f.sections.len() && (#[trigger] f.sections[k]) is FileMode
                ==> f.sections[k]->FileMode_mode != FileMode::Absent,
    ensures
        spec_coherence_changed(f, toggled_to) == f,
{
    assert(spec_coherence_changed(f, toggled_to) =~= f);
}

/// Toggling a binary section twice restores the file bitwise.
pub proof fn lemma_toggle_binary_section_twice(f: FileModel, j: int)
    requires
        0 <= j < f.sections.len(),
        f.sections[j] is Binary,
    ensures
        spec_file_toggle_section(spec_file_toggle_section(f, j), j) == f,
{
    let g = spec_file_toggle_section(f, j);
    assert(g.sections[j] == spec_section_set_checked(
        f.sections[j],
        spec_section_tristate(f.sections[j]) == Tristate::False,
    ));
    assert(spec_file_toggle_section(g, j) =~= f);
}

/// Toggling a changed hunk twice restores the file bitwise, provided the
/// hunk is not mixed and neither coherence rule can fire: the file's old
/// mode is present and no mode-change section proposes a deletion.  (When
/// a rule fires, the first toggle forces a mode box on or off and the
/// second does not force it back, which is the coherence protocol working
/// as intended.)
pub proof fn lemma_toggle_changed_section_twice(f: FileModel, j: int)
    requires
        0 <= j < f.sections.len(),
        f.sections[j] is Changed,
        spec_section_tristate(f.sections[j]) != Tristate::Partial,
        f.file_mode != FileMode::Absent,
        forall|k: int|
            0 <= k < f.sections.len() && (#[trigger] f.sections[k]) is FileMode
                ==> f.sections[k]->FileMode_mode != FileMode::Absent,
    ensures
        spec_file_toggle_section(spec_file_toggle_section(f, j), j) == f,
{
    let s = f.sections[j];
    let t = spec_section_tristate(s);
    let cn = t == Tristate::False;
    let s2 = spec_section_set_checked(s, cn);
    let f2 = FileModel { sections: f.sections.update(j, s2), ..f };
    assert(forall|k: int|
        0 <= k < f2.sections.len() && (#[trigger] f2.sections[k]) is FileMode
            ==> f2.sections[k]->FileMode_mode != FileMode::Absent);
    lemma_coherence_changed_no_fire(f2, cn);
    let g = spec_file_toggle_section(f, j);
    assert(g == f2);
    let lines = s->Changed_lines;
    let lines2 = s2->Changed_lines;
    let t2 = spec_section_tristate(s2);
    if t == Tristate::False {
        if lines.len() == 0 {
            assert(lines_set_checked(lines, true) =~= lines);
            assert(s2 =~= s);
            assert(t2 == Tristate::False);
            lemma_section_set_checked_twice(s, true, true);
            assert(spec_file_toggle_section(g, j) =~= f);
        } else {
            assert(lines2 == lines_set_checked(lines, true));
            assert(forall|i: int| 0 <= i < lines2.len() ==> lines2[i].is_checked);
            assert(lines2[0].is_checked);
            assert(t2 == Tristate::True);
            lemma_section_set_checked_twice(s, true, false);
            lemma_section_uncheck_false(s);
            let g2 = spec_file_toggle_section(g, j);
            let g2pre = FileModel {
                sections: g.sections.update(j, spec_section_set_checked(s2, false)),
                ..g
            };
            assert(forall|k: int|
                0 <= k < g2pre.sections.len() && (#[trigger] g2pre.sections[k]) is FileMode
                    ==> g2pre.sections[k]->FileMode_mode != FileMode::Absent);
            lemma_coherence_changed_no_fire(g2pre, false);
            assert(g2 =~= f);
        }
    } else {
        assert(t == Tristate::True);
        assert(lines.len() > 0);
        assert(lines2 == lines_set_checked(lines, false));
        assert(forall|i: int| 0 <= i < lines2.len() ==> !lines2[i].is_checked);
        assert(t2 == Tristate::False);
        lemma_section_set_checked_twice(s, false, true);
        lemma_section_check_true(s);
        let g2 = spec_file_toggle_section(g, j);
        let g2pre = FileModel {
            sections: g.sections.update(j, spec_section_set_checked(s2, true)),
            ..g
        };
        assert(forall|k: int|
            0 <= k < g2pre.sections.len() && (#[trigger] g2pre.sections[k]) is FileMode
                ==> g2pre.sections[k]->FileMode_mode != FileMode::Absent);
        lemma_coherence_changed_no_fire(g2pre, true);
        assert(g2 =~= f);
    }
}

/// Toggling a single line twice restores the file bitwise, provided
/// neither coherence rule can fire: the file's old mode is present and no
/// mode-change section proposes a deletion.
pub proof fn lemma_toggle_line_twice(f: FileModel, j: int, li: int)
    requires
        0 <= j < f.sections.len(),
        f.sections[j] is Changed,
        0 <= li < f.sections[j]->Changed_lines.len(),
        f.file_mode != FileMode::Absent,
        forall|k: int|
            0 <= k < f.sections.len() && (#[trigger] f.sections[k]) is FileMode
                ==> f.sections[k]->FileMode_mode != FileMode::Absent,
    ensures
        spec_file_toggle_line(spec_file_toggle_line(f, j, li), j, li) == f,
{
    let lines = f.sections[j]->Changed_lines;
    let t1 = !lines[li].is_checked;
    let lines2 = lines.update(li, LineModel { is_checked: t1, ..lines[li] });
    let s2 = SectionModel::Changed { lines: lines2 };
    let f2 = FileModel { sections: f.sections.update(j, s2), ..f };
    assert(forall|k: int|
        0 <= k < f2.sections.len() && (#[trigger] f2.sections[k]) is FileMode
            ==> f2.sections[k]->FileMode_mode != FileMode::Absent);
    lemma_coherence_changed_no_fire(f2, t1);
    let g = spec_file_toggle_line(f, j, li);
    assert(g == f2);
    let lines3 = lines2.update(li, LineModel { is_checked: !t1, ..lines2[li] });
    assert(lines3 =~= lines);
    let f3 = FileModel {
        sections: g.sections.update(j, SectionModel::Changed { lines: lines3 }),
        ..g
    };
    assert(forall|k: int|
        0 <= k < f3.sections.len() && (#[trigger] f3.sections[k]) is FileMode
            ==> f3.sections[k]->FileMode_mode != FileMode::Absent);
    lemma_coherence_changed_no_fire(f3, !t1);
    assert(spec_file_toggle_line(g, j, li) =~= f);
}

/// The coherence rules are monotone under the double toggle: repeating a
/// double line-toggle changes nothing more.  (With a mode-change section in
/// the file, one double toggle may force the mode box on or off; a second
/// double toggle reproduces exactly the same state.)
pub proof fn lemma_toggle_line_double_idempotent(f: FileModel, j: int, li: int)
    requires
        0 <= j < f.sections.len(),
        f.sections[j] is Changed,
        0 <= li < f.sections[j]->Changed_lines.len(),
    ensures
        ({
            let d = spec_file_toggle_line(spec_file_toggle_line(f, j, li), j, li);
            spec_file_toggle_line(spec_file_toggle_line(d, j, li), j, li) == d
        }),
{
    let fm = f.file_mode;
    let lines = f.sections[j]->Changed_lines;
    let t1 = !lines[li].is_checked;
    let g1 = spec_file_toggle_line(f, j, li);
    let lines_a = lines.update(li, LineModel { is_checked: t1, ..lines[li] });
    assert(g1.sections[j] == SectionModel::Changed { lines: lines_a });
    assert(g1.file_mode == fm);
    let t2 = !t1;
    let g2 = spec_file_toggle_line(g1, j, li);
    let lines_b = lines_a.update(li, LineModel { is_checked: t2, ..lines_a[li] });
    assert(g2.sections[j] == SectionModel::Changed { lines: lines_b });
    assert(g2.file_mode == fm);
    let g3 = spec_file_toggle_line(g2, j, li);
    let lines_c = lines_b.update(li, LineModel { is_checked: t1, ..lines_b[li] });
    assert(g3.sections[j] == SectionModel::Changed { lines: lines_c });
    assert(g3.file_mode == fm);
    let g4 = spec_file_toggle_line(g3, j, li);
    let lines_d = lines_c.update(li, LineModel { is_checked: t2, ..lines_c[li] });
    assert(g4.sections[j] == SectionModel::Changed { lines: lines_d });
    assert forall|k: int| 0 <= k < f.sections.len() implies g4.sections[k] == g2.sections[k] by {
        if k == j {
            assert(lines_d =~= lines_b);
        } else {
            let v0 = f.sections[k];
            let v1 = section_mode_coherence(v0, fm, t1);
            let v2 = section_mode_coherence(v1, fm, t2);
            let v3 = section_mode_coherence(v2, fm, t1);
            let v4 = section_mode_coherence(v3, fm, t2);
            assert(g1.sections[k] == v1);
            assert(g2.sections[k] == v2);
            assert(g3.sections[k] == v3);
            assert(g4.sections[k] == v4);
            assert(v4 == v2);
        }
    }
    assert(g4 =~= g2);
}

// ---------------------------------------------------------------------------
// Visibility closure and selection reachability.
// ---------------------------------------------------------------------------

/// Every visible key's ancestors are expanded (a file is its own
/// ancestor, and nothing hidden ever appears in the visible list).
pub proof fn lemma_visibility_closure(
    m: crate::types::RecordModel,
    exp: Set<SelectionKey>,
    i: int,
)
    requires
        0 <= i < spec_visible_keys(m, exp).len(),
    ensures
        match spec_visible_keys(m, exp)[i] {
            SelectionKey::Nothing => false,
            SelectionKey::File(_) => true,
            SelectionKey::Section(sk) => exp.contains(
                SelectionKey::File(FileKey { commit_idx: sk.commit_idx, file_idx: sk.file_idx }),
            ),
            SelectionKey::Line(lk) => exp.contains(
                SelectionKey::File(FileKey { commit_idx: lk.commit_idx, file_idx: lk.file_idx }),
            ) && exp.contains(
                SelectionKey::Section(
                    SectionKey {
                        commit_idx: lk.commit_idx,
                        file_idx: lk.file_idx,
                        section_idx: lk.section_idx,
                    },
                ),
            ),
        },
{
    let all = spec_all_keys(m);
    lemma_visible_prefix_visible(all, exp, all.len() as int);
    assert(spec_is_visible(spec_visible_keys(m, exp)[i], exp));
}

/// Selection reachability: when the current selection is not among the
/// visible keys, one navigation step snaps to the first file.
pub proof fn lemma_lost_selection_snaps_to_first(
    m: crate::types::RecordModel,
    exp: Set<SelectionKey>,
    sel: SelectionKey,
    focused: usize,
    prev: bool,
)
    requires
        first_index_of(spec_visible_keys(m, exp), sel) is None,
    ensures
        spec_nav_select(m, exp, sel, focused, prev) == spec_first_key(m, focused),
{
}

/// Sticky header room: when the selection is a section or a line, the
/// scroll offset chosen to bring it into the viewport always leaves the
/// viewport's top row above the selection, so the row is free for the
/// file's sticky header (`spec_sticky_header_row` paints it exactly when
/// the file starts above that row and still reaches it).
pub proof fn lemma_viewport_reserves_header_row(
    scroll: int,
    term_height: int,
    rects: Seq<(ComponentId, DrawnRect)>,
    key: SelectionKey,
)
    requires
        key is Section || key is Line,
    ensures
        match spec_ensure_in_viewport(scroll, term_height, rects, key) {
            Some(y) => y + 1 <= spec_selection_rect(rects, key)->0.rect.y,
            None => true,
        },
{
}

// ---------------------------------------------------------------------------
// Double toggles of mode-change pseudo-sections.
// ---------------------------------------------------------------------------

/// What a mode-change toggle with result `t` writes into one other
/// section: checking a deletion checks every hunk; unchecking a creation
/// unchecks everything; otherwise nothing.
pub open spec fn mode_write(s: SectionModel, t: bool, mode: FileMode, fm: FileMode) -> (
    SectionModel) {
    if t && mode == FileMode::Absent {
        crate::types::section_check_changed(s)
    } else if !t && fm == FileMode::Absent {
        spec_section_set_checked(s, false)
    } else {
        s
    }
}

/// The shape of one mode-change toggle: the box flips, and every other
/// section receives exactly the `mode_write` of the new value.
pub proof fn lemma_mode_toggle_shape(f: FileModel, j: int)
    requires
        0 <= j < f.sections.len(),
        f.sections[j] is FileMode,
    ensures
        ({
            let c = f.sections[j]->FileMode_is_checked;
            let mode = f.sections[j]->FileMode_mode;
            let g = spec_file_toggle_section(f, j);
            &&& g.file_mode == f.file_mode
            &&& g.old_path == f.old_path
            &&& g.path == f.path
            &&& g.sections.len() == f.sections.len()
            &&& g.sections[j] == (SectionModel::FileMode { is_checked: !c, mode })
            &&& forall|k: int|
                0 <= k < f.sections.len() && k != j ==> #[trigger] g.sections[k] == mode_write(
                    f.sections[k],
                    !c,
                    mode,
                    f.file_mode,
                )
        }),
{
    let c = f.sections[j]->FileMode_is_checked;
    let mode = f.sections[j]->FileMode_mode;
    let s2 = spec_section_set_checked(f.sections[j], !c);
    assert(s2 == (SectionModel::FileMode { is_checked: !c, mode }));
}

/// Toggling a mode-change section twice restores the file bitwise,
/// whenever neither coherence rule fires: the section's own mode and the
/// file's old mode are both present.  (When one is absent, the first
/// toggle rewrites the content sections, which is the protocol working as
/// intended; the idempotence lemma below covers that case.)
pub proof fn lemma_toggle_mode_section_twice(f: FileModel, j: int)
    requires
        0 <= j < f.sections.len(),
        f.sections[j] is FileMode,
        f.sections[j]->FileMode_mode != FileMode::Absent,
        f.file_mode != FileMode::Absent,
    ensures
        spec_file_toggle_section(spec_file_toggle_section(f, j), j) == f,
{
    lemma_mode_toggle_shape(f, j);
    let g = spec_file_toggle_section(f, j);
    lemma_mode_toggle_shape(g, j);
    assert(spec_file_toggle_section(g, j) =~= f);
}

/// The coherence rules are monotone under the double toggle of a
/// mode-change section: repeating the double toggle changes nothing more.
pub proof fn lemma_toggle_mode_section_double_idempotent(f: FileModel, j: int)
    requires
        0 <= j < f.sections.len(),
        f.sections[j] is FileMode,
    ensures
        ({
            let d = spec_file_toggle_section(spec_file_toggle_section(f, j), j);
            spec_file_toggle_section(spec_file_toggle_section(d, j), j) == d
        }),
{
    let c = f.sections[j]->FileMode_is_checked;
    let mode = f.sections[j]->FileMode_mode;
    let fm = f.file_mode;
    lemma_mode_toggle_shape(f, j);
    let g1 = spec_file_toggle_section(f, j);
    lemma_mode_toggle_shape(g1, j);
    let g2 = spec_file_toggle_section(g1, j);
    lemma_mode_toggle_shape(g2, j);
    let g3 = spec_file_toggle_section(g2, j);
    lemma_mode_toggle_shape(g3, j);
    let g4 = spec_file_toggle_section(g3, j);
    assert forall|k: int| 0 <= k < f.sections.len() implies #[trigger] g4.sections[k]
        == g2.sections[k] by {
        if k != j {
            let v0 = f.sections[k];
            let v1 = mode_write(v0, !c, mode, fm);
            let v2 = mode_write(v1, c, mode, fm);
            let v3 = mode_write(v2, !c, mode, fm);
            let v4 = mode_write(v3, c, mode, fm);
            assert(g1.sections[k] == v1);
            assert(g2.sections[k] == v2);
            assert(g3.sections[k] == v3);
            assert(g4.sections[k] == v4);
            lemma_section_set_checked_twice(v0, true, false);
            lemma_section_set_checked_twice(v0, false, false);
            lemma_section_set_checked_twice(v0, true, true);
            lemma_section_set_checked_twice(v0, false, true);
            lemma_section_set_checked_twice(v1, true, false);
            lemma_section_set_checked_twice(v1, false, false);
            lemma_section_set_checked_twice(v1, true, true);
            lemma_section_set_checked_twice(v1, false, true);
            lemma_section_set_checked_twice(v2, true, false);
            lemma_section_set_checked_twice(v2, false, false);
            lemma_section_set_checked_twice(v2, true, true);
            lemma_section_set_checked_twice(v2, false, true);
            assert(v4 == v2);
        }
    }
    assert(g4 =~= g2);
}

// ---------------------------------------------------------------------------
// The canonical enumeration is duplicate-free.
// ---------------------------------------------------------------------------

/// The file index a key carries; keys never mix files in one entry block.
pub open spec fn key_file_idx(k: SelectionKey) -> int {
    match k {
        SelectionKey::Nothing => -1,
        SelectionKey::File(fk) => fk.file_idx as int,
        SelectionKey::Section(sk) => sk.file_idx as int,
        SelectionKey::Line(lk) => lk.file_idx as int,
    }
}

/// The section index a key carries; a file key carries none.
pub open spec fn key_section_idx(k: SelectionKey) -> int {
    match k {
        SelectionKey::Section(sk) => sk.section_idx as int,
        SelectionKey::Line(lk) => lk.section_idx as int,
        _ => -1,
    }
}

/// Whether a section's line count fits in a machine word, as it does for
/// any section held in memory.
pub open spec fn section_fits(s: SectionModel) -> bool {
    s is Changed ==> s->Changed_lines.len() <= usize::MAX
}

proof fn lemma_section_entry_props(s: SectionModel, fi: int, si: int)
    requires
        0 <= fi,
        0 <= si,
        fi <= usize::MAX,
        si <= usize::MAX,
        section_fits(s),
    ensures
        ({
            let ks = crate::app::section_entry_keys(s, fi, si);
            &&& forall|i: int|
                0 <= i < ks.len() ==> ((#[trigger] ks[i]) is Section || ks[i] is Line)
                    && key_file_idx(ks[i]) == fi && key_section_idx(ks[i]) == si
            &&& forall|i: int, w: int| 0 <= i < w < ks.len() ==> ks[i] != ks[w]
        }),
{
    let ks = crate::app::section_entry_keys(s, fi, si);
    match s {
        SectionModel::Changed { lines } => {
            let lks = crate::app::line_keys(fi, si, lines.len() as int);
            assert(forall|i: int| 0 <= i < lks.len() ==> (#[trigger] lks[i]) is Line
                && lks[i]->Line_0.line_idx == i);
            assert forall|i: int, w: int| 0 <= i < w < ks.len() implies ks[i] != ks[w] by {
                if i > 0 {
                    assert(ks[i] == lks[i - 1]);
                    assert(ks[w] == lks[w - 1]);
                    assert(lks[i - 1]->Line_0.line_idx != lks[w - 1]->Line_0.line_idx);
                }
            }
        },
        _ => {},
    }
}

proof fn lemma_sections_keys_props(ss: Seq<SectionModel>, fi: int, n: int)
    requires
        0 <= fi <= usize::MAX,
        0 <= n <= usize::MAX,
        forall|j: int| 0 <= j < n ==> section_fits(#[trigger] ss[j]),
    ensures
        ({
            let ks = crate::app::sections_keys(ss, fi, n);
            &&& forall|i: int|
                0 <= i < ks.len() ==> ((#[trigger] ks[i]) is Section || ks[i] is Line)
                    && key_file_idx(ks[i]) == fi && 0 <= key_section_idx(ks[i]) < n
            &&& forall|i: int, w: int| 0 <= i < w < ks.len() ==> ks[i] != ks[w]
        }),
    decreases n,
{
    if n > 0 {
        lemma_sections_keys_props(ss, fi, n - 1);
        lemma_section_entry_props(ss[n - 1], fi, n - 1);
        let prev = crate::app::sections_keys(ss, fi, n - 1);
        let entry = crate::app::section_entry_keys(ss[n - 1], fi, n - 1);
        let ks = crate::app::sections_keys(ss, fi, n);
        assert(ks == prev + entry);
        assert forall|i: int, w: int| 0 <= i < w < ks.len() implies ks[i] != ks[w] by {
            if w < prev.len() {
                assert(ks[i] == prev[i] && ks[w] == prev[w]);
            } else if i >= prev.len() {
                assert(ks[i] == entry[i - prev.len()] && ks[w] == entry[w - prev.len()]);
            } else {
                assert(ks[i] == prev[i] && ks[w] == entry[w - prev.len()]);
                assert(key_section_idx(ks[i]) < n - 1);
                assert(key_section_idx(ks[w]) == n - 1);
            }
        }
        assert forall|i: int|
            0 <= i < ks.len() implies ((#[trigger] ks[i]) is Section || ks[i] is Line)
            && key_file_idx(ks[i]) == fi && 0 <= key_section_idx(ks[i]) < n by {
            if i < prev.len() {
                assert(ks[i] == prev[i]);
            } else {
                assert(ks[i] == entry[i - prev.len()]);
            }
        }
    }
}

proof fn lemma_file_entry_props(f: FileModel, fi: int)
    requires
        0 <= fi <= usize::MAX,
        f.sections.len() <= usize::MAX,
        forall|j: int| 0 <= j < f.sections.len() ==> section_fits(#[trigger] f.sections[j]),
    ensures
        ({
            let ks = crate::app::file_entry_keys(f, fi);
            &&& forall|i: int|
                0 <= i < ks.len() ==> !((#[trigger] ks[i]) is Nothing) && key_file_idx(ks[i])
                    == fi
            &&& forall|i: int, w: int| 0 <= i < w < ks.len() ==> ks[i] != ks[w]
        }),
{
    lemma_sections_keys_props(f.sections, fi, f.sections.len() as int);
    let sks = crate::app::sections_keys(f.sections, fi, f.sections.len() as int);
    let ks = crate::app::file_entry_keys(f, fi);
    assert(ks[0] == SelectionKey::File(
        crate::keys::FileKey { commit_idx: 0, file_idx: fi as usize },
    ));
    assert forall|i: int, w: int| 0 <= i < w < ks.len() implies ks[i] != ks[w] by {
        if i == 0 {
            assert(ks[w] == sks[w - 1]);
        } else {
            assert(ks[i] == sks[i - 1] && ks[w] == sks[w - 1]);
        }
    }
    assert forall|i: int|
        0 <= i < ks.len() implies !((#[trigger] ks[i]) is Nothing) && key_file_idx(ks[i])
        == fi by {
        if i > 0 {
            assert(ks[i] == sks[i - 1]);
        }
    }
}

proof fn lemma_files_keys_props(files: Seq<FileModel>, n: int)
    requires
        0 <= n <= usize::MAX,
        forall|j: int| 0 <= j < n ==> (#[trigger] files[j]).sections.len() <= usize::MAX,
        forall|j: int, k: int|
            0 <= j < n && 0 <= k < files[j].sections.len() ==> section_fits(
                #[trigger] files[j].sections[k],
            ),
    ensures
        ({
            let ks = crate::app::files_keys(files, n);
            &&& forall|i: int|
                0 <= i < ks.len() ==> !((#[trigger] ks[i]) is Nothing) && 0 <= key_file_idx(
                    ks[i],
                ) < n
            &&& forall|i: int, w: int| 0 <= i < w < ks.len() ==> ks[i] != ks[w]
        }),
    decreases n,
{
    if n > 0 {
        lemma_files_keys_props(files, n - 1);
        lemma_file_entry_props(files[n - 1], n - 1);
        let prev = crate::app::files_keys(files, n - 1);
        let entry = crate::app::file_entry_keys(files[n - 1], n - 1);
        let ks = crate::app::files_keys(files, n);
        assert(ks == prev + entry);
        assert forall|i: int, w: int| 0 <= i < w < ks.len() implies ks[i] != ks[w] by {
            if w < prev.len() {
                assert(ks[i] == prev[i] && ks[w] == prev[w]);
            } else if i >= prev.len() {
                assert(ks[i] == entry[i - prev.len()] && ks[w] == entry[w - prev.len()]);
            } else {
                assert(ks[i] == prev[i] && ks[w] == entry[w - prev.len()]);
                assert(key_file_idx(ks[i]) < n - 1);
                assert(key_file_idx(ks[w]) == n - 1);
            }
        }
        assert forall|i: int|
            0 <= i < ks.len() implies !((#[trigger] ks[i]) is Nothing) && 0 <= key_file_idx(
            ks[i]) < n by {
            if i < prev.len() {
                assert(ks[i] == prev[i]);
            } else {
                assert(ks[i] == entry[i - prev.len()]);
            }
        }
    }
}

/// The canonical enumeration lists every key at most once.
pub proof fn lemma_all_keys_distinct(m: crate::types::RecordModel)
    requires
        m.files.len() <= usize::MAX,
        forall|j: int|
            0 <= j < m.files.len() ==> (#[trigger] m.files[j]).sections.len() <= usize::MAX,
        forall|j: int, k: int|
            0 <= j < m.files.len() && 0 <= k < m.files[j].sections.len() ==> section_fits(
                #[trigger] m.files[j].sections[k],
            ),
    ensures
        forall|i: int, w: int|
            0 <= i < w < spec_all_keys(m).len() ==> spec_all_keys(m)[i] != spec_all_keys(m)[w],
{
    if m.commits.len() > 0 {
        lemma_files_keys_props(m.files, m.files.len() as int);
    }
}

} // verus!
