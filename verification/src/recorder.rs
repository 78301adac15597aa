//! The recorder: the input-source interface, a scripted input for tests,
//! and the driver that applies state updates to the application.  The
//! blocking render loop around a real terminal lives outside this crate;
//! it calls `handle_event` and `apply_update` one step at a time.

use vstd::prelude::*;
use crate::app::{spec_expand_ancestors, spec_handle_event, spec_toggle_item, spec_toggle_all,
    spec_toggle_all_uniform, spec_ensure_in_viewport, spec_initial_expanded, spec_first_key,
    toggle_key_valid, ancestor_file_key, App, StateUpdate};
use crate::event::Event;
use crate::input::{TerminalKind, TestingScreenshot};
use crate::keys::{ComponentId, SelectionKey};
use crate::render::{rect_of, DrawnRects};
use crate::types::{RecordError, RecordState};
use crate::widgets::CommitViewMode;

verus! {

/// Get user input.
pub trait RecordInput {
    /// The kind of terminal to drive.
    fn terminal_kind(&self) -> TerminalKind;

    /// All available user events; blocks until at least one is available.
    fn next_events(&mut self) -> Result<Vec<Event>, RecordError>;

    /// Opens an editor on the given commit message and returns the edited
    /// text.  Only invoked when the commit has a message.
    fn edit_commit_message(&mut self, message: &str) -> Result<String, RecordError>;
}

/// A scripted input source: a fixed terminal size and a fixed list of
/// events, handed out one at a time; an empty event once exhausted.
#[derive(Clone, Debug)]
pub struct TestingInput {
    pub width: usize,
    pub height: usize,
    pub events: Vec<Event>,
    pub cursor: usize,
}

impl TestingInput {
    /// A scripted input of the given terminal size.
    pub fn new(width: usize, height: usize, events: Vec<Event>) -> (r: Self)
        ensures
            r.width == width,
            r.height == height,
            r.events == events,
            r.cursor == 0,
    {
        TestingInput { width, height, events, cursor: 0 }
    }
}

impl RecordInput for TestingInput {
    fn terminal_kind(&self) -> TerminalKind {
        TerminalKind::Testing { width: self.width, height: self.height }
    }

    fn next_events(&mut self) -> Result<Vec<Event>, RecordError> {
        let mut out: Vec<Event> = Vec::new();
        if self.cursor < self.events.len() {
            out.push(self.events[self.cursor].clone());
            self.cursor = self.cursor + 1;
        } else {
            out.push(Event::Nothing);
        }
        Ok(out)
    }

    fn edit_commit_message(&mut self, message: &str) -> Result<String, RecordError> {
        Ok(message.to_owned())
    }
}

/// Whether the session goes on after an update, or ends successfully.
/// Cancellation travels as the `Cancelled` error.
#[derive(Clone, Copy, Debug, PartialEq, Eq, Structural)]
pub enum RunFlow {
    Continue,
    Accepted,
}

/// The scroll offset clamped to the drawn height of the root component:
/// into `[0, height - 1]` when the root was drawn (an empty root pins the
/// offset to `-1`); unchanged when the root has no recorded rectangle.
pub open spec fn spec_scroll_to(
    y: int,
    rects: Seq<(ComponentId, crate::render::DrawnRect)>,
    current: int,
) -> int {
    match rect_of(rects, ComponentId::App) {
        None => current,
        Some(dr) => {
            let hi = dr.rect.height - 1;
            if y < 0 {
                0
            } else if y > hi {
                hi
            } else {
                y
            }
        },
    }
}

/// What applying one state update does: for each update variant, the new
/// application state, the new pending queue, and the result.  This is the
/// per-step transition relation of the driver; `step_rel` composes it with
/// the reducer and `session_rel` folds it over a whole event list.
pub open spec fn apply_rel(
    app0: App,
    pend0: Seq<Event>,
    update: StateUpdate,
    term_height: usize,
    rects: Seq<(ComponentId, crate::render::DrawnRect)>,
    app1: App,
    pend1: Seq<Event>,
    r: Result<RunFlow, RecordError>,
) -> bool {
            match update {
                StateUpdate::Nothing => r == Ok::<RunFlow, RecordError>(RunFlow::Continue)
                    && app1 == app0 && pend1 == pend0,
                StateUpdate::QuitAccept => {
                    if app0.ui.help_dialog is Some {
                        r == Ok::<RunFlow, RecordError>(RunFlow::Continue) && app1.ui
                            .help_dialog is None && app1.state == app0.state && pend1 == pend0
                    } else {
                        r == Ok::<RunFlow, RecordError>(RunFlow::Accepted) && app1 == app0
                            && pend1 == pend0
                    }
                },
                StateUpdate::QuitCancel => r == Err::<RunFlow, RecordError>(
                    RecordError::Cancelled,
                ) && app1 == app0 && pend1 == pend0,
                StateUpdate::SetQuitDialog(d) => r == Ok::<RunFlow, RecordError>(
                    RunFlow::Continue,
                ) && app1.ui.quit_dialog == d && app1.state == app0.state && pend1 == pend0,
                StateUpdate::SetHelpDialog(d) => r == Ok::<RunFlow, RecordError>(
                    RunFlow::Continue,
                ) && app1.ui.help_dialog == d && app1.state == app0.state && pend1 == pend0,
                StateUpdate::TakeScreenshot(_) | StateUpdate::Redraw
                    | StateUpdate::EnsureSelectionInViewport => ({
                    // EnsureSelectionInViewport scrolls; the other two
                    // are no-ops without a surface to draw on.
                    &&& r == Ok::<RunFlow, RecordError>(RunFlow::Continue)
                    &&& app1.state == app0.state
                    &&& pend1 == pend0
                    &&& (update is EnsureSelectionInViewport ==> app1.ui.scroll_offset_y
                        as int == (match spec_ensure_in_viewport(
                        app0.ui.scroll_offset_y as int,
                        term_height as int,
                        rects,
                        app0.ui.selection_key,
                    ) {
                        Some(y) => y,
                        None => app0.ui.scroll_offset_y as int,
                    }))
                    &&& (!(update is EnsureSelectionInViewport) ==> app1 == app0)
                }),
                StateUpdate::ScrollTo(y) => r == Ok::<RunFlow, RecordError>(
                    RunFlow::Continue,
                ) && app1.state == app0.state && pend1 == pend0 && app1.ui.scroll_offset_y
                    as int == spec_scroll_to(
                    y as int,
                    rects,
                    app0.ui.scroll_offset_y as int,
                ),
                StateUpdate::SelectItem { selection_key, ensure_in_viewport } => ({
                    &&& r == Ok::<RunFlow, RecordError>(RunFlow::Continue)
                    &&& app1.state == app0.state
                    &&& app1.ui.selection_key == selection_key
                    &&& app1.ui.expanded_items@ == spec_expand_ancestors(
                        app0.ui.expanded_items@,
                        selection_key,
                    )
                    &&& (ensure_in_viewport ==> pend1 == pend0.push(
                        Event::EnsureSelectionInViewport,
                    ))
                    &&& (!ensure_in_viewport ==> pend1 == pend0)
                }),
                StateUpdate::ToggleItem(key) => ({
                    &&& app1.ui == app0.ui
                    &&& pend1 == pend0
                    &&& if app0.state@.is_read_only {
                        r == Ok::<RunFlow, RecordError>(RunFlow::Continue) && app1.state@
                            == app0.state@
                    } else if toggle_key_valid(app0.state@, key) {
                        r == Ok::<RunFlow, RecordError>(RunFlow::Continue) && app1.state@
                            == spec_toggle_item(app0.state@, key)
                    } else {
                        r is Err && app1.state@ == app0.state@
                    }
                }),
                StateUpdate::ToggleItemAndAdvance(key, new_key) => ({
                    &&& if app0.state@.is_read_only {
                        r == Ok::<RunFlow, RecordError>(RunFlow::Continue) && app1.state@
                            == app0.state@ && app1.ui.selection_key == new_key && pend1
                            == pend0.push(Event::EnsureSelectionInViewport)
                    } else if toggle_key_valid(app0.state@, key) {
                        r == Ok::<RunFlow, RecordError>(RunFlow::Continue) && app1.state@
                            == spec_toggle_item(app0.state@, key) && app1.ui.selection_key
                            == new_key && pend1 == pend0.push(
                            Event::EnsureSelectionInViewport,
                        )
                    } else {
                        r is Err && app1.state@ == app0.state@ && app1.ui == app0.ui
                            && pend1 == pend0
                    }
                }),
                StateUpdate::ToggleAll => r == Ok::<RunFlow, RecordError>(RunFlow::Continue)
                    && app1.ui == app0.ui && pend1 == pend0 && app1.state@ == (
                if app0.state@.is_read_only {
                    app0.state@
                } else {
                    spec_toggle_all(app0.state@)
                }),
                StateUpdate::ToggleAllUniform => r == Ok::<RunFlow, RecordError>(
                    RunFlow::Continue,
                ) && app1.ui == app0.ui && pend1 == pend0 && app1.state@ == (
                if app0.state@.is_read_only {
                    app0.state@
                } else {
                    spec_toggle_all_uniform(app0.state@)
                }),
                StateUpdate::SetExpandItem(key, is_expanded) => ({
                    &&& r == Ok::<RunFlow, RecordError>(RunFlow::Continue)
                    &&& app1.state == app0.state
                    &&& app1.ui.selection_key == app0.ui.selection_key
                    &&& app1.ui.expanded_items@ == (if is_expanded {
                        app0.ui.expanded_items@.insert(key)
                    } else {
                        app0.ui.expanded_items@.remove(key)
                    })
                    &&& pend1 == pend0.push(Event::EnsureSelectionInViewport)
                }),
                StateUpdate::ToggleExpandItem(key) => ({
                    &&& r == Ok::<RunFlow, RecordError>(RunFlow::Continue)
                    &&& app1.state == app0.state
                    &&& app1.ui.selection_key == app0.ui.selection_key
                    &&& app1.ui.expanded_items@ == (match key {
                        SelectionKey::File(_) | SelectionKey::Section(_) => {
                            if app0.ui.expanded_items@.contains(key) {
                                app0.ui.expanded_items@.remove(key)
                            } else {
                                app0.ui.expanded_items@.insert(key)
                            }
                        },
                        _ => app0.ui.expanded_items@,
                    })
                    &&& pend1 == pend0.push(Event::EnsureSelectionInViewport)
                }),
                StateUpdate::ToggleExpandAll => ({
                    let was_all = app0.ui.expanded_items@ == crate::app::spec_expandable_keys(
                        app0.state@,
                    );
                    &&& r == Ok::<RunFlow, RecordError>(RunFlow::Continue)
                    &&& app1.state == app0.state
                    &&& (if was_all {
                        app1.ui.expanded_items@ == Set::<SelectionKey>::empty() && app1.ui
                            .selection_key == ancestor_file_key(app0.ui.selection_key)
                    } else {
                        app1.ui.expanded_items@ == crate::app::spec_expandable_keys(
                            app0.state@,
                        ) && app1.ui.selection_key == app0.ui.selection_key
                    })
                    &&& pend1 == pend0.push(Event::EnsureSelectionInViewport)
                }),
                StateUpdate::ToggleCommitViewMode => ({
                    &&& r == Ok::<RunFlow, RecordError>(RunFlow::Continue)
                    &&& app1.state == app0.state
                    &&& pend1 == pend0
                    &&& app1.ui.commit_view_mode == (match app0.ui.commit_view_mode {
                        CommitViewMode::Inline => CommitViewMode::Adjacent,
                        CommitViewMode::Adjacent => CommitViewMode::Inline,
                    })
                }),
                StateUpdate::EditCommitMessage { commit_idx } => ({
                    &&& (r is Ok ==> r == Ok::<RunFlow, RecordError>(RunFlow::Continue))
                    &&& app1.ui == app0.ui
                    &&& app1.state@.is_read_only == app0.state@.is_read_only
                    &&& app1.state@.files == app0.state@.files
                    &&& pend1 == pend0.push(Event::Redraw)
                    &&& ({
                        let cs = app0.state@.commits;
                        if commit_idx >= cs.len() {
                            r is Err && r->Err_0 is Bug && app1.state@.commits == cs
                        } else {
                            match cs[commit_idx as int].message {
                                None => r is Ok && app1.state@.commits == cs,
                                Some(_) => (r is Ok ==> exists|msg: Seq<char>|
                                    app1.state@.commits == cs.update(
                                        commit_idx as int,
                                        crate::types::CommitModel { message: Some(msg) },
                                    )) && (r is Err ==> app1.state@.commits == cs),
                            }
                        }
                    })
                }),
            }
}

/// One full driver step on `event`: the reducer's update, applied.
pub open spec fn step_rel(
    app0: App,
    pend0: Seq<Event>,
    event: Event,
    term_height: usize,
    rects: Seq<(ComponentId, crate::render::DrawnRect)>,
    app1: App,
    pend1: Seq<Event>,
    r: Result<RunFlow, RecordError>,
) -> bool {
    apply_rel(
        app0,
        pend0,
        spec_handle_event(app0, event, term_height, rects),
        term_height,
        rects,
        app1,
        pend1,
        r,
    )
}

/// A whole session: the driver steps are folded over the pending queue and
/// the input events, pending follow-ups first, until an event accepts
/// (`Ok` with the recorded state as it then stands), one cancels or fails
/// (that error), or the input runs out (`Ok(None)` with the state as
/// left).  `fuel` bounds the number of steps; the driver's contracts
/// quantify it existentially.
pub open spec fn session_rel(
    app0: App,
    pend0: Seq<Event>,
    events: Seq<Event>,
    term_height: usize,
    rects: Seq<(ComponentId, crate::render::DrawnRect)>,
    app1: App,
    r: Result<Option<RecordState>, RecordError>,
    fuel: nat,
) -> bool
    decreases fuel, 0int,
{
    if fuel == 0 {
        false
    } else if pend0.len() > 0 {
        exists|app_mid: App, pend_mid: Seq<Event>, sr: Result<RunFlow, RecordError>|
            {
                &&& #[trigger] step_rel(
                    app0,
                    pend0.drop_first(),
                    pend0[0],
                    term_height,
                    rects,
                    app_mid,
                    pend_mid,
                    sr,
                )
                &&& session_outcome_rel(
                    app_mid,
                    pend_mid,
                    events,
                    term_height,
                    rects,
                    app1,
                    r,
                    sr,
                    (fuel - 1) as nat,
                )
            }
    } else if events.len() > 0 {
        exists|app_mid: App, pend_mid: Seq<Event>, sr: Result<RunFlow, RecordError>|
            {
                &&& #[trigger] step_rel(
                    app0,
                    pend0,
                    events[0],
                    term_height,
                    rects,
                    app_mid,
                    pend_mid,
                    sr,
                )
                &&& session_outcome_rel(
                    app_mid,
                    pend_mid,
                    events.drop_first(),
                    term_height,
                    rects,
                    app1,
                    r,
                    sr,
                    (fuel - 1) as nat,
                )
            }
    } else {
        app1 == app0 && r == Ok::<Option<RecordState>, RecordError>(None)
    }
}

/// What one step's result means for the rest of the session: continue by
/// folding on, stop with the recorded state on acceptance, or stop with
/// the step's error.
pub open spec fn session_outcome_rel(
    app_mid: App,
    pend_mid: Seq<Event>,
    events: Seq<Event>,
    term_height: usize,
    rects: Seq<(ComponentId, crate::render::DrawnRect)>,
    app1: App,
    r: Result<Option<RecordState>, RecordError>,
    sr: Result<RunFlow, RecordError>,
    fuel: nat,
) -> bool
    decreases fuel, 1int,
{
    match sr {
        Ok(RunFlow::Continue) => session_rel(
            app_mid,
            pend_mid,
            events,
            term_height,
            rects,
            app1,
            r,
            fuel,
        ),
        Ok(RunFlow::Accepted) => app1 == app_mid && r is Ok && r->Ok_0 is Some && r->Ok_0->0@
            == app_mid.state@,
        Err(e) => app1 == app_mid && r == Err::<Option<RecordState>, RecordError>(e),
    }
}

/// Drives the user's selection over a record state: holds the application,
/// the input source, and the queue of synthetic follow-up events drained
/// ahead of fresh input.
pub struct Recorder<'a, I: RecordInput> {
    pub app: App,
    pub input: &'a mut I,
    pub pending_events: Vec<Event>,
    /// The screenshot handles collected from handled screenshot events, in
    /// order.  A rendering driver fills each one in with its view of the
    /// frame; this crate only records that the capture was requested.
    pub screenshots: Vec<TestingScreenshot>,
}

/// Whether an event may sit in the pending queue: only the synthetic
/// follow-ups do, and handling them enqueues nothing further.
pub open spec fn pending_kind(e: Event) -> bool {
    e is EnsureSelectionInViewport || e is Redraw
}

impl<'a, I: RecordInput> Recorder<'a, I> {
    /// Constructor.
    pub fn new(state: RecordState, input: &'a mut I) -> (r: Self)
        requires
            state.commits@.len() <= 2,
        ensures
            r.app.wf(),
            r.app.state@.is_read_only == state@.is_read_only,
            r.app.state@.files == state@.files,
            r.app.state@.commits == crate::app::spec_padded_commits(state@.commits),
            r.app.ui.selection_key == spec_first_key(r.app.state@, 0),
            r.app.ui.expanded_items@ == spec_initial_expanded(r.app.state@),
            r.app.ui.help_dialog is None,
            r.app.ui.quit_dialog is None,
            r.app.ui.scroll_offset_y == 0,
            r.app.ui.focused_commit_idx == 0,
            r.pending_events@ == Seq::<Event>::empty(),
            r.screenshots@ == Seq::<TestingScreenshot>::empty(),
    {
        Recorder {
            app: App::new(state),
            input,
            pending_events: Vec::new(),
            screenshots: Vec::new(),
        }
    }

    /// Replaces one commit's message with what the input source's editor
    /// returns; a commit without a message is left alone.
    pub fn edit_commit_message(&mut self, commit_idx: usize) -> (r: Result<(), RecordError>)
        ensures
            final(self).app.ui == old(self).app.ui,
            final(self).pending_events == old(self).pending_events,
            final(self).screenshots == old(self).screenshots,
            final(self).app.state@.is_read_only == old(self).app.state@.is_read_only,
            final(self).app.state@.files == old(self).app.state@.files,
            ({
                let cs = old(self).app.state@.commits;
                if commit_idx >= cs.len() {
                    r is Err && r->Err_0 is Bug && final(self).app.state@.commits == cs
                } else {
                    match cs[commit_idx as int].message {
                        None => r is Ok && final(self).app.state@.commits == cs,
                        Some(_) => (r is Ok ==> exists|msg: Seq<char>|
                            final(self).app.state@.commits == cs.update(
                                commit_idx as int,
                                crate::types::CommitModel { message: Some(msg) },
                            )) && (r is Err ==> final(self).app.state@.commits == cs),
                    }
                }
            }),
    {
        if commit_idx >= self.app.state.commits.len() {
            return Err(RecordError::Bug("out-of-bounds commit index".to_owned()));
        }
        let has_message = match &self.app.state.commits[commit_idx].message {
            Some(_) => true,
            None => false,
        };
        if !has_message {
            return Ok(());
        }
        let message_str = match &self.app.state.commits[commit_idx].message {
            Some(m) => m.clone(),
            None => String::new(),
        };
        let new_message = match self.input.edit_commit_message(message_str.as_str()) {
            Ok(m) => m,
            Err(e) => {
                return Err(e);
            },
        };
        let ghost cs = old(self).app.state@.commits;
        let ghost msg_view = new_message@;
        self.app.state.commits[commit_idx] = crate::types::Commit {
            message: Some(new_message),
        };
        proof {
            assert(crate::types::commit_models(self.app.state.commits@) =~= cs.update(
                commit_idx as int,
                crate::types::CommitModel { message: Some(msg_view) },
            ));
        }
        Ok(())
    }

    /// Applies one state update: mutates the model or the UI state,
    /// enqueues follow-up events, and says whether the session goes on.
    /// Cancellation is returned as the `Cancelled` error, acceptance as
    /// `RunFlow::Accepted`.  This driver draws nothing: a redraw is a
    /// no-op here (the enclosing render loop redraws after every step
    /// anyway), and a screenshot request is collected in `screenshots`
    /// for the renderer to fill in.
    pub fn apply_update(
        &mut self,
        update: StateUpdate,
        term_height: usize,
        drawn_rects: &DrawnRects,
    ) -> (r: Result<RunFlow, RecordError>)
        requires
            old(self).app.wf(),
            drawn_rects.wf(),
            term_height <= 0x1000_0000,
        ensures
            final(self).app.wf(),
            forall|j: int|
                0 <= j < old(self).pending_events@.len() ==> final(self).pending_events@[j]
                    == old(self).pending_events@[j],
            final(self).pending_events@.len() >= old(self).pending_events@.len(),
            forall|j: int|
                old(self).pending_events@.len() <= j < final(self).pending_events@.len()
                    ==> pending_kind(#[trigger] final(self).pending_events@[j]),
            final(self).screenshots@ =~= old(self).screenshots@ + (match update {
                StateUpdate::TakeScreenshot(s) => seq![s],
                _ => Seq::<TestingScreenshot>::empty(),
            }),
            apply_rel(
                old(self).app,
                old(self).pending_events@,
                update,
                term_height,
                drawn_rects.entries@,
                final(self).app,
                final(self).pending_events@,
                r,
            ),
    {
        match update {
            StateUpdate::Nothing => Ok(RunFlow::Continue),
            StateUpdate::SetHelpDialog(help_dialog) => {
                self.app.ui.help_dialog = help_dialog;
                Ok(RunFlow::Continue)
            },
            StateUpdate::SetQuitDialog(quit_dialog) => {
                self.app.ui.quit_dialog = quit_dialog;
                Ok(RunFlow::Continue)
            },
            StateUpdate::QuitAccept => {
                if self.app.ui.help_dialog.is_some() {
                    self.app.ui.help_dialog = None;
                    Ok(RunFlow::Continue)
                } else {
                    Ok(RunFlow::Accepted)
                }
            },
            StateUpdate::QuitCancel => Err(RecordError::Cancelled),
            StateUpdate::TakeScreenshot(s) => {
                self.screenshots.push(s);
                Ok(RunFlow::Continue)
            },
            StateUpdate::Redraw => Ok(RunFlow::Continue),
            StateUpdate::EnsureSelectionInViewport => {
                proof {
                    crate::app::lemma_rect_of_wf(
                        drawn_rects,
                        ComponentId::SelectableItem(self.app.ui.selection_key),
                    );
                }
                if let Some(scroll_offset_y) = self.app.ensure_in_viewport(
                    term_height,
                    drawn_rects,
                    self.app.ui.selection_key,
                ) {
                    proof {
                        assert(-0x4000_0000 <= scroll_offset_y <= 0x4000_0000);
                    }
                    self.app.ui.scroll_offset_y = scroll_offset_y;
                }
                Ok(RunFlow::Continue)
            },
            StateUpdate::ScrollTo(scroll_offset_y) => {
                match drawn_rects.get(ComponentId::App) {
                    None => {},
                    Some(dr) => {
                        proof {
                            crate::app::lemma_rect_of_wf(drawn_rects, ComponentId::App);
                        }
                        let hi = (dr.rect.height as isize) - 1;
                        self.app.ui.scroll_offset_y = if scroll_offset_y < 0 {
                            0
                        } else if scroll_offset_y > hi {
                            hi
                        } else {
                            scroll_offset_y
                        };
                    },
                }
                Ok(RunFlow::Continue)
            },
            StateUpdate::SelectItem { selection_key, ensure_in_viewport } => {
                self.app.ui.selection_key = selection_key;
                self.app.expand_item_ancestors(selection_key);
                if ensure_in_viewport {
                    self.pending_events.push(Event::EnsureSelectionInViewport);
                }
                Ok(RunFlow::Continue)
            },
            StateUpdate::ToggleItem(selection_key) => {
                match self.app.toggle_item(selection_key) {
                    Ok(()) => Ok(RunFlow::Continue),
                    Err(e) => Err(e),
                }
            },
            StateUpdate::ToggleItemAndAdvance(selection_key, new_key) => {
                match self.app.toggle_item(selection_key) {
                    Ok(()) => {
                        self.app.ui.selection_key = new_key;
                        self.pending_events.push(Event::EnsureSelectionInViewport);
                        Ok(RunFlow::Continue)
                    },
                    Err(e) => Err(e),
                }
            },
            StateUpdate::ToggleAll => {
                self.app.toggle_all();
                Ok(RunFlow::Continue)
            },
            StateUpdate::ToggleAllUniform => {
                self.app.toggle_all_uniform();
                Ok(RunFlow::Continue)
            },
            StateUpdate::SetExpandItem(selection_key, is_expanded) => {
                self.app.set_expand_item(selection_key, is_expanded);
                self.pending_events.push(Event::EnsureSelectionInViewport);
                Ok(RunFlow::Continue)
            },
            StateUpdate::ToggleExpandItem(selection_key) => {
                match self.app.toggle_expand_item(selection_key) {
                    Ok(()) => {
                        self.pending_events.push(Event::EnsureSelectionInViewport);
                        Ok(RunFlow::Continue)
                    },
                    Err(e) => Err(e),
                }
            },
            StateUpdate::ToggleExpandAll => {
                match self.app.toggle_expand_all() {
                    Ok(()) => {
                        self.pending_events.push(Event::EnsureSelectionInViewport);
                        Ok(RunFlow::Continue)
                    },
                    Err(e) => Err(e),
                }
            },
            StateUpdate::ToggleCommitViewMode => {
                self.app.ui.commit_view_mode = match self.app.ui.commit_view_mode {
                    CommitViewMode::Inline => CommitViewMode::Adjacent,
                    CommitViewMode::Adjacent => CommitViewMode::Inline,
                };
                Ok(RunFlow::Continue)
            },
            StateUpdate::EditCommitMessage { commit_idx } => {
                self.pending_events.push(Event::Redraw);
                match self.edit_commit_message(commit_idx) {
                    Ok(()) => Ok(RunFlow::Continue),
                    Err(e) => Err(e),
                }
            },
        }
    }

    /// One full step: reduce the event to an update and apply it.  The
    /// new application state, the new pending queue and the result are
    /// pinned by `step_rel`, the composition of the reducer with the
    /// update transition.
    pub fn step(&mut self, event: Event, term_height: usize, drawn_rects: &DrawnRects) -> (r:
        Result<RunFlow, RecordError>)
        requires
            old(self).app.wf(),
            drawn_rects.wf(),
            term_height <= 0x1000_0000,
        ensures
            final(self).app.wf(),
            step_rel(
                old(self).app,
                old(self).pending_events@,
                event,
                term_height,
                drawn_rects.entries@,
                final(self).app,
                final(self).pending_events@,
                r,
            ),
            final(self).screenshots@ =~= old(self).screenshots@ + (match spec_handle_event(
                old(self).app,
                event,
                term_height,
                drawn_rects.entries@,
            ) {
                StateUpdate::TakeScreenshot(s) => seq![s],
                _ => Seq::<TestingScreenshot>::empty(),
            }),
            forall|j: int|
                0 <= j < old(self).pending_events@.len() ==> final(self).pending_events@[j]
                    == old(self).pending_events@[j],
            final(self).pending_events@.len() >= old(self).pending_events@.len(),
            forall|j: int|
                old(self).pending_events@.len() <= j < final(self).pending_events@.len()
                    ==> pending_kind(#[trigger] final(self).pending_events@[j]),
            pending_kind(event) ==> final(self).pending_events@.len() == old(
                self,
            ).pending_events@.len(),
    {
        let ghost app0 = self.app;
        let update = match self.app.handle_event(event, term_height, drawn_rects) {
            Ok(u) => u,
            Err(e) => {
                return Err(e);
            },
        };
        proof {
            if pending_kind(event) {
                assert(!(update is SelectItem) && !(update is ToggleItemAndAdvance) && !(update
                    is SetExpandItem) && !(update is ToggleExpandItem) && !(update
                    is ToggleExpandAll) && !(update is EditCommitMessage));
            }
        }
        self.apply_update(update, term_height, drawn_rects)
    }

    /// Drives the session over a fixed list of events against a fixed
    /// ledger, draining follow-up events ahead of the list.  The result
    /// and the final application state are pinned by `session_rel`: the
    /// fold of `step_rel` over the queue, ending with the recorded state
    /// on acceptance, the step's error on cancellation or failure, and
    /// `Ok(None)` when the queue runs out.
    pub fn drive(&mut self, events: Vec<Event>, term_height: usize, drawn_rects: &DrawnRects) -> (
        r: Result<Option<RecordState>, RecordError>)
        requires
            old(self).app.wf(),
            drawn_rects.wf(),
            term_height <= 0x1000_0000,
            forall|j: int|
                0 <= j < old(self).pending_events@.len() ==> pending_kind(
                    #[trigger] old(self).pending_events@[j],
                ),
        ensures
            final(self).app.wf(),
            forall|j: int|
                0 <= j < final(self).pending_events@.len() ==> pending_kind(
                    #[trigger] final(self).pending_events@[j],
                ),
            exists|fuel: nat|
                #[trigger] session_rel(
                    old(self).app,
                    old(self).pending_events@,
                    events@,
                    term_height,
                    drawn_rects.entries@,
                    final(self).app,
                    r,
                    fuel,
                ),
        decreases events@.len(), self.pending_events@.len(),
    {
        let ghost app0 = self.app;
        let ghost pend0 = self.pending_events@;
        let ghost rects = drawn_rects.entries@;
        if self.pending_events.len() > 0 {
            let ev = self.pending_events.remove(0);
            proof {
                assert(pending_kind(ev));
                assert(self.pending_events@ =~= pend0.drop_first());
            }
            let ghost pend_rest = self.pending_events@;
            let sr = self.step(ev, term_height, drawn_rects);
            let ghost app_mid = self.app;
            let ghost pend_mid = self.pending_events@;
            match sr {
                Err(e) => {
                    proof {
                        assert(step_rel(
                            app0,
                            pend0.drop_first(),
                            pend0[0],
                            term_height,
                            rects,
                            app_mid,
                            pend_mid,
                            Err::<RunFlow, RecordError>(e),
                        ));
                        assert(session_rel(
                            app0,
                            pend0,
                            events@,
                            term_height,
                            rects,
                            self.app,
                            Err::<Option<RecordState>, RecordError>(e),
                            1,
                        ));
                    }
                    Err(e)
                },
                Ok(RunFlow::Accepted) => {
                    let st = self.app.state.clone();
                    proof {
                        assert(step_rel(
                            app0,
                            pend0.drop_first(),
                            pend0[0],
                            term_height,
                            rects,
                            app_mid,
                            pend_mid,
                            Ok::<RunFlow, RecordError>(RunFlow::Accepted),
                        ));
                        assert(st@ == app_mid.state@);
                        assert(session_rel(
                            app0,
                            pend0,
                            events@,
                            term_height,
                            rects,
                            self.app,
                            Ok::<Option<RecordState>, RecordError>(Some(st)),
                            1,
                        ));
                    }
                    Ok(Some(st))
                },
                Ok(RunFlow::Continue) => {
                    let ghost events_snap = events@;
                    let r = self.drive(events, term_height, drawn_rects);
                    proof {
                        let f = choose|f: nat|
                            #[trigger] session_rel(
                                app_mid,
                                pend_mid,
                                events_snap,
                                term_height,
                                rects,
                                self.app,
                                r,
                                f,
                            );
                        assert(session_rel(
                            app_mid,
                            pend_mid,
                            events_snap,
                            term_height,
                            rects,
                            self.app,
                            r,
                            f,
                        ));
                        assert(step_rel(
                            app0,
                            pend0.drop_first(),
                            pend0[0],
                            term_height,
                            rects,
                            app_mid,
                            pend_mid,
                            Ok::<RunFlow, RecordError>(RunFlow::Continue),
                        ));
                        assert(session_rel(
                            app0,
                            pend0,
                            events_snap,
                            term_height,
                            rects,
                            self.app,
                            r,
                            f + 1,
                        ));
                    }
                    r
                },
            }
        } else if events.len() > 0 {
            let mut events = events;
            let ghost events0 = events@;
            let ev = events.remove(0);
            proof {
                assert(events@ =~= events0.drop_first());
            }
            let sr = self.step(ev, term_height, drawn_rects);
            let ghost app_mid = self.app;
            let ghost pend_mid = self.pending_events@;
            match sr {
                Err(e) => {
                    proof {
                        assert(step_rel(
                            app0,
                            pend0,
                            events0[0],
                            term_height,
                            rects,
                            app_mid,
                            pend_mid,
                            Err::<RunFlow, RecordError>(e),
                        ));
                        assert(session_rel(
                            app0,
                            pend0,
                            events0,
                            term_height,
                            rects,
                            self.app,
                            Err::<Option<RecordState>, RecordError>(e),
                            1,
                        ));
                    }
                    Err(e)
                },
                Ok(RunFlow::Accepted) => {
                    let st = self.app.state.clone();
                    proof {
                        assert(step_rel(
                            app0,
                            pend0,
                            events0[0],
                            term_height,
                            rects,
                            app_mid,
                            pend_mid,
                            Ok::<RunFlow, RecordError>(RunFlow::Accepted),
                        ));
                        assert(st@ == app_mid.state@);
                        assert(session_rel(
                            app0,
                            pend0,
                            events0,
                            term_height,
                            rects,
                            self.app,
                            Ok::<Option<RecordState>, RecordError>(Some(st)),
                            1,
                        ));
                    }
                    Ok(Some(st))
                },
                Ok(RunFlow::Continue) => {
                    let ghost events_snap = events@;
                    let r = self.drive(events, term_height, drawn_rects);
                    proof {
                        let f = choose|f: nat|
                            #[trigger] session_rel(
                                app_mid,
                                pend_mid,
                                events_snap,
                                term_height,
                                rects,
                                self.app,
                                r,
                                f,
                            );
                        assert(events_snap == events0.drop_first());
                        assert(session_rel(
                            app_mid,
                            pend_mid,
                            events0.drop_first(),
                            term_height,
                            rects,
                            self.app,
                            r,
                            f,
                        ));
                        assert(step_rel(
                            app0,
                            pend0,
                            events0[0],
                            term_height,
                            rects,
                            app_mid,
                            pend_mid,
                            Ok::<RunFlow, RecordError>(RunFlow::Continue),
                        ));
                        assert(session_rel(
                            app0,
                            pend0,
                            events0,
                            term_height,
                            rects,
                            self.app,
                            r,
                            f + 1,
                        ));
                    }
                    r
                },
            }
        } else {
            proof {
                assert(session_rel(
                    app0,
                    pend0,
                    events@,
                    term_height,
                    rects,
                    self.app,
                    Ok::<Option<RecordState>, RecordError>(None),
                    1,
                ));
            }
            Ok(None)
        }
    }

    /// Drives the session over a fixed list of events with nothing drawn:
    /// every "where was this item drawn" question answers "nowhere", so
    /// viewport fix-ups are no-ops.  The result is the `session_rel` fold
    /// of the driver over the events with an empty ledger, at some
    /// terminal height taken from the input source: the recorded state
    /// when an event accepted the session, `Cancelled` when one cancelled
    /// it, and `None` when the list ran out.
    pub fn process_events(&mut self, events: Vec<Event>) -> (r: Result<
        Option<RecordState>,
        RecordError,
    >)
        requires
            old(self).app.wf(),
            forall|j: int|
                0 <= j < old(self).pending_events@.len() ==> pending_kind(
                    #[trigger] old(self).pending_events@[j],
                ),
        ensures
            final(self).app.wf(),
            forall|j: int|
                0 <= j < final(self).pending_events@.len() ==> pending_kind(
                    #[trigger] final(self).pending_events@[j],
                ),
            exists|fuel: nat, term_height: usize|
                term_height <= 0x1000_0000 && #[trigger] session_rel(
                    old(self).app,
                    old(self).pending_events@,
                    events@,
                    term_height,
                    Seq::empty(),
                    final(self).app,
                    r,
                    fuel,
                ),
    {
        let drawn_rects = DrawnRects::new();
        let term_height: usize = match self.input.terminal_kind() {
            TerminalKind::Testing { width: _, height } => {
                if height <= 0x1000_0000 {
                    height
                } else {
                    0x1000_0000
                }
            },
            TerminalKind::Crossterm => 24,
        };
        let r = self.drive(events, term_height, &drawn_rects);
        proof {
            assert(drawn_rects.entries@ =~= Seq::<(ComponentId, crate::render::DrawnRect)>::empty());
            let f = choose|f: nat|
                #[trigger] session_rel(
                    old(self).app,
                    old(self).pending_events@,
                    events@,
                    term_height,
                    drawn_rects.entries@,
                    self.app,
                    r,
                    f,
                );
            assert(session_rel(
                old(self).app,
                old(self).pending_events@,
                events@,
                term_height,
                Seq::empty(),
                self.app,
                r,
                f,
            ));
        }
        r
    }
}

} // verus!
