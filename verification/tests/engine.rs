//! End-to-end scenarios driven through the headless recorder, and unit
//! checks of the reducer and the toggle engine.

use scm_record::app::{App, StateUpdate};
use scm_record::event::Event;
use scm_record::keys::{FileKey, LineKey, SectionKey, SelectionKey};
use scm_record::recorder::{Recorder, RecordInput, RunFlow, TestingInput};
use scm_record::render::{DrawnRect, DrawnRects, Rect};
use scm_record::types::{
    ChangeType, Commit, File, FileMode, RecordError, RecordState, Section, SectionChangedLine,
    Tristate,
};
use scm_record::widgets::QuitDialogButtonId;

fn placeholder_commits() -> Vec<Commit> {
    vec![Commit { message: None }, Commit { message: None }]
}

fn changed_line(checked: bool, change_type: ChangeType, text: &str) -> SectionChangedLine {
    SectionChangedLine {
        is_checked: checked,
        change_type,
        line: text.to_owned(),
    }
}

fn one_hunk_file(path: &str, lines: Vec<SectionChangedLine>) -> File {
    File {
        old_path: None,
        path: path.to_owned(),
        file_mode: FileMode::file_default(),
        sections: vec![Section::Changed { lines }],
    }
}

#[test]
fn test_event_source_testing() {
    let mut event_source = TestingInput::new(80, 24, vec![Event::QuitCancel]);
    assert!(matches!(
        event_source.next_events().unwrap().as_slice(),
        &[Event::QuitCancel]
    ));
    assert!(matches!(
        event_source.next_events().unwrap().as_slice(),
        &[Event::Nothing]
    ));
}

#[test]
fn test_quit_returns_error() {
    let state = RecordState {
        is_read_only: false,
        commits: Vec::new(),
        files: Vec::new(),
    };
    let mut input = TestingInput::new(80, 24, vec![Event::QuitCancel]);
    let mut recorder = Recorder::new(state, &mut input);
    assert!(matches!(
        recorder.process_events(vec![Event::QuitCancel]),
        Err(RecordError::Cancelled)
    ));

    let state = RecordState {
        is_read_only: false,
        commits: placeholder_commits(),
        files: vec![File {
            old_path: None,
            path: "foo/bar".to_owned(),
            file_mode: FileMode::file_default(),
            sections: Vec::new(),
        }],
    };
    let expected = RecordState {
        is_read_only: false,
        commits: placeholder_commits(),
        files: vec![File {
            old_path: None,
            path: "foo/bar".to_owned(),
            file_mode: FileMode::file_default(),
            sections: Vec::new(),
        }],
    };
    let mut input = TestingInput::new(80, 24, vec![Event::QuitAccept]);
    let mut recorder = Recorder::new(state, &mut input);
    let result = recorder.process_events(vec![Event::QuitAccept]).unwrap().unwrap();
    assert_eq!(result, expected);
}

#[test]
fn quit_empty_record_cancels_immediately() {
    let state = RecordState {
        is_read_only: false,
        commits: placeholder_commits(),
        files: Vec::new(),
    };
    let mut input = TestingInput::new(80, 24, vec![Event::QuitCancel]);
    let mut recorder = Recorder::new(state, &mut input);
    assert!(matches!(
        recorder.process_events(vec![Event::QuitCancel]),
        Err(RecordError::Cancelled)
    ));
}

#[test]
fn accept_unchanged_returns_input_bitwise() {
    let build = || RecordState {
        is_read_only: false,
        commits: placeholder_commits(),
        files: vec![File {
            old_path: None,
            path: "foo/bar".to_owned(),
            file_mode: FileMode::Unix(0o100644),
            sections: Vec::new(),
        }],
    };
    let mut input = TestingInput::new(80, 24, vec![Event::QuitAccept]);
    let mut recorder = Recorder::new(build(), &mut input);
    let result = recorder.process_events(vec![Event::QuitAccept]).unwrap().unwrap();
    assert_eq!(result, build());
}

#[test]
fn toggle_first_line_leaves_partial_tristates() {
    let state = RecordState {
        is_read_only: false,
        commits: placeholder_commits(),
        files: vec![one_hunk_file(
            "foo",
            vec![
                changed_line(false, ChangeType::Added, "a"),
                changed_line(false, ChangeType::Added, "b"),
            ],
        )],
    };
    let mut input = TestingInput::new(80, 24, Vec::new());
    let mut recorder = Recorder::new(state, &mut input);
    let result = recorder
        .process_events(vec![
            Event::FocusInner,
            Event::FocusInner,
            Event::ToggleItem,
            Event::QuitAccept,
        ])
        .unwrap()
        .unwrap();
    match &result.files[0].sections[0] {
        Section::Changed { lines } => {
            assert!(lines[0].is_checked);
            assert!(!lines[1].is_checked);
        }
        other => panic!("unexpected section: {other:?}"),
    }
    assert_eq!(result.files[0].sections[0].tristate(), Tristate::Partial);
    assert_eq!(result.files[0].tristate(), Tristate::Partial);
}

#[test]
fn checking_a_deletion_checks_every_line() {
    let state = RecordState {
        is_read_only: false,
        commits: placeholder_commits(),
        files: vec![File {
            old_path: None,
            path: "foo".to_owned(),
            file_mode: FileMode::file_default(),
            sections: vec![
                Section::FileMode {
                    is_checked: false,
                    mode: FileMode::Absent,
                },
                Section::Changed {
                    lines: vec![changed_line(false, ChangeType::Removed, "x")],
                },
            ],
        }],
    };
    let mut input = TestingInput::new(80, 24, Vec::new());
    let mut recorder = Recorder::new(state, &mut input);
    let result = recorder
        .process_events(vec![Event::FocusInner, Event::ToggleItem, Event::QuitAccept])
        .unwrap()
        .unwrap();
    match &result.files[0].sections[0] {
        Section::FileMode { is_checked, mode } => {
            assert!(*is_checked);
            assert_eq!(*mode, FileMode::Absent);
        }
        other => panic!("unexpected section: {other:?}"),
    }
    match &result.files[0].sections[1] {
        Section::Changed { lines } => assert!(lines[0].is_checked),
        other => panic!("unexpected section: {other:?}"),
    }
}

#[test]
fn unchecking_a_creation_unchecks_every_line() {
    let state = RecordState {
        is_read_only: false,
        commits: placeholder_commits(),
        files: vec![File {
            old_path: None,
            path: "foo".to_owned(),
            file_mode: FileMode::Absent,
            sections: vec![
                Section::FileMode {
                    is_checked: true,
                    mode: FileMode::Unix(0o100644),
                },
                Section::Changed {
                    lines: vec![
                        changed_line(true, ChangeType::Added, "a"),
                        changed_line(true, ChangeType::Added, "b"),
                    ],
                },
            ],
        }],
    };
    let mut input = TestingInput::new(80, 24, Vec::new());
    let mut recorder = Recorder::new(state, &mut input);
    let result = recorder
        .process_events(vec![Event::FocusInner, Event::ToggleItem, Event::QuitAccept])
        .unwrap()
        .unwrap();
    match &result.files[0].sections[0] {
        Section::FileMode { is_checked, .. } => assert!(!is_checked),
        other => panic!("unexpected section: {other:?}"),
    }
    match &result.files[0].sections[1] {
        Section::Changed { lines } => {
            assert!(!lines[0].is_checked);
            assert!(!lines[1].is_checked);
        }
        other => panic!("unexpected section: {other:?}"),
    }
}

#[test]
fn same_kind_navigation_walks_files_and_stops() {
    let state = RecordState {
        is_read_only: false,
        commits: placeholder_commits(),
        files: vec![
            one_hunk_file("one", vec![changed_line(false, ChangeType::Added, "a")]),
            one_hunk_file("two", vec![changed_line(false, ChangeType::Added, "b")]),
            one_hunk_file("three", vec![changed_line(false, ChangeType::Added, "c")]),
        ],
    };
    let mut input = TestingInput::new(80, 24, Vec::new());
    let mut recorder = Recorder::new(state, &mut input);
    let rects = DrawnRects::new();
    assert_eq!(
        recorder.app.ui.selection_key,
        SelectionKey::File(FileKey { commit_idx: 0, file_idx: 0 })
    );
    recorder.step(Event::FocusNextSameKind, 24, &rects).unwrap();
    assert_eq!(
        recorder.app.ui.selection_key,
        SelectionKey::File(FileKey { commit_idx: 0, file_idx: 1 })
    );
    recorder.step(Event::FocusNextSameKind, 24, &rects).unwrap();
    assert_eq!(
        recorder.app.ui.selection_key,
        SelectionKey::File(FileKey { commit_idx: 0, file_idx: 2 })
    );
    recorder.step(Event::FocusNextSameKind, 24, &rects).unwrap();
    assert_eq!(
        recorder.app.ui.selection_key,
        SelectionKey::File(FileKey { commit_idx: 0, file_idx: 2 })
    );
}

#[test]
fn quit_with_changes_opens_dialog_and_quit_button_cancels() {
    let state = RecordState {
        is_read_only: false,
        commits: placeholder_commits(),
        files: vec![one_hunk_file(
            "foo",
            vec![changed_line(true, ChangeType::Added, "a")],
        )],
    };
    let mut input = TestingInput::new(80, 24, Vec::new());
    let mut recorder = Recorder::new(state, &mut input);
    let rects = DrawnRects::new();
    recorder.step(Event::QuitCancel, 24, &rects).unwrap();
    let dialog = recorder.app.ui.quit_dialog.expect("quit dialog should open");
    assert_eq!(dialog.num_commit_messages, 0);
    assert_eq!(dialog.num_changed_files, 1);
    assert_eq!(dialog.focused_button, QuitDialogButtonId::Quit);
    assert!(matches!(
        recorder.step(Event::ToggleItem, 24, &rects),
        Err(RecordError::Cancelled)
    ));
}

#[test]
fn quit_dialog_go_back_button_dismisses() {
    let state = RecordState {
        is_read_only: false,
        commits: placeholder_commits(),
        files: vec![one_hunk_file(
            "foo",
            vec![changed_line(true, ChangeType::Added, "a")],
        )],
    };
    let mut input = TestingInput::new(80, 24, Vec::new());
    let mut recorder = Recorder::new(state, &mut input);
    let rects = DrawnRects::new();
    recorder.step(Event::QuitCancel, 24, &rects).unwrap();
    recorder.step(Event::FocusOuter { fold_section: true }, 24, &rects).unwrap();
    assert_eq!(
        recorder.app.ui.quit_dialog.unwrap().focused_button,
        QuitDialogButtonId::GoBack
    );
    recorder.step(Event::ToggleItem, 24, &rects).unwrap();
    assert!(recorder.app.ui.quit_dialog.is_none());
}

#[test]
fn help_dialog_swallows_navigation_and_closes() {
    let state = RecordState {
        is_read_only: false,
        commits: placeholder_commits(),
        files: vec![one_hunk_file(
            "foo",
            vec![changed_line(false, ChangeType::Added, "a")],
        )],
    };
    let mut input = TestingInput::new(80, 24, Vec::new());
    let mut recorder = Recorder::new(state, &mut input);
    let rects = DrawnRects::new();
    recorder.step(Event::Help, 24, &rects).unwrap();
    assert!(recorder.app.ui.help_dialog.is_some());
    let before = recorder.app.ui.selection_key;
    recorder.step(Event::FocusNext, 24, &rects).unwrap();
    assert_eq!(recorder.app.ui.selection_key, before);
    recorder.step(Event::Help, 24, &rects).unwrap();
    assert!(recorder.app.ui.help_dialog.is_none());
}

#[test]
fn toggle_all_uniform_drives_mixed_files_to_checked() {
    let state = RecordState {
        is_read_only: false,
        commits: placeholder_commits(),
        files: vec![
            one_hunk_file("one", vec![changed_line(true, ChangeType::Added, "a")]),
            one_hunk_file("two", vec![changed_line(false, ChangeType::Added, "b")]),
        ],
    };
    let mut app = App::new(state);
    app.toggle_all_uniform();
    assert_eq!(app.state.files[0].tristate(), Tristate::True);
    assert_eq!(app.state.files[1].tristate(), Tristate::True);
    // All files now agree on checked, so the uniform toggle flips them off.
    app.toggle_all_uniform();
    assert_eq!(app.state.files[0].tristate(), Tristate::False);
    assert_eq!(app.state.files[1].tristate(), Tristate::False);
}

#[test]
fn toggle_all_rounds_each_file_independently() {
    let state = RecordState {
        is_read_only: false,
        commits: placeholder_commits(),
        files: vec![
            one_hunk_file("one", vec![changed_line(false, ChangeType::Added, "a")]),
            one_hunk_file(
                "two",
                vec![
                    changed_line(true, ChangeType::Added, "b"),
                    changed_line(false, ChangeType::Added, "c"),
                ],
            ),
        ],
    };
    let mut app = App::new(state);
    app.toggle_all();
    // An unchecked file becomes checked; a mixed file rounds to unchecked.
    assert_eq!(app.state.files[0].tristate(), Tristate::True);
    assert_eq!(app.state.files[1].tristate(), Tristate::False);
}

#[test]
fn read_only_mode_ignores_toggles() {
    let state = RecordState {
        is_read_only: true,
        commits: placeholder_commits(),
        files: vec![one_hunk_file(
            "foo",
            vec![changed_line(false, ChangeType::Added, "a")],
        )],
    };
    let mut app = App::new(state);
    app.toggle_item(SelectionKey::File(FileKey { commit_idx: 0, file_idx: 0 }))
        .unwrap();
    assert_eq!(app.state.files[0].tristate(), Tristate::False);
}

#[test]
fn toggling_an_out_of_range_key_is_a_bug_error() {
    let state = RecordState {
        is_read_only: false,
        commits: placeholder_commits(),
        files: Vec::new(),
    };
    let mut app = App::new(state);
    let result = app.toggle_item(SelectionKey::File(FileKey { commit_idx: 0, file_idx: 7 }));
    assert!(matches!(result, Err(RecordError::Bug(_))));
}

#[test]
fn edit_commit_message_round_trips_through_the_input() {
    let state = RecordState {
        is_read_only: false,
        commits: vec![
            Commit {
                message: Some("subject line".to_owned()),
            },
            Commit { message: None },
        ],
        files: Vec::new(),
    };
    let mut input = TestingInput::new(80, 24, Vec::new());
    let mut recorder = Recorder::new(state, &mut input);
    let rects = DrawnRects::new();
    let flow = recorder
        .apply_update(StateUpdate::EditCommitMessage { commit_idx: 0 }, 24, &rects)
        .unwrap();
    assert_eq!(flow, RunFlow::Continue);
    assert_eq!(
        recorder.app.state.commits[0].message.as_deref(),
        Some("subject line")
    );
    assert_eq!(recorder.pending_events, vec![Event::Redraw]);
}

#[test]
fn expand_collapse_all_toggles_visibility() {
    let state = RecordState {
        is_read_only: false,
        commits: placeholder_commits(),
        files: vec![one_hunk_file(
            "foo",
            vec![changed_line(false, ChangeType::Added, "a")],
        )],
    };
    let mut app = App::new(state);
    // Initially sections are expanded but files are not, so only file and
    // section rows are visible... the section needs its file expanded.
    let (visible, _) = app.find_selection();
    assert_eq!(
        visible,
        vec![SelectionKey::File(FileKey { commit_idx: 0, file_idx: 0 })]
    );
    app.toggle_expand_all().unwrap();
    let (visible, _) = app.find_selection();
    assert_eq!(
        visible,
        vec![
            SelectionKey::File(FileKey { commit_idx: 0, file_idx: 0 }),
            SelectionKey::Section(SectionKey { commit_idx: 0, file_idx: 0, section_idx: 0 }),
            SelectionKey::Line(LineKey {
                commit_idx: 0,
                file_idx: 0,
                section_idx: 0,
                line_idx: 0
            }),
        ]
    );
    app.toggle_expand_all().unwrap();
    let (visible, _) = app.find_selection();
    assert_eq!(
        visible,
        vec![SelectionKey::File(FileKey { commit_idx: 0, file_idx: 0 })]
    );
}

#[test]
fn toggle_line_twice_restores_the_state() {
    let build = || RecordState {
        is_read_only: false,
        commits: placeholder_commits(),
        files: vec![one_hunk_file(
            "foo",
            vec![
                changed_line(false, ChangeType::Added, "a"),
                changed_line(true, ChangeType::Added, "b"),
            ],
        )],
    };
    let key = SelectionKey::Line(LineKey {
        commit_idx: 0,
        file_idx: 0,
        section_idx: 0,
        line_idx: 0,
    });
    let mut app = App::new(build());
    app.toggle_item(key).unwrap();
    app.toggle_item(key).unwrap();
    assert_eq!(app.state, build());
}

#[test]
fn find_selection_reports_the_current_index() {
    let state = RecordState {
        is_read_only: false,
        commits: placeholder_commits(),
        files: vec![
            one_hunk_file("one", vec![changed_line(false, ChangeType::Added, "a")]),
            one_hunk_file("two", vec![changed_line(false, ChangeType::Added, "b")]),
        ],
    };
    let mut app = App::new(state);
    let (keys, index) = app.find_selection();
    assert_eq!(index, Some(0));
    assert_eq!(keys[0], app.ui.selection_key);
    // A selection that is not visible reports no index.
    app.ui.selection_key = SelectionKey::Line(LineKey {
        commit_idx: 0,
        file_idx: 0,
        section_idx: 0,
        line_idx: 0,
    });
    let (_, index) = app.find_selection();
    assert_eq!(index, None);
}

#[test]
fn page_navigation_walks_by_drawn_positions() {
    let state = RecordState {
        is_read_only: false,
        commits: placeholder_commits(),
        files: vec![
            one_hunk_file("one", vec![changed_line(false, ChangeType::Added, "a")]),
            one_hunk_file("two", vec![changed_line(false, ChangeType::Added, "b")]),
            one_hunk_file("three", vec![changed_line(false, ChangeType::Added, "c")]),
        ],
    };
    let app = App::new(state);
    let mut rects = DrawnRects::new();
    for (i, y) in [(0usize, 0isize), (1, 20), (2, 40)] {
        rects.put(
            scm_record::keys::ComponentId::SelectableItem(SelectionKey::File(FileKey {
                commit_idx: 0,
                file_idx: i,
            })),
            DrawnRect { rect: Rect { x: 0, y, width: 80, height: 2 }, timestamp: i },
        );
    }
    // Half of 24 rows is 12: from file one at row 0 the next page lands on
    // file two at row 20, the first file at or below row 12.
    let next = app.select_next_page(24, &rects);
    assert_eq!(next, SelectionKey::File(FileKey { commit_idx: 0, file_idx: 1 }));
}

#[test]
fn scroll_to_clamps_into_the_drawn_document() {
    let state = RecordState {
        is_read_only: false,
        commits: placeholder_commits(),
        files: Vec::new(),
    };
    let mut input = TestingInput::new(80, 24, Vec::new());
    let mut recorder = Recorder::new(state, &mut input);
    let mut rects = DrawnRects::new();
    rects.put(
        scm_record::keys::ComponentId::App,
        DrawnRect { rect: Rect { x: 0, y: 0, width: 80, height: 50 }, timestamp: 0 },
    );
    recorder.apply_update(StateUpdate::ScrollTo(500), 24, &rects).unwrap();
    assert_eq!(recorder.app.ui.scroll_offset_y, 49);
    recorder.apply_update(StateUpdate::ScrollTo(-3), 24, &rects).unwrap();
    assert_eq!(recorder.app.ui.scroll_offset_y, 0);
}

#[test]
fn quit_dialog_counts_commit_messages() {
    let state = RecordState {
        is_read_only: false,
        commits: vec![
            Commit { message: Some("work in progress".to_owned()) },
            Commit { message: None },
        ],
        files: Vec::new(),
    };
    let mut input = TestingInput::new(80, 24, Vec::new());
    let mut recorder = Recorder::new(state, &mut input);
    let rects = DrawnRects::new();
    recorder.step(Event::QuitCancel, 24, &rects).unwrap();
    let dialog = recorder.app.ui.quit_dialog.expect("quit dialog should open");
    assert_eq!(dialog.num_commit_messages, 1);
    assert_eq!(dialog.num_changed_files, 0);
}

#[test]
fn toggle_binary_section_twice_restores_the_state() {
    let build = || RecordState {
        is_read_only: false,
        commits: placeholder_commits(),
        files: vec![File {
            old_path: None,
            path: "blob".to_owned(),
            file_mode: FileMode::file_default(),
            sections: vec![Section::Binary {
                is_checked: false,
                old_description: Some("abc123".to_owned()),
                new_description: Some("def456".to_owned()),
            }],
        }],
    };
    let key = SelectionKey::Section(SectionKey { commit_idx: 0, file_idx: 0, section_idx: 0 });
    let mut app = App::new(build());
    app.toggle_item(key).unwrap();
    match &app.state.files[0].sections[0] {
        Section::Binary { is_checked, .. } => assert!(is_checked),
        other => panic!("unexpected section: {other:?}"),
    }
    app.toggle_item(key).unwrap();
    assert_eq!(app.state, build());
}

#[test]
fn focus_outer_folds_then_moves_to_the_file() {
    let state = RecordState {
        is_read_only: false,
        commits: placeholder_commits(),
        files: vec![one_hunk_file(
            "foo",
            vec![changed_line(false, ChangeType::Added, "a")],
        )],
    };
    let mut input = TestingInput::new(80, 24, Vec::new());
    let mut recorder = Recorder::new(state, &mut input);
    let rects = DrawnRects::new();
    let section = SelectionKey::Section(SectionKey { commit_idx: 0, file_idx: 0, section_idx: 0 });
    recorder.step(Event::FocusInner, 24, &rects).unwrap();
    assert_eq!(recorder.app.ui.selection_key, section);
    // The section starts expanded, so folding collapses it without moving.
    recorder.step(Event::FocusOuter { fold_section: true }, 24, &rects).unwrap();
    assert_eq!(recorder.app.ui.selection_key, section);
    // A second outward move, with the section now collapsed, selects the file.
    recorder.step(Event::FocusOuter { fold_section: true }, 24, &rects).unwrap();
    assert_eq!(
        recorder.app.ui.selection_key,
        SelectionKey::File(FileKey { commit_idx: 0, file_idx: 0 })
    );
}

#[test]
fn screenshot_requests_are_collected_for_the_renderer() {
    let state = RecordState {
        is_read_only: false,
        commits: placeholder_commits(),
        files: Vec::new(),
    };
    let shot = scm_record::input::TestingScreenshot::default();
    let mut input = TestingInput::new(80, 24, Vec::new());
    let mut recorder = Recorder::new(state, &mut input);
    let result = recorder.process_events(vec![shot.event()]).unwrap();
    assert!(result.is_none());
    assert_eq!(recorder.screenshots.len(), 1);
    // A renderer fills the collected handle in with its view of the frame.
    recorder.screenshots[0].set("the frame".to_owned());
    assert_eq!(
        recorder.screenshots[0].contents.as_deref(),
        Some("the frame")
    );
}

#[test]
fn toggle_mode_section_twice_restores_when_no_rule_fires() {
    // Both modes are present, so neither coherence rule fires and the
    // double toggle restores the state bitwise.
    let build = || RecordState {
        is_read_only: false,
        commits: placeholder_commits(),
        files: vec![File {
            old_path: None,
            path: "foo".to_owned(),
            file_mode: FileMode::Unix(0o100644),
            sections: vec![
                Section::FileMode {
                    is_checked: false,
                    mode: FileMode::Unix(0o100755),
                },
                Section::Changed {
                    lines: vec![changed_line(true, ChangeType::Added, "a")],
                },
            ],
        }],
    };
    let key = SelectionKey::Section(SectionKey { commit_idx: 0, file_idx: 0, section_idx: 0 });
    let mut app = App::new(build());
    app.toggle_item(key).unwrap();
    app.toggle_item(key).unwrap();
    assert_eq!(app.state, build());
}

#[test]
fn double_toggle_is_idempotent_across_coherence() {
    // Unchecking then rechecking a line of a to-be-deleted file withdraws
    // and does not restore the deletion; repeating the double toggle
    // changes nothing more.
    let state = RecordState {
        is_read_only: false,
        commits: placeholder_commits(),
        files: vec![File {
            old_path: None,
            path: "foo".to_owned(),
            file_mode: FileMode::file_default(),
            sections: vec![
                Section::FileMode {
                    is_checked: true,
                    mode: FileMode::Absent,
                },
                Section::Changed {
                    lines: vec![changed_line(true, ChangeType::Removed, "x")],
                },
            ],
        }],
    };
    let line_key = SelectionKey::Line(LineKey {
        commit_idx: 0,
        file_idx: 0,
        section_idx: 1,
        line_idx: 0,
    });
    let mut app = App::new(state);
    app.toggle_item(line_key).unwrap();
    app.toggle_item(line_key).unwrap();
    let after_double = app.state.clone();
    // The deletion box was withdrawn by the uncheck and stays withdrawn.
    match &after_double.files[0].sections[0] {
        Section::FileMode { is_checked, .. } => assert!(!is_checked),
        other => panic!("unexpected section: {other:?}"),
    }
    app.toggle_item(line_key).unwrap();
    app.toggle_item(line_key).unwrap();
    assert_eq!(app.state, after_double);
}
