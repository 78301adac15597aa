//! Checks of the pure rendering logic: icon text, control-character
//! replacement, span splitting, the context-line window, the message
//! summary, the path label and the sticky-header rule.

use scm_record::app::App;
use scm_record::commit::{commit_message_summary, sticky_header_row};
use scm_record::file::FileViewHeader;
use scm_record::keys::{ComponentId, FileKey, SectionKey, SelectionKey};
use scm_record::line::{push_spans_from_line, replace_control_character, LineSpan};
use scm_record::render::{DrawnRect, DrawnRects, Rect};
use scm_record::section::unchanged_window;
use scm_record::types::{ChangeType, Commit, File, FileMode, RecordState, Section, SectionChangedLine, Tristate};
use scm_record::widgets::{usize_to_string, HelpDialog, QuitDialog, QuitDialogButtonId, TristateBox, TristateIconStyle};

#[test]
fn tristate_box_text_covers_every_state() {
    let make = |icon_style, tristate| TristateBox {
        id: 0u8,
        tristate,
        icon_style,
        is_read_only: false,
    };
    assert_eq!(make(TristateIconStyle::Check, Tristate::False).text(), "[ ]");
    assert_eq!(make(TristateIconStyle::Check, Tristate::True).text(), "[*]");
    assert_eq!(make(TristateIconStyle::Check, Tristate::Partial).text(), "[~]");
    assert_eq!(make(TristateIconStyle::Expand, Tristate::False).text(), "\u{25b6}");
    assert_eq!(make(TristateIconStyle::Expand, Tristate::True).text(), "\u{25bc}");
    assert_eq!(make(TristateIconStyle::Expand, Tristate::Partial).text(), "\u{25bc}");
    // A read-only checkbox uses angle brackets.
    let read_only = |tristate| TristateBox {
        id: 0u8,
        tristate,
        icon_style: TristateIconStyle::Check,
        is_read_only: true,
    };
    assert_eq!(read_only(Tristate::False).text(), "< >");
    assert_eq!(read_only(Tristate::True).text(), "<*>");
    assert_eq!(read_only(Tristate::Partial).text(), "<~>");
}

#[test]
fn control_characters_get_visible_replacements() {
    assert_eq!(replace_control_character('\t'), Some("\u{2192}   "));
    assert_eq!(replace_control_character('\n'), Some("\u{23ce}"));
    assert_eq!(replace_control_character('\r'), Some("\u{240d}"));
    assert_eq!(replace_control_character('\x07'), Some("\u{2407}"));
    assert_eq!(replace_control_character('\x7f'), Some("\u{2421}"));
    // A zero-width character is replaced through the width lookup; an
    // ordinary character is not.
    assert_eq!(replace_control_character('\u{200b}'), Some("\u{fffd}"));
    assert_eq!(replace_control_character('a'), None);
    assert_eq!(replace_control_character('\u{00e9}'), None);
}

#[test]
fn spans_split_a_line_around_control_characters() {
    let mut spans = Vec::new();
    push_spans_from_line("a\tb", &mut spans);
    assert_eq!(
        spans,
        vec![
            LineSpan::Raw { text: "a".to_owned() },
            LineSpan::Replaced { original: '\t', shown: "\u{2192}   ".to_owned() },
            LineSpan::Raw { text: "b".to_owned() },
        ]
    );

    let mut spans = Vec::new();
    push_spans_from_line("plain", &mut spans);
    assert_eq!(spans, vec![LineSpan::Raw { text: "plain".to_owned() }]);

    // A line starting with a control character begins with an empty run,
    // and an empty line yields nothing.
    let mut spans = Vec::new();
    push_spans_from_line("\rx", &mut spans);
    assert_eq!(
        spans,
        vec![
            LineSpan::Raw { text: String::new() },
            LineSpan::Replaced { original: '\r', shown: "\u{240d}".to_owned() },
            LineSpan::Raw { text: "x".to_owned() },
        ]
    );
    let mut spans = Vec::new();
    push_spans_from_line("", &mut spans);
    assert_eq!(spans, Vec::new());
}

#[test]
fn test_push_lines_from_span() {
    scm_record::line::test_push_lines_from_span_impl("");
    scm_record::line::test_push_lines_from_span_impl("ordinary text");
    scm_record::line::test_push_lines_from_span_impl("\t\t");
    scm_record::line::test_push_lines_from_span_impl("mixed\u{200b}content\r\n");
}

#[test]
fn small_middle_unchanged_section_is_shown_whole() {
    let w = unchanged_window(1, 3, 5);
    assert_eq!(w.before, vec![0, 1, 2, 3, 4]);
    assert!(!w.show_ellipsis);
    assert_eq!(w.after, Vec::<usize>::new());
}

#[test]
fn long_unchanged_section_is_windowed_with_ellipsis() {
    let w = unchanged_window(1, 3, 30);
    assert_eq!(w.before, (0..12).collect::<Vec<usize>>());
    assert!(w.show_ellipsis);
    assert_eq!(w.after, (18..30).collect::<Vec<usize>>());
}

#[test]
fn first_and_last_sections_elide_their_outer_context() {
    let first = unchanged_window(0, 3, 30);
    assert_eq!(first.before, Vec::<usize>::new());
    assert!(first.show_ellipsis);
    assert_eq!(first.after, (18..30).collect::<Vec<usize>>());

    let last = unchanged_window(2, 3, 30);
    assert_eq!(last.before, (0..12).collect::<Vec<usize>>());
    assert!(last.show_ellipsis);
    assert_eq!(last.after, Vec::<usize>::new());
}

#[test]
fn commit_message_summary_takes_the_first_trimmed_line() {
    assert_eq!(commit_message_summary("  hello world \nrest"), "hello world");
    assert_eq!(commit_message_summary("subject"), "subject");
    assert_eq!(commit_message_summary("   \nrest"), "(no message)");
    assert_eq!(commit_message_summary(""), "(no message)");
}

#[test]
fn path_label_shows_renames_with_an_arrow() {
    let header = FileViewHeader {
        file_key: FileKey { commit_idx: 0, file_idx: 0 },
        path: "new/name".to_owned(),
        old_path: Some("old/name".to_owned()),
        is_selected: false,
        toggle_box: TristateBox {
            id: ComponentId::ToggleBox(SelectionKey::Nothing),
            tristate: Tristate::False,
            icon_style: TristateIconStyle::Check,
            is_read_only: false,
        },
        expand_box: TristateBox {
            id: ComponentId::ExpandBox(SelectionKey::Nothing),
            tristate: Tristate::False,
            icon_style: TristateIconStyle::Expand,
            is_read_only: false,
        },
    };
    assert_eq!(header.path_label(), "old/name \u{2192} new/name");
    let plain = FileViewHeader { old_path: None, ..header };
    assert_eq!(plain.path_label(), "new/name");
}

#[test]
fn sticky_header_appears_once_the_file_scrolls_off() {
    let file_rect = Rect { x: 0, y: 3, width: 80, height: 10 };
    // Mask top inside the file but below its first row: header is painted
    // at the mask top.
    assert_eq!(sticky_header_row(file_rect, 5), Some(5));
    // Mask top at or above the file's first row: no sticky header.
    assert_eq!(sticky_header_row(file_rect, 3), None);
    assert_eq!(sticky_header_row(file_rect, 0), None);
    // Mask top below the file entirely: no sticky header.
    assert_eq!(sticky_header_row(file_rect, 13), None);
}

#[test]
fn ensure_in_viewport_aligns_top_or_bottom() {
    let state = RecordState {
        is_read_only: false,
        commits: vec![Commit { message: None }, Commit { message: None }],
        files: vec![File {
            old_path: None,
            path: "foo".to_owned(),
            file_mode: FileMode::file_default(),
            sections: vec![Section::Changed {
                lines: vec![SectionChangedLine {
                    is_checked: false,
                    change_type: ChangeType::Added,
                    line: "a".to_owned(),
                }],
            }],
        }],
    };
    let app = App::new(state);
    let key = SelectionKey::File(FileKey { commit_idx: 0, file_idx: 0 });
    let mut rects = DrawnRects::new();
    rects.put(
        ComponentId::SelectableItem(key),
        DrawnRect { rect: Rect { x: 0, y: 50, width: 80, height: 4 }, timestamp: 1 },
    );
    // The component lies below the viewport (scroll 0, height 24): its
    // bottom is aligned with the viewport's bottom.
    assert_eq!(app.ensure_in_viewport(24, &rects, key), Some(54 - 24));
    // A key that was never drawn asks for no scrolling at all.
    let undrawn = SelectionKey::File(FileKey { commit_idx: 0, file_idx: 9 });
    assert_eq!(app.ensure_in_viewport(24, &rects, undrawn), None);
}

#[test]
fn view_builds_one_commit_view_with_counters() {
    let state = RecordState {
        is_read_only: false,
        commits: vec![Commit { message: Some("msg".to_owned()) }, Commit { message: None }],
        files: vec![File {
            old_path: None,
            path: "foo".to_owned(),
            file_mode: FileMode::file_default(),
            sections: vec![
                Section::Unchanged { lines: vec!["ctx".to_owned(), "ctx2".to_owned()] },
                Section::Changed {
                    lines: vec![
                        SectionChangedLine {
                            is_checked: true,
                            change_type: ChangeType::Removed,
                            line: "gone".to_owned(),
                        },
                        SectionChangedLine {
                            is_checked: true,
                            change_type: ChangeType::Added,
                            line: "new".to_owned(),
                        },
                    ],
                },
            ],
        }],
    };
    let app = App::new(state);
    let view = app.view(None);
    assert_eq!(view.commit_views.len(), 1);
    let commit_view = &view.commit_views[0];
    assert_eq!(commit_view.commit_message_view.commit_idx, 0);
    assert_eq!(
        commit_view.commit_message_view.commit.message.as_deref(),
        Some("msg")
    );
    assert_eq!(commit_view.file_views.len(), 1);
    let file_view = &commit_view.file_views[0];
    assert_eq!(file_view.toggle_box.tristate, Tristate::True);
    assert!(file_view.is_header_selected);
    let section_views = &file_view.section_views;
    assert_eq!(section_views.len(), 2);
    // The context section starts at line 1; the hunk starts after its two
    // context lines and is the only editable section.
    assert_eq!(section_views[0].line_start_num, 1);
    assert_eq!(section_views[1].line_start_num, 3);
    assert_eq!(section_views[1].editable_section_num, 1);
    assert_eq!(section_views[1].total_num_editable_sections, 1);
    assert_eq!(section_views[1].toggle_box.tristate, Tristate::True);
}

#[test]
fn quit_dialog_body_text_counts_the_work() {
    let dialog = QuitDialog {
        num_commit_messages: 1,
        num_changed_files: 12,
        focused_button: QuitDialogButtonId::Quit,
    };
    assert_eq!(
        dialog.body_text(),
        "You have changes to 1 message and 12 files. Are you sure you want to quit?"
    );
    let none = QuitDialog {
        num_commit_messages: 0,
        num_changed_files: 0,
        focused_button: QuitDialogButtonId::Quit,
    };
    assert_eq!(none.body_text(), "Are you sure you want to quit?");
    let files_only = QuitDialog {
        num_commit_messages: 0,
        num_changed_files: 1,
        focused_button: QuitDialogButtonId::GoBack,
    };
    assert_eq!(
        files_only.body_text(),
        "You have changes to 1 file. Are you sure you want to quit?"
    );
}

#[test]
fn usize_to_string_renders_decimal() {
    assert_eq!(usize_to_string(0), "0");
    assert_eq!(usize_to_string(7), "7");
    assert_eq!(usize_to_string(120), "120");
    assert_eq!(usize_to_string(98765), "98765");
}

#[test]
fn context_sections_hide_when_their_neighbours_are_collapsed() {
    let state = RecordState {
        is_read_only: false,
        commits: vec![Commit { message: None }, Commit { message: None }],
        files: vec![File {
            old_path: None,
            path: "foo".to_owned(),
            file_mode: FileMode::file_default(),
            sections: vec![
                Section::Unchanged { lines: vec!["a".to_owned()] },
                Section::Changed {
                    lines: vec![SectionChangedLine {
                        is_checked: false,
                        change_type: ChangeType::Added,
                        line: "x".to_owned(),
                    }],
                },
                Section::Unchanged { lines: vec!["b".to_owned()] },
            ],
        }],
    };
    let mut app = App::new(state);
    // Sections start expanded: both context sections frame the hunk.
    let view = app.view(None);
    let mask = view.commit_views[0].file_views[0].section_visibility_mask();
    assert_eq!(mask, vec![true, true, true]);
    // With the hunk collapsed, its context neighbours hide too.
    app.set_expand_item(
        SelectionKey::Section(SectionKey { commit_idx: 0, file_idx: 0, section_idx: 1 }),
        false,
    );
    let view = app.view(None);
    let mask = view.commit_views[0].file_views[0].section_visibility_mask();
    assert_eq!(mask, vec![false, true, false]);
}

#[test]
fn help_dialog_lines_hold_the_keybinding_table() {
    let body = HelpDialog().body_lines();
    assert_eq!(body[0], "Use these keyboard shortcuts:");
    assert!(body.iter().any(|l| l.contains("Toggle current          Space")));
    assert!(body.iter().any(|l| l.contains("Invert all uniformly    A")));
}
