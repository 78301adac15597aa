//! Small reusable view values: the three-state box and the two dialogs.
//! These are plain data; painting them is the caller's concern.

use vstd::prelude::*;
use vstd::string::StringExecFns;

verus! {

/// Whether commits are shown one at a time or side by side.
#[derive(Clone, Copy, Debug, PartialEq, Eq, Structural)]
pub enum CommitViewMode {
    Inline,
    Adjacent,
}

/// Whether a tristate box renders as a checkbox or as an expand arrow.
#[derive(Clone, Copy, Debug, PartialEq, Eq, Structural)]
pub enum TristateIconStyle {
    Check,
    Expand,
}

/// A three-state checkbox or expand arrow.
#[derive(Clone, Debug)]
pub struct TristateBox<Id> {
    pub id: Id,
    pub tristate: crate::types::Tristate,
    pub icon_style: TristateIconStyle,
    pub is_read_only: bool,
}

/// The icon text of a tristate box: an arrow for the expand style, a
/// bracketed mark for the check style.  A read-only checkbox uses angle
/// brackets, so that it reads as not togglable.
pub open spec fn spec_tristate_box_text(
    icon_style: TristateIconStyle,
    tristate: crate::types::Tristate,
    is_read_only: bool,
) -> Seq<char> {
    match icon_style {
        TristateIconStyle::Expand => match tristate {
            crate::types::Tristate::False => "\u{25b6}"@,
            crate::types::Tristate::True | crate::types::Tristate::Partial => "\u{25bc}"@,
        },
        TristateIconStyle::Check => if is_read_only {
            match tristate {
                crate::types::Tristate::False => "< >"@,
                crate::types::Tristate::True => "<*>"@,
                crate::types::Tristate::Partial => "<~>"@,
            }
        } else {
            match tristate {
                crate::types::Tristate::False => "[ ]"@,
                crate::types::Tristate::True => "[*]"@,
                crate::types::Tristate::Partial => "[~]"@,
            }
        },
    }
}

impl<Id> TristateBox<Id> {
    /// The icon text: a collapsed or expanded arrow for the expand style, or
    /// an empty, starred or tilde box for the check style, in angle
    /// brackets when the box is read-only.
    pub fn text(&self) -> (r: String)
        ensures
            r@ == spec_tristate_box_text(self.icon_style, self.tristate, self.is_read_only),
    {
        match self.icon_style {
            TristateIconStyle::Expand => match self.tristate {
                crate::types::Tristate::False => "\u{25b6}".to_owned(),
                crate::types::Tristate::True | crate::types::Tristate::Partial => {
                    "\u{25bc}".to_owned()
                },
            },
            TristateIconStyle::Check => {
                if self.is_read_only {
                    match self.tristate {
                        crate::types::Tristate::False => "< >".to_owned(),
                        crate::types::Tristate::True => "<*>".to_owned(),
                        crate::types::Tristate::Partial => "<~>".to_owned(),
                    }
                } else {
                    match self.tristate {
                        crate::types::Tristate::False => "[ ]".to_owned(),
                        crate::types::Tristate::True => "[*]".to_owned(),
                        crate::types::Tristate::Partial => "[~]".to_owned(),
                    }
                }
            },
        }
    }
}

/// The two buttons of the quit-confirmation dialog.
#[derive(Clone, Copy, Debug, Eq, Hash, PartialEq, PartialOrd, Ord, Structural)]
pub enum QuitDialogButtonId {
    Quit,
    GoBack,
}

/// The quit-confirmation dialog: how much would be thrown away, and which
/// button holds focus.
#[derive(Clone, Copy, Debug, PartialEq, Eq, Structural)]
pub struct QuitDialog {
    pub num_commit_messages: usize,
    pub num_changed_files: usize,
    pub focused_button: QuitDialogButtonId,
}

/// The help dialog; its content is fixed.
#[derive(Clone, Copy, Debug, PartialEq, Eq, Structural)]
pub struct HelpDialog();

// ---------------------------------------------------------------------------
// Decimal rendering for the dialog texts.
// ---------------------------------------------------------------------------

/// The digit characters, by value.
pub open spec fn digit_char(d: int) -> char {
    if d == 0 {
        '0'
    } else if d == 1 {
        '1'
    } else if d == 2 {
        '2'
    } else if d == 3 {
        '3'
    } else if d == 4 {
        '4'
    } else if d == 5 {
        '5'
    } else if d == 6 {
        '6'
    } else if d == 7 {
        '7'
    } else if d == 8 {
        '8'
    } else {
        '9'
    }
}

/// The decimal digits of a number, most significant first.
pub open spec fn dec_digits(n: int) -> Seq<char>
    decreases n,
{
    if n < 10 {
        seq![digit_char(n)]
    } else {
        dec_digits(n / 10) + seq![digit_char(n % 10)]
    }
}

fn digit_char_exec(d: usize) -> (r: char)
    requires
        d < 10,
    ensures
        r == digit_char(d as int),
{
    match d {
        0 => '0',
        1 => '1',
        2 => '2',
        3 => '3',
        4 => '4',
        5 => '5',
        6 => '6',
        7 => '7',
        8 => '8',
        _ => '9',
    }
}

/// The decimal rendering of a number.
pub fn usize_to_string(n: usize) -> (r: String)
    ensures
        r@ == dec_digits(n as int),
{
    if n == 0 {
        let r = "0".to_owned();
        proof {
            reveal_strlit("0");
            assert(r@ =~= dec_digits(0));
        }
        return r;
    }
    let mut digits: Vec<char> = Vec::new();
    let mut m = n;
    while m > 0
        invariant
            0 <= m <= n,
            m > 0 ==> dec_digits(n as int) =~= dec_digits(m as int) + digits@.reverse(),
            m == 0 ==> dec_digits(n as int) =~= digits@.reverse(),
        decreases m,
    {
        let d = digit_char_exec(m % 10);
        let ghost ds0 = digits@;
        digits.push(d);
        m = m / 10;
        proof {
            assert(digits@.reverse() =~= seq![d] + ds0.reverse());
            if m > 0 {
                assert(dec_digits(n as int) =~= dec_digits(m as int) + digits@.reverse());
            } else {
                assert(dec_digits(n as int) =~= digits@.reverse());
            }
        }
    }
    let mut out = String::new();
    let len = digits.len();
    let mut i: usize = 0;
    while i < len
        invariant
            0 <= i <= len,
            len == digits@.len(),
            out@ =~= digits@.reverse().take(i as int),
        decreases len - i,
    {
        out = crate::line::append_char(out, digits[len - 1 - i]);
        proof {
            assert(digits@.reverse()[i as int] == digits@[len - 1 - i]);
            assert(out@ =~= digits@.reverse().take(i + 1));
        }
        i += 1;
    }
    proof {
        assert(digits@.reverse().take(len as int) =~= digits@.reverse());
    }
    out
}

// ---------------------------------------------------------------------------
// The quit dialog's text.
// ---------------------------------------------------------------------------

/// One counted alert item, such as `"2 files"`.
pub open spec fn spec_alert_item(count: int, singular: Seq<char>, plural: Seq<char>) -> Seq<
    char,
> {
    dec_digits(count) + " "@ + (if count == 1 {
        singular
    } else {
        plural
    })
}

/// The quit dialog's body text: which work would be thrown away, and the
/// confirmation question.
pub open spec fn spec_quit_dialog_text(d: QuitDialog) -> Seq<char> {
    let question = "Are you sure you want to quit?"@;
    let messages = spec_alert_item(
        d.num_commit_messages as int,
        "message"@,
        "messages"@,
    );
    let files = spec_alert_item(d.num_changed_files as int, "file"@, "files"@);
    if d.num_commit_messages > 0 && d.num_changed_files > 0 {
        "You have changes to "@ + messages + " and "@ + files + ". "@ + question
    } else if d.num_commit_messages > 0 {
        "You have changes to "@ + messages + ". "@ + question
    } else if d.num_changed_files > 0 {
        "You have changes to "@ + files + ". "@ + question
    } else {
        question
    }
}

impl QuitDialog {
    /// The dialog's body text: the counted alert items joined with
    /// `" and "`, then the confirmation question.
    pub fn body_text(&self) -> (r: String)
        ensures
            r@ == spec_quit_dialog_text(*self),
    {
        let mut out = String::new();
        if self.num_commit_messages > 0 || self.num_changed_files > 0 {
            out.append("You have changes to ");
        }
        if self.num_commit_messages > 0 {
            let count = usize_to_string(self.num_commit_messages);
            out.append(count.as_str());
            out.append(" ");
            if self.num_commit_messages == 1 {
                out.append("message");
            } else {
                out.append("messages");
            }
        }
        if self.num_commit_messages > 0 && self.num_changed_files > 0 {
            out.append(" and ");
        }
        if self.num_changed_files > 0 {
            let count = usize_to_string(self.num_changed_files);
            out.append(count.as_str());
            out.append(" ");
            if self.num_changed_files == 1 {
                out.append("file");
            } else {
                out.append("files");
            }
        }
        if self.num_commit_messages > 0 || self.num_changed_files > 0 {
            out.append(". ");
        }
        out.append("Are you sure you want to quit?");
        proof {
            assert(out@ =~= spec_quit_dialog_text(*self));
        }
        out
    }
}

/// The help dialog's body text, line by line.
pub open spec fn spec_help_lines() -> Seq<Seq<char>> {
    seq![
        "Use these keyboard shortcuts:"@,
        ""@,
        "    Quit/Cancel             q           Next/Prev               j/k"@,
        "    Confirm changes         c           Next/Prev of same type  PgDn/PgUp"@,
        "    Force quit              ^c          Move out & fold         h"@,
        "                                        Move out & don't fold   H"@,
        "    Expand/Collapse         f           Move in & unfold        l"@,
        "    Expand/Collapse all     F           Scroll up/down          ^y/^e"@,
        "    Edit commit message     e           Page up/down            ^b/^f"@,
        "    Toggle current          Space       Previous/Next page      ^u/^d"@,
        "    Toggle and advance      Enter"@,
        "    Invert all              a"@,
        "    Invert all uniformly    A"@,
    ]
}

impl HelpDialog {
    /// The dialog's body text: the fixed keybinding table.
    pub fn body_lines(&self) -> (r: Vec<String>)
        ensures
            crate::types::string_views(r@) =~= spec_help_lines(),
    {
        let mut r: Vec<String> = Vec::new();
        r.push("Use these keyboard shortcuts:".to_owned());
        r.push("".to_owned());
        r.push("    Quit/Cancel             q           Next/Prev               j/k".to_owned());
        r.push(
            "    Confirm changes         c           Next/Prev of same type  PgDn/PgUp".to_owned(),
        );
        r.push("    Force quit              ^c          Move out & fold         h".to_owned());
        r.push("                                        Move out & don't fold   H".to_owned());
        r.push("    Expand/Collapse         f           Move in & unfold        l".to_owned());
        r.push("    Expand/Collapse all     F           Scroll up/down          ^y/^e".to_owned());
        r.push("    Edit commit message     e           Page up/down            ^b/^f".to_owned());
        r.push("    Toggle current          Space       Previous/Next page      ^u/^d".to_owned());
        r.push("    Toggle and advance      Enter".to_owned());
        r.push("    Invert all              a".to_owned());
        r.push("    Invert all uniformly    A".to_owned());
        proof {
            assert(crate::types::string_views(r@) =~= spec_help_lines());
        }
        r
    }
}

} // verus!
