//! One rendered commit: its message row and its file views, the summary
//! line shown for the message, and the sticky-header rule.

use vstd::prelude::*;
use crate::file::FileView;
use crate::line::{append_char, str_chars};
use crate::render::{rect_wf, Rect};
use crate::types::Commit;

verus! {

/// The column margin between adjacent commit views.
pub const COMMIT_VIEW_MARGIN: usize = 1;

/// The message row of one commit.  It is rendered only when the commit has
/// a message; a placeholder commit contributes nothing.
#[derive(Clone, Debug)]
pub struct CommitMessageView {
    pub commit_idx: usize,
    pub commit: Commit,
}

/// One rendered commit: its message row and its file views.
#[derive(Clone, Debug)]
pub struct CommitView {
    pub commit_message_view: CommitMessageView,
    pub file_views: Vec<FileView>,
}

// ---------------------------------------------------------------------------
// The message summary line.
// ---------------------------------------------------------------------------

/// Relies on `char::is_whitespace`: whether a character counts as
/// whitespace; a pure classification of the character alone, named here
/// rather than restated.
pub uninterp spec fn char_whitespace(c: char) -> bool;

#[verifier::external_body]
fn is_whitespace_char(c: char) -> (r: bool)
    ensures
        r == char_whitespace(c),
{
    c.is_whitespace()
}

/// The position of the first line break, or the length when there is none.
pub open spec fn newline_index(cs: Seq<char>) -> int
    decreases cs.len(),
{
    if cs.len() == 0 {
        0
    } else if cs[0] == '\n' {
        0
    } else {
        1 + newline_index(cs.drop_first())
    }
}

/// A scan that stopped at the first line break pins `newline_index`.
pub proof fn lemma_newline_index_witness(cs: Seq<char>, x: int)
    requires
        0 <= x <= cs.len(),
        forall|j: int| 0 <= j < x ==> cs[j] != '\n',
        x < cs.len() ==> cs[x] == '\n',
    ensures
        newline_index(cs) == x,
    decreases cs.len(),
{
    if cs.len() > 0 && cs[0] != '\n' {
        let rest = cs.drop_first();
        assert(forall|j: int| 0 <= j < rest.len() ==> #[trigger] rest[j] == cs[j + 1]);
        lemma_newline_index_witness(rest, x - 1);
    }
}

/// The text with leading and trailing whitespace removed.
pub open spec fn spec_trim(cs: Seq<char>) -> Seq<char>
    decreases cs.len(),
{
    if cs.len() > 0 && char_whitespace(cs[0]) {
        spec_trim(cs.drop_first())
    } else if cs.len() > 0 && char_whitespace(cs.last()) {
        spec_trim(cs.drop_last())
    } else {
        cs
    }
}

/// A whitespace-free core pins the trim: everything before `lo` and from
/// `hi` on is whitespace, and the core's two ends are not.
pub proof fn lemma_trim_range(cs: Seq<char>, lo: int, hi: int)
    requires
        0 <= lo <= hi <= cs.len(),
        forall|j: int| 0 <= j < lo ==> char_whitespace(#[trigger] cs[j]),
        forall|j: int| hi <= j < cs.len() ==> char_whitespace(#[trigger] cs[j]),
        lo < hi ==> !char_whitespace(cs[lo]) && !char_whitespace(cs[hi - 1]),
    ensures
        spec_trim(cs) == cs.subrange(lo, hi),
    decreases cs.len(),
{
    if cs.len() == 0 {
        assert(cs.subrange(lo, hi) =~= cs);
    } else if char_whitespace(cs[0]) {
        let rest = cs.drop_first();
        assert(forall|j: int| 0 <= j < rest.len() ==> #[trigger] rest[j] == cs[j + 1]);
        if lo == 0 {
            assert(lo == hi);
            lemma_trim_range(rest, 0, 0);
            assert(cs.subrange(0, 0) =~= rest.subrange(0, 0));
        } else {
            lemma_trim_range(rest, lo - 1, hi - 1);
            assert(rest.subrange(lo - 1, hi - 1) =~= cs.subrange(lo, hi));
        }
    } else if char_whitespace(cs.last()) {
        assert(lo == 0);
        let head = cs.drop_last();
        assert(forall|j: int| 0 <= j < head.len() ==> #[trigger] head[j] == cs[j]);
        assert(hi < cs.len());
        lemma_trim_range(head, lo, hi);
        assert(head.subrange(lo, hi) =~= cs.subrange(lo, hi));
    } else {
        assert(lo == 0);
        assert(hi == cs.len());
        assert(cs.subrange(0, cs.len() as int) =~= cs);
    }
}

/// The summary line of a commit message: its first line, trimmed, or the
/// placeholder text when that leaves nothing.
pub open spec fn spec_message_summary(cs: Seq<char>) -> Seq<char> {
    let t = spec_trim(cs.take(newline_index(cs)));
    if t.len() == 0 {
        "(no message)"@
    } else {
        t
    }
}

/// The first non-empty line of the message, trimmed; `"(no message)"` when
/// the message has no visible text before its first line break.
pub fn commit_message_summary(message: &str) -> (r: String)
    ensures
        r@ == spec_message_summary(message@),
{
    let cs = str_chars(message);
    let n = cs.len();
    // The first line.
    let mut nl: usize = n;
    let mut i: usize = 0;
    while i < n && nl == n
        invariant
            0 <= i <= n,
            n == cs@.len(),
            nl == n || (nl < i && cs@[nl as int] == '\n' && forall|j: int|
                0 <= j < nl ==> cs@[j] != '\n'),
            nl == n ==> forall|j: int| 0 <= j < i ==> cs@[j] != '\n',
        decreases n - i,
    {
        if cs[i] == '\n' {
            nl = i;
        }
        i += 1;
    }
    proof {
        lemma_newline_index_witness(cs@, nl as int);
    }
    let ghost first_line = cs@.take(nl as int);
    // Trim the first line.
    let mut lo: usize = 0;
    while lo < nl && is_whitespace_char(cs[lo])
        invariant
            0 <= lo <= nl <= n,
            n == cs@.len(),
            forall|j: int| 0 <= j < lo ==> char_whitespace(#[trigger] cs@[j]),
        decreases nl - lo,
    {
        lo += 1;
    }
    let mut hi: usize = nl;
    while hi > lo && is_whitespace_char(cs[hi - 1])
        invariant
            lo <= hi <= nl <= n,
            n == cs@.len(),
            forall|j: int| hi <= j < nl ==> char_whitespace(#[trigger] cs@[j]),
        decreases hi,
    {
        hi -= 1;
    }
    proof {
        assert(forall|j: int| 0 <= j < first_line.len() ==> #[trigger] first_line[j] == cs@[j]);
        lemma_trim_range(first_line, lo as int, hi as int);
    }
    if lo == hi {
        return "(no message)".to_owned();
    }
    let mut out = String::new();
    let mut k: usize = lo;
    while k < hi
        invariant
            lo <= k <= hi <= nl,
            nl <= n,
            n == cs@.len(),
            out@ =~= cs@.subrange(lo as int, k as int),
        decreases hi - k,
    {
        out = append_char(out, cs[k]);
        proof {
            assert(out@ =~= cs@.subrange(lo as int, k + 1));
        }
        k += 1;
    }
    proof {
        assert(first_line.subrange(lo as int, hi as int) =~= cs@.subrange(
            lo as int,
            hi as int,
        ));
        assert(out@ =~= spec_message_summary(cs@));
    }
    out
}

// ---------------------------------------------------------------------------
// The sticky header rule.
// ---------------------------------------------------------------------------

/// The row at which a sticky header is painted: the top of the commit
/// view's mask, exactly when the file starts above that row and still has
/// content at or below it.
pub open spec fn spec_sticky_header_row(file_y: int, file_height: int, mask_y: int) -> Option<
    int,
> {
    if file_y < mask_y && mask_y < file_y + file_height {
        Some(mask_y)
    } else {
        None
    }
}

/// Where, if anywhere, the sticky header of a file is painted, given the
/// rectangle the file was drawn at and the top row of the scrolling mask.
pub fn sticky_header_row(file_rect: Rect, mask_y: isize) -> (r: Option<isize>)
    requires
        rect_wf(file_rect),
        -0x4000_0000 <= mask_y <= 0x4000_0000,
    ensures
        r == (match spec_sticky_header_row(
            file_rect.y as int,
            file_rect.height as int,
            mask_y as int,
        ) {
            Some(y) => Some(y as isize),
            None => None::<isize>,
        }),
{
    if file_rect.y < mask_y && mask_y < file_rect.y + (file_rect.height as isize) {
        Some(mask_y)
    } else {
        None
    }
}

} // verus!
