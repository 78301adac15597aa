//! One rendered line of a section: raw text runs interleaved with visible
//! replacements for control and zero-width characters.

use vstd::prelude::*;
use crate::keys::{ComponentId, LineKey, SelectionKey};
use crate::types::ChangeType;
use crate::widgets::TristateBox;

verus! {

/// Relies on `unicode_width::UnicodeWidthChar::width`: the displayed width
/// of a character in columns, `None` for a control character.  The result
/// is a pure table lookup, a function of the character alone; it is named
/// here rather than restated.
pub uninterp spec fn char_display_width(c: char) -> Option<usize>;

#[verifier::external_body]
fn char_width(c: char) -> (r: Option<usize>)
    ensures
        r == char_display_width(c),
{
    unicode_width::UnicodeWidthChar::width(c)
}

/// Relies on `str::chars`: the characters of a string, in order.
#[verifier::external_body]
pub(crate) fn str_chars(s: &str) -> (r: Vec<char>)
    ensures
        r@ == s@,
{
    s.chars().collect()
}

/// Relies on `String::push`: the string with one character appended.
#[verifier::external_body]
pub(crate) fn append_char(s: String, c: char) -> (r: String)
    ensures
        r@ == s@.push(c),
{
    let mut s = s;
    s.push(c);
    s
}

/// The visible replacement a character calls for: a fixed symbol for each
/// control character (a fixed-width arrow for a tab, so that columns stay
/// aligned), and a replacement sign for anything of zero display width;
/// `None` for an ordinary character.  `width` stands for the character's
/// display width, `None` meaning a control character.
pub open spec fn spec_replacement(c: char, width: Option<usize>) -> Option<Seq<char>> {
    if c == '\t' {
        Some("\u{2192}   "@)
    } else if c == '\n' {
        Some("\u{23ce}"@)
    } else if c == '\r' {
        Some("\u{240d}"@)
    } else if c == '\x00' {
        Some("\u{2400}"@)
    } else if c == '\x01' {
        Some("\u{2401}"@)
    } else if c == '\x02' {
        Some("\u{2402}"@)
    } else if c == '\x03' {
        Some("\u{2403}"@)
    } else if c == '\x04' {
        Some("\u{2404}"@)
    } else if c == '\x05' {
        Some("\u{2405}"@)
    } else if c == '\x06' {
        Some("\u{2406}"@)
    } else if c == '\x07' {
        Some("\u{2407}"@)
    } else if c == '\x08' {
        Some("\u{2408}"@)
    } else if c == '\x0b' {
        Some("\u{240b}"@)
    } else if c == '\x0c' {
        Some("\u{240c}"@)
    } else if c == '\x0e' {
        Some("\u{240e}"@)
    } else if c == '\x0f' {
        Some("\u{240f}"@)
    } else if c == '\x10' {
        Some("\u{2410}"@)
    } else if c == '\x11' {
        Some("\u{2411}"@)
    } else if c == '\x12' {
        Some("\u{2412}"@)
    } else if c == '\x13' {
        Some("\u{2413}"@)
    } else if c == '\x14' {
        Some("\u{2414}"@)
    } else if c == '\x15' {
        Some("\u{2415}"@)
    } else if c == '\x16' {
        Some("\u{2416}"@)
    } else if c == '\x17' {
        Some("\u{2417}"@)
    } else if c == '\x18' {
        Some("\u{2418}"@)
    } else if c == '\x19' {
        Some("\u{2419}"@)
    } else if c == '\x1a' {
        Some("\u{241a}"@)
    } else if c == '\x1b' {
        Some("\u{241b}"@)
    } else if c == '\x1c' {
        Some("\u{241c}"@)
    } else if c == '\x1d' {
        Some("\u{241d}"@)
    } else if c == '\x1e' {
        Some("\u{241e}"@)
    } else if c == '\x1f' {
        Some("\u{241f}"@)
    } else if c == '\x7f' {
        Some("\u{2421}"@)
    } else if width == Some(0usize) || width is None {
        Some("\u{fffd}"@)
    } else {
        None
    }
}

/// The visible replacement for a control or zero-width character, or
/// `None` for an ordinary one.
pub fn replace_control_character(character: char) -> (r: Option<&'static str>)
    ensures
        (match r {
            Some(t) => Some(t@),
            None => None,
        }) == spec_replacement(character, char_display_width(character)),
{
    match character {
        '\t' => Some("\u{2192}   "),
        '\n' => Some("\u{23ce}"),
        '\r' => Some("\u{240d}"),
        '\x00' => Some("\u{2400}"),
        '\x01' => Some("\u{2401}"),
        '\x02' => Some("\u{2402}"),
        '\x03' => Some("\u{2403}"),
        '\x04' => Some("\u{2404}"),
        '\x05' => Some("\u{2405}"),
        '\x06' => Some("\u{2406}"),
        '\x07' => Some("\u{2407}"),
        '\x08' => Some("\u{2408}"),
        '\x0b' => Some("\u{240b}"),
        '\x0c' => Some("\u{240c}"),
        '\x0e' => Some("\u{240e}"),
        '\x0f' => Some("\u{240f}"),
        '\x10' => Some("\u{2410}"),
        '\x11' => Some("\u{2411}"),
        '\x12' => Some("\u{2412}"),
        '\x13' => Some("\u{2413}"),
        '\x14' => Some("\u{2414}"),
        '\x15' => Some("\u{2415}"),
        '\x16' => Some("\u{2416}"),
        '\x17' => Some("\u{2417}"),
        '\x18' => Some("\u{2418}"),
        '\x19' => Some("\u{2419}"),
        '\x1a' => Some("\u{241a}"),
        '\x1b' => Some("\u{241b}"),
        '\x1c' => Some("\u{241c}"),
        '\x1d' => Some("\u{241d}"),
        '\x1e' => Some("\u{241e}"),
        '\x1f' => Some("\u{241f}"),
        '\x7f' => Some("\u{2421}"),
        c => {
            let w = char_width(c);
            let zero_width = match w {
                Some(x) => x == 0,
                None => true,
            };
            if zero_width {
                Some("\u{fffd}")
            } else {
                None
            }
        },
    }
}

/// Whether a character is shown as a replacement symbol.
pub open spec fn has_replacement(c: char) -> bool {
    spec_replacement(c, char_display_width(c)) is Some
}

/// The replacement text of a replaced character.
pub open spec fn replacement_text(c: char) -> Seq<char> {
    spec_replacement(c, char_display_width(c))->0
}

/// One span of a rendered line: a run of the line's own characters, or the
/// visible stand-in for one control or zero-width character.
#[derive(Clone, Debug, PartialEq, Eq)]
pub enum LineSpan {
    /// A run of ordinary characters, shown as they are.
    Raw { text: String },
    /// One replaced character: the original, and the symbol shown for it.
    Replaced { original: char, shown: String },
}

/// Model of a span: which character it replaces, if any, and what is shown.
#[verifier::ext_equal]
pub struct SpanModel {
    pub replaced: Option<char>,
    pub text: Seq<char>,
}

impl View for LineSpan {
    type V = SpanModel;

    open spec fn view(&self) -> SpanModel {
        match self {
            LineSpan::Raw { text } => SpanModel { replaced: None, text: text@ },
            LineSpan::Replaced { original, shown } => SpanModel {
                replaced: Some(*original),
                text: shown@,
            },
        }
    }
}

/// The models of a sequence of spans.
pub open spec fn span_models(v: Seq<LineSpan>) -> Seq<SpanModel> {
    Seq::new(v.len(), |i: int| v[i]@)
}

/// The spans of a line, built left to right with a pending run of ordinary
/// characters: a replaced character flushes the run (possibly empty) and
/// adds its own span; whatever run remains at the end is kept only if it
/// is non-empty.
pub open spec fn line_spans_rec(cs: Seq<char>, run: Seq<char>) -> Seq<SpanModel>
    decreases cs.len(),
{
    if cs.len() == 0 {
        if run.len() == 0 {
            Seq::empty()
        } else {
            seq![SpanModel { replaced: None, text: run }]
        }
    } else if has_replacement(cs[0]) {
        seq![
            SpanModel { replaced: None, text: run },
            SpanModel { replaced: Some(cs[0]), text: replacement_text(cs[0]) },
        ] + line_spans_rec(cs.drop_first(), Seq::empty())
    } else {
        line_spans_rec(cs.drop_first(), run.push(cs[0]))
    }
}

/// The spans of a whole line.
pub open spec fn spec_line_spans(cs: Seq<char>) -> Seq<SpanModel> {
    line_spans_rec(cs, Seq::empty())
}

/// The source text a span stands for: its own text for a raw run, the
/// replaced character for a replacement.
pub open spec fn span_source(sm: SpanModel) -> Seq<char> {
    match sm.replaced {
        Some(c) => seq![c],
        None => sm.text,
    }
}

/// The source text a sequence of spans stands for.
pub open spec fn spans_source(sms: Seq<SpanModel>) -> Seq<char>
    decreases sms.len(),
{
    if sms.len() == 0 {
        Seq::empty()
    } else {
        span_source(sms[0]) + spans_source(sms.drop_first())
    }
}

proof fn lemma_spans_source_rec(cs: Seq<char>, run: Seq<char>)
    ensures
        spans_source(line_spans_rec(cs, run)) == run + cs,
    decreases cs.len(),
{
    if cs.len() == 0 {
        if run.len() == 0 {
            assert(spans_source(line_spans_rec(cs, run)) =~= run + cs);
        } else {
            let sms = line_spans_rec(cs, run);
            assert(sms.drop_first() =~= Seq::<SpanModel>::empty());
            assert(spans_source(sms.drop_first()) =~= Seq::<char>::empty());
            assert(sms[0] == SpanModel { replaced: None, text: run });
            assert(spans_source(sms) == span_source(sms[0]) + spans_source(sms.drop_first()));
            assert(spans_source(sms) =~= run + cs);
        }
    } else if has_replacement(cs[0]) {
        lemma_spans_source_rec(cs.drop_first(), Seq::empty());
        let rest = line_spans_rec(cs.drop_first(), Seq::empty());
        let sms = line_spans_rec(cs, run);
        let two = seq![
            SpanModel { replaced: None, text: run },
            SpanModel { replaced: Some(cs[0]), text: replacement_text(cs[0]) },
        ];
        assert(sms == two + rest);
        assert(sms[0] == two[0]);
        let sms1 = sms.drop_first();
        assert(sms1 =~= seq![
            SpanModel { replaced: Some(cs[0]), text: replacement_text(cs[0]) },
        ] + rest);
        assert(sms1[0] == two[1]);
        assert(sms1.drop_first() =~= rest);
        assert(spans_source(sms) == span_source(sms[0]) + spans_source(sms1));
        assert(spans_source(sms1) == span_source(sms1[0]) + spans_source(sms1.drop_first()));
        assert(spans_source(rest) == Seq::<char>::empty() + cs.drop_first());
        assert(Seq::<char>::empty() + cs.drop_first() =~= cs.drop_first());
        assert(spans_source(sms) =~= run + cs);
    } else {
        lemma_spans_source_rec(cs.drop_first(), run.push(cs[0]));
        assert(run.push(cs[0]) + cs.drop_first() =~= run + cs);
    }
}

/// Round trip: the spans of a line cover exactly the line, in order — no
/// character is lost, duplicated or reordered by control-character
/// replacement.
pub proof fn lemma_spans_cover_line(cs: Seq<char>)
    ensures
        spans_source(spec_line_spans(cs)) == cs,
{
    lemma_spans_source_rec(cs, Seq::empty());
    assert(Seq::<char>::empty() + cs =~= cs);
}

/// Flushes the pending run and records one replaced character.
fn push_replacement(out: &mut Vec<LineSpan>, flushed: String, c: char, shown: &str)
    requires
        has_replacement(c),
        shown@ == replacement_text(c),
    ensures
        span_models(final(out)@) =~= span_models(old(out)@) + seq![
            SpanModel { replaced: None, text: flushed@ },
            SpanModel { replaced: Some(c), text: replacement_text(c) },
        ],
{
    let ghost f0 = flushed@;
    let ghost v0 = out@;
    out.push(LineSpan::Raw { text: flushed });
    let second = LineSpan::Replaced { original: c, shown: shown.to_owned() };
    out.push(second);
    proof {
        assert(out@.len() == v0.len() + 2);
        assert(forall|j: int| 0 <= j < v0.len() ==> out@[j] == #[trigger] v0[j]);
        assert(out@[v0.len() as int]@ == SpanModel { replaced: None, text: f0 });
        assert(out@[v0.len() as int + 1]@ == SpanModel {
            replaced: Some(c),
            text: replacement_text(c),
        });
        assert(span_models(out@) =~= span_models(v0) + seq![
            SpanModel { replaced: None, text: f0 },
            SpanModel { replaced: Some(c), text: replacement_text(c) },
        ]);
    }
}

/// Splits the line into spans, replacing control characters with visible
/// symbols, and pushes them onto `spans`.
#[verifier::rlimit(100)]
pub fn push_spans_from_line(line: &str, spans: &mut Vec<LineSpan>)
    ensures
        span_models(final(spans)@) == span_models(old(spans)@) + spec_line_spans(line@),
{
    let cs = str_chars(line);
    let mut out: Vec<LineSpan> = Vec::new();
    let mut run = String::new();
    let mut i: usize = 0;
    proof {
        assert(cs@.skip(0) =~= cs@);
        assert(span_models(out@) + line_spans_rec(cs@, run@) =~= spec_line_spans(cs@));
    }
    while i < cs.len()
        invariant
            0 <= i <= cs@.len(),
            cs@ == line@,
            span_models(out@) + line_spans_rec(cs@.skip(i as int), run@) =~= spec_line_spans(
                cs@,
            ),
        decreases cs@.len() - i,
    {
        let c = cs[i];
        match replace_control_character(c) {
            Some(replacement) => {
                let ghost run0 = run@;
                let ghost v0 = span_models(out@);
                let flushed = run;
                run = String::new();
                push_replacement(&mut out, flushed, c, replacement);
                proof {
                    assert(span_models(out@) =~= v0 + seq![
                        SpanModel { replaced: None, text: run0 },
                        SpanModel { replaced: Some(c), text: replacement_text(c) },
                    ]);
                    assert(cs@.skip(i as int)[0] == cs@[i as int]);
                    assert(cs@.skip(i as int).drop_first() =~= cs@.skip(i + 1));
                    assert(span_models(out@) + line_spans_rec(cs@.skip(i + 1), run@)
                        =~= spec_line_spans(cs@));
                }
            },
            None => {
                run = append_char(run, c);
                proof {
                    assert(cs@.skip(i as int)[0] == cs@[i as int]);
                    assert(cs@.skip(i as int).drop_first() =~= cs@.skip(i + 1));
                    assert(span_models(out@) + line_spans_rec(cs@.skip(i + 1), run@)
                        =~= spec_line_spans(cs@));
                }
            },
        }
        i += 1;
    }
    proof {
        assert(cs@.skip(cs@.len() as int) =~= Seq::<char>::empty());
    }
    if !run.as_str().is_empty() {
        out.push(LineSpan::Raw { text: run });
        proof {
            assert(span_models(out@) =~= spec_line_spans(line@));
        }
    } else {
        proof {
            assert(span_models(out@) =~= spec_line_spans(line@));
        }
    }
    let ghost pre = spans@;
    let ghost outv = out@;
    spans.append(&mut out);
    proof {
        assert(spans@ == pre + outv);
        assert(span_models(spans@) =~= span_models(pre) + span_models(outv));
    }
}

/// What one rendered section line holds: a numbered context line, or a
/// changed line with its checkbox and sign.
#[derive(Clone, Debug)]
pub enum SectionLineViewInner {
    Unchanged { line: String, line_num: usize },
    Changed { toggle_box: TristateBox<ComponentId>, change_type: ChangeType, line: String },
}

/// One rendered line of a section.
#[derive(Clone, Debug)]
pub struct SectionLineView {
    pub line_key: LineKey,
    pub inner: SectionLineViewInner,
}

impl SectionLineView {
    /// The ledger identity of this line.
    pub fn id(&self) -> (r: ComponentId)
        ensures
            r == ComponentId::SelectableItem(SelectionKey::Line(self.line_key)),
    {
        ComponentId::SelectableItem(SelectionKey::Line(self.line_key))
    }
}

/// Exercises the span splitter on one line; by `lemma_spans_cover_line`
/// the spans it produces cover the line exactly.
pub fn test_push_lines_from_span_impl(line: &str) {
    let mut spans: Vec<LineSpan> = Vec::new();
    push_spans_from_line(line, &mut spans);
}

} // verus!
