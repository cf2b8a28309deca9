//! The layout engine: turns a span plus message strings into a sequence of
//! styled text segments forming a compiler-style error report, with a
//! line-window elision policy for long spans and tab-aware underlines; also
//! the simpler single-character highlight and the fatal message.
//!
//! Writing the segments to a console is left to the caller: a segment is a
//! run of text with one emphasis style, and the segments concatenated in
//! order are the whole report.

use crate::code_reference::{CharRef, CodeLines, CodeModel};
use crate::span::{RenderError, Span};
use crate::text::{
    dec_chars, dec_rep, marker_chars, pad_num, pad_num_chars, repeat_char, repeat_chars,
    str_to_chars, sub_chars, width_range,
};
use vstd::prelude::*;

verus! {

/// The emphasis styles a segment can carry; the caller maps each to a color
/// and attribute of its output device.
#[derive(Clone, Copy, Debug, PartialEq, Eq, Structural)]
pub enum Style {
    /// Ordinary text, no emphasis.
    Plain,
    /// The error code, underlines and markers.
    Alert,
    /// The one-line explanation beside the error code.
    Strong,
    /// The gutter: line numbers, bars and the location arrow.
    Frame,
    /// Informational highlights of the single-character renderer.
    Note,
    /// The fatal message emitted when compilation cannot continue.
    Fatal,
}

/// One run of output text rendered in a single style.
#[derive(Debug)]
pub struct Segment {
    /// The emphasis style of this run.
    pub style: Style,
    /// The characters of this run.
    pub text: Vec<char>,
}

/// Mathematical model of a segment.
pub struct SegModel {
    pub style: Style,
    pub text: Seq<char>,
}

/// The models of a sequence of segments.
pub open spec fn seg_models(segs: Seq<Segment>) -> Seq<SegModel> {
    segs.map_values(|s: Segment| SegModel { style: s.style, text: s.text@ })
}

fn push_seg(segs: &mut Vec<Segment>, style: Style, text: Vec<char>)
    ensures
        seg_models(final(segs)@) == seg_models(old(segs)@).push(SegModel { style, text: text@ }),
{
    let ghost t = text@;
    segs.push(Segment { style, text });
    proof {
        assert(seg_models(segs@) =~= seg_models(old(segs)@).push(SegModel { style, text: t }));
    }
}

fn cat(a: Vec<char>, b: Vec<char>) -> (r: Vec<char>)
    ensures
        r@ == a@ + b@,
{
    let mut a = a;
    let mut b = b;
    a.append(&mut b);
    a
}

/// The gutter width of a report: the decimal digit count of the 1-based
/// number of the last spanned line.
pub open spec fn gutter_width(l2: nat) -> nat {
    dec_rep(l2 + 1).len()
}

/// A line as printed on its own row: its terminator kept when present, a
/// newline supplied when absent.
pub open spec fn line_terminated(line: Seq<char>) -> Seq<char> {
    if line.len() > 0 && line[line.len() - 1] == '\n' {
        line
    } else {
        line.push('\n')
    }
}

fn line_row_text(line: &Vec<char>) -> (r: Vec<char>)
    ensures
        r@ == line_terminated(line@),
{
    let mut r = crate::text::copy_chars(line);
    let n = r.len();
    if n == 0 || r[n - 1] != '\n' {
        r.push('\n');
    }
    r
}

/// The header of a report: `error[{code}]: {explanation}`.
pub open spec fn header_segs(code: Seq<char>, expl: Seq<char>) -> Seq<SegModel> {
    seq![
        SegModel { style: Style::Alert, text: "error["@ + code + "]"@ },
        SegModel { style: Style::Strong, text: ": "@ + expl + "\n"@ },
    ]
}

/// The location line `{w spaces}--> {name}:{line}:{column}` (1-based) and the
/// blank gutter line under it.
pub open spec fn location_segs(buf: CodeModel, l1: nat, c1: nat, w: nat) -> Seq<SegModel> {
    seq![
        SegModel { style: Style::Frame, text: repeat_char(' ', w) + "--> "@ },
        SegModel {
            style: Style::Plain,
            text: buf.name + ":"@ + dec_rep(l1 + 1) + ":"@ + dec_rep(c1 + 1) + "\n"@,
        },
        SegModel { style: Style::Plain, text: repeat_char(' ', w) + " | \n"@ },
    ]
}

/// The excerpt of a single-line span: the spanned line, then a gutter row
/// with spaces up to the start column, an underline over columns `[c1, c2)`
/// (tab-aware on both counts) and the help message after the last marker.
pub open spec fn single_line_segs(
    line: Seq<char>,
    l1: nat,
    c1: nat,
    c2: nat,
    help: Seq<char>,
    w: nat,
) -> Seq<SegModel> {
    seq![
        SegModel { style: Style::Frame, text: pad_num(l1 + 1, w) + " | "@ },
        SegModel { style: Style::Plain, text: line_terminated(line) },
        SegModel { style: Style::Frame, text: repeat_char(' ', w) + " | "@ },
        SegModel { style: Style::Plain, text: repeat_char(' ', width_range(line, 0, c1 as int)) },
        SegModel {
            style: Style::Alert,
            text: repeat_char('^', width_range(line, c1 as int, c2 as int)) + help + "\n"@,
        },
    ]
}

/// Whether line `ln` of the span `[l1, l2]` is shown verbatim: among the
/// first 4 lines, among the last 2, or the single line that would otherwise
/// be hidden alone.
pub open spec fn is_shown(l1: nat, l2: nat, ln: nat) -> bool {
    ||| ln - l1 < 4
    ||| l2 - ln < 2
    ||| (ln - l1 == 4 && l2 - ln == 2)
}

/// Whether the single ellipsis row stands at line `ln`: the 5th line of the
/// span with more than 2 lines still hidden beyond it.
pub open spec fn is_ellipsis_at(l1: nat, l2: nat, ln: nat) -> bool {
    ln - l1 == 4 && l2 - ln > 2
}

/// A verbatim row of a multi-line excerpt: the 1-based line number
/// right-justified to the gutter width, a bar, the span marker (`/ ` on the
/// first line, `| ` after), and the line itself.
pub open spec fn shown_row(lines: Seq<Seq<char>>, l1: nat, ln: nat, w: nat) -> Seq<SegModel> {
    seq![
        SegModel { style: Style::Frame, text: pad_num(ln + 1, w) + " | "@ },
        SegModel {
            style: Style::Alert,
            text: if ln == l1 {
                "/ "@
            } else {
                "| "@
            },
        },
        SegModel { style: Style::Plain, text: line_terminated(lines[ln as int]) },
    ]
}

/// The ellipsis row standing for the hidden middle of a long span.
pub open spec fn ellipsis_row(w: nat) -> Seq<SegModel> {
    seq![
        SegModel { style: Style::Frame, text: "..."@ + repeat_char(' ', w) },
        SegModel { style: Style::Alert, text: "| \n"@ },
    ]
}

/// The rows emitted while visiting line `ln` of the span `[l1, l2]`.
pub open spec fn row_for(lines: Seq<Seq<char>>, l1: nat, l2: nat, w: nat, ln: nat) -> Seq<
    SegModel,
> {
    (if is_shown(l1, l2, ln) {
        shown_row(lines, l1, ln, w)
    } else {
        Seq::<SegModel>::empty()
    }) + (if is_ellipsis_at(l1, l2, ln) {
        ellipsis_row(w)
    } else {
        Seq::<SegModel>::empty()
    })
}

/// The rows emitted for the lines `[l1, ln)` of the span `[l1, l2]`.
pub open spec fn rows_upto(lines: Seq<Seq<char>>, l1: nat, l2: nat, w: nat, ln: nat) -> Seq<
    SegModel,
>
    decreases ln,
{
    if ln <= l1 {
        Seq::empty()
    } else {
        rows_upto(lines, l1, l2, w, (ln - 1) as nat) + row_for(lines, l1, l2, w, (ln - 1) as nat)
    }
}

/// The excerpt of a multi-line span: the elision window over its lines, then
/// a closing gutter row with a bar and an arrow of underscores spanning
/// columns `[0, c2)` of the last line (tab-aware), the help message after it.
pub open spec fn multi_line_segs(
    lines: Seq<Seq<char>>,
    l1: nat,
    l2: nat,
    c2: nat,
    help: Seq<char>,
    w: nat,
) -> Seq<SegModel> {
    rows_upto(lines, l1, l2, w, (l2 + 1) as nat) + seq![
        SegModel { style: Style::Frame, text: repeat_char(' ', w) + " | "@ },
        SegModel {
            style: Style::Alert,
            text: "|"@ + repeat_char('_', width_range(lines[l2 as int], 0, c2 as int)) + help
                + "\n"@,
        },
    ]
}

/// Whether the span coordinates lie within `buf`: both lines exist and each
/// column is at most its line's length (the end column being exclusive may
/// equal it).
pub open spec fn span_in_bounds(buf: CodeModel, l1: nat, c1: nat, l2: nat, c2: nat) -> bool {
    &&& l1 < buf.lines.len()
    &&& l2 < buf.lines.len()
    &&& c1 <= buf.lines[l1 as int].len()
    &&& c2 <= buf.lines[l2 as int].len()
}

/// The whole error report for the span `(l1, c1)`..`(l2, c2)` of `buf`:
/// header, location, blank gutter line, the single- or multi-line excerpt,
/// and a closing blank line.
pub open spec fn error_segments(
    buf: CodeModel,
    l1: nat,
    c1: nat,
    l2: nat,
    c2: nat,
    code: Seq<char>,
    expl: Seq<char>,
    help: Seq<char>,
) -> Seq<SegModel> {
    let w = gutter_width(l2);
    header_segs(code, expl) + location_segs(buf, l1, c1, w) + (if l1 == l2 {
        single_line_segs(buf.lines[l1 as int], l1, c1, c2, help, w)
    } else {
        multi_line_segs(buf.lines, l1, l2, c2, help, w)
    }) + seq![SegModel { style: Style::Plain, text: "\n"@ }]
}

/// Renders an error report for `span`: a header with the error code and its
/// explanation, the location of the span start, and a source excerpt with
/// underline or arrow markup and the help message.
///
/// Fails with `CoordinateOutOfRange` exactly when the span's coordinates lie
/// outside the buffer of its start reference; otherwise the returned
/// segments are exactly the report's layout.
///
/// The start column is displayed 1-based, so its successor must be
/// representable on the machine.
pub fn render(
    span: &Span,
    error_code: &str,
    error_explained: &str,
    help_message: &str,
) -> (r: Result<Vec<Segment>, RenderError>)
    requires
        span.first.pos < usize::MAX,
    ensures
        match r {
            Ok(segs) => {
                &&& span_in_bounds(
                    span.first.origin@,
                    span.first.line as nat,
                    span.first.pos as nat,
                    span.last.line as nat,
                    span.last.pos as nat,
                )
                &&& seg_models(segs@) == error_segments(
                    span.first.origin@,
                    span.first.line as nat,
                    span.first.pos as nat,
                    span.last.line as nat,
                    span.last.pos as nat,
                    error_code@,
                    error_explained@,
                    help_message@,
                )
            },
            Err(e) => {
                &&& e == RenderError::CoordinateOutOfRange
                &&& !span_in_bounds(
                    span.first.origin@,
                    span.first.line as nat,
                    span.first.pos as nat,
                    span.last.line as nat,
                    span.last.pos as nat,
                )
            },
        },
{
    let ghost buf = span.first.origin@;
    let l1 = span.first.line;
    let c1 = span.first.pos;
    let l2 = span.last.line;
    let c2 = span.last.pos;
    let nlines = span.first.origin.code.len();
    if l1 >= nlines || l2 >= nlines {
        return Err(RenderError::CoordinateOutOfRange);
    }
    proof {
        assert(buf.lines[l1 as int] == span.first.origin.code@[l1 as int]@);
        assert(buf.lines[l2 as int] == span.first.origin.code@[l2 as int]@);
    }
    if c1 > span.first.origin.code[l1].len() || c2 > span.first.origin.code[l2].len() {
        return Err(RenderError::CoordinateOutOfRange);
    }
    let num = dec_chars(l2 + 1);
    let w = num.len();
    let ghost wg = gutter_width(l2 as nat);
    assert(w == wg);

    let mut segs: Vec<Segment> = Vec::new();
    // Header: error code and explanation.
    push_seg(
        &mut segs,
        Style::Alert,
        cat(cat(str_to_chars("error["), str_to_chars(error_code)), str_to_chars("]")),
    );
    push_seg(
        &mut segs,
        Style::Strong,
        cat(cat(str_to_chars(": "), str_to_chars(error_explained)), str_to_chars("\n")),
    );
    proof {
        assert(seg_models(segs@) =~= header_segs(error_code@, error_explained@));
    }
    // Location line and blank gutter line.
    push_seg(&mut segs, Style::Frame, cat(repeat_chars(' ', w), str_to_chars("--> ")));
    push_seg(
        &mut segs,
        Style::Plain,
        cat(
            cat(
                cat(
                    cat(
                        cat(str_to_chars(span.first.origin.name.as_str()), str_to_chars(":")),
                        dec_chars(l1 + 1),
                    ),
                    str_to_chars(":"),
                ),
                dec_chars(c1 + 1),
            ),
            str_to_chars("\n"),
        ),
    );
    push_seg(&mut segs, Style::Plain, cat(repeat_chars(' ', w), str_to_chars(" | \n")));
    let ghost pre = header_segs(error_code@, error_explained@) + location_segs(
        buf,
        l1 as nat,
        c1 as nat,
        wg,
    );
    proof {
        assert(seg_models(segs@) =~= pre);
    }
    if l1 == l2 {
        // Single-line excerpt.
        let line = &span.first.origin.code[l1];
        push_seg(&mut segs, Style::Frame, cat(pad_num_chars(l1 + 1, w), str_to_chars(" | ")));
        push_seg(&mut segs, Style::Plain, line_row_text(line));
        push_seg(&mut segs, Style::Frame, cat(repeat_chars(' ', w), str_to_chars(" | ")));
        push_seg(&mut segs, Style::Plain, marker_chars(line, 0, c1, ' '));
        push_seg(
            &mut segs,
            Style::Alert,
            cat(
                cat(marker_chars(line, c1, c2, '^'), str_to_chars(help_message)),
                str_to_chars("\n"),
            ),
        );
        proof {
            assert(seg_models(segs@) =~= pre + single_line_segs(
                buf.lines[l1 as int],
                l1 as nat,
                c1 as nat,
                c2 as nat,
                help_message@,
                wg,
            ));
        }
    } else {
        // Multi-line excerpt with the elision window.
        proof {
            assert(rows_upto(buf.lines, l1 as nat, l2 as nat, wg, l1 as nat) =~= Seq::<
                SegModel,
            >::empty());
            assert(seg_models(segs@) =~= pre + rows_upto(
                buf.lines,
                l1 as nat,
                l2 as nat,
                wg,
                l1 as nat,
            ));
        }
        let mut ln = l1;
        while ln <= l2
            invariant
                l1 <= ln,
                ln <= l2 + 1 || ln == l1,
                l1 < nlines,
                l2 < nlines,
                l1 != l2,
                nlines == buf.lines.len(),
                buf == span.first.origin@,
                c2 <= buf.lines[l2 as int].len(),
                wg == gutter_width(l2 as nat),
                w == wg,
                seg_models(segs@) == pre + rows_upto(buf.lines, l1 as nat, l2 as nat, wg, ln as nat),
            decreases l2 + 1 - ln,
        {
            let ghost rows_before = rows_upto(buf.lines, l1 as nat, l2 as nat, wg, ln as nat);
            let shown = (ln - l1 < 4) || (l2 - ln < 2) || (ln - l1 == 4 && l2 - ln == 2);
            if shown {
                push_seg(
                    &mut segs,
                    Style::Frame,
                    cat(pad_num_chars(ln + 1, w), str_to_chars(" | ")),
                );
                if ln == l1 {
                    push_seg(&mut segs, Style::Alert, str_to_chars("/ "));
                } else {
                    push_seg(&mut segs, Style::Alert, str_to_chars("| "));
                }
                let line = &span.first.origin.code[ln];
                proof {
                    assert(buf.lines[ln as int] == span.first.origin.code@[ln as int]@);
                }
                push_seg(&mut segs, Style::Plain, line_row_text(line));
            }
            if ln - l1 == 4 && l2 - ln > 2 {
                push_seg(&mut segs, Style::Frame, cat(str_to_chars("..."), repeat_chars(' ', w)));
                push_seg(&mut segs, Style::Alert, str_to_chars("| \n"));
            }
            proof {
                assert(shown == is_shown(l1 as nat, l2 as nat, ln as nat));
                assert(rows_upto(buf.lines, l1 as nat, l2 as nat, wg, (ln + 1) as nat)
                    == rows_before + row_for(buf.lines, l1 as nat, l2 as nat, wg, ln as nat));
                assert(seg_models(segs@) =~= pre + rows_upto(
                    buf.lines,
                    l1 as nat,
                    l2 as nat,
                    wg,
                    (ln + 1) as nat,
                ));
            }
            ln = ln + 1;
        }
        proof {
            if l1 > l2 {
                assert(rows_upto(buf.lines, l1 as nat, l2 as nat, wg, ln as nat) =~= rows_upto(
                    buf.lines,
                    l1 as nat,
                    l2 as nat,
                    wg,
                    (l2 + 1) as nat,
                ));
            }
            assert(seg_models(segs@) == pre + rows_upto(
                buf.lines,
                l1 as nat,
                l2 as nat,
                wg,
                (l2 + 1) as nat,
            ));
        }
        // Closing gutter row with the arrow to the end column.
        let line2 = &span.first.origin.code[l2];
        push_seg(&mut segs, Style::Frame, cat(repeat_chars(' ', w), str_to_chars(" | ")));
        push_seg(
            &mut segs,
            Style::Alert,
            cat(
                cat(
                    cat(str_to_chars("|"), marker_chars(line2, 0, c2, '_')),
                    str_to_chars(help_message),
                ),
                str_to_chars("\n"),
            ),
        );
        proof {
            assert(seg_models(segs@) =~= pre + multi_line_segs(
                buf.lines,
                l1 as nat,
                l2 as nat,
                c2 as nat,
                help_message@,
                wg,
            ));
        }
    }
    push_seg(&mut segs, Style::Plain, str_to_chars("\n"));
    proof {
        assert(seg_models(segs@) =~= error_segments(
            buf,
            l1 as nat,
            c1 as nat,
            l2 as nat,
            c2 as nat,
            error_code@,
            error_explained@,
            help_message@,
        ));
    }
    Ok(segs)
}

/// Whether the coordinates of a single character lie within `buf`.
pub open spec fn point_in_bounds(buf: CodeModel, l: nat, p: nat) -> bool {
    &&& l < buf.lines.len()
    &&& p < buf.lines[l as int].len()
}

/// The rest of `line` after position `p`, its trailing terminator dropped so
/// that what follows stays on the same visual line.
pub open spec fn rest_of_line(line: Seq<char>, p: nat) -> Seq<char> {
    let rest = line.skip(p as int + 1);
    if rest.len() > 0 && rest[rest.len() - 1] == '\n' {
        rest.drop_last()
    } else {
        rest
    }
}

/// The whole single-character highlight: a one-line header naming the
/// 1-based coordinates and the buffer, then the full source line with the
/// character at `p` in a distinct style and the message after it.
pub open spec fn point_segments(
    buf: CodeModel,
    l: nat,
    p: nat,
    value: char,
    msg: Seq<char>,
) -> Seq<SegModel> {
    let line = buf.lines[l as int];
    seq![
        SegModel {
            style: Style::Note,
            text: "Debug message at character "@ + dec_rep(l + 1) + ":"@ + dec_rep(p + 1)
                + " in file "@ + buf.name + " \n"@,
        },
        SegModel { style: Style::Plain, text: line.take(p as int) },
        SegModel { style: Style::Note, text: seq![value] },
        SegModel { style: Style::Plain, text: rest_of_line(line, p) },
        SegModel { style: Style::Note, text: msg + "\n"@ },
    ]
}

/// Renders a single-character highlight for informational messages: the full
/// source line with the referenced character emphasised and `message` on the
/// same visual line.
///
/// Fails with `CoordinateOutOfRange` exactly when the reference's
/// coordinates lie outside its buffer.
pub fn render_point(character: &CharRef, message: &str) -> (r: Result<Vec<Segment>, RenderError>)
    ensures
        match r {
            Ok(segs) => {
                &&& point_in_bounds(
                    character.origin@,
                    character.line as nat,
                    character.pos as nat,
                )
                &&& seg_models(segs@) == point_segments(
                    character.origin@,
                    character.line as nat,
                    character.pos as nat,
                    character.value,
                    message@,
                )
            },
            Err(e) => {
                &&& e == RenderError::CoordinateOutOfRange
                &&& !point_in_bounds(
                    character.origin@,
                    character.line as nat,
                    character.pos as nat,
                )
            },
        },
{
    let ghost buf = character.origin@;
    let l = character.line;
    let p = character.pos;
    let nlines = character.origin.code.len();
    if l >= nlines {
        return Err(RenderError::CoordinateOutOfRange);
    }
    proof {
        assert(buf.lines[l as int] == character.origin.code@[l as int]@);
    }
    let line = &character.origin.code[l];
    let len = line.len();
    if p >= len {
        return Err(RenderError::CoordinateOutOfRange);
    }
    let mut segs: Vec<Segment> = Vec::new();
    push_seg(
        &mut segs,
        Style::Note,
        cat(
            cat(
                cat(
                    cat(
                        cat(str_to_chars("Debug message at character "), dec_chars(l + 1)),
                        str_to_chars(":"),
                    ),
                    dec_chars(p + 1),
                ),
                cat(str_to_chars(" in file "), str_to_chars(character.origin.name.as_str())),
            ),
            str_to_chars(" \n"),
        ),
    );
    proof {
        assert("Debug message at character "@ + dec_rep(l as nat + 1) + ":"@ + dec_rep(
            p as nat + 1,
        ) + " in file "@ + buf.name + " \n"@ =~= ((("Debug message at character "@ + dec_rep(
            l as nat + 1,
        )) + ":"@) + dec_rep(p as nat + 1)) + (" in file "@ + buf.name) + " \n"@);
    }
    let prefix = sub_chars(line, 0, p);
    proof {
        assert(line@.subrange(0, p as int) =~= buf.lines[l as int].take(p as int));
    }
    push_seg(&mut segs, Style::Plain, prefix);
    let mut value_text: Vec<char> = Vec::new();
    value_text.push(character.value);
    proof {
        assert(value_text@ =~= seq![character.value]);
    }
    push_seg(&mut segs, Style::Note, value_text);
    let end: usize = if len > p + 1 && line[len - 1] == '\n' {
        len - 1
    } else {
        len
    };
    let rest = sub_chars(line, p + 1, end);
    proof {
        assert(line@.skip(p as int + 1) =~= line@.subrange(p as int + 1, len as int));
        if len > p + 1 && line@[len - 1] == '\n' {
            assert(line@.skip(p as int + 1).drop_last() =~= line@.subrange(
                p as int + 1,
                len as int - 1,
            ));
        }
        assert(rest@ == rest_of_line(buf.lines[l as int], p as nat));
    }
    push_seg(&mut segs, Style::Plain, rest);
    push_seg(
        &mut segs,
        Style::Note,
        cat(str_to_chars(message), str_to_chars("\n")),
    );
    proof {
        assert(seg_models(segs@) =~= point_segments(
            buf,
            l as nat,
            p as nat,
            character.value,
            message@,
        ));
    }
    Ok(segs)
}

/// Law: on a line without tabs, the underline of a single-line span over
/// columns `[c1, c2)` is exactly `c2 - c1` markers long, the help message
/// following the last marker.
pub proof fn lemma_underline_no_tabs(
    line: Seq<char>,
    l1: nat,
    c1: nat,
    c2: nat,
    help: Seq<char>,
    w: nat,
)
    requires
        c1 <= c2 <= line.len(),
        forall|j: int| c1 <= j < c2 ==> line[j] != '\t',
    ensures
        single_line_segs(line, l1, c1, c2, help, w)[4].text == repeat_char(
            '^',
            (c2 - c1) as nat,
        ) + help + "\n"@,
{
    crate::text::lemma_width_no_tabs(line, c1 as int, c2 as int);
}

/// Law: a single-line span covering one tab character underlines that column
/// with 8 markers, not 1.
pub proof fn lemma_underline_tab(line: Seq<char>, l1: nat, c1: nat, help: Seq<char>, w: nat)
    requires
        c1 < line.len(),
        line[c1 as int] == '\t',
    ensures
        single_line_segs(line, l1, c1, (c1 + 1) as nat, help, w)[4].text == repeat_char('^', 8)
            + help + "\n"@,
{
    crate::text::lemma_width_single_tab(line, c1 as int);
}

/// The verbatim rows for the lines `[from, to)` of a span starting at `l1`.
pub open spec fn shown_rows(lines: Seq<Seq<char>>, l1: nat, w: nat, from: nat, to: nat) -> Seq<
    SegModel,
>
    decreases to,
{
    if to <= from {
        Seq::empty()
    } else {
        shown_rows(lines, l1, w, from, (to - 1) as nat) + shown_row(lines, l1, (to - 1) as nat, w)
    }
}

proof fn lemma_short_span_prefix(lines: Seq<Seq<char>>, l1: nat, l2: nat, w: nat, ln: nat)
    requires
        l1 < l2,
        l2 - l1 <= 6,
        l1 <= ln <= l2 + 1,
    ensures
        rows_upto(lines, l1, l2, w, ln) == shown_rows(lines, l1, w, l1, ln),
    decreases ln,
{
    if ln <= l1 {
        assert(rows_upto(lines, l1, l2, w, ln) =~= shown_rows(lines, l1, w, l1, ln));
    } else {
        lemma_short_span_prefix(lines, l1, l2, w, (ln - 1) as nat);
        assert(is_shown(l1, l2, (ln - 1) as nat));
        assert(!is_ellipsis_at(l1, l2, (ln - 1) as nat));
        assert(row_for(lines, l1, l2, w, (ln - 1) as nat) =~= shown_row(
            lines,
            l1,
            (ln - 1) as nat,
            w,
        ));
    }
}

/// Law: a multi-line span of six lines or fewer is rendered with zero
/// ellipsis rows: every line in range is shown verbatim, in order.
pub proof fn lemma_short_span_all_shown(lines: Seq<Seq<char>>, l1: nat, l2: nat, w: nat)
    requires
        l1 < l2,
        l2 - l1 <= 5,
    ensures
        rows_upto(lines, l1, l2, w, (l2 + 1) as nat) == shown_rows(
            lines,
            l1,
            w,
            l1,
            (l2 + 1) as nat,
        ),
{
    lemma_short_span_prefix(lines, l1, l2, w, (l2 + 1) as nat);
}

proof fn lemma_hidden_middle(lines: Seq<Seq<char>>, l1: nat, l2: nat, w: nat, ln: nat)
    requires
        l2 - l1 >= 7,
        l1 + 5 <= ln <= l2 - 1,
    ensures
        rows_upto(lines, l1, l2, w, ln) == shown_rows(lines, l1, w, l1, (l1 + 4) as nat)
            + ellipsis_row(w),
    decreases ln,
{
    if ln == l1 + 5 {
        lemma_short_span_prefix_long(lines, l1, l2, w, (l1 + 4) as nat);
        assert(!is_shown(l1, l2, (l1 + 4) as nat));
        assert(is_ellipsis_at(l1, l2, (l1 + 4) as nat));
        assert(row_for(lines, l1, l2, w, (l1 + 4) as nat) =~= ellipsis_row(w));
    } else {
        lemma_hidden_middle(lines, l1, l2, w, (ln - 1) as nat);
        assert(!is_shown(l1, l2, (ln - 1) as nat));
        assert(!is_ellipsis_at(l1, l2, (ln - 1) as nat));
        assert(row_for(lines, l1, l2, w, (ln - 1) as nat) =~= Seq::<SegModel>::empty());
        assert(rows_upto(lines, l1, l2, w, ln) =~= rows_upto(lines, l1, l2, w, (ln - 1) as nat));
    }
}

proof fn lemma_short_span_prefix_long(lines: Seq<Seq<char>>, l1: nat, l2: nat, w: nat, ln: nat)
    requires
        l2 - l1 >= 7,
        l1 <= ln <= l1 + 4,
    ensures
        rows_upto(lines, l1, l2, w, ln) == shown_rows(lines, l1, w, l1, ln),
    decreases ln,
{
    if ln <= l1 {
        assert(rows_upto(lines, l1, l2, w, ln) =~= shown_rows(lines, l1, w, l1, ln));
    } else {
        lemma_short_span_prefix_long(lines, l1, l2, w, (ln - 1) as nat);
        assert(is_shown(l1, l2, (ln - 1) as nat));
        assert(!is_ellipsis_at(l1, l2, (ln - 1) as nat));
        assert(row_for(lines, l1, l2, w, (ln - 1) as nat) =~= shown_row(
            lines,
            l1,
            (ln - 1) as nat,
            w,
        ));
    }
}

/// Law: a multi-line span with more than two lines hidden beyond its first
/// four is rendered with exactly one ellipsis row, placed immediately after
/// the fourth shown line and followed by the last two lines verbatim.
pub proof fn lemma_long_span_one_ellipsis(lines: Seq<Seq<char>>, l1: nat, l2: nat, w: nat)
    requires
        l2 - l1 >= 7,
    ensures
        rows_upto(lines, l1, l2, w, (l2 + 1) as nat) == shown_rows(lines, l1, w, l1, (l1 + 4) as nat)
            + ellipsis_row(w) + shown_rows(lines, l1, w, (l2 - 1) as nat, (l2 + 1) as nat),
{
    lemma_hidden_middle(lines, l1, l2, w, (l2 - 1) as nat);
    assert(is_shown(l1, l2, (l2 - 1) as nat));
    assert(!is_ellipsis_at(l1, l2, (l2 - 1) as nat));
    assert(row_for(lines, l1, l2, w, (l2 - 1) as nat) =~= shown_row(lines, l1, (l2 - 1) as nat, w));
    assert(is_shown(l1, l2, l2));
    assert(!is_ellipsis_at(l1, l2, l2));
    assert(row_for(lines, l1, l2, w, l2) =~= shown_row(lines, l1, l2, w));
    assert(shown_rows(lines, l1, w, (l2 - 1) as nat, (l2 - 1) as nat) =~= Seq::<SegModel>::empty());
    assert(rows_upto(lines, l1, l2, w, (l2 + 1) as nat) == rows_upto(lines, l1, l2, w, l2)
        + row_for(lines, l1, l2, w, l2));
    assert(rows_upto(lines, l1, l2, w, l2) == rows_upto(lines, l1, l2, w, (l2 - 1) as nat)
        + row_for(lines, l1, l2, w, (l2 - 1) as nat));
    assert(shown_rows(lines, l1, w, (l2 - 1) as nat, (l2 + 1) as nat) == shown_rows(
        lines,
        l1,
        w,
        (l2 - 1) as nat,
        l2,
    ) + shown_row(lines, l1, l2, w));
    assert(shown_rows(lines, l1, w, (l2 - 1) as nat, l2) == shown_rows(
        lines,
        l1,
        w,
        (l2 - 1) as nat,
        (l2 - 1) as nat,
    ) + shown_row(lines, l1, (l2 - 1) as nat, w));
    assert(rows_upto(lines, l1, l2, w, (l2 + 1) as nat) =~= shown_rows(
        lines,
        l1,
        w,
        l1,
        (l1 + 4) as nat,
    ) + ellipsis_row(w) + shown_rows(lines, l1, w, (l2 - 1) as nat, (l2 + 1) as nat));
}

/// The single fatal message emitted when compilation cannot continue:
/// `Unable to compile {name}: {reason}`, followed by a parting line. The
/// caller prints it and terminates the process; nothing here does.
pub fn abort_message(code: &CodeLines, error_msg: &str) -> (r: Segment)
    ensures
        r.style == Style::Fatal,
        r.text@ == "Unable to compile "@ + code@.name + ": "@ + error_msg@ + "\nExiting\n"@,
{
    let text = cat(
        cat(
            cat(str_to_chars("Unable to compile "), str_to_chars(code.name.as_str())),
            cat(str_to_chars(": "), str_to_chars(error_msg)),
        ),
        str_to_chars("\nExiting\n"),
    );
    proof {
        assert("Unable to compile "@ + code@.name + ": "@ + error_msg@ + "\nExiting\n"@ =~= (
        "Unable to compile "@ + code@.name) + (": "@ + error_msg@) + "\nExiting\n"@);
    }
    Segment { style: Style::Fatal, text }
}

} // verus!
