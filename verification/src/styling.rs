//! The text style of scrollback segments: each segment's formatting overrides folded, in order,
//! into the style it is drawn with.

use vstd::prelude::*;

verus! {

/// One formatting override that an escape sequence sets for the text after it; colours are
/// premultiplied RGBA.
#[derive(Clone, Copy, Debug, PartialEq, Eq)]
pub enum TextOverride {
    Bold,
    Dim,
    Italic,
    Underline,
    Strikethrough,
    Foreground([u8; 4]),
    Background([u8; 4]),
}

/// A piece of a line and the overrides that apply to it.
#[derive(Clone, Debug, PartialEq, Eq)]
pub struct ParsedSegment {
    pub text: String,
    pub overrides: Vec<TextOverride>,
}

/// How a segment is drawn. `foreground` is the colour set by the last foreground override
/// (`None`: the configured text colour), and `dim_steps` counts the dim overrides after it,
/// each of which halves the colour's intensity; `background` is the last background override
/// (`None`: no background).
#[derive(Clone, Copy, Debug, PartialEq, Eq)]
pub struct SegmentStyle {
    pub bold: bool,
    pub dim_steps: usize,
    pub italic: bool,
    pub underline: bool,
    pub strikethrough: bool,
    pub foreground: Option<[u8; 4]>,
    pub background: Option<[u8; 4]>,
}

/// A non-empty piece of a line with the style it is drawn with.
#[derive(Clone, Debug, PartialEq, Eq)]
pub struct StyledSegment {
    pub text: String,
    pub style: SegmentStyle,
}

/// The style of text that no override touches.
pub open spec fn plain_style() -> SegmentStyle {
    SegmentStyle {
        bold: false,
        dim_steps: 0,
        italic: false,
        underline: false,
        strikethrough: false,
        foreground: None,
        background: None,
    }
}

/// The style after one more override: a foreground colour replaces the colour and the dimming
/// done to it, a dim dims the colour once more, the others set their own part.
pub open spec fn override_applied(style: SegmentStyle, o: TextOverride) -> SegmentStyle {
    match o {
        TextOverride::Bold => SegmentStyle { bold: true, ..style },
        TextOverride::Dim => SegmentStyle { dim_steps: (style.dim_steps + 1) as usize, ..style },
        TextOverride::Italic => SegmentStyle { italic: true, ..style },
        TextOverride::Underline => SegmentStyle { underline: true, ..style },
        TextOverride::Strikethrough => SegmentStyle { strikethrough: true, ..style },
        TextOverride::Foreground(c) => SegmentStyle { foreground: Some(c), dim_steps: 0, ..style },
        TextOverride::Background(c) => SegmentStyle { background: Some(c), ..style },
    }
}

/// The plain style with the overrides applied in order.
pub open spec fn overrides_applied(overrides: Seq<TextOverride>) -> SegmentStyle
    decreases overrides.len(),
{
    if overrides.len() == 0 {
        plain_style()
    } else {
        override_applied(overrides_applied(overrides.drop_last()), overrides.last())
    }
}

/// The non-empty segments of a line, in order, each with its overrides applied.
pub open spec fn styled_views(parsed: Seq<ParsedSegment>) -> Seq<(Seq<char>, SegmentStyle)>
    decreases parsed.len(),
{
    if parsed.len() == 0 {
        seq![]
    } else {
        let rest = styled_views(parsed.drop_last());
        if parsed.last().text@.len() > 0 {
            rest.push((parsed.last().text@, overrides_applied(parsed.last().overrides@)))
        } else {
            rest
        }
    }
}

/// The texts of the segments, one after another.
pub open spec fn parsed_text(parsed: Seq<ParsedSegment>) -> Seq<char>
    decreases parsed.len(),
{
    if parsed.len() == 0 {
        seq![]
    } else {
        parsed_text(parsed.drop_last()) + parsed.last().text@
    }
}

/// The texts of styled pieces, one after another.
pub open spec fn styled_text(pieces: Seq<(Seq<char>, SegmentStyle)>) -> Seq<char>
    decreases pieces.len(),
{
    if pieces.len() == 0 {
        seq![]
    } else {
        styled_text(pieces.drop_last()) + pieces.last().0
    }
}

/// The text and style of each styled segment.
pub open spec fn segment_views(segments: Seq<StyledSegment>) -> Seq<(Seq<char>, SegmentStyle)> {
    segments.map_values(|s: StyledSegment| (s.text@, s.style))
}

/// A dim override never counts more steps than there are overrides.
proof fn lemma_dim_steps_bounded(overrides: Seq<TextOverride>)
    ensures
        overrides_applied(overrides).dim_steps <= overrides.len(),
    decreases overrides.len(),
{
    if overrides.len() > 0 {
        lemma_dim_steps_bounded(overrides.drop_last());
    }
}

/// The style of a segment: its overrides applied in order to the plain style.
pub fn segment_style(overrides: &[TextOverride]) -> (style: SegmentStyle)
    ensures
        style == overrides_applied(overrides@),
{
    let mut style = SegmentStyle {
        bold: false,
        dim_steps: 0,
        italic: false,
        underline: false,
        strikethrough: false,
        foreground: None,
        background: None,
    };
    let mut j: usize = 0;
    assert(overrides@.take(0) =~= Seq::<TextOverride>::empty());
    while j < overrides.len()
        invariant
            j <= overrides@.len(),
            style == overrides_applied(overrides@.take(j as int)),
        decreases overrides@.len() - j,
    {
        proof {
            lemma_dim_steps_bounded(overrides@.take(j as int));
            assert(overrides@.take(j as int + 1).drop_last() =~= overrides@.take(j as int));
        }
        style = match overrides[j] {
            TextOverride::Bold => SegmentStyle { bold: true, ..style },
            TextOverride::Dim => SegmentStyle { dim_steps: style.dim_steps + 1, ..style },
            TextOverride::Italic => SegmentStyle { italic: true, ..style },
            TextOverride::Underline => SegmentStyle { underline: true, ..style },
            TextOverride::Strikethrough => SegmentStyle { strikethrough: true, ..style },
            TextOverride::Foreground(c) => SegmentStyle {
                foreground: Some(c),
                dim_steps: 0,
                ..style
            },
            TextOverride::Background(c) => SegmentStyle { background: Some(c), ..style },
        };
        j = j + 1;
    }
    assert(overrides@.take(j as int) =~= overrides@);
    style
}

/// The segments of a line that have text, in order, each with the style its overrides give;
/// segments without text are dropped.
pub fn style_segments(parsed: &[ParsedSegment]) -> (r: Vec<StyledSegment>)
    ensures
        segment_views(r@) == styled_views(parsed@),
{
    let mut r: Vec<StyledSegment> = Vec::new();
    let mut i: usize = 0;
    assert(parsed@.take(0) =~= Seq::<ParsedSegment>::empty());
    while i < parsed.len()
        invariant
            i <= parsed@.len(),
            segment_views(r@) == styled_views(parsed@.take(i as int)),
        decreases parsed@.len() - i,
    {
        let seg = &parsed[i];
        proof {
            assert(parsed@.take(i as int + 1).drop_last() =~= parsed@.take(i as int));
        }
        if !seg.text.as_str().is_empty() {
            let style = segment_style(seg.overrides.as_slice());
            let ghost before = r@;
            r.push(StyledSegment { text: seg.text.clone(), style });
            proof {
                assert(segment_views(r@) =~= segment_views(before).push((seg.text@, style)));
            }
        }
        i = i + 1;
    }
    assert(parsed@.take(i as int) =~= parsed@);
    r
}

} // verus!
