//! The report: label alignment, connector glyphs, colors and layout of lines.
use crate::config::{section_color, slot_color, Color};
use crate::registry::ResolvedField;
use crate::text::{has_infix, lines_of, owned, push_char, push_str, split_lines};
use colored::Colorize;
use vstd::prelude::*;
use vstd::string::StrSliceExecFns;

verus! {

/// The glyph that opens a section.
pub const START_GLYPH: &'static str = "\u{256d}\u{2500}";

/// The glyph of a field between the first and the last of its section.
pub const MIDDLE_GLYPH: &'static str = "\u{251c}\u{2500}";

/// The glyph that closes a section.
pub const END_GLYPH: &'static str = "\u{2570}\u{2500}";

/// The separator between a field's title and its value.
pub const ARROW: &'static str = "~>";

/// The escape sequence that ends a colored run of text.
pub open spec fn reset_code() -> Seq<char> {
    "\u{1b}[0m"@
}

/// The ANSI foreground code of a color.
pub open spec fn fg_code(c: Color) -> Seq<char> {
    match c {
        Color::Black => "30"@,
        Color::Red => "31"@,
        Color::Green => "32"@,
        Color::Yellow => "33"@,
        Color::Blue => "34"@,
        Color::Magenta => "35"@,
        Color::Cyan => "36"@,
        Color::White => "37"@,
        Color::Default => Seq::empty(),
    }
}

/// Text wrapped in the foreground code of a color and a reset; with no
/// color, the text as it is.
pub open spec fn ansi(c: Color, t: Seq<char>) -> Seq<char> {
    if c == Color::Default {
        t
    } else {
        "\u{1b}["@ + fg_code(c) + "m"@ + t + reset_code()
    }
}

/// `r` is `t` shown in color `c`: colored, or as it is when the terminal
/// gets no colors. Said only of text that holds no reset of its own.
pub open spec fn painted(r: Seq<char>, c: Color, t: Seq<char>) -> bool {
    !has_infix(t, reset_code()) ==> (r == t || r == ansi(c, t))
}

/// Relies on colored's `Colorize::color`, `Colorize::normal` and the
/// `Display` of `ColoredString`: the text wrapped in the color's foreground
/// code and a reset, or the text as it is when colored output is turned off
/// (by the environment) or no color is asked for.
#[verifier::external_body]
fn paint(t: &str, c: Color) -> (r: String)
    ensures
        painted(r@, c, t@),
{
    let s = match c {
        Color::Black => t.color(colored::Color::Black),
        Color::Red => t.color(colored::Color::Red),
        Color::Green => t.color(colored::Color::Green),
        Color::Yellow => t.color(colored::Color::Yellow),
        Color::Blue => t.color(colored::Color::Blue),
        Color::Magenta => t.color(colored::Color::Magenta),
        Color::Cyan => t.color(colored::Color::Cyan),
        Color::White => t.color(colored::Color::White),
        Color::Default => t.normal(),
    };
    s.to_string()
}

/// The glyph of field `idx` of a section of `len` fields: the first gets
/// the opening glyph (also when it is the only one), the last the closing
/// one, the others the middle one.
pub open spec fn connector_of(idx: int, len: int) -> Seq<char> {
    if idx == 0 {
        START_GLYPH@
    } else if len > 0 && idx == len - 1 {
        END_GLYPH@
    } else {
        MIDDLE_GLYPH@
    }
}

/// The glyph of field `idx` of a section of `len` fields.
pub fn connector(idx: usize, len: usize) -> (r: &'static str)
    ensures
        r@ == connector_of(idx as int, len as int),
{
    if idx == 0 {
        START_GLYPH
    } else if len > 0 && idx == len - 1 {
        END_GLYPH
    } else {
        MIDDLE_GLYPH
    }
}

/// `n` spaces.
pub open spec fn spaces(n: nat) -> Seq<char> {
    Seq::new(n, |i: int| ' ')
}

/// Appends `n` spaces to `s`.
pub fn push_spaces(s: &mut String, n: usize)
    ensures
        final(s)@ == old(s)@ + spaces(n as nat),
{
    let mut i: usize = 0;
    while i < n
        invariant
            i <= n,
            s@ == old(s)@ + spaces(i as nat),
        decreases n - i,
    {
        push_char(s, ' ');
        i = i + 1;
        assert(s@ =~= old(s)@ + spaces(i as nat));
    }
}

/// One line of the report: margin, glyph, icon, the title padded to
/// `width`, the arrow and the value.
pub open spec fn field_line(
    margin: nat,
    glyph: Seq<char>,
    icon: Seq<char>,
    title: Seq<char>,
    width: nat,
    arrow: Seq<char>,
    value: Seq<char>,
) -> Seq<char> {
    spaces(margin) + glyph + icon + "  "@ + title + spaces((width - title.len()) as nat) + " "@
        + arrow + " "@ + value
}

fn build_line(
    margin: usize,
    glyph: &str,
    icon: &str,
    title: &str,
    width: usize,
    arrow: &str,
    value: &str,
) -> (r: String)
    requires
        title@.len() <= width,
    ensures
        r@ == field_line(margin as nat, glyph@, icon@, title@, width as nat, arrow@, value@),
{
    let mut r = String::new();
    push_spaces(&mut r, margin);
    push_str(&mut r, glyph);
    push_str(&mut r, icon);
    push_str(&mut r, "  ");
    push_str(&mut r, title);
    let pad = width - title.unicode_len();
    push_spaces(&mut r, pad);
    push_str(&mut r, " ");
    push_str(&mut r, arrow);
    push_str(&mut r, " ");
    push_str(&mut r, value);
    r
}

/// `line` shows `field`, number `idx` of a section of `len` fields, in color
/// `c`: glyph, icon and arrow are painted, title and value never are.
pub open spec fn field_line_ok(
    line: Seq<char>,
    field: (Seq<char>, Seq<char>, Seq<char>),
    c: Color,
    margin: nat,
    width: nat,
    idx: int,
    len: int,
) -> bool {
    exists|g: Seq<char>, i: Seq<char>, a: Seq<char>|
        painted(g, c, connector_of(idx, len)) && painted(i, c, field.1) && painted(a, c, ARROW@)
            && line == #[trigger] field_line(margin, g, i, field.0, width, a, field.2)
}

fn section_line(field: &ResolvedField, c: Color, margin: usize, width: usize, idx: usize, len: usize) -> (r:
    String)
    requires
        field.title@.len() <= width,
    ensures
        field_line_ok(r@, field@, c, margin as nat, width as nat, idx as int, len as int),
{
    let g = paint(connector(idx, len), c);
    let i = paint(field.icon.as_str(), c);
    let a = paint(ARROW, c);
    let r = build_line(
        margin,
        g.as_str(),
        i.as_str(),
        field.title.as_str(),
        width,
        a.as_str(),
        field.value.as_str(),
    );
    assert(painted(g@, c, connector_of(idx as int, len as int)));
    assert(painted(i@, c, field@.1));
    assert(painted(a@, c, ARROW@));
    assert(r@ == field_line(margin as nat, g@, i@, field@.0, width as nat, a@, field@.2));
    r
}

/// A field as the report sees it: (title, icon, value).
pub type FieldView = (Seq<char>, Seq<char>, Seq<char>);

/// The sections to show, as views.
pub open spec fn sections_view(sections: Seq<Vec<ResolvedField>>) -> Seq<Seq<FieldView>> {
    sections.map_values(|sec: Vec<ResolvedField>| sec@.map_values(|f: ResolvedField| f@))
}

/// The length of the longest title of a section.
pub open spec fn section_width(sec: Seq<FieldView>) -> nat
    decreases sec.len(),
{
    if sec.len() == 0 {
        0
    } else {
        let p = section_width(sec.drop_last());
        let t = sec.last().0.len();
        if t > p {
            t
        } else {
            p
        }
    }
}

/// The length of the longest title over all sections: every title is
/// padded to it, so that the arrows of all lines stand in one column.
pub open spec fn title_width(secs: Seq<Seq<FieldView>>) -> nat
    decreases secs.len(),
{
    if secs.len() == 0 {
        0
    } else {
        let p = title_width(secs.drop_last());
        let t = section_width(secs.last());
        if t > p {
            t
        } else {
            p
        }
    }
}

/// Finds the length of the longest title over all sections.
pub fn longest_title(sections: &Vec<Vec<ResolvedField>>) -> (r: usize)
    ensures
        r == title_width(sections_view(sections@)),
        forall|s: int, f: int|
            0 <= s < sections@.len() && 0 <= f < sections@[s]@.len() ==> (
            #[trigger] sections@[s]@[f]).title@.len() <= r,
{
    let ghost v = sections_view(sections@);
    let mut w: usize = 0;
    let mut s: usize = 0;
    while s < sections.len()
        invariant
            s <= sections@.len(),
            v == sections_view(sections@),
            w == title_width(v.subrange(0, s as int)),
            forall|t: int, f: int|
                0 <= t < s && 0 <= f < sections@[t]@.len() ==> (#[trigger] sections@[t]@[f]).title@.len()
                    <= w,
        decreases sections@.len() - s,
    {
        let sec = &sections[s];
        let ghost sv = v[s as int];
        let mut sw: usize = 0;
        let mut f: usize = 0;
        while f < sec.len()
            invariant
                f <= sec@.len(),
                sv == sec@.map_values(|x: ResolvedField| x@),
                sw == section_width(sv.subrange(0, f as int)),
                forall|g: int| 0 <= g < f ==> (#[trigger] sec@[g]).title@.len() <= sw,
            decreases sec@.len() - f,
        {
            assert(sv.subrange(0, f + 1).drop_last() =~= sv.subrange(0, f as int));
            let t = sec[f].title.unicode_len();
            if t > sw {
                sw = t;
            }
            f = f + 1;
        }
        assert(sv.subrange(0, sec@.len() as int) =~= sv);
        assert(v.subrange(0, s + 1).drop_last() =~= v.subrange(0, s as int));
        if sw > w {
            w = sw;
        }
        s = s + 1;
    }
    assert(v.subrange(0, sections@.len() as int) =~= v);
    w
}

/// What line `k` of a report shows: `(-2, k)` line `k` of the art,
/// `(-1, 1)` a blank line, `(s, f)` field `f` of section `s`.
pub open spec fn section_slots(s: int, len: nat) -> Seq<(int, int)> {
    Seq::new(len, |f: int| (s, f))
}

/// The lines of the first `n` sections: a section with no field takes no
/// line at all, and one blank line stands between each two that are shown.
pub open spec fn body_slots(secs: Seq<Seq<FieldView>>, n: nat) -> Seq<(int, int)>
    decreases n,
{
    if n == 0 {
        Seq::empty()
    } else {
        let prev = body_slots(secs, (n - 1) as nat);
        let s = n - 1;
        if s >= secs.len() || secs[s].len() == 0 {
            prev
        } else if prev.len() == 0 {
            section_slots(s, secs[s].len())
        } else {
            prev.push((-1, 1)) + section_slots(s, secs[s].len())
        }
    }
}

/// The lines before the sections: each line of the art, then a blank line.
pub open spec fn head_slots(art_lines: nat) -> Seq<(int, int)> {
    section_slots(-2, art_lines).push((-1, 1))
}

/// The lines of a report: the art, a blank line, then the sections.
pub open spec fn report_slots(secs: Seq<Seq<FieldView>>, art: Seq<char>) -> Seq<(int, int)> {
    head_slots(lines_of(art).len()) + body_slots(secs, secs.len())
}

/// A line that begins with `margin` spaces.
pub open spec fn with_margin(margin: nat, p: Seq<char>) -> Seq<char> {
    spaces(margin) + p
}

/// `line` is the margin, then `t` painted in color `c`.
pub open spec fn margined_paint(line: Seq<char>, c: Color, t: Seq<char>, margin: nat) -> bool {
    exists|p: Seq<char>| painted(p, c, t) && line == #[trigger] with_margin(margin, p)
}

/// `line` is what slot `slot` of the report shows; every line begins with
/// the margin. The art takes palette slot 0; section `s` takes palette slot
/// `s + 1`, or the fallback color when the palette is too short.
pub open spec fn line_ok(
    line: Seq<char>,
    slot: (int, int),
    secs: Seq<Seq<FieldView>>,
    art: Seq<char>,
    palette: Seq<Color>,
    margin: nat,
) -> bool {
    if slot.0 == -2 {
        0 <= slot.1 < lines_of(art).len() && margined_paint(
            line,
            slot_color(palette, 0),
            lines_of(art)[slot.1],
            margin,
        )
    } else if slot.0 == -1 {
        line == spaces(margin)
    } else {
        0 <= slot.0 < secs.len() && 0 <= slot.1 < secs[slot.0].len() && field_line_ok(
            line,
            secs[slot.0][slot.1],
            slot_color(palette, slot.0 + 1),
            margin,
            title_width(secs),
            slot.1,
            secs[slot.0].len() as int,
        )
    }
}

fn blank_line(margin: usize) -> (r: String)
    ensures
        r@ == spaces(margin as nat),
{
    let mut r = String::new();
    push_spaces(&mut r, margin);
    assert(r@ =~= spaces(margin as nat));
    r
}

/// Renders the report, line by line: each line of the art, a blank line,
/// then each section that has a field, fields aligned on one column, and
/// `margin` spaces before every line.
pub fn render(sections: &Vec<Vec<ResolvedField>>, art: &str, palette: &Vec<Color>, margin: usize) -> (r:
    Vec<String>)
    ensures
        r@.len() == report_slots(sections_view(sections@), art@).len(),
        forall|k: int|
            0 <= k < r@.len() ==> line_ok(
                #[trigger] r@[k]@,
                report_slots(sections_view(sections@), art@)[k],
                sections_view(sections@),
                art@,
                palette@,
                margin as nat,
            ),
{
    let ghost v = sections_view(sections@);
    let width = longest_title(sections);
    let art_lines = split_lines(art);
    let ghost al = art_lines@.map_values(|l: String| l@);
    let na = art_lines.len();
    let c0 = section_color(palette, 0);
    let mut r: Vec<String> = Vec::new();
    let mut k: usize = 0;
    while k < na
        invariant
            k <= na,
            na == art_lines@.len(),
            al == art_lines@.map_values(|l: String| l@),
            al == lines_of(art@),
            c0 == slot_color(palette@, 0),
            r@.len() == k,
            forall|j: int|
                0 <= j < r@.len() ==> line_ok(
                    #[trigger] r@[j]@,
                    head_slots(na as nat)[j],
                    v,
                    art@,
                    palette@,
                    margin as nat,
                ),
        decreases na - k,
    {
        let p = paint(art_lines[k].as_str(), c0);
        let mut line = String::new();
        push_spaces(&mut line, margin);
        push_str(&mut line, p.as_str());
        assert(line@ == with_margin(margin as nat, p@));
        assert(al[k as int] == art_lines@[k as int]@);
        r.push(line);
        k = k + 1;
    }
    r.push(blank_line(margin));
    let ghost head = head_slots(na as nat);
    assert(r@.len() == head.len());
    assert(head + body_slots(v, 0) =~= head);
    let mut s: usize = 0;
    while s < sections.len()
        invariant
            s <= sections@.len(),
            v == sections_view(sections@),
            width == title_width(v),
            head == head_slots(na as nat),
            na == lines_of(art@).len(),
            forall|t: int, f: int|
                0 <= t < sections@.len() && 0 <= f < sections@[t]@.len() ==> (
                #[trigger] sections@[t]@[f]).title@.len() <= width,
            r@.len() == head.len() + body_slots(v, s as nat).len(),
            forall|j: int|
                0 <= j < r@.len() ==> line_ok(
                    #[trigger] r@[j]@,
                    (head + body_slots(v, s as nat))[j],
                    v,
                    art@,
                    palette@,
                    margin as nat,
                ),
        decreases sections@.len() - s,
    {
        let ghost before = head + body_slots(v, s as nat);
        let sec = &sections[s];
        let n = sec.len();
        if n > 0 {
            let ghost base: Seq<(int, int)> = if body_slots(v, s as nat).len() == 0 {
                before
            } else {
                before.push((-1, 1))
            };
            if r.len() > na + 1 {
                r.push(blank_line(margin));
            }
            assert(r@.len() == base.len());
            let c = section_color(palette, s + 1);
            let mut f: usize = 0;
            while f < n
                invariant
                    f <= n,
                    n == sec@.len(),
                    s < sections@.len(),
                    sec@ == sections@[s as int]@,
                    v == sections_view(sections@),
                    width == title_width(v),
                    c == slot_color(palette@, s + 1),
                    forall|t: int, g: int|
                        0 <= t < sections@.len() && 0 <= g < sections@[t]@.len() ==> (
                        #[trigger] sections@[t]@[g]).title@.len() <= width,
                    r@.len() == base.len() + f,
                    forall|j: int|
                        0 <= j < r@.len() ==> line_ok(
                            #[trigger] r@[j]@,
                            (base + section_slots(s as int, n as nat))[j],
                            v,
                            art@,
                            palette@,
                            margin as nat,
                        ),
                decreases n - f,
            {
                let line = section_line(&sec[f], c, margin, width, f, n);
                r.push(line);
                f = f + 1;
            }
            assert(base + section_slots(s as int, n as nat) =~= head + body_slots(v, (s + 1) as nat));
        }
        assert(n == 0 ==> before =~= head + body_slots(v, (s + 1) as nat));
        s = s + 1;
    }
    assert(v.len() == sections@.len());
    r
}

/// Titles of any length up to the common width put the arrow in the same
/// column: after the margin, glyph, icon, two spaces, `width` characters of
/// padded title and one space, whatever the title and the value.
pub proof fn lemma_arrow_column(
    margin: nat,
    glyph1: Seq<char>,
    icon1: Seq<char>,
    title1: Seq<char>,
    value1: Seq<char>,
    glyph2: Seq<char>,
    icon2: Seq<char>,
    title2: Seq<char>,
    value2: Seq<char>,
    width: nat,
    arrow: Seq<char>,
)
    requires
        glyph1.len() == glyph2.len(),
        icon1.len() == icon2.len(),
        title1.len() <= width,
        title2.len() <= width,
    ensures
        ({
            let lead: int = (margin + glyph1.len() + icon1.len() + 2) as int;
            let col: int = lead + width + 1;
            let l1 = field_line(margin, glyph1, icon1, title1, width, arrow, value1);
            let l2 = field_line(margin, glyph2, icon2, title2, width, arrow, value2);
            &&& l1.subrange(col, col + arrow.len()) == arrow
            &&& l2.subrange(col, col + arrow.len()) == arrow
            &&& l1.subrange(lead, lead + width) == title1 + spaces((width - title1.len()) as nat)
            &&& l2.subrange(lead, lead + width) == title2 + spaces((width - title2.len()) as nat)
        }),
{
    let lead: int = (margin + glyph1.len() + icon1.len() + 2) as int;
    let col: int = lead + width + 1;
    let pre1 = spaces(margin) + glyph1 + icon1 + "  "@;
    let pre2 = spaces(margin) + glyph2 + icon2 + "  "@;
    let pad1 = title1 + spaces((width - title1.len()) as nat);
    let pad2 = title2 + spaces((width - title2.len()) as nat);
    reveal_strlit("  ");
    reveal_strlit(" ");
    assert(pre1.len() == lead);
    assert(pre2.len() == lead);
    assert(pad1.len() == width);
    assert(pad2.len() == width);
    let l1 = field_line(margin, glyph1, icon1, title1, width, arrow, value1);
    let l2 = field_line(margin, glyph2, icon2, title2, width, arrow, value2);
    assert(l1 =~= pre1 + pad1 + " "@ + arrow + " "@ + value1);
    assert(l2 =~= pre2 + pad2 + " "@ + arrow + " "@ + value2);
    assert(l1.subrange(col, col + arrow.len()) =~= arrow);
    assert(l2.subrange(col, col + arrow.len()) =~= arrow);
    assert(l1.subrange(lead, lead + width) =~= pad1);
    assert(l2.subrange(lead, lead + width) =~= pad2);
}

/// The line of the only field of a section shows the opening glyph.
pub proof fn lemma_one_field_line(
    line: Seq<char>,
    field: FieldView,
    c: Color,
    margin: nat,
    width: nat,
)
    requires
        field_line_ok(line, field, c, margin, width, 0, 1),
    ensures
        exists|g: Seq<char>, i: Seq<char>, a: Seq<char>|
            painted(g, c, START_GLYPH@) && painted(i, c, field.1) && painted(a, c, ARROW@) && line
                == #[trigger] field_line(margin, g, i, field.0, width, a, field.2),
{
    assert(connector_of(0, 1) == START_GLYPH@);
}

/// The field of a one-field section gets the opening glyph, neither the
/// middle nor the closing one.
pub proof fn lemma_single_field_glyph()
    ensures
        connector_of(0, 1) == START_GLYPH@,
        START_GLYPH@ != MIDDLE_GLYPH@,
        START_GLYPH@ != END_GLYPH@,
{
    reveal_strlit("\u{256d}\u{2500}");
    reveal_strlit("\u{251c}\u{2500}");
    reveal_strlit("\u{2570}\u{2500}");
    assert(START_GLYPH@[0] != MIDDLE_GLYPH@[0]);
    assert(START_GLYPH@[0] != END_GLYPH@[0]);
}

} // verus!
