//! Width-aware styled text: single display units and ordered sequences of
//! them, with style rewriting, range replacement, greedy line wrapping,
//! pagination and truncation.
//!
//! Every unit records the display width of its character in terminal
//! columns, so that layout can be computed without consulting the terminal.

use vstd::prelude::*;
use vstd::string::*;

use crate::style::{Attribute, ContentStyle};

verus! {

/// The display width, in terminal columns, of one character.  The exact
/// value follows the Unicode east-asian-width and ignorable-codepoint
/// rules; this crate treats it as an opaque function of the character.
pub uninterp spec fn char_display_width(ch: char) -> nat;

/// Relies on unicode_width's `UnicodeWidthChar::width`: the displayed width
/// in columns of a character, a function of the character alone; for control
/// characters it reports `None`, counted as width 0 here.  Its tables give
/// every printable ASCII character (space through tilde) width 1.
#[verifier::external_body]
fn measure_char_width(ch: char) -> (r: usize)
    ensures
        r as nat == char_display_width(ch),
        ' ' <= ch && ch <= '~' ==> r == 1,
{
    unicode_width::UnicodeWidthChar::width(ch).unwrap_or(0)
}

/// Relies on std's `String::push`: appends exactly the given character at
/// the end of the string.
#[verifier::external_body]
fn push_char(s: &mut String, ch: char)
    ensures
        final(s)@ == old(s)@.push(ch),
{
    s.push(ch);
}

/// One display character together with its width in terminal columns and
/// its visual style.  The character and width never change after
/// construction; the style may be replaced.
#[derive(Clone, Copy, Debug, PartialEq, Eq, Structural)]
pub struct StyledGrapheme {
    pub ch: char,
    pub width: usize,
    pub style: ContentStyle,
}

/// The unit that [`StyledGrapheme::new`] builds for a character: the width
/// field carries the character's display width.
pub open spec fn unit_spec(ch: char, style: ContentStyle) -> StyledGrapheme {
    StyledGrapheme { ch, width: char_display_width(ch) as usize, style }
}

/// A unit is well formed when its recorded width is its character's
/// display width.  Every constructor of this crate establishes it.
pub open spec fn unit_wf(g: StyledGrapheme) -> bool {
    g.width as nat == char_display_width(g.ch)
}

/// The given unit with its style replaced and content untouched.
pub open spec fn restyled(g: StyledGrapheme, style: ContentStyle) -> StyledGrapheme {
    StyledGrapheme { style, ..g }
}

/// The given unit with one attribute flag added to its style.
pub open spec fn with_attribute(g: StyledGrapheme, attr: Attribute) -> StyledGrapheme {
    StyledGrapheme {
        style: ContentStyle { attributes: g.style.attributes.spec_set(attr), ..g.style },
        ..g
    }
}

impl StyledGrapheme {
    /// Builds the unit for `ch`, measuring its display width.
    pub fn new(ch: char, style: ContentStyle) -> (r: StyledGrapheme)
        ensures
            r == unit_spec(ch, style),
            unit_wf(r),
    {
        let width = measure_char_width(ch);
        StyledGrapheme { ch, width, style }
    }

    /// The display width of this unit in terminal columns.
    pub fn width(&self) -> (r: usize)
        ensures
            r == self.width,
    {
        self.width
    }

    /// Replaces the style, leaving character and width untouched.
    pub fn apply_style(&mut self, style: ContentStyle)
        ensures
            *final(self) == restyled(*old(self), style),
    {
        self.style = style;
    }
}

impl From<char> for StyledGrapheme {
    /// Builds the unit for a character, measured, with the plain style.
    fn from(ch: char) -> (r: StyledGrapheme) {
        StyledGrapheme::new(ch, ContentStyle::plain())
    }
}

impl vstd::std_specs::convert::FromSpecImpl<char> for StyledGrapheme {
    open spec fn obeys_from_spec() -> bool {
        true
    }

    open spec fn from_spec(ch: char) -> StyledGrapheme {
        unit_spec(ch, ContentStyle::spec_plain())
    }
}

/// The characters of a unit sequence, in display order.
pub open spec fn chars_of(s: Seq<StyledGrapheme>) -> Seq<char> {
    Seq::new(s.len(), |i: int| s[i].ch)
}

/// The sum of the display widths of a unit sequence.
pub open spec fn total_width(s: Seq<StyledGrapheme>) -> nat
    decreases s.len(),
{
    if s.len() == 0 {
        0
    } else {
        (total_width(s.drop_last()) + s.last().width) as nat
    }
}

/// The units that a plain string yields under one uniform style.
pub open spec fn styled_seq(text: Seq<char>, style: ContentStyle) -> Seq<StyledGrapheme> {
    Seq::new(text.len(), |i: int| unit_spec(text[i], style))
}

/// Concatenation distributes over the width sum.
pub proof fn lemma_total_width_concat(a: Seq<StyledGrapheme>, b: Seq<StyledGrapheme>)
    ensures
        total_width(a + b) == total_width(a) + total_width(b),
    decreases b.len(),
{
    if b.len() == 0 {
        assert(a + b =~= a);
    } else {
        assert((a + b).drop_last() =~= a + b.drop_last());
        lemma_total_width_concat(a, b.drop_last());
    }
}

/// Extending a prefix by one unit adds that unit's width.
pub proof fn lemma_total_width_take_succ(s: Seq<StyledGrapheme>, i: int)
    requires
        0 <= i < s.len(),
    ensures
        total_width(s.take(i + 1)) == total_width(s.take(i)) + s[i].width,
{
    assert(s.take(i + 1).drop_last() =~= s.take(i));
    assert(s.take(i + 1).last() == s[i]);
}

/// A prefix never has more width than the whole sequence.
pub proof fn lemma_total_width_take_le(s: Seq<StyledGrapheme>, i: int)
    requires
        0 <= i <= s.len(),
    ensures
        total_width(s.take(i)) <= total_width(s),
{
    assert(s =~= s.take(i) + s.skip(i));
    lemma_total_width_concat(s.take(i), s.skip(i));
}

/// The views of a vector of rows, row by row.
pub open spec fn rows_view(rows: Seq<StyledGraphemes>) -> Seq<Seq<StyledGrapheme>> {
    Seq::new(rows.len(), |i: int| rows[i]@)
}

/// Greedy wrapping, processing `s` unit by unit: `rows` holds the rows
/// closed so far and `row` the one being filled.  A unit that overflows a
/// non-empty row closes that row; a unit wider than the full width is
/// dropped; a trailing non-empty row is kept.
pub open spec fn wrap_rec(
    s: Seq<StyledGrapheme>,
    width: usize,
    rows: Seq<Seq<StyledGrapheme>>,
    row: Seq<StyledGrapheme>,
) -> Seq<Seq<StyledGrapheme>>
    decreases s.len(),
{
    if s.len() == 0 {
        if row.len() == 0 {
            rows
        } else {
            rows.push(row)
        }
    } else {
        let g = s[0];
        let rest = s.drop_first();
        if row.len() > 0 && total_width(row) + g.width > width {
            if g.width <= width {
                wrap_rec(rest, width, rows.push(row), seq![g])
            } else {
                wrap_rec(rest, width, rows.push(row), Seq::empty())
            }
        } else {
            if g.width <= width {
                wrap_rec(rest, width, rows, row.push(g))
            } else {
                wrap_rec(rest, width, rows, row)
            }
        }
    }
}

/// The rows of greedily wrapping `s` at the given width.
pub open spec fn wrap_spec(s: Seq<StyledGrapheme>, width: usize) -> Seq<Seq<StyledGrapheme>> {
    wrap_rec(s, width, Seq::empty(), Seq::empty())
}

/// Wrapping only ever emits non-empty rows that fit the width.
proof fn lemma_wrap_rec_rows_fit(
    s: Seq<StyledGrapheme>,
    width: usize,
    rows: Seq<Seq<StyledGrapheme>>,
    row: Seq<StyledGrapheme>,
)
    requires
        forall|i: int| 0 <= i < rows.len() ==> total_width(#[trigger] rows[i]) <= width,
        forall|i: int| 0 <= i < rows.len() ==> (#[trigger] rows[i]).len() > 0,
        total_width(row) <= width,
    ensures
        forall|i: int|
            0 <= i < wrap_rec(s, width, rows, row).len() ==> total_width(
                #[trigger] wrap_rec(s, width, rows, row)[i],
            ) <= width,
        forall|i: int|
            0 <= i < wrap_rec(s, width, rows, row).len() ==> (#[trigger] wrap_rec(
                s,
                width,
                rows,
                row,
            )[i]).len() > 0,
    decreases s.len(),
{
    let result = wrap_rec(s, width, rows, row);
    if s.len() == 0 {
        if row.len() == 0 {
            assert(result == rows);
            assert forall|i: int| 0 <= i < result.len() implies total_width(#[trigger] result[i])
                <= width && result[i].len() > 0 by {
                assert(result[i] == rows[i]);
            }
        } else {
            assert(result == rows.push(row));
            assert forall|i: int| 0 <= i < result.len() implies total_width(#[trigger] result[i])
                <= width && result[i].len() > 0 by {
                if i < rows.len() {
                    assert(result[i] == rows[i]);
                } else {
                    assert(result[i] == row);
                }
            }
        }
    } else {
        let g = s[0];
        let rest = s.drop_first();
        if row.len() > 0 && total_width(row) + g.width > width {
            let rows2 = rows.push(row);
            assert forall|i: int| 0 <= i < rows2.len() implies total_width(#[trigger] rows2[i])
                <= width && rows2[i].len() > 0 by {
                if i < rows.len() {
                    assert(rows2[i] == rows[i]);
                } else {
                    assert(rows2[i] == row);
                }
            }
            if g.width <= width {
                assert(total_width(seq![g]) == g.width) by {
                    assert(seq![g].drop_last() =~= Seq::<StyledGrapheme>::empty());
                    assert(seq![g].last() == g);
                    assert(total_width(Seq::<StyledGrapheme>::empty()) == 0);
                }
                lemma_wrap_rec_rows_fit(rest, width, rows2, seq![g]);
                assert(result == wrap_rec(rest, width, rows2, seq![g]));
                assert forall|i: int| 0 <= i < result.len() implies total_width(
                    #[trigger] result[i],
                ) <= width && result[i].len() > 0 by {
                    assert(result[i] == wrap_rec(rest, width, rows2, seq![g])[i]);
                }
            } else {
                lemma_wrap_rec_rows_fit(rest, width, rows2, Seq::empty());
                assert(result == wrap_rec(rest, width, rows2, Seq::<StyledGrapheme>::empty()));
                assert forall|i: int| 0 <= i < result.len() implies total_width(
                    #[trigger] result[i],
                ) <= width && result[i].len() > 0 by {
                    assert(result[i] == wrap_rec(
                        rest,
                        width,
                        rows2,
                        Seq::<StyledGrapheme>::empty(),
                    )[i]);
                }
            }
        } else {
            if g.width <= width {
                assert(total_width(row.push(g)) == total_width(row) + g.width) by {
                    assert(row.push(g).drop_last() =~= row);
                    assert(row.push(g).last() == g);
                }
                lemma_wrap_rec_rows_fit(rest, width, rows, row.push(g));
                assert(result == wrap_rec(rest, width, rows, row.push(g)));
                assert forall|i: int| 0 <= i < result.len() implies total_width(
                    #[trigger] result[i],
                ) <= width && result[i].len() > 0 by {
                    assert(result[i] == wrap_rec(rest, width, rows, row.push(g))[i]);
                }
            } else {
                lemma_wrap_rec_rows_fit(rest, width, rows, row);
                assert(result == wrap_rec(rest, width, rows, row));
                assert forall|i: int| 0 <= i < result.len() implies total_width(
                    #[trigger] result[i],
                ) <= width && result[i].len() > 0 by {
                    assert(result[i] == wrap_rec(rest, width, rows, row)[i]);
                }
            }
        }
    }
}

/// Every row of a greedy wrap is non-empty and fits the width.
pub proof fn lemma_wrap_rows_fit(s: Seq<StyledGrapheme>, width: usize)
    ensures
        forall|i: int|
            0 <= i < wrap_spec(s, width).len() ==> total_width(#[trigger] wrap_spec(s, width)[i])
                <= width,
        forall|i: int|
            0 <= i < wrap_spec(s, width).len() ==> (#[trigger] wrap_spec(s, width)[i]).len() > 0,
{
    lemma_wrap_rec_rows_fit(s, width, Seq::empty(), Seq::empty());
}

/// An ordered collection of styled units.  Display order is insertion
/// order, and the view is the sequence of units.
#[derive(Debug)]
pub struct StyledGraphemes(pub Vec<StyledGrapheme>);

impl View for StyledGraphemes {
    type V = Seq<StyledGrapheme>;

    open spec fn view(&self) -> Seq<StyledGrapheme> {
        self.0@
    }
}

impl Clone for StyledGraphemes {
    /// Clones the sequence unit by unit.
    fn clone(&self) -> (r: StyledGraphemes)
        ensures
            r@ == self@,
    {
        let mut units: Vec<StyledGrapheme> = Vec::new();
        let mut i: usize = 0;
        while i < self.0.len()
            invariant
                i <= self.0@.len(),
                units@ == self.0@.take(i as int),
            decreases self.0@.len() - i,
        {
            units.push(self.0[i]);
            assert(units@ =~= self.0@.take(i + 1));
            i = i + 1;
        }
        assert(units@ =~= self.0@);
        StyledGraphemes(units)
    }
}

impl PartialEq for StyledGraphemes {
    /// Two sequences are equal when they hold the same units in the same
    /// order.
    fn eq(&self, other: &StyledGraphemes) -> (r: bool) {
        if self.0.len() != other.0.len() {
            return false;
        }
        let mut i: usize = 0;
        while i < self.0.len()
            invariant
                i <= self.0@.len(),
                self.0@.len() == other.0@.len(),
                forall|j: int| 0 <= j < i ==> self.0@[j] == other.0@[j],
            decreases self.0@.len() - i,
        {
            if self.0[i] != other.0[i] {
                return false;
            }
            i = i + 1;
        }
        proof {
            assert(self.0@ =~= other.0@);
        }
        true
    }
}

impl vstd::std_specs::cmp::PartialEqSpecImpl for StyledGraphemes {
    open spec fn obeys_eq_spec() -> bool {
        true
    }

    open spec fn eq_spec(&self, other: &StyledGraphemes) -> bool {
        self.0@ == other.0@
    }
}

impl Default for StyledGraphemes {
    /// Returns the empty sequence.
    fn default() -> (r: StyledGraphemes)
        ensures
            r@ == Seq::<StyledGrapheme>::empty(),
    {
        StyledGraphemes(Vec::new())
    }
}

impl StyledGraphemes {
    /// Builds the sequence of a plain string, measuring each character and
    /// giving every unit the same style.
    pub fn from_str(string: &str, style: ContentStyle) -> (r: StyledGraphemes)
        ensures
            r@ == styled_seq(string@, style),
            forall|i: int| 0 <= i < r@.len() ==> unit_wf(#[trigger] r@[i]),
    {
        let n = string.unicode_len();
        let mut units: Vec<StyledGrapheme> = Vec::new();
        let mut i: usize = 0;
        while i < n
            invariant
                i <= n,
                n == string@.len(),
                units@ == styled_seq(string@, style).take(i as int),
                forall|k: int| 0 <= k < units@.len() ==> unit_wf(#[trigger] units@[k]),
            decreases n - i,
        {
            let ch = string.get_char(i);
            units.push(StyledGrapheme::new(ch, style));
            assert(units@ =~= styled_seq(string@, style).take(i + 1));
            i = i + 1;
        }
        assert(units@ =~= styled_seq(string@, style));
        StyledGraphemes(units)
    }

    /// Builds the sequence of a plain string under the plain style.
    pub fn from_plain(string: &str) -> (r: StyledGraphemes)
        ensures
            r@ == styled_seq(string@, ContentStyle::spec_plain()),
            forall|i: int| 0 <= i < r@.len() ==> unit_wf(#[trigger] r@[i]),
    {
        StyledGraphemes::from_str(string, ContentStyle::plain())
    }

    /// The number of units held.
    pub fn len(&self) -> (r: usize)
        ensures
            r == self@.len(),
    {
        self.0.len()
    }

    /// The characters of all units, in display order.
    pub fn chars(&self) -> (r: Vec<char>)
        ensures
            r@ == chars_of(self@),
    {
        let mut out: Vec<char> = Vec::new();
        let mut i: usize = 0;
        while i < self.0.len()
            invariant
                i <= self.0@.len(),
                out@ == chars_of(self.0@).take(i as int),
            decreases self.0@.len() - i,
        {
            out.push(self.0[i].ch);
            assert(out@ =~= chars_of(self.0@).take(i + 1));
            i = i + 1;
        }
        assert(out@ =~= chars_of(self.0@));
        out
    }

    /// The character content as a string, in display order.
    pub fn text(&self) -> (r: String)
        ensures
            r@ == chars_of(self@),
    {
        let mut out = String::new();
        let mut i: usize = 0;
        while i < self.0.len()
            invariant
                i <= self.0@.len(),
                out@ == chars_of(self.0@).take(i as int),
            decreases self.0@.len() - i,
        {
            push_char(&mut out, self.0[i].ch);
            assert(out@ =~= chars_of(self.0@).take(i + 1));
            i = i + 1;
        }
        assert(out@ =~= chars_of(self.0@));
        out
    }

    /// The total display width of the sequence.
    pub fn widths(&self) -> (r: usize)
        requires
            total_width(self@) <= usize::MAX,
        ensures
            r as nat == total_width(self@),
    {
        let mut acc: usize = 0;
        let mut i: usize = 0;
        while i < self.0.len()
            invariant
                i <= self.0@.len(),
                acc as nat == total_width(self.0@.take(i as int)),
                total_width(self.0@) <= usize::MAX,
            decreases self.0@.len() - i,
        {
            proof {
                lemma_total_width_take_succ(self.0@, i as int);
                lemma_total_width_take_le(self.0@, i + 1);
            }
            acc = acc + self.0[i].width;
            i = i + 1;
        }
        proof {
            assert(self.0@.take(self.0@.len() as int) =~= self.0@);
        }
        acc
    }

    /// Removes the units of `range` (indices clamped to the current
    /// length) and inserts the replacement's plain-styled units where the
    /// removed range began.
    pub fn replace_range(&mut self, range: core::ops::Range<usize>, replacement: &str)
        ensures
            ({
                let n = old(self)@.len() as int;
                let start = if range.start as int <= n { range.start as int } else { n };
                let stop0 = if range.end >= range.start { range.end as int } else { range.start as int };
                let stop = if stop0 <= n { stop0 } else { n };
                final(self)@ == old(self)@.take(start) + styled_seq(
                    replacement@,
                    ContentStyle::spec_plain(),
                ) + old(self)@.skip(stop) && (forall|i: int|
                    start <= i < start + replacement@.len() ==> unit_wf(#[trigger] final(self)@[i]))
            }),
    {
        let n = self.0.len();
        let start = if range.start <= n { range.start } else { n };
        let stop0 = if range.end >= range.start { range.end } else { range.start };
        let stop = if stop0 <= n { stop0 } else { n };
        let inserted = StyledGraphemes::from_str(replacement, ContentStyle::plain());
        let ghost target = self.0@.take(start as int) + styled_seq(
            replacement@,
            ContentStyle::spec_plain(),
        ) + self.0@.skip(stop as int);

        let mut out: Vec<StyledGrapheme> = Vec::new();
        let mut i: usize = 0;
        while i < start
            invariant
                i <= start,
                start <= self.0@.len(),
                out@ == self.0@.take(i as int),
            decreases start - i,
        {
            out.push(self.0[i]);
            assert(out@ =~= self.0@.take(i + 1));
            i = i + 1;
        }
        let mut j: usize = 0;
        while j < inserted.0.len()
            invariant
                j <= inserted.0@.len(),
                start <= self.0@.len(),
                out@ == self.0@.take(start as int) + inserted.0@.take(j as int),
            decreases inserted.0@.len() - j,
        {
            out.push(inserted.0[j]);
            assert(out@ =~= self.0@.take(start as int) + inserted.0@.take(j + 1));
            j = j + 1;
        }
        let mut k: usize = stop;
        while k < self.0.len()
            invariant
                stop <= k <= self.0@.len(),
                start <= self.0@.len(),
                out@ == self.0@.take(start as int) + inserted.0@ + self.0@.subrange(
                    stop as int,
                    k as int,
                ),
            decreases self.0@.len() - k,
        {
            out.push(self.0[k]);
            assert(out@ =~= self.0@.take(start as int) + inserted.0@ + self.0@.subrange(
                stop as int,
                k + 1,
            ));
            k = k + 1;
        }
        proof {
            assert(inserted.0@.take(inserted.0@.len() as int) =~= inserted.0@);
            assert(self.0@.subrange(stop as int, self.0@.len() as int) =~= self.0@.skip(
                stop as int,
            ));
            assert(out@ =~= target);
        }
        self.0 = out;
    }

    /// Rewrites every unit's style, leaving content untouched.
    pub fn apply_style(self, style: ContentStyle) -> (r: StyledGraphemes)
        ensures
            r@ == Seq::new(self@.len(), |i: int| restyled(self@[i], style)),
    {
        let ghost target = Seq::new(self@.len(), |i: int| restyled(self@[i], style));
        let mut out: Vec<StyledGrapheme> = Vec::new();
        let mut i: usize = 0;
        while i < self.0.len()
            invariant
                i <= self.0@.len(),
                out@ == target.take(i as int),
                target == Seq::new(self.0@.len(), |k: int| restyled(self.0@[k], style)),
            decreases self.0@.len() - i,
        {
            let g = self.0[i];
            out.push(StyledGrapheme { ch: g.ch, width: g.width, style });
            assert(out@ =~= target.take(i + 1));
            i = i + 1;
        }
        assert(out@ =~= target);
        StyledGraphemes(out)
    }

    /// Rewrites the style of the unit at `idx`; an out-of-range index
    /// changes nothing.
    pub fn apply_style_at(self, idx: usize, style: ContentStyle) -> (r: StyledGraphemes)
        ensures
            r@.len() == self@.len(),
            forall|i: int| 0 <= i < self@.len() && i != idx ==> r@[i] == self@[i],
            idx < self@.len() ==> r@[idx as int] == restyled(self@[idx as int], style),
    {
        let mut out: Vec<StyledGrapheme> = Vec::new();
        let mut i: usize = 0;
        while i < self.0.len()
            invariant
                i <= self.0@.len(),
                out@.len() == i,
                forall|k: int| 0 <= k < i && k != idx ==> out@[k] == self.0@[k],
                idx < i ==> out@[idx as int] == restyled(self.0@[idx as int], style),
            decreases self.0@.len() - i,
        {
            let g = self.0[i];
            if i == idx {
                out.push(StyledGrapheme { ch: g.ch, width: g.width, style });
            } else {
                out.push(g);
            }
            i = i + 1;
        }
        StyledGraphemes(out)
    }

    /// Adds one attribute flag to every unit's style, leaving content and
    /// the other style fields untouched.
    pub fn apply_attribute(self, attr: Attribute) -> (r: StyledGraphemes)
        ensures
            r@ == Seq::new(self@.len(), |i: int| with_attribute(self@[i], attr)),
    {
        let ghost target = Seq::new(self@.len(), |i: int| with_attribute(self@[i], attr));
        let mut out: Vec<StyledGrapheme> = Vec::new();
        let mut i: usize = 0;
        while i < self.0.len()
            invariant
                i <= self.0@.len(),
                out@ == target.take(i as int),
                target == Seq::new(self.0@.len(), |k: int| with_attribute(self.0@[k], attr)),
            decreases self.0@.len() - i,
        {
            let g = self.0[i];
            let mut attrs = g.style.attributes;
            attrs.set(attr);
            let style = ContentStyle {
                foreground_color: g.style.foreground_color,
                background_color: g.style.background_color,
                underline_color: g.style.underline_color,
                attributes: attrs,
            };
            out.push(StyledGrapheme { ch: g.ch, width: g.width, style });
            assert(out@ =~= target.take(i + 1));
            i = i + 1;
        }
        assert(out@ =~= target);
        StyledGraphemes(out)
    }

    /// A read-only display handle over this sequence.
    pub fn styled_display(&self) -> (r: StyledGraphemesDisplay<'_>)
        ensures
            r.styled_graphemes@ == self@,
    {
        StyledGraphemesDisplay { styled_graphemes: self }
    }

    /// Greedily wraps the sequence into rows of at most the given width.
    /// A unit that would overflow a non-empty row starts a new row; a unit
    /// wider than the width itself is dropped, never split.
    pub fn wrap(&self, width: usize) -> (r: Vec<StyledGraphemes>)
        ensures
            rows_view(r@) == wrap_spec(self@, width),
    {
        let ghost full = self.0@;
        let mut all: Vec<StyledGraphemes> = Vec::new();
        let mut row: Vec<StyledGrapheme> = Vec::new();
        let mut row_width: usize = 0;
        let mut i: usize = 0;
        proof {
            assert(full.skip(0) =~= full);
            assert(rows_view(all@) =~= Seq::<Seq<StyledGrapheme>>::empty());
        }
        while i < self.0.len()
            invariant
                i <= full.len(),
                full == self.0@,
                row_width as nat == total_width(row@),
                row_width <= width,
                wrap_rec(full.skip(i as int), width, rows_view(all@), row@) == wrap_spec(
                    full,
                    width,
                ),
            decreases full.len() - i,
        {
            let ghost rows_pre = rows_view(all@);
            let ghost row_pre = row@;
            let ghost rest = full.skip(i as int);
            proof {
                assert(rest[0] == full[i as int]);
                assert(rest.drop_first() =~= full.skip(i + 1));
            }
            let g = self.0[i];
            if row.len() > 0 && g.width > width - row_width {
                all.push(StyledGraphemes(row));
                proof {
                    assert(rows_view(all@) =~= rows_pre.push(row_pre));
                }
                row = Vec::new();
                row_width = 0;
            }
            if g.width <= width {
                let ghost row_before = row@;
                proof {
                    assert(row_before.push(g).drop_last() =~= row_before);
                    assert(row_before.push(g).last() == g);
                    assert(total_width(row_before.push(g)) == total_width(row_before) + g.width);
                }
                row.push(g);
                row_width = row_width + g.width;
            }
            proof {
                if row_pre.len() > 0 && total_width(row_pre) + g.width > width {
                    if g.width <= width {
                        assert(row@ =~= seq![g]);
                    } else {
                        assert(row@ =~= Seq::<StyledGrapheme>::empty());
                    }
                }
            }
            i = i + 1;
        }
        proof {
            assert(full.skip(full.len() as int) =~= Seq::<StyledGrapheme>::empty());
        }
        let ghost rows_pre = rows_view(all@);
        let ghost row_pre = row@;
        if row.len() > 0 {
            all.push(StyledGraphemes(row));
            proof {
                assert(rows_view(all@) =~= rows_pre.push(row_pre));
            }
        }
        all
    }

    /// Wraps the sequence at `width`, partitions the rows into pages of
    /// `height` rows, and returns the page containing `offset` (clamped to
    /// the last page) together with `offset`'s intra-page line index.
    pub fn matrixify(&self, width: usize, height: usize, offset: usize) -> (r: (
        Vec<StyledGraphemes>,
        usize,
    ))
        requires
            height >= 1,
        ensures
            ({
                let all = wrap_spec(self@, width);
                let h = height as int;
                if all.len() == 0 {
                    rows_view(r.0@) == Seq::<Seq<StyledGrapheme>>::empty() && r.1 == 0
                } else {
                    let last_page = (all.len() - 1) / h;
                    let page = if offset as int / h <= last_page {
                        offset as int / h
                    } else {
                        last_page
                    };
                    rows_view(r.0@) == all.subrange(
                        page * h,
                        if page * h + h <= all.len() {
                            page * h + h
                        } else {
                            all.len() as int
                        },
                    ) && r.1 == offset as int % h
                }
            }),
            r.0@.len() <= height,
            forall|i: int| 0 <= i < r.0@.len() ==> total_width(#[trigger] r.0@[i]@) <= width,
    {
        proof {
            lemma_wrap_rows_fit(self@, width);
        }
        let all = self.wrap(width);
        let ghost all_v = wrap_spec(self@, width);
        if all.len() == 0 {
            proof {
                assert(rows_view(Seq::<StyledGraphemes>::empty())
                    =~= Seq::<Seq<StyledGrapheme>>::empty());
            }
            return (Vec::new(), 0);
        }
        let n = all.len();
        let last_page = (n - 1) / height;
        let wanted = offset / height;
        let page = if wanted <= last_page {
            wanted
        } else {
            last_page
        };
        proof {
            vstd::arithmetic::div_mod::lemma_fundamental_div_mod((n - 1) as int, height as int);
            vstd::arithmetic::div_mod::lemma_mod_division_less_than_divisor(
                (n - 1) as int,
                height as int,
            );
            vstd::arithmetic::mul::lemma_mul_is_commutative(height as int, last_page as int);
            vstd::arithmetic::mul::lemma_mul_inequality(
                page as int,
                last_page as int,
                height as int,
            );
            assert(page * height <= n - 1);
        }
        let start = page * height;
        let stop = if n - start > height {
            start + height
        } else {
            n
        };
        let mut rows: Vec<StyledGraphemes> = Vec::new();
        let mut i: usize = start;
        while i < stop
            invariant
                start <= i <= stop,
                stop <= all@.len(),
                rows_view(all@) == all_v,
                rows@.len() == i - start,
                forall|k: int| 0 <= k < rows@.len() ==> #[trigger] rows@[k]@ == all_v[start + k],
            decreases stop - i,
        {
            let next = all[i].clone();
            proof {
                assert(all_v[i as int] == all@[i as int]@);
            }
            rows.push(next);
            i = i + 1;
        }
        let local = offset % height;
        proof {
            assert(rows_view(rows@) =~= all_v.subrange(start as int, stop as int));
        }
        (rows, local)
    }

    /// Greedily packs the longest prefix of the sequence whose total width
    /// fits `width`; everything past it is dropped, and no unit is split.
    pub fn truncate_to_width(&self, width: usize) -> (r: StyledGraphemes)
        ensures
            r@.len() <= self@.len(),
            r@ == self@.take(r@.len() as int),
            total_width(r@) <= width,
            r@.len() < self@.len() ==> total_width(self@.take(r@.len() as int + 1)) > width,
            total_width(self@) <= width ==> r@ == self@,
    {
        let mut row: Vec<StyledGrapheme> = Vec::new();
        let mut row_width: usize = 0;
        let mut i: usize = 0;
        let n = self.0.len();
        let mut stopped = false;
        while i < n && !stopped
            invariant
                i <= n,
                n == self.0@.len(),
                row@ == self.0@.take(i as int),
                row_width as nat == total_width(row@),
                row_width <= width,
                stopped ==> i < n && total_width(self.0@.take(i as int)) + self.0@[i as int].width
                    > width,
            decreases n - i, if stopped { 0int } else { 1int },
        {
            let g = self.0[i];
            if g.width > width - row_width {
                stopped = true;
            } else {
                proof {
                    assert(row@.push(g).drop_last() =~= row@);
                }
                row.push(g);
                row_width = row_width + g.width;
                assert(row@ =~= self.0@.take(i + 1));
                i = i + 1;
            }
        }
        proof {
            if stopped {
                lemma_total_width_take_succ(self.0@, i as int);
                lemma_total_width_take_le(self.0@, i + 1);
            } else {
                assert(self.0@.take(n as int) =~= self.0@);
            }
        }
        StyledGraphemes(row)
    }
}

/// A read-only handle for displaying a styled sequence.
pub struct StyledGraphemesDisplay<'a> {
    pub styled_graphemes: &'a StyledGraphemes,
}

impl<'a> StyledGraphemesDisplay<'a> {
    /// The character content of the sequence, in display order.  Turning
    /// styles into escape sequences is the terminal layer's concern.
    pub fn content(&self) -> (r: String)
        ensures
            r@ == chars_of(self.styled_graphemes@),
    {
        self.styled_graphemes.text()
    }
}

} // verus!

verus! {

/// The rows of a wrap partitioned, in order, into pages of `height` rows;
/// only the last page may be shorter.
pub open spec fn pages_of(
    rows: Seq<Seq<StyledGrapheme>>,
    height: nat,
) -> Seq<Seq<Seq<StyledGrapheme>>>
    decreases rows.len(),
{
    if height == 0 || rows.len() == 0 {
        Seq::empty()
    } else if rows.len() <= height {
        seq![rows]
    } else {
        seq![rows.take(height as int)] + pages_of(rows.skip(height as int), height)
    }
}

/// Pagination loses and reorders nothing: concatenating all pages, in
/// order, reconstructs exactly the rows that were paginated.
pub proof fn lemma_pages_reconstruct(rows: Seq<Seq<StyledGrapheme>>, height: nat)
    requires
        height > 0,
    ensures
        pages_of(rows, height).flatten() == rows,
    decreases rows.len(),
{
    if rows.len() == 0 {
        assert(pages_of(rows, height).flatten() =~= rows);
    } else if rows.len() <= height {
        seq![rows].lemma_flatten_one_element();
        assert(seq![rows].first() == rows);
    } else {
        let head = seq![rows.take(height as int)];
        let tail = pages_of(rows.skip(height as int), height);
        lemma_pages_reconstruct(rows.skip(height as int), height);
        vstd::seq_lib::lemma_flatten_concat(head, tail);
        head.lemma_flatten_one_element();
        assert(head.first() == rows.take(height as int));
        assert(rows.take(height as int) + rows.skip(height as int) =~= rows);
    }
}

/// How many pages a row list yields: one per started block of `height`.
pub proof fn lemma_pages_count(rows: Seq<Seq<StyledGrapheme>>, height: nat)
    requires
        height > 0,
    ensures
        rows.len() == 0 ==> pages_of(rows, height).len() == 0,
        rows.len() > 0 ==> pages_of(rows, height).len() == (rows.len() - 1) / height as int + 1,
    decreases rows.len(),
{
    if rows.len() == 0 {
    } else if rows.len() <= height {
        vstd::arithmetic::div_mod::lemma_basic_div((rows.len() - 1) as int, height as int);
    } else {
        let rest = rows.skip(height as int);
        lemma_pages_count(rest, height);
        let q = (rest.len() - 1) as int / height as int;
        vstd::arithmetic::div_mod::lemma_fundamental_div_mod(
            (rest.len() - 1) as int,
            height as int,
        );
        vstd::arithmetic::div_mod::lemma_mod_division_less_than_divisor(
            (rest.len() - 1) as int,
            height as int,
        );
        let r = (rest.len() - 1) as int % height as int;
        assert((rows.len() - 1) as int == (q + 1) * height as int + r) by {
            vstd::arithmetic::mul::lemma_mul_is_distributive_add_other_way(
                height as int,
                q,
                1,
            );
            vstd::arithmetic::mul::lemma_mul_is_commutative(height as int, q);
        }
        vstd::arithmetic::div_mod::lemma_fundamental_div_mod_converse_div(
            (rows.len() - 1) as int,
            height as int,
            q + 1,
            r,
        );
    }
}

/// Every page holds at most `height` rows.
pub proof fn lemma_pages_sizes(rows: Seq<Seq<StyledGrapheme>>, height: nat)
    requires
        height > 0,
    ensures
        forall|k: int|
            0 <= k < pages_of(rows, height).len() ==> (#[trigger] pages_of(rows, height)[k]).len()
                <= height,
    decreases rows.len(),
{
    if rows.len() == 0 {
    } else if rows.len() <= height {
    } else {
        let pages = pages_of(rows, height);
        let tail = pages_of(rows.skip(height as int), height);
        lemma_pages_sizes(rows.skip(height as int), height);
        assert forall|k: int| 0 <= k < pages.len() implies (#[trigger] pages[k]).len()
            <= height by {
            if k == 0 {
                assert(pages[0] == rows.take(height as int));
            } else {
                assert(pages[k] == tail[k - 1]);
            }
        }
    }
}

/// A page is exactly the corresponding slice of the row list, so the page
/// that `matrixify` returns is a page of [`pages_of`].
pub proof fn lemma_page_is_slice(rows: Seq<Seq<StyledGrapheme>>, height: nat, k: int)
    requires
        height > 0,
        0 <= k < pages_of(rows, height).len(),
    ensures
        pages_of(rows, height)[k] == rows.subrange(
            k * height,
            if k * height + height <= rows.len() {
                k * height + height
            } else {
                rows.len() as int
            },
        ),
    decreases rows.len(),
{
    if rows.len() == 0 {
    } else if rows.len() <= height {
        assert(pages_of(rows, height)[0] == rows);
        assert(rows.subrange(0, rows.len() as int) =~= rows);
    } else {
        if k == 0 {
            assert(pages_of(rows, height)[0] == rows.take(height as int));
            assert(rows.take(height as int) =~= rows.subrange(0, height as int));
        } else {
            let h = height as int;
            let rest = rows.skip(h);
            lemma_page_is_slice(rest, height, k - 1);
            assert(pages_of(rows, height)[k] == pages_of(rest, height)[k - 1]);
            let a = (k - 1) * h;
            let b = if a + h <= rest.len() {
                a + h
            } else {
                rest.len() as int
            };
            assert(h + a == k * h) by (nonlinear_arith)
                requires
                    a == (k - 1) * h,
            ;
            assert(0 <= a && a <= rest.len() - 1) by {
                lemma_pages_count(rest, height);
                vstd::arithmetic::mul::lemma_mul_nonnegative(k - 1, h);
                vstd::arithmetic::div_mod::lemma_fundamental_div_mod((rest.len() - 1) as int, h);
                vstd::arithmetic::div_mod::lemma_mod_division_less_than_divisor(
                    (rest.len() - 1) as int,
                    h,
                );
                vstd::arithmetic::mul::lemma_mul_is_commutative(h, (rest.len() - 1) as int / h);
                vstd::arithmetic::mul::lemma_mul_inequality(k - 1, (rest.len() - 1) as int / h, h);
            }
            assert(rest.subrange(a, b) =~= rows.subrange(h + a, h + b));
        }
    }
}

/// Pagination is faithful to the greedy wrap: every wrapped row fits the
/// width, every page holds at most `height` rows, and concatenating all
/// pages in order reconstructs the single full-width wrap.
pub proof fn lemma_paginate_reconstructs_wrap(s: Seq<StyledGrapheme>, width: usize, height: nat)
    requires
        height > 0,
    ensures
        pages_of(wrap_spec(s, width), height).flatten() == wrap_spec(s, width),
        forall|k: int|
            0 <= k < pages_of(wrap_spec(s, width), height).len() ==> (#[trigger] pages_of(
                wrap_spec(s, width),
                height,
            )[k]).len() <= height,
        forall|i: int|
            0 <= i < wrap_spec(s, width).len() ==> total_width(#[trigger] wrap_spec(s, width)[i])
                <= width,
{
    lemma_pages_reconstruct(wrap_spec(s, width), height);
    lemma_pages_sizes(wrap_spec(s, width), height);
    lemma_wrap_rows_fit(s, width);
}

} // verus!
