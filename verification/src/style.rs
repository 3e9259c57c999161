//! Visual styling of terminal text: colors, attribute flag sets, and the
//! builder that assembles a [`ContentStyle`].
//!
//! These types carry the styling data that the terminal-control layer of an
//! application finally turns into escape sequences; the rendering core only
//! stores, compares and rewrites them.

use vstd::prelude::*;

verus! {

/// A terminal color.
#[derive(Clone, Copy, Debug, PartialEq, Eq, Structural)]
pub enum Color {
    Reset,
    Black,
    DarkGrey,
    Red,
    DarkRed,
    Green,
    DarkGreen,
    Yellow,
    DarkYellow,
    Blue,
    DarkBlue,
    Magenta,
    DarkMagenta,
    Cyan,
    DarkCyan,
    White,
    Grey,
    Rgb { r: u8, g: u8, b: u8 },
    AnsiValue(u8),
}

/// One visual text attribute.
#[derive(Clone, Copy, Debug, PartialEq, Eq, Structural)]
pub enum Attribute {
    Bold,
    Dim,
    Italic,
    Underlined,
    Reverse,
    Hidden,
    CrossedOut,
}

/// A set of text attributes, one flag per [`Attribute`].
#[derive(Clone, Copy, Debug, PartialEq, Eq, Structural)]
pub struct Attributes {
    pub bold: bool,
    pub dim: bool,
    pub italic: bool,
    pub underlined: bool,
    pub reverse: bool,
    pub hidden: bool,
    pub crossed_out: bool,
}

impl Attributes {
    /// The attribute set with every flag cleared.
    pub open spec fn spec_empty() -> Attributes {
        Attributes {
            bold: false,
            dim: false,
            italic: false,
            underlined: false,
            reverse: false,
            hidden: false,
            crossed_out: false,
        }
    }

    /// Whether the given attribute's flag is set.
    pub open spec fn spec_has(self, attr: Attribute) -> bool {
        match attr {
            Attribute::Bold => self.bold,
            Attribute::Dim => self.dim,
            Attribute::Italic => self.italic,
            Attribute::Underlined => self.underlined,
            Attribute::Reverse => self.reverse,
            Attribute::Hidden => self.hidden,
            Attribute::CrossedOut => self.crossed_out,
        }
    }

    /// The set with the given attribute's flag set and all others unchanged.
    pub open spec fn spec_set(self, attr: Attribute) -> Attributes {
        match attr {
            Attribute::Bold => Attributes { bold: true, ..self },
            Attribute::Dim => Attributes { dim: true, ..self },
            Attribute::Italic => Attributes { italic: true, ..self },
            Attribute::Underlined => Attributes { underlined: true, ..self },
            Attribute::Reverse => Attributes { reverse: true, ..self },
            Attribute::Hidden => Attributes { hidden: true, ..self },
            Attribute::CrossedOut => Attributes { crossed_out: true, ..self },
        }
    }

    /// Returns the empty attribute set.
    pub fn empty() -> (r: Attributes)
        ensures
            r == Attributes::spec_empty(),
    {
        Attributes {
            bold: false,
            dim: false,
            italic: false,
            underlined: false,
            reverse: false,
            hidden: false,
            crossed_out: false,
        }
    }

    /// Sets the flag of the given attribute, leaving the others unchanged.
    pub fn set(&mut self, attr: Attribute)
        ensures
            *final(self) == old(self).spec_set(attr),
    {
        match attr {
            Attribute::Bold => self.bold = true,
            Attribute::Dim => self.dim = true,
            Attribute::Italic => self.italic = true,
            Attribute::Underlined => self.underlined = true,
            Attribute::Reverse => self.reverse = true,
            Attribute::Hidden => self.hidden = true,
            Attribute::CrossedOut => self.crossed_out = true,
        }
    }

    /// Reports whether the given attribute's flag is set.
    pub fn has(&self, attr: Attribute) -> (r: bool)
        ensures
            r == self.spec_has(attr),
    {
        match attr {
            Attribute::Bold => self.bold,
            Attribute::Dim => self.dim,
            Attribute::Italic => self.italic,
            Attribute::Underlined => self.underlined,
            Attribute::Reverse => self.reverse,
            Attribute::Hidden => self.hidden,
            Attribute::CrossedOut => self.crossed_out,
        }
    }
}

impl Default for Attributes {
    /// Returns the empty attribute set.
    fn default() -> (r: Attributes)
        ensures
            r == Attributes::spec_empty(),
    {
        Attributes::empty()
    }
}

/// The complete style of a unit of text: optional foreground, background and
/// underline colors, plus an attribute flag set.
#[derive(Clone, Copy, Debug, PartialEq, Eq, Structural)]
pub struct ContentStyle {
    pub foreground_color: Option<Color>,
    pub background_color: Option<Color>,
    pub underline_color: Option<Color>,
    pub attributes: Attributes,
}

impl ContentStyle {
    /// The style with no colors and no attributes.
    pub open spec fn spec_plain() -> ContentStyle {
        ContentStyle {
            foreground_color: None,
            background_color: None,
            underline_color: None,
            attributes: Attributes::spec_empty(),
        }
    }

    /// Returns the style with no colors and no attributes.
    pub fn plain() -> (r: ContentStyle)
        ensures
            r == ContentStyle::spec_plain(),
    {
        ContentStyle {
            foreground_color: None,
            background_color: None,
            underline_color: None,
            attributes: Attributes::empty(),
        }
    }
}

impl Default for ContentStyle {
    /// Returns the style with no colors and no attributes.
    fn default() -> (r: ContentStyle)
        ensures
            r == ContentStyle::spec_plain(),
    {
        ContentStyle::plain()
    }
}

/// A fluent builder for [`ContentStyle`].
pub struct StyleBuilder {
    pub foreground_color: Option<Color>,
    pub background_color: Option<Color>,
    pub underline_color: Option<Color>,
    pub attributes: Attributes,
}

impl StyleBuilder {
    /// The style this builder currently describes.
    pub open spec fn spec_style(self) -> ContentStyle {
        ContentStyle {
            foreground_color: self.foreground_color,
            background_color: self.background_color,
            underline_color: self.underline_color,
            attributes: self.attributes,
        }
    }

    /// Creates a builder describing the plain style.
    pub fn new() -> (r: StyleBuilder)
        ensures
            r.spec_style() == ContentStyle::spec_plain(),
    {
        StyleBuilder {
            foreground_color: None,
            background_color: None,
            underline_color: None,
            attributes: Attributes::empty(),
        }
    }

    /// Sets the foreground color.
    pub fn fgc(self, color: Color) -> (r: StyleBuilder)
        ensures
            r.spec_style() == (ContentStyle {
                foreground_color: Some(color),
                ..self.spec_style()
            }),
    {
        StyleBuilder { foreground_color: Some(color), ..self }
    }

    /// Sets the background color.
    pub fn bgc(self, color: Color) -> (r: StyleBuilder)
        ensures
            r.spec_style() == (ContentStyle {
                background_color: Some(color),
                ..self.spec_style()
            }),
    {
        StyleBuilder { background_color: Some(color), ..self }
    }

    /// Sets the underline color.
    pub fn ulc(self, color: Color) -> (r: StyleBuilder)
        ensures
            r.spec_style() == (ContentStyle {
                underline_color: Some(color),
                ..self.spec_style()
            }),
    {
        StyleBuilder { underline_color: Some(color), ..self }
    }

    /// Sets the attribute flag set.
    pub fn attrs(self, attributes: Attributes) -> (r: StyleBuilder)
        ensures
            r.spec_style() == (ContentStyle { attributes, ..self.spec_style() }),
    {
        StyleBuilder { attributes, ..self }
    }

    /// Builds the style described so far.
    pub fn build(&self) -> (r: ContentStyle)
        ensures
            r == self.spec_style(),
    {
        ContentStyle {
            foreground_color: self.foreground_color,
            background_color: self.background_color,
            underline_color: self.underline_color,
            attributes: self.attributes,
        }
    }
}

impl Default for StyleBuilder {
    /// Returns a builder describing the plain style.
    fn default() -> (r: StyleBuilder)
        ensures
            r.spec_style() == ContentStyle::spec_plain(),
    {
        StyleBuilder::new()
    }
}

impl From<ContentStyle> for StyleBuilder {
    /// Returns a builder describing exactly the given style.
    fn from(style: ContentStyle) -> (r: StyleBuilder)
    {
        StyleBuilder {
            foreground_color: style.foreground_color,
            background_color: style.background_color,
            underline_color: style.underline_color,
            attributes: style.attributes,
        }
    }
}

impl vstd::std_specs::convert::FromSpecImpl<ContentStyle> for StyleBuilder {
    open spec fn obeys_from_spec() -> bool {
        true
    }

    open spec fn from_spec(style: ContentStyle) -> StyleBuilder {
        StyleBuilder {
            foreground_color: style.foreground_color,
            background_color: style.background_color,
            underline_color: style.underline_color,
            attributes: style.attributes,
        }
    }
}

} // verus!
