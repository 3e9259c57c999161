use promkit::style::{Attribute, Attributes, Color, ContentStyle, StyleBuilder};

#[test]
fn test_style_builder_sets_every_field() {
    let mut attrs = Attributes::default();
    attrs.set(Attribute::Bold);
    attrs.set(Attribute::Italic);
    let style = StyleBuilder::new()
        .fgc(Color::Green)
        .bgc(Color::Black)
        .ulc(Color::Rgb { r: 1, g: 2, b: 3 })
        .attrs(attrs)
        .build();
    assert_eq!(Some(Color::Green), style.foreground_color);
    assert_eq!(Some(Color::Black), style.background_color);
    assert_eq!(Some(Color::Rgb { r: 1, g: 2, b: 3 }), style.underline_color);
    assert!(style.attributes.has(Attribute::Bold));
    assert!(style.attributes.has(Attribute::Italic));
    assert!(!style.attributes.has(Attribute::Dim));
}

#[test]
fn test_style_builder_default_is_plain() {
    let style = StyleBuilder::new().build();
    assert_eq!(ContentStyle::default(), style);
    assert_eq!(None, style.foreground_color);
    assert_eq!(None, style.background_color);
    assert_eq!(None, style.underline_color);
    assert!(!style.attributes.has(Attribute::Bold));
}

#[test]
fn test_style_builder_from_style_round_trips() {
    let style = StyleBuilder::new().fgc(Color::Cyan).build();
    let rebuilt = StyleBuilder::from(style).build();
    assert_eq!(style, rebuilt);
}

#[test]
fn test_attributes_set_and_has() {
    let mut attrs = Attributes::empty();
    assert!(!attrs.has(Attribute::Reverse));
    attrs.set(Attribute::Reverse);
    assert!(attrs.has(Attribute::Reverse));
    assert!(!attrs.has(Attribute::Hidden));
    attrs.set(Attribute::Hidden);
    attrs.set(Attribute::CrossedOut);
    attrs.set(Attribute::Underlined);
    attrs.set(Attribute::Dim);
    assert!(attrs.has(Attribute::Hidden));
    assert!(attrs.has(Attribute::CrossedOut));
    assert!(attrs.has(Attribute::Underlined));
    assert!(attrs.has(Attribute::Dim));
    assert!(!attrs.has(Attribute::Bold));
}
