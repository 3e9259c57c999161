use promkit::grapheme::{StyledGrapheme, StyledGraphemes};
use promkit::style::{Attribute, Color, ContentStyle, StyleBuilder};

#[test]
fn grapheme_test() {
    let style = ContentStyle::default();
    let graphemes = StyledGraphemes::from_str("abc", style.clone());
    assert_eq!(3, graphemes.0.len());
    assert!(graphemes.0.iter().all(|g| g.style == style));
}

#[test]
fn chars_test() {
    let graphemes = StyledGraphemes::from_plain("abc");
    let chars = graphemes.chars();
    assert_eq!(vec!['a', 'b', 'c'], chars);
}

#[test]
fn widths_test() {
    let graphemes = StyledGraphemes::from_plain("a b");
    assert_eq!(3, graphemes.widths()); // 'a' and 'b' are each 1 width, and space is 1 width
}

#[test]
fn replace_range_test() {
    let mut graphemes = StyledGraphemes::from_plain("Hello");
    graphemes.replace_range(1..5, "i");
    assert_eq!("Hi", graphemes.text());
}

#[test]
fn test_apply_style_to_all() {
    let mut graphemes = StyledGraphemes::from_plain("abc");
    let new_style = StyleBuilder::new().fgc(Color::Green).build();
    graphemes = graphemes.apply_style(new_style.clone());
    assert!(graphemes.0.iter().all(|g| g.style == new_style));
}

#[test]
fn test_apply_style_at_specific_index() {
    let mut graphemes = StyledGraphemes::from_plain("abc");
    let new_style = StyleBuilder::new().fgc(Color::Green).build();
    graphemes = graphemes.apply_style_at(1, new_style.clone());
    assert_eq!(graphemes.0[1].style, new_style);
    assert_ne!(graphemes.0[0].style, new_style);
    assert_ne!(graphemes.0[2].style, new_style);
}

#[test]
fn test_apply_style_at_out_of_bounds_index() {
    let mut graphemes = StyledGraphemes::from_plain("abc");
    let new_style = StyleBuilder::new().fgc(Color::Green).build();
    graphemes = graphemes.apply_style_at(5, new_style.clone()); // Out of bounds
    assert_eq!(graphemes.0.len(), 3); // Ensure no changes in length
}

#[test]
fn test_apply_attribute_to_all() {
    let mut graphemes = StyledGraphemes::from_plain("abc");
    graphemes = graphemes.apply_attribute(Attribute::Bold);
    assert!(graphemes
        .0
        .iter()
        .all(|g| g.style.attributes.has(Attribute::Bold)));
}

#[test]
fn test_styled_display_output() {
    let graphemes = StyledGraphemes::from_plain("abc");
    let display = graphemes.styled_display();
    assert_eq!(display.content(), "abc"); // Assuming default styles do not alter appearance
}

#[test]
fn test_with_single_line_no_offset() {
    let input = StyledGraphemes::from_plain("Hello, world! This is a longer test without offset.");
    let (matrix, offset) = input.matrixify(50, 1, 0);
    assert_eq!(1, matrix.len());
    assert_eq!(
        "Hello, world! This is a longer test without offset",
        matrix[0].text()
    );
    assert_eq!(0, offset);
}

#[test]
fn test_with_multiple_lines_and_offset() {
    let input = StyledGraphemes::from_plain("One Two Three Four Five Six Seven Eight Nine Ten");
    let (matrix, offset) = input.matrixify(10, 3, 10);
    assert_eq!(2, matrix.len());
    assert_eq!("ven Eight ", matrix[0].text());
    assert_eq!("Nine Ten", matrix[1].text());
    assert_eq!(1, offset);
}

#[test]
fn test_with_empty_input() {
    let input = StyledGraphemes::default();
    let (matrix, offset) = input.matrixify(10, 2, 0);
    assert!(matrix.is_empty());
    assert_eq!(0, offset);
}

#[test]
fn test_with_large_offset_beyond_content() {
    let input = StyledGraphemes::from_plain("Short text");
    let (matrix, offset) = input.matrixify(10, 2, 20);
    assert_eq!(1, matrix.len());
    assert_eq!("Short text", matrix[0].text());
    assert_eq!(0, offset);
}

#[test]
fn truncate_to_width_test() {
    assert_eq!(
        StyledGraphemes::from_plain(">> a"),
        StyledGraphemes::from_plain(">> aaa ").truncate_to_width(4)
    );
}

#[test]
fn test_with_emoji() {
    assert_eq!(
        StyledGraphemes::from_plain("\u{1F60E}"),
        StyledGraphemes::from_plain("\u{1F60E}").truncate_to_width(2)
    );
}

#[test]
fn test_with_emoji_at_narrow_terminal() {
    assert_eq!(
        StyledGraphemes::from_plain(""),
        StyledGraphemes::from_plain("\u{1F60E}").truncate_to_width(1)
    );
}

#[test]
fn test_truncate_keeps_content_that_fits() {
    let input = StyledGraphemes::from_plain("abc");
    assert_eq!(input.clone(), input.truncate_to_width(10));
    assert_eq!(input.clone(), input.truncate_to_width(3));
}

#[test]
fn test_unit_widths_are_measured() {
    let g = StyledGrapheme::new('a', ContentStyle::default());
    assert_eq!(1, g.width());
    let wide = StyledGrapheme::new('\u{1F60E}', ContentStyle::default());
    assert_eq!(2, wide.width());
    // combining marks are invisible: width 0
    let combining = StyledGrapheme::new('\u{0301}', ContentStyle::default());
    assert_eq!(0, combining.width());
    assert_eq!(2, StyledGraphemes::from_plain("\u{1F60E}").widths());
}

#[test]
fn test_replace_range_is_prefix_replacement_suffix() {
    let mut graphemes = StyledGraphemes::from_plain("abcdef");
    graphemes.replace_range(2..4, "XY");
    assert_eq!("abXYef", graphemes.text());
    // indices past the end are clamped, never raised
    let mut clamped = StyledGraphemes::from_plain("abc");
    clamped.replace_range(5..9, "x");
    assert_eq!("abcx", clamped.text());
    // an empty range inserts without removing
    let mut inserting = StyledGraphemes::from_plain("abc");
    inserting.replace_range(1..1, "ZZ");
    assert_eq!("aZZbc", inserting.text());
}

#[test]
fn test_wrap_pages_reconstruct_the_full_wrap() {
    let input = StyledGraphemes::from_plain("One Two Three Four Five Six Seven Eight Nine Ten");
    let all = input.wrap(10);
    assert_eq!(5, all.len());
    for row in all.iter() {
        assert!(row.widths() <= 10);
    }
    // walking the pages with matrixify, in order, yields every wrapped row
    let height = 2;
    let mut rebuilt: Vec<String> = Vec::new();
    let mut offset = 0;
    while offset < all.len() {
        let (page, local) = input.matrixify(10, height, offset);
        assert_eq!(0, local);
        assert!(page.len() <= height);
        for row in page.iter() {
            rebuilt.push(row.text());
        }
        offset += height;
    }
    let wanted: Vec<String> = all.iter().map(|row| row.text()).collect();
    assert_eq!(wanted, rebuilt);
}

#[test]
fn test_unit_wider_than_width_is_dropped() {
    // a 2-column emoji never fits a 1-column row and is dropped, not split
    let input = StyledGraphemes::from_plain("a\u{1F60E}b");
    let (matrix, _) = input.matrixify(1, 10, 0);
    assert_eq!(2, matrix.len());
    assert_eq!("a", matrix[0].text());
    assert_eq!("b", matrix[1].text());
}
