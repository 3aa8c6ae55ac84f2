use imagen::naming::{to_snake_case, to_title_case};

#[test]
fn snake_case_of_command_kinds() {
    assert_eq!(to_snake_case("FilledRect"), "filled_rect");
    assert_eq!(to_snake_case("StrokeRect"), "stroke_rect");
    assert_eq!(to_snake_case("RoundedFilledRect"), "rounded_filled_rect");
    assert_eq!(to_snake_case("RoundedStrokeRect"), "rounded_stroke_rect");
    assert_eq!(to_snake_case("FilledCircle"), "filled_circle");
    assert_eq!(to_snake_case("StrokeCircle"), "stroke_circle");
    assert_eq!(to_snake_case("Text"), "text");
    assert_eq!(to_snake_case("Pixel"), "pixel");
}

#[test]
fn snake_case_edge_cases() {
    assert_eq!(to_snake_case(""), "");
    assert_eq!(to_snake_case("a"), "a");
    assert_eq!(to_snake_case("A"), "a");
    assert_eq!(to_snake_case("already_snake"), "already_snake");
    assert_eq!(to_snake_case("ABC"), "a_b_c");
    assert_eq!(to_snake_case("aB"), "a_b");
    assert_eq!(to_snake_case("x1Y2"), "x1_y2");
    assert_eq!(to_snake_case("With Space"), "with _space");
}

#[test]
fn snake_case_beyond_ascii() {
    assert_eq!(to_snake_case("ÄpfelÖl"), "äpfel_öl");
    assert_eq!(to_snake_case("İ"), "i");
}

#[test]
fn title_case_of_command_kinds() {
    assert_eq!(to_title_case("FilledRect"), "Filled Rect");
    assert_eq!(to_title_case("StrokeRect"), "Stroke Rect");
    assert_eq!(to_title_case("RoundedFilledRect"), "Rounded Filled Rect");
    assert_eq!(to_title_case("RoundedStrokeRect"), "Rounded Stroke Rect");
    assert_eq!(to_title_case("FilledCircle"), "Filled Circle");
    assert_eq!(to_title_case("StrokeCircle"), "Stroke Circle");
    assert_eq!(to_title_case("Text"), "Text");
    assert_eq!(to_title_case("Pixel"), "Pixel");
}

#[test]
fn title_case_edge_cases() {
    assert_eq!(to_title_case(""), "");
    assert_eq!(to_title_case("a"), "a");
    assert_eq!(to_title_case("ABC"), "ABC");
    assert_eq!(to_title_case("aB"), "a B");
    assert_eq!(to_title_case("aBC"), "a BC");
    assert_eq!(to_title_case("x1Y"), "x1Y");
    assert_eq!(to_title_case("snake_case"), "snake_case");
    assert_eq!(to_title_case("éÉ"), "é É");
}
