use hycol::css::css_rgb;

#[test]
fn css_text_of_black() {
    assert_eq!(css_rgb([0, 0, 0]), "rgb(0,0,0)");
}

#[test]
fn css_text_of_mixed_widths() {
    assert_eq!(css_rgb([255, 7, 42]), "rgb(255,7,42)");
    assert_eq!(css_rgb([100, 10, 9]), "rgb(100,10,9)");
    assert_eq!(css_rgb([199, 90, 101]), "rgb(199,90,101)");
}

#[test]
fn css_text_matches_decimal_formatting() {
    for v in 0..=255u8 {
        assert_eq!(css_rgb([v, 255 - v, v / 2]), format!("rgb({},{},{})", v, 255 - v, v / 2));
    }
}
