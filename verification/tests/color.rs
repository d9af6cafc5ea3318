use select_option::SelectOptionColor;

fn all_colors() -> Vec<SelectOptionColor> {
    vec![
        SelectOptionColor::Purple,
        SelectOptionColor::Pink,
        SelectOptionColor::LightPink,
        SelectOptionColor::Orange,
        SelectOptionColor::Yellow,
        SelectOptionColor::Lime,
        SelectOptionColor::Green,
        SelectOptionColor::Aqua,
        SelectOptionColor::Blue,
    ]
}

#[test]
fn every_color_has_its_fixed_code() {
    assert_eq!(i64::from(SelectOptionColor::Purple), 0);
    assert_eq!(i64::from(SelectOptionColor::Pink), 1);
    assert_eq!(i64::from(SelectOptionColor::LightPink), 2);
    assert_eq!(i64::from(SelectOptionColor::Orange), 3);
    assert_eq!(i64::from(SelectOptionColor::Yellow), 4);
    assert_eq!(i64::from(SelectOptionColor::Lime), 5);
    assert_eq!(i64::from(SelectOptionColor::Green), 6);
    assert_eq!(i64::from(SelectOptionColor::Aqua), 7);
    assert_eq!(i64::from(SelectOptionColor::Blue), 8);
}

#[test]
fn every_code_decodes_to_its_color() {
    let colors = all_colors();
    for (code, color) in colors.iter().enumerate() {
        assert_eq!(SelectOptionColor::from(code as i64), *color);
    }
}

#[test]
fn decoding_then_encoding_keeps_codes_in_range() {
    for code in 0..=8i64 {
        assert_eq!(i64::from(SelectOptionColor::from(code)), code);
    }
}

#[test]
fn encoding_then_decoding_keeps_the_color() {
    for color in all_colors() {
        assert_eq!(SelectOptionColor::from(i64::from(color)), color);
    }
}

#[test]
fn codes_out_of_range_decode_to_the_default() {
    for code in [-1i64, 9, 10, 99, 255, 256, i64::MIN, i64::MAX] {
        assert_eq!(SelectOptionColor::from(code), SelectOptionColor::default());
    }
}

#[test]
fn the_default_color_is_purple() {
    assert_eq!(SelectOptionColor::default(), SelectOptionColor::Purple);
    assert_eq!(i64::from(SelectOptionColor::default()), 0);
}

#[test]
fn into_gives_the_same_as_from() {
    let code: i64 = SelectOptionColor::Lime.into();
    assert_eq!(code, 5);
    let color: SelectOptionColor = 7i64.into();
    assert_eq!(color, SelectOptionColor::Aqua);
}
