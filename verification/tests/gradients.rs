//! The built-in gradient themes.

use tiny_gradient::{Gradient, RGB};

#[test]
fn forest_colors() {
    let colors = Gradient::Forest.colors();
    assert_eq!(colors.len(), 5);
    assert_eq!(colors[0], RGB::new(69, 55, 48));
    assert_eq!(colors[4], RGB::new(108, 112, 88));
}

#[test]
fn cristal_colors() {
    let colors = Gradient::Cristal.colors();
    assert_eq!(colors, vec![RGB::new(0xBD, 0xFF, 0xF3), RGB::new(0x5A, 0xC2, 0x9A)]);
}

#[test]
fn retro_is_longest() {
    assert_eq!(Gradient::Retro.colors().len(), 9);
}

#[test]
fn every_theme_has_at_least_two_stops() {
    let themes = vec![
        Gradient::Atlast,
        Gradient::Cristal,
        Gradient::Teen,
        Gradient::Mind,
        Gradient::Morning,
        Gradient::Vice,
        Gradient::Passion,
        Gradient::Fruit,
        Gradient::Retro,
        Gradient::Summer,
        Gradient::Rainbow,
        Gradient::Pastel,
        Gradient::Monsoon,
        Gradient::Forest,
        Gradient::Instagram,
    ];
    for theme in themes {
        assert!(theme.colors().len() >= 2);
    }
}

#[test]
fn theme_iterator_walks_all_stops() {
    let mut iter = Gradient::Instagram.into_iter();
    assert_eq!(iter.len(), 3);
    assert_eq!(iter.next(), Some(RGB::new(0x83, 0x3a, 0xb4)));
    assert_eq!(iter.len(), 2);
    assert_eq!(iter.next(), Some(RGB::new(0xfd, 0x1d, 0x1d)));
    assert_eq!(iter.next(), Some(RGB::new(0xfc, 0xb0, 0x45)));
    assert_eq!(iter.len(), 0);
    assert_eq!(iter.next(), None);
}
