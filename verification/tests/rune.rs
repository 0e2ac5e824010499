use symbol_waterfall::rune::{
    Rune, BLANK, RUNE_COLOR_BASE, RUNE_FADE_DURATION, RUNE_GENERATOR_COLOR, RUNE_LIFETIME_LIMIT,
    RUNE_LIFETIME_MAX, RUNE_LIFETIME_MIN,
};

fn rune(character: char, lifetime: u8, color: (u8, u8, u8)) -> Rune {
    Rune { character, lifetime, color }
}

#[test]
fn constants_have_their_values() {
    assert_eq!(BLANK, ' ');
    assert_eq!(RUNE_LIFETIME_MIN, 4);
    assert_eq!(RUNE_LIFETIME_MAX, 20);
    assert_eq!(RUNE_FADE_DURATION, 7);
    assert_eq!(RUNE_LIFETIME_LIMIT, 27);
    assert_eq!(RUNE_COLOR_BASE, (0, 255, 255));
    assert_eq!(RUNE_GENERATOR_COLOR, (255, 0, 0));
}

#[test]
fn fresh_adds_the_fade_to_the_roll() {
    assert_eq!(Rune::fresh('x', (1, 2, 3), 4), rune('x', 11, (1, 2, 3)));
    assert_eq!(Rune::fresh('y', (9, 8, 7), 19), rune('y', 26, (9, 8, 7)));
    assert_eq!(Rune::fresh('z', (0, 0, 0), 0), rune('z', 7, (0, 0, 0)));
    assert_eq!(Rune::fresh('z', (0, 0, 0), 248).lifetime, 255);
}

#[test]
fn age_counts_down_by_one() {
    let mut cell = rune('a', 5, (1, 2, 3));
    cell.age();
    assert_eq!(cell, rune('a', 4, (1, 2, 3)));
    let mut cell = rune('a', 26, (1, 2, 3));
    cell.age();
    assert_eq!(cell, rune('a', 25, (1, 2, 3)));
    let mut cell = rune('a', 2, (1, 2, 3));
    cell.age();
    assert_eq!(cell, rune('a', 1, (1, 2, 3)));
}

#[test]
fn age_blanks_the_rune_that_reaches_zero() {
    let mut cell = rune('a', 1, (1, 2, 3));
    cell.age();
    assert_eq!(cell, rune(' ', 0, (1, 2, 3)));
}

#[test]
fn age_keeps_zero_at_zero_and_blank() {
    let mut cell = rune(' ', 0, (1, 2, 3));
    cell.age();
    assert_eq!(cell, rune(' ', 0, (1, 2, 3)));
    cell.age();
    assert_eq!(cell, rune(' ', 0, (1, 2, 3)));
    let mut odd = rune('q', 0, (4, 5, 6));
    odd.age();
    assert_eq!(odd, rune(' ', 0, (4, 5, 6)));
}

#[test]
fn age_leaves_lifetimes_outside_the_band() {
    let mut cell = rune('a', 27, (1, 2, 3));
    cell.age();
    assert_eq!(cell, rune('a', 27, (1, 2, 3)));
    let mut cell = rune('a', 255, (1, 2, 3));
    cell.age();
    assert_eq!(cell, rune('a', 255, (1, 2, 3)));
}

#[test]
fn age_is_monotone_for_every_lifetime() {
    let mut lifetime: u8 = 0;
    loop {
        let mut cell = rune('m', lifetime, (10, 20, 30));
        cell.age();
        if lifetime == 0 || lifetime >= 27 {
            assert_eq!(cell.lifetime, lifetime);
        } else {
            assert_eq!(cell.lifetime, lifetime - 1);
        }
        if cell.lifetime == 0 {
            assert_eq!(cell.character, ' ');
        } else {
            assert_eq!(cell.character, 'm');
        }
        assert_eq!(cell.color, (10, 20, 30));
        if lifetime == 255 {
            break;
        }
        lifetime += 1;
    }
}

#[test]
fn display_color_is_the_own_colour_before_the_fade() {
    assert_eq!(rune('a', 7, (0, 255, 255)).display_color(), (0, 255, 255));
    assert_eq!(rune('a', 26, (12, 34, 56)).display_color(), (12, 34, 56));
    assert_eq!(rune('a', 255, (255, 0, 0)).display_color(), (255, 0, 0));
}

#[test]
fn display_color_is_black_at_zero() {
    assert_eq!(rune(' ', 0, (0, 255, 255)).display_color(), (0, 0, 0));
    assert_eq!(rune('x', 0, (255, 255, 255)).display_color(), (0, 0, 0));
}

#[test]
fn display_color_fades_by_sevenths() {
    assert_eq!(rune('a', 6, (0, 255, 255)).display_color(), (0, 219, 219));
    assert_eq!(rune('a', 5, (0, 255, 255)).display_color(), (0, 183, 183));
    assert_eq!(rune('a', 4, (0, 255, 255)).display_color(), (0, 147, 147));
    assert_eq!(rune('a', 3, (0, 255, 255)).display_color(), (0, 111, 111));
    assert_eq!(rune('a', 2, (0, 255, 255)).display_color(), (0, 75, 75));
    assert_eq!(rune('a', 1, (0, 255, 255)).display_color(), (0, 39, 39));
    assert_eq!(rune('a', 1, (255, 0, 0)).display_color(), (39, 0, 0));
    assert_eq!(rune('a', 3, (70, 14, 100)).display_color(), (30, 6, 44));
}

#[test]
fn display_color_keeps_channels_below_a_seventh() {
    assert_eq!(rune('a', 1, (3, 6, 0)).display_color(), (3, 6, 0));
    assert_eq!(rune('a', 1, (7, 8, 13)).display_color(), (1, 2, 7));
}

#[test]
fn display_color_never_exceeds_the_own_colour() {
    let mut channel: u8 = 0;
    loop {
        let mut lifetime: u8 = 0;
        while lifetime < 30 {
            let shown = rune('c', lifetime, (channel, 255 - channel, channel / 2)).display_color();
            assert!(shown.0 <= channel);
            assert!(shown.1 <= 255 - channel);
            assert!(shown.2 <= channel / 2);
            if lifetime >= 1 && lifetime < 7 {
                assert!(shown.0 >= channel % 7);
            }
            lifetime += 1;
        }
        if channel == 255 {
            break;
        }
        channel += 1;
    }
}

#[test]
fn display_color_darkens_as_the_lifetime_runs_out() {
    let mut lifetime: u8 = 1;
    while lifetime < 7 {
        let darker = rune('d', lifetime, (200, 7, 6)).display_color();
        let brighter = rune('d', lifetime + 1, (200, 7, 6)).display_color();
        assert!(darker.0 < brighter.0);
        assert!(darker.1 < brighter.1);
        assert_eq!(darker.2, brighter.2);
        lifetime += 1;
    }
}
