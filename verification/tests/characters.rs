use symbol_waterfall::characters::{Characters, SYMBOLS};
use symbol_waterfall::rune::{RUNE_COLOR_BASE, RUNE_FADE_DURATION};

#[test]
fn catalogue_holds_the_symbols() {
    let characters = Characters::new();
    let symbols: Vec<char> = SYMBOLS.chars().collect();
    assert_eq!(characters.len(), 69);
    assert_eq!(characters.len(), symbols.len());
    let mut index = 0;
    while index < characters.len() {
        assert_eq!(characters.symbol(index), symbols[index]);
        index += 1;
    }
    assert_eq!(characters.symbol(0), 'ﾊ');
    assert_eq!(characters.symbol(47), '0');
    assert_eq!(characters.symbol(68), 'ç');
}

#[test]
fn catalogue_has_no_blank() {
    assert!(!SYMBOLS.contains(' '));
    let characters = Characters::new();
    let mut index = 0;
    while index < characters.len() {
        assert_ne!(characters.symbol(index), ' ');
        index += 1;
    }
}

#[test]
fn create_rune_keeps_glyph_and_colour() {
    let characters = Characters::new();
    let rune = characters.create_rune('Q', (1, 2, 3));
    assert_eq!(rune.character, 'Q');
    assert_eq!(rune.color, (1, 2, 3));
    let blank = characters.create_rune(' ', RUNE_COLOR_BASE);
    assert_eq!(blank.character, ' ');
    assert_eq!(blank.color, (0, 255, 255));
}

#[test]
fn create_rune_draws_a_fresh_lifetime() {
    let characters = Characters::new();
    let mut seen = [false; 256];
    let mut round = 0;
    while round < 2000 {
        let rune = characters.create_rune('x', RUNE_COLOR_BASE);
        assert!(rune.lifetime >= 11);
        assert!(rune.lifetime < 27);
        assert!(rune.lifetime >= RUNE_FADE_DURATION);
        seen[rune.lifetime as usize] = true;
        round += 1;
    }
    let distinct = seen.iter().filter(|hit| **hit).count();
    assert!(distinct > 1);
}

#[test]
fn create_random_rune_draws_from_the_catalogue() {
    let characters = Characters::new();
    let mut glyphs: Vec<char> = Vec::new();
    let mut round = 0;
    while round < 2000 {
        let rune = characters.create_random_rune((9, 8, 7));
        assert!(SYMBOLS.contains(rune.character));
        assert_ne!(rune.character, ' ');
        assert_eq!(rune.color, (9, 8, 7));
        assert!(rune.lifetime >= 11 && rune.lifetime < 27);
        if !glyphs.contains(&rune.character) {
            glyphs.push(rune.character);
        }
        round += 1;
    }
    assert!(glyphs.len() > 1);
}
