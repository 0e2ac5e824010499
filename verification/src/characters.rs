//! The catalogue of glyphs that fresh runes are drawn from.

use vstd::prelude::*;
use vstd::string::StrSliceExecFns;
use crate::random::random_in_range;
use crate::rune::{
    fresh_lifetime, Rune, BLANK, RUNE_FADE_DURATION, RUNE_LIFETIME_MAX, RUNE_LIFETIME_MIN,
};

verus! {

/// The glyphs of the rain.
pub const SYMBOLS: &'static str = "ﾊﾐﾋｰｳｼﾅﾓﾆｻﾜﾂｵﾘｱﾎﾃﾏｹﾒｴｶｷﾑﾕﾗｾﾈｽﾀﾇﾍｦｲｸｺｿﾁﾄﾉﾌﾔﾖﾙﾚﾛﾝ012345789Z:.\"=*+-<>¦╌ç";

/// [`SYMBOLS`] holds 69 glyphs, none of them the blank.
pub proof fn lemma_symbols()
    ensures
        SYMBOLS@.len() == 69,
        !SYMBOLS@.contains(BLANK),
{
    reveal_strlit("ﾊﾐﾋｰｳｼﾅﾓﾆｻﾜﾂｵﾘｱﾎﾃﾏｹﾒｴｶｷﾑﾕﾗｾﾈｽﾀﾇﾍｦｲｸｺｿﾁﾄﾉﾌﾔﾖﾙﾚﾛﾝ012345789Z:.\"=*+-<>¦╌ç");
}

/// An immutable catalogue of glyphs. It is never empty and never holds the blank.
///
/// Its view is the sequence of its glyphs.
pub struct Characters {
    symbols: &'static str,
}

impl View for Characters {
    type V = Seq<char>;

    closed spec fn view(&self) -> Seq<char> {
        self.symbols@
    }
}

impl Characters {
    #[verifier::type_invariant]
    spec fn well_formed(&self) -> bool {
        &&& self.symbols@.len() > 0
        &&& !self.symbols@.contains(BLANK)
    }

    /// The catalogue of [`SYMBOLS`].
    pub fn new() -> (characters: Characters)
        ensures
            characters@ == SYMBOLS@,
    {
        proof {
            lemma_symbols();
        }
        Characters { symbols: SYMBOLS }
    }

    /// Number of glyphs in the catalogue.
    pub fn len(&self) -> (len: usize)
        ensures
            len == self@.len(),
            len > 0,
    {
        proof {
            use_type_invariant(self);
        }
        self.symbols.unicode_len()
    }

    /// The glyph at `index`.
    pub fn symbol(&self, index: usize) -> (symbol: char)
        requires
            index < self@.len(),
        ensures
            symbol == self@[index as int],
            symbol != BLANK,
    {
        proof {
            use_type_invariant(self);
        }
        self.symbols.get_char(index)
    }

    /// A rune of the given glyph and colour whose lifetime is drawn at random.
    pub fn create_rune(&self, character: char, color: (u8, u8, u8)) -> (rune: Rune)
        ensures
            rune.character == character,
            rune.color == color,
            fresh_lifetime(rune.lifetime),
            rune.lifetime >= RUNE_FADE_DURATION,
    {
        let roll = random_in_range(RUNE_LIFETIME_MIN as u64, RUNE_LIFETIME_MAX as u64);
        Rune::fresh(character, color, roll as u8)
    }

    /// A rune of the given colour whose glyph is drawn at random from the
    /// catalogue, and whose lifetime is drawn at random.
    pub fn create_random_rune(&self, color: (u8, u8, u8)) -> (rune: Rune)
        ensures
            self@.contains(rune.character),
            rune.character != BLANK,
            rune.color == color,
            fresh_lifetime(rune.lifetime),
            rune.lifetime >= RUNE_FADE_DURATION,
    {
        let len = self.len();
        let index = random_in_range(0, len as u64) as usize;
        let symbol = self.symbol(index);
        self.create_rune(symbol, color)
    }
}

} // verus!
