//! Bitmap fonts for the large clock digits.
//!
//! A font maps each supported symbol (the digits, the colon, the letters of
//! "AM"/"PM" and the space) to a fixed block of character rows together with
//! its footprint. Every glyph of a font has the same height, and each row of
//! a glyph is exactly as long as the glyph's declared width. Two styles are
//! provided: the compact [`Doom`] font and the larger [`Colossal`] font.

use vstd::prelude::*;

use crate::Size;

verus! {

/// The symbols a font can render: what a twelve-hour clock string needs.
pub open spec fn font_supported(c: char) -> bool {
    ||| c == '0'
    ||| c == '1'
    ||| c == '2'
    ||| c == '3'
    ||| c == '4'
    ||| c == '5'
    ||| c == '6'
    ||| c == '7'
    ||| c == '8'
    ||| c == '9'
    ||| c == ':'
    ||| c == 'A'
    ||| c == 'P'
    ||| c == 'M'
    ||| c == ' '
}

/// A well-shaped glyph: its height is the font's shared height, it has one
/// row per unit of height, and every row is exactly `width` characters.
pub open spec fn glyph_shaped(s: Size, rows: Seq<Seq<char>>, font_height: u16) -> bool {
    &&& s.height == font_height
    &&& rows.len() == s.height as int
    &&& forall|r: int| 0 <= r < rows.len() ==> (#[trigger] rows[r]).len() == s.width as int
}

/// A bitmap font: one constructor per supported symbol, each returning the
/// glyph's footprint and its row data. All glyphs share `font_height()`.
pub trait Font: Sized {
    /// The glyph's bitmap as a sequence of character rows.
    spec fn rows(&self) -> Seq<Seq<char>>;

    /// The height every glyph of this font has.
    spec fn font_height() -> u16;

    /// The row-length budget this font declares for a full clock string.
    spec fn clock_budget() -> u16;

    /// The footprint this font gives each supported symbol.
    spec fn glyph_size(c: char) -> Size;

    /// The row data this font gives each supported symbol.
    spec fn glyph_rows(c: char) -> Seq<Seq<char>>;

    fn one() -> (r: (Size, Self))
        ensures
            glyph_shaped(r.0, r.1.rows(), Self::font_height()),
            r.0 == Self::glyph_size('1'),
            r.1.rows() == Self::glyph_rows('1'),
    ;

    fn two() -> (r: (Size, Self))
        ensures
            glyph_shaped(r.0, r.1.rows(), Self::font_height()),
            r.0 == Self::glyph_size('2'),
            r.1.rows() == Self::glyph_rows('2'),
    ;

    fn three() -> (r: (Size, Self))
        ensures
            glyph_shaped(r.0, r.1.rows(), Self::font_height()),
            r.0 == Self::glyph_size('3'),
            r.1.rows() == Self::glyph_rows('3'),
    ;

    fn four() -> (r: (Size, Self))
        ensures
            glyph_shaped(r.0, r.1.rows(), Self::font_height()),
            r.0 == Self::glyph_size('4'),
            r.1.rows() == Self::glyph_rows('4'),
    ;

    fn five() -> (r: (Size, Self))
        ensures
            glyph_shaped(r.0, r.1.rows(), Self::font_height()),
            r.0 == Self::glyph_size('5'),
            r.1.rows() == Self::glyph_rows('5'),
    ;

    fn six() -> (r: (Size, Self))
        ensures
            glyph_shaped(r.0, r.1.rows(), Self::font_height()),
            r.0 == Self::glyph_size('6'),
            r.1.rows() == Self::glyph_rows('6'),
    ;

    fn seven() -> (r: (Size, Self))
        ensures
            glyph_shaped(r.0, r.1.rows(), Self::font_height()),
            r.0 == Self::glyph_size('7'),
            r.1.rows() == Self::glyph_rows('7'),
    ;

    fn eight() -> (r: (Size, Self))
        ensures
            glyph_shaped(r.0, r.1.rows(), Self::font_height()),
            r.0 == Self::glyph_size('8'),
            r.1.rows() == Self::glyph_rows('8'),
    ;

    fn nine() -> (r: (Size, Self))
        ensures
            glyph_shaped(r.0, r.1.rows(), Self::font_height()),
            r.0 == Self::glyph_size('9'),
            r.1.rows() == Self::glyph_rows('9'),
    ;

    fn zero() -> (r: (Size, Self))
        ensures
            glyph_shaped(r.0, r.1.rows(), Self::font_height()),
            r.0 == Self::glyph_size('0'),
            r.1.rows() == Self::glyph_rows('0'),
    ;

    fn a() -> (r: (Size, Self))
        ensures
            glyph_shaped(r.0, r.1.rows(), Self::font_height()),
            r.0 == Self::glyph_size('A'),
            r.1.rows() == Self::glyph_rows('A'),
    ;

    fn p() -> (r: (Size, Self))
        ensures
            glyph_shaped(r.0, r.1.rows(), Self::font_height()),
            r.0 == Self::glyph_size('P'),
            r.1.rows() == Self::glyph_rows('P'),
    ;

    fn m() -> (r: (Size, Self))
        ensures
            glyph_shaped(r.0, r.1.rows(), Self::font_height()),
            r.0 == Self::glyph_size('M'),
            r.1.rows() == Self::glyph_rows('M'),
    ;

    fn colon() -> (r: (Size, Self))
        ensures
            glyph_shaped(r.0, r.1.rows(), Self::font_height()),
            r.0 == Self::glyph_size(':'),
            r.1.rows() == Self::glyph_rows(':'),
    ;

    fn space() -> (r: (Size, Self))
        ensures
            glyph_shaped(r.0, r.1.rows(), Self::font_height()),
            r.0 == Self::glyph_size(' '),
            r.1.rows() == Self::glyph_rows(' '),
    ;

    fn inner(&self) -> (v: &Vec<&'static str>)
        ensures
            v@.len() == self.rows().len(),
            forall|i: int| 0 <= i < v@.len() ==> (#[trigger] v@[i])@ == self.rows()[i],
    ;

    /// The row-length budget a full clock string gets under this font.
    fn clock_size(&self) -> (r: u16)
        ensures
            r == Self::clock_budget(),
    ;
}

/// The compact font, six rows tall.
pub struct Doom(pub Vec<&'static str>);

impl Font for Doom {
    open spec fn rows(&self) -> Seq<Seq<char>> {
        Seq::new(self.0@.len(), |i: int| self.0@[i]@)
    }

    open spec fn font_height() -> u16 {
        6
    }

    open spec fn clock_budget() -> u16 {
        75
    }

    open spec fn glyph_size(c: char) -> Size {
        doom_size(c)
    }

    open spec fn glyph_rows(c: char) -> Seq<Seq<char>> {
        doom_rows(c)
    }

    fn one() -> (r: (Size, Doom)) {
        let r = doom_glyph('1');
        proof {
            lemma_doom_shape('1');
        }
        r
    }

    fn two() -> (r: (Size, Doom)) {
        let r = doom_glyph('2');
        proof {
            lemma_doom_shape('2');
        }
        r
    }

    fn three() -> (r: (Size, Doom)) {
        let r = doom_glyph('3');
        proof {
            lemma_doom_shape('3');
        }
        r
    }

    fn four() -> (r: (Size, Doom)) {
        let r = doom_glyph('4');
        proof {
            lemma_doom_shape('4');
        }
        r
    }

    fn five() -> (r: (Size, Doom)) {
        let r = doom_glyph('5');
        proof {
            lemma_doom_shape('5');
        }
        r
    }

    fn six() -> (r: (Size, Doom)) {
        let r = doom_glyph('6');
        proof {
            lemma_doom_shape('6');
        }
        r
    }

    fn seven() -> (r: (Size, Doom)) {
        let r = doom_glyph('7');
        proof {
            lemma_doom_shape('7');
        }
        r
    }

    fn eight() -> (r: (Size, Doom)) {
        let r = doom_glyph('8');
        proof {
            lemma_doom_shape('8');
        }
        r
    }

    fn nine() -> (r: (Size, Doom)) {
        let r = doom_glyph('9');
        proof {
            lemma_doom_shape('9');
        }
        r
    }

    fn zero() -> (r: (Size, Doom)) {
        let r = doom_glyph('0');
        proof {
            lemma_doom_shape('0');
        }
        r
    }

    fn a() -> (r: (Size, Doom)) {
        let r = doom_glyph('A');
        proof {
            lemma_doom_shape('A');
        }
        r
    }

    fn p() -> (r: (Size, Doom)) {
        let r = doom_glyph('P');
        proof {
            lemma_doom_shape('P');
        }
        r
    }

    fn m() -> (r: (Size, Doom)) {
        let r = doom_glyph('M');
        proof {
            lemma_doom_shape('M');
        }
        r
    }

    fn colon() -> (r: (Size, Doom)) {
        let r = doom_glyph(':');
        proof {
            lemma_doom_shape(':');
        }
        r
    }

    fn space() -> (r: (Size, Doom)) {
        let r = doom_glyph(' ');
        proof {
            lemma_doom_shape(' ');
        }
        r
    }

    fn inner(&self) -> (v: &Vec<&'static str>) {
        &self.0
    }

    fn clock_size(&self) -> u16 {
        75
    }
}

/// Builds a six-row glyph and relates its rows to the given literals.
fn doom6(
    r0: &'static str,
    r1: &'static str,
    r2: &'static str,
    r3: &'static str,
    r4: &'static str,
    r5: &'static str,
) -> (g: Doom)
    ensures
        g.rows() == seq![r0@, r1@, r2@, r3@, r4@, r5@],
{
    let g = Doom(vec![r0, r1, r2, r3, r4, r5]);
    proof {
        assert(g.rows() =~= seq![r0@, r1@, r2@, r3@, r4@, r5@]);
    }
    g
}

/// The footprint of each [`Doom`] glyph.
pub open spec fn doom_size(c: char) -> Size {
    if c == '1' {
        Size { height: 6, width: 5 }
    } else if c == '2' {
        Size { height: 6, width: 7 }
    } else if c == '3' {
        Size { height: 6, width: 7 }
    } else if c == '4' {
        Size { height: 6, width: 7 }
    } else if c == '5' {
        Size { height: 6, width: 7 }
    } else if c == '6' {
        Size { height: 6, width: 7 }
    } else if c == '7' {
        Size { height: 6, width: 7 }
    } else if c == '8' {
        Size { height: 6, width: 7 }
    } else if c == '9' {
        Size { height: 6, width: 7 }
    } else if c == '0' {
        Size { height: 6, width: 7 }
    } else if c == ':' {
        Size { height: 6, width: 3 }
    } else if c == 'A' {
        Size { height: 6, width: 7 }
    } else if c == 'P' {
        Size { height: 6, width: 7 }
    } else if c == 'M' {
        Size { height: 6, width: 8 }
    } else {
        Size { height: 6, width: 1 }
    }
}

/// The row data of each [`Doom`] glyph.
pub open spec fn doom_rows(c: char) -> Seq<Seq<char>> {
    if c == '1' {
        seq![r" __  "@, r"/  | "@, r"`| | "@, r" | | "@, r"_| |_"@, r"\___/"@]
    } else if c == '2' {
        seq![r" _____ "@, r"/ __  \"@, r"`' / /'"@, r"  / /  "@, r"./ /___"@, r"\_____/"@]
    } else if c == '3' {
        seq![r" _____ "@, r"|____ |"@, r"    / /"@, r"    \ \"@, r".___/ /"@, r"\____/ "@]
    } else if c == '4' {
        seq![r"   ___ "@, r"  /   |"@, r" / /| |"@, r"/ /_| |"@, r"\___  |"@, r"    |_/"@]
    } else if c == '5' {
        seq![r" _____ "@, r"|  ___|"@, r"|___ \ "@, r"    \ \"@, r"/\__/ /"@, r"\____/ "@]
    } else if c == '6' {
        seq![r"  ____ "@, r" / ___|"@, r"/ /___ "@, r"| ___ \"@, r"| \_/ |"@, r"\_____/"@]
    } else if c == '7' {
        seq![r" ______"@, r"|___  /"@, r"   / / "@, r"  / /  "@, r"./ /   "@, r"\_/    "@]
    } else if c == '8' {
        seq![r" _____ "@, r"|  _  |"@, r" \ V / "@, r" / _ \ "@, r"| |_| |"@, r"\_____/"@]
    } else if c == '9' {
        seq![r" _____ "@, r"|  _  |"@, r"| |_| |"@, r"\____ |"@, r".___/ /"@, r"\____/ "@]
    } else if c == '0' {
        seq![r" _____ "@, r"|  _  |"@, r"| |/' |"@, r"|  /| |"@, r"\ |_/ /"@, r" \___/ "@]
    } else if c == ':' {
        seq![r"   "@, r" _ "@, r"(_)"@, r"   "@, r" _ "@, r"(_)"@]
    } else if c == 'A' {
        seq![r"  ___  "@, r" / _ \ "@, r"/ /_\ \"@, r"|  _  |"@, r"| | | |"@, r"\_| |_/"@]
    } else if c == 'P' {
        seq![r"______ "@, r"| ___ \"@, r"| |_/ /"@, r"|  __/ "@, r"| |    "@, r"\_|    "@]
    } else if c == 'M' {
        seq![
            r"___  ___"@,
            r"|  \/  |"@,
            r"| .  . |"@,
            r"| |\/| |"@,
            r"| |  | |"@,
            r"\_|  |_/"@,
        ]
    } else {
        seq![r" "@, r" "@, r" "@, r" "@, r" "@, r" "@]
    }
}

/// Looks a symbol up in the [`Doom`] font.
pub fn doom_glyph(c: char) -> (r: (Size, Doom))
    requires
        font_supported(c),
    ensures
        r.0 == doom_size(c),
        r.1.rows() == doom_rows(c),
{
    match c {
        '1' => (
            Size::from(6, 5),
            doom6(r" __  ", r"/  | ", r"`| | ", r" | | ", r"_| |_", r"\___/"),
        ),
        '2' => (
            Size::from(6, 7),
            doom6(r" _____ ", r"/ __  \", r"`' / /'", r"  / /  ", r"./ /___", r"\_____/"),
        ),
        '3' => (
            Size::from(6, 7),
            doom6(r" _____ ", r"|____ |", r"    / /", r"    \ \", r".___/ /", r"\____/ "),
        ),
        '4' => (
            Size::from(6, 7),
            doom6(r"   ___ ", r"  /   |", r" / /| |", r"/ /_| |", r"\___  |", r"    |_/"),
        ),
        '5' => (
            Size::from(6, 7),
            doom6(r" _____ ", r"|  ___|", r"|___ \ ", r"    \ \", r"/\__/ /", r"\____/ "),
        ),
        '6' => (
            Size::from(6, 7),
            doom6(r"  ____ ", r" / ___|", r"/ /___ ", r"| ___ \", r"| \_/ |", r"\_____/"),
        ),
        '7' => (
            Size::from(6, 7),
            doom6(r" ______", r"|___  /", r"   / / ", r"  / /  ", r"./ /   ", r"\_/    "),
        ),
        '8' => (
            Size::from(6, 7),
            doom6(r" _____ ", r"|  _  |", r" \ V / ", r" / _ \ ", r"| |_| |", r"\_____/"),
        ),
        '9' => (
            Size::from(6, 7),
            doom6(r" _____ ", r"|  _  |", r"| |_| |", r"\____ |", r".___/ /", r"\____/ "),
        ),
        '0' => (
            Size::from(6, 7),
            doom6(r" _____ ", r"|  _  |", r"| |/' |", r"|  /| |", r"\ |_/ /", r" \___/ "),
        ),
        ':' => (Size::from(6, 3), doom6(r"   ", r" _ ", r"(_)", r"   ", r" _ ", r"(_)")),
        'A' => (
            Size::from(6, 7),
            doom6(r"  ___  ", r" / _ \ ", r"/ /_\ \", r"|  _  |", r"| | | |", r"\_| |_/"),
        ),
        'P' => (
            Size::from(6, 7),
            doom6(r"______ ", r"| ___ \", r"| |_/ /", r"|  __/ ", r"| |    ", r"\_|    "),
        ),
        'M' => (
            Size::from(6, 8),
            doom6(
                r"___  ___",
                r"|  \/  |",
                r"| .  . |",
                r"| |\/| |",
                r"| |  | |",
                r"\_|  |_/",
            ),
        ),
        _ => (Size::from(6, 1), doom6(r" ", r" ", r" ", r" ", r" ", r" ")),
    }
}

/// Every [`Doom`] glyph is well shaped: six rows, each row exactly as long
/// as the glyph's declared width.
pub proof fn lemma_doom_shape(c: char)
    requires
        font_supported(c),
    ensures
        doom_size(c).height == 6,
        doom_rows(c).len() == 6,
        forall|r: int|
            0 <= r < doom_rows(c).len() ==> (#[trigger] doom_rows(c)[r]).len() == doom_size(
                c,
            ).width as int,
{
    if c == '1' {
        reveal_strlit(r" __  ");
        reveal_strlit(r"/  | ");
        reveal_strlit(r"`| | ");
        reveal_strlit(r" | | ");
        reveal_strlit(r"_| |_");
        reveal_strlit(r"\___/");
    } else if c == '2' {
        reveal_strlit(r" _____ ");
        reveal_strlit(r"/ __  \");
        reveal_strlit(r"`' / /'");
        reveal_strlit(r"  / /  ");
        reveal_strlit(r"./ /___");
        reveal_strlit(r"\_____/");
    } else if c == '3' {
        reveal_strlit(r" _____ ");
        reveal_strlit(r"|____ |");
        reveal_strlit(r"    / /");
        reveal_strlit(r"    \ \");
        reveal_strlit(r".___/ /");
        reveal_strlit(r"\____/ ");
    } else if c == '4' {
        reveal_strlit(r"   ___ ");
        reveal_strlit(r"  /   |");
        reveal_strlit(r" / /| |");
        reveal_strlit(r"/ /_| |");
        reveal_strlit(r"\___  |");
        reveal_strlit(r"    |_/");
    } else if c == '5' {
        reveal_strlit(r" _____ ");
        reveal_strlit(r"|  ___|");
        reveal_strlit(r"|___ \ ");
        reveal_strlit(r"    \ \");
        reveal_strlit(r"/\__/ /");
        reveal_strlit(r"\____/ ");
    } else if c == '6' {
        reveal_strlit(r"  ____ ");
        reveal_strlit(r" / ___|");
        reveal_strlit(r"/ /___ ");
        reveal_strlit(r"| ___ \");
        reveal_strlit(r"| \_/ |");
        reveal_strlit(r"\_____/");
    } else if c == '7' {
        reveal_strlit(r" ______");
        reveal_strlit(r"|___  /");
        reveal_strlit(r"   / / ");
        reveal_strlit(r"  / /  ");
        reveal_strlit(r"./ /   ");
        reveal_strlit(r"\_/    ");
    } else if c == '8' {
        reveal_strlit(r" _____ ");
        reveal_strlit(r"|  _  |");
        reveal_strlit(r" \ V / ");
        reveal_strlit(r" / _ \ ");
        reveal_strlit(r"| |_| |");
        reveal_strlit(r"\_____/");
    } else if c == '9' {
        reveal_strlit(r" _____ ");
        reveal_strlit(r"|  _  |");
        reveal_strlit(r"| |_| |");
        reveal_strlit(r"\____ |");
        reveal_strlit(r".___/ /");
        reveal_strlit(r"\____/ ");
    } else if c == '0' {
        reveal_strlit(r" _____ ");
        reveal_strlit(r"|  _  |");
        reveal_strlit(r"| |/' |");
        reveal_strlit(r"|  /| |");
        reveal_strlit(r"\ |_/ /");
        reveal_strlit(r" \___/ ");
    } else if c == ':' {
        reveal_strlit(r"   ");
        reveal_strlit(r" _ ");
        reveal_strlit(r"(_)");
    } else if c == 'A' {
        reveal_strlit(r"  ___  ");
        reveal_strlit(r" / _ \ ");
        reveal_strlit(r"/ /_\ \");
        reveal_strlit(r"|  _  |");
        reveal_strlit(r"| | | |");
        reveal_strlit(r"\_| |_/");
    } else if c == 'P' {
        reveal_strlit(r"______ ");
        reveal_strlit(r"| ___ \");
        reveal_strlit(r"| |_/ /");
        reveal_strlit(r"|  __/ ");
        reveal_strlit(r"| |    ");
        reveal_strlit(r"\_|    ");
    } else if c == 'M' {
        reveal_strlit(r"___  ___");
        reveal_strlit(r"|  \/  |");
        reveal_strlit(r"| .  . |");
        reveal_strlit(r"| |\/| |");
        reveal_strlit(r"| |  | |");
        reveal_strlit(r"\_|  |_/");
    } else {
        reveal_strlit(r" ");
    }
}

/// Every two [`Doom`] glyphs have the same height: the font's glyphs can
/// be laid out side by side in one block.
pub proof fn lemma_doom_height_uniform(a: char, b: char)
    requires
        font_supported(a),
        font_supported(b),
    ensures
        doom_size(a).height == doom_size(b).height,
{
}

/// The larger font, eight rows tall.
pub struct Colossal(pub Vec<&'static str>);

impl Font for Colossal {
    open spec fn rows(&self) -> Seq<Seq<char>> {
        Seq::new(self.0@.len(), |i: int| self.0@[i]@)
    }

    open spec fn font_height() -> u16 {
        8
    }

    open spec fn clock_budget() -> u16 {
        104
    }

    open spec fn glyph_size(c: char) -> Size {
        colossal_size(c)
    }

    open spec fn glyph_rows(c: char) -> Seq<Seq<char>> {
        colossal_rows(c)
    }
    fn one() -> (r: (Size, Colossal)) {
        let r = colossal_glyph('1');
        proof {
            lemma_colossal_shape('1');
        }
        r
    }

    fn two() -> (r: (Size, Colossal)) {
        let r = colossal_glyph('2');
        proof {
            lemma_colossal_shape('2');
        }
        r
    }

    fn three() -> (r: (Size, Colossal)) {
        let r = colossal_glyph('3');
        proof {
            lemma_colossal_shape('3');
        }
        r
    }

    fn four() -> (r: (Size, Colossal)) {
        let r = colossal_glyph('4');
        proof {
            lemma_colossal_shape('4');
        }
        r
    }

    fn five() -> (r: (Size, Colossal)) {
        let r = colossal_glyph('5');
        proof {
            lemma_colossal_shape('5');
        }
        r
    }

    fn six() -> (r: (Size, Colossal)) {
        let r = colossal_glyph('6');
        proof {
            lemma_colossal_shape('6');
        }
        r
    }

    fn seven() -> (r: (Size, Colossal)) {
        let r = colossal_glyph('7');
        proof {
            lemma_colossal_shape('7');
        }
        r
    }

    fn eight() -> (r: (Size, Colossal)) {
        let r = colossal_glyph('8');
        proof {
            lemma_colossal_shape('8');
        }
        r
    }

    fn nine() -> (r: (Size, Colossal)) {
        let r = colossal_glyph('9');
        proof {
            lemma_colossal_shape('9');
        }
        r
    }

    fn zero() -> (r: (Size, Colossal)) {
        let r = colossal_glyph('0');
        proof {
            lemma_colossal_shape('0');
        }
        r
    }

    fn colon() -> (r: (Size, Colossal)) {
        let r = colossal_glyph(':');
        proof {
            lemma_colossal_shape(':');
        }
        r
    }

    fn a() -> (r: (Size, Colossal)) {
        let r = colossal_glyph('A');
        proof {
            lemma_colossal_shape('A');
        }
        r
    }

    fn p() -> (r: (Size, Colossal)) {
        let r = colossal_glyph('P');
        proof {
            lemma_colossal_shape('P');
        }
        r
    }

    fn m() -> (r: (Size, Colossal)) {
        let r = colossal_glyph('M');
        proof {
            lemma_colossal_shape('M');
        }
        r
    }

    fn space() -> (r: (Size, Colossal)) {
        let r = colossal_glyph(' ');
        proof {
            lemma_colossal_shape(' ');
        }
        r
    }

    fn inner(&self) -> (v: &Vec<&'static str>) {
        &self.0
    }

    fn clock_size(&self) -> u16 {
        104
    }
}

/// Builds an eight-row glyph and relates its rows to the given literals.
fn colossal8(
    r0: &'static str,
    r1: &'static str,
    r2: &'static str,
    r3: &'static str,
    r4: &'static str,
    r5: &'static str,
    r6: &'static str,
    r7: &'static str,
) -> (g: Colossal)
    ensures
        g.rows() == seq![r0@, r1@, r2@, r3@, r4@, r5@, r6@, r7@],
{
    let g = Colossal(vec![r0, r1, r2, r3, r4, r5, r6, r7]);
    proof {
        assert(g.rows() =~= seq![r0@, r1@, r2@, r3@, r4@, r5@, r6@, r7@]);
    }
    g
}

/// The footprint of each [`Colossal`] glyph.
pub open spec fn colossal_size(c: char) -> Size {
    if c == '1' {
        Size { height: 8, width: 7 }
    } else if c == '2' {
        Size { height: 8, width: 11 }
    } else if c == '3' {
        Size { height: 8, width: 10 }
    } else if c == '4' {
        Size { height: 8, width: 10 }
    } else if c == '5' {
        Size { height: 8, width: 10 }
    } else if c == '6' {
        Size { height: 8, width: 10 }
    } else if c == '7' {
        Size { height: 8, width: 10 }
    } else if c == '8' {
        Size { height: 8, width: 11 }
    } else if c == '9' {
        Size { height: 8, width: 10 }
    } else if c == '0' {
        Size { height: 8, width: 10 }
    } else if c == ':' {
        Size { height: 8, width: 3 }
    } else if c == 'A' {
        Size { height: 8, width: 12 }
    } else if c == 'P' {
        Size { height: 8, width: 10 }
    } else if c == 'M' {
        Size { height: 8, width: 13 }
    } else {
        Size { height: 8, width: 2 }
    }
}

/// The row data of each [`Colossal`] glyph.
pub open spec fn colossal_rows(c: char) -> Seq<Seq<char>> {
    if c == '1' {
        seq![
            " d888  "@,
            "d8888  "@,
            "  888  "@,
            "  888  "@,
            "  888  "@,
            "  888  "@,
            "  888  "@,
            "8888888"@,
        ]
    } else if c == '2' {
        seq![
            " .d8888b.  "@,
            "d88P  Y88b "@,
            "       888 "@,
            "     .d88P "@,
            " .od888P\"  "@,
            "d88P\"      "@,
            "888\"       "@,
            "888888888  "@,
        ]
    } else if c == '3' {
        seq![
            " .d8888b. "@,
            "d88P  Y88b"@,
            "     .d88P"@,
            "    8888\" "@,
            "     \"Y8b."@,
            "888    888"@,
            "Y88b  d88P"@,
            " \"Y8888P\" "@,
        ]
    } else if c == '4' {
        seq![
            "    d8888 "@,
            "   d8P888 "@,
            "  d8P 888 "@,
            " d8P  888 "@,
            "d88   888 "@,
            "8888888888"@,
            "      888 "@,
            "      888 "@,
        ]
    } else if c == '5' {
        seq![
            "888888888 "@,
            "888       "@,
            "888       "@,
            "8888888b. "@,
            "     \"Y88b"@,
            "       888"@,
            "Y88b  d88P"@,
            " \"Y8888P\" "@,
        ]
    } else if c == '6' {
        seq![
            " .d8888b. "@,
            "d88P  Y88b"@,
            "888       "@,
            "888d888b. "@,
            "888P \"Y88b"@,
            "888    888"@,
            "Y88b  d88P"@,
            " \"Y8888P\" "@,
        ]
    } else if c == '7' {
        seq![
            "8888888888"@,
            "      d88P"@,
            "     d88P "@,
            "    d88P  "@,
            " 88888888 "@,
            "  d88P    "@,
            " d88P     "@,
            "d88P      "@,
        ]
    } else if c == '8' {
        seq![
            " .d8888b.  "@,
            "d88P  Y88b "@,
            "Y88b. d88P "@,
            " \"Y88888\"  "@,
            ".d8P\"\"Y8b. "@,
            "888    888 "@,
            "Y88b  d88P "@,
            " \"Y8888P\"  "@,
        ]
    } else if c == '9' {
        seq![
            " .d8888b. "@,
            "d88P  Y88b"@,
            "888    888"@,
            "Y88b. d888"@,
            " \"Y888P888"@,
            "       888"@,
            "Y88b  d88P"@,
            " \"Y8888P\" "@,
        ]
    } else if c == '0' {
        seq![
            " .d8888b. "@,
            "d88P  Y88b"@,
            "888    888"@,
            "888    888"@,
            "888    888"@,
            "888    888"@,
            "Y88b  d88P"@,
            " \"Y8888P\" "@,
        ]
    } else if c == ':' {
        seq![
            "   "@,
            "d8b"@,
            "Y8P"@,
            "   "@,
            "   "@,
            "d8b"@,
            "Y8P"@,
            "   "@,
        ]
    } else if c == 'A' {
        seq![
            "       d8888"@,
            "      d88888"@,
            "     d88P888"@,
            "    d88P 888"@,
            "   d88P  888"@,
            "  d88P   888"@,
            " d8888888888"@,
            "d88P     888"@,
        ]
    } else if c == 'P' {
        seq![
            "8888888b. "@,
            "888   Y88b"@,
            "888    888"@,
            "888   d88P"@,
            "8888888P\" "@,
            "888       "@,
            "888       "@,
            "888       "@,
        ]
    } else if c == 'M' {
        seq![
            "888b     d888"@,
            "8888b   d8888"@,
            "88888b.d88888"@,
            "888Y88888P888"@,
            "888 Y888P 888"@,
            "888  Y8P  888"@,
            "888   \"   888"@,
            "888       888"@,
        ]
    } else {
        seq!["  "@, "  "@, "  "@, "  "@, "  "@, "  "@, "  "@, "  "@]
    }
}

/// Looks a symbol up in the [`Colossal`] font.
pub fn colossal_glyph(c: char) -> (r: (Size, Colossal))
    requires
        font_supported(c),
    ensures
        r.0 == colossal_size(c),
        r.1.rows() == colossal_rows(c),
{
    match c {
        '1' => (
            Size::from(8, 7),
            colossal8(
                " d888  ",
                "d8888  ",
                "  888  ",
                "  888  ",
                "  888  ",
                "  888  ",
                "  888  ",
                "8888888",
            ),
        ),
        '2' => (
            Size::from(8, 11),
            colossal8(
                " .d8888b.  ",
                "d88P  Y88b ",
                "       888 ",
                "     .d88P ",
                " .od888P\"  ",
                "d88P\"      ",
                "888\"       ",
                "888888888  ",
            ),
        ),
        '3' => (
            Size::from(8, 10),
            colossal8(
                " .d8888b. ",
                "d88P  Y88b",
                "     .d88P",
                "    8888\" ",
                "     \"Y8b.",
                "888    888",
                "Y88b  d88P",
                " \"Y8888P\" ",
            ),
        ),
        '4' => (
            Size::from(8, 10),
            colossal8(
                "    d8888 ",
                "   d8P888 ",
                "  d8P 888 ",
                " d8P  888 ",
                "d88   888 ",
                "8888888888",
                "      888 ",
                "      888 ",
            ),
        ),
        '5' => (
            Size::from(8, 10),
            colossal8(
                "888888888 ",
                "888       ",
                "888       ",
                "8888888b. ",
                "     \"Y88b",
                "       888",
                "Y88b  d88P",
                " \"Y8888P\" ",
            ),
        ),
        '6' => (
            Size::from(8, 10),
            colossal8(
                " .d8888b. ",
                "d88P  Y88b",
                "888       ",
                "888d888b. ",
                "888P \"Y88b",
                "888    888",
                "Y88b  d88P",
                " \"Y8888P\" ",
            ),
        ),
        '7' => (
            Size::from(8, 10),
            colossal8(
                "8888888888",
                "      d88P",
                "     d88P ",
                "    d88P  ",
                " 88888888 ",
                "  d88P    ",
                " d88P     ",
                "d88P      ",
            ),
        ),
        '8' => (
            Size::from(8, 11),
            colossal8(
                " .d8888b.  ",
                "d88P  Y88b ",
                "Y88b. d88P ",
                " \"Y88888\"  ",
                ".d8P\"\"Y8b. ",
                "888    888 ",
                "Y88b  d88P ",
                " \"Y8888P\"  ",
            ),
        ),
        '9' => (
            Size::from(8, 10),
            colossal8(
                " .d8888b. ",
                "d88P  Y88b",
                "888    888",
                "Y88b. d888",
                " \"Y888P888",
                "       888",
                "Y88b  d88P",
                " \"Y8888P\" ",
            ),
        ),
        '0' => (
            Size::from(8, 10),
            colossal8(
                " .d8888b. ",
                "d88P  Y88b",
                "888    888",
                "888    888",
                "888    888",
                "888    888",
                "Y88b  d88P",
                " \"Y8888P\" ",
            ),
        ),
        ':' => (
            Size::from(8, 3),
            colossal8(
                "   ",
                "d8b",
                "Y8P",
                "   ",
                "   ",
                "d8b",
                "Y8P",
                "   ",
            ),
        ),
        'A' => (
            Size::from(8, 12),
            colossal8(
                "       d8888",
                "      d88888",
                "     d88P888",
                "    d88P 888",
                "   d88P  888",
                "  d88P   888",
                " d8888888888",
                "d88P     888",
            ),
        ),
        'P' => (
            Size::from(8, 10),
            colossal8(
                "8888888b. ",
                "888   Y88b",
                "888    888",
                "888   d88P",
                "8888888P\" ",
                "888       ",
                "888       ",
                "888       ",
            ),
        ),
        'M' => (
            Size::from(8, 13),
            colossal8(
                "888b     d888",
                "8888b   d8888",
                "88888b.d88888",
                "888Y88888P888",
                "888 Y888P 888",
                "888  Y8P  888",
                "888   \"   888",
                "888       888",
            ),
        ),
        _ => (Size::from(8, 2), colossal8("  ", "  ", "  ", "  ", "  ", "  ", "  ", "  ")),
    }
}

/// Every [`Colossal`] glyph is well shaped: eight rows, each row exactly
/// as long as the glyph's declared width.
pub proof fn lemma_colossal_shape(c: char)
    requires
        font_supported(c),
    ensures
        colossal_size(c).height == 8,
        colossal_rows(c).len() == 8,
        forall|r: int|
            0 <= r < colossal_rows(c).len() ==> (#[trigger] colossal_rows(c)[r]).len()
                == colossal_size(c).width as int,
{
    if c == '1' {
        reveal_strlit(" d888  ");
        reveal_strlit("d8888  ");
        reveal_strlit("  888  ");
        reveal_strlit("8888888");
    } else if c == '2' {
        reveal_strlit(" .d8888b.  ");
        reveal_strlit("d88P  Y88b ");
        reveal_strlit("       888 ");
        reveal_strlit("     .d88P ");
        reveal_strlit(" .od888P\"  ");
        reveal_strlit("d88P\"      ");
        reveal_strlit("888\"       ");
        reveal_strlit("888888888  ");
    } else if c == '3' {
        reveal_strlit(" .d8888b. ");
        reveal_strlit("d88P  Y88b");
        reveal_strlit("     .d88P");
        reveal_strlit("    8888\" ");
        reveal_strlit("     \"Y8b.");
        reveal_strlit("888    888");
        reveal_strlit("Y88b  d88P");
        reveal_strlit(" \"Y8888P\" ");
    } else if c == '4' {
        reveal_strlit("    d8888 ");
        reveal_strlit("   d8P888 ");
        reveal_strlit("  d8P 888 ");
        reveal_strlit(" d8P  888 ");
        reveal_strlit("d88   888 ");
        reveal_strlit("8888888888");
        reveal_strlit("      888 ");
    } else if c == '5' {
        reveal_strlit("888888888 ");
        reveal_strlit("888       ");
        reveal_strlit("8888888b. ");
        reveal_strlit("     \"Y88b");
        reveal_strlit("       888");
        reveal_strlit("Y88b  d88P");
        reveal_strlit(" \"Y8888P\" ");
    } else if c == '6' {
        reveal_strlit(" .d8888b. ");
        reveal_strlit("d88P  Y88b");
        reveal_strlit("888       ");
        reveal_strlit("888d888b. ");
        reveal_strlit("888P \"Y88b");
        reveal_strlit("888    888");
        reveal_strlit("Y88b  d88P");
        reveal_strlit(" \"Y8888P\" ");
    } else if c == '7' {
        reveal_strlit("8888888888");
        reveal_strlit("      d88P");
        reveal_strlit("     d88P ");
        reveal_strlit("    d88P  ");
        reveal_strlit(" 88888888 ");
        reveal_strlit("  d88P    ");
        reveal_strlit(" d88P     ");
        reveal_strlit("d88P      ");
    } else if c == '8' {
        reveal_strlit(" .d8888b.  ");
        reveal_strlit("d88P  Y88b ");
        reveal_strlit("Y88b. d88P ");
        reveal_strlit(" \"Y88888\"  ");
        reveal_strlit(".d8P\"\"Y8b. ");
        reveal_strlit("888    888 ");
        reveal_strlit("Y88b  d88P ");
        reveal_strlit(" \"Y8888P\"  ");
    } else if c == '9' {
        reveal_strlit(" .d8888b. ");
        reveal_strlit("d88P  Y88b");
        reveal_strlit("888    888");
        reveal_strlit("Y88b. d888");
        reveal_strlit(" \"Y888P888");
        reveal_strlit("       888");
        reveal_strlit("Y88b  d88P");
        reveal_strlit(" \"Y8888P\" ");
    } else if c == '0' {
        reveal_strlit(" .d8888b. ");
        reveal_strlit("d88P  Y88b");
        reveal_strlit("888    888");
        reveal_strlit("Y88b  d88P");
        reveal_strlit(" \"Y8888P\" ");
    } else if c == ':' {
        reveal_strlit("   ");
        reveal_strlit("d8b");
        reveal_strlit("Y8P");
    } else if c == 'A' {
        reveal_strlit("       d8888");
        reveal_strlit("      d88888");
        reveal_strlit("     d88P888");
        reveal_strlit("    d88P 888");
        reveal_strlit("   d88P  888");
        reveal_strlit("  d88P   888");
        reveal_strlit(" d8888888888");
        reveal_strlit("d88P     888");
    } else if c == 'P' {
        reveal_strlit("8888888b. ");
        reveal_strlit("888   Y88b");
        reveal_strlit("888    888");
        reveal_strlit("888   d88P");
        reveal_strlit("8888888P\" ");
        reveal_strlit("888       ");
    } else if c == 'M' {
        reveal_strlit("888b     d888");
        reveal_strlit("8888b   d8888");
        reveal_strlit("88888b.d88888");
        reveal_strlit("888Y88888P888");
        reveal_strlit("888 Y888P 888");
        reveal_strlit("888  Y8P  888");
        reveal_strlit("888   \"   888");
        reveal_strlit("888       888");
    } else {
        reveal_strlit("  ");
    }
}

/// Every two [`Colossal`] glyphs have the same height.
pub proof fn lemma_colossal_height_uniform(a: char, b: char)
    requires
        font_supported(a),
        font_supported(b),
    ensures
        colossal_size(a).height == colossal_size(b).height,
{
}

} // verus!
