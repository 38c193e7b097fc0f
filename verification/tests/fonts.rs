use rmatrix::fonts::{colossal_glyph, doom_glyph, Colossal, Doom, Font};

fn doom_glyphs() -> Vec<(rmatrix::Size, Doom)> {
    vec![
        Doom::one(),
        Doom::two(),
        Doom::three(),
        Doom::four(),
        Doom::five(),
        Doom::six(),
        Doom::seven(),
        Doom::eight(),
        Doom::nine(),
        Doom::zero(),
        Doom::colon(),
        Doom::a(),
        Doom::p(),
        Doom::m(),
        Doom::space(),
    ]
}

fn colossal_glyphs() -> Vec<(rmatrix::Size, Colossal)> {
    vec![
        Colossal::one(),
        Colossal::two(),
        Colossal::three(),
        Colossal::four(),
        Colossal::five(),
        Colossal::six(),
        Colossal::seven(),
        Colossal::eight(),
        Colossal::nine(),
        Colossal::zero(),
        Colossal::colon(),
        Colossal::a(),
        Colossal::p(),
        Colossal::m(),
        Colossal::space(),
    ]
}

#[test]
fn doom_uniform_height_and_row_widths() {
    for (size, glyph) in doom_glyphs() {
        assert_eq!(size.height(), 6);
        let rows = glyph.inner();
        assert_eq!(rows.len(), 6);
        for row in rows {
            assert_eq!(row.len(), size.width() as usize);
        }
    }
}

#[test]
fn colossal_uniform_height_and_row_widths() {
    for (size, glyph) in colossal_glyphs() {
        assert_eq!(size.height(), 8);
        let rows = glyph.inner();
        assert_eq!(rows.len(), 8);
        for row in rows {
            assert_eq!(row.len(), size.width() as usize);
        }
    }
}

#[test]
fn clock_budgets() {
    assert_eq!(Doom::one().1.clock_size(), 75);
    assert_eq!(Colossal::one().1.clock_size(), 104);
}

#[test]
fn glyph_lookup_matches_constructors() {
    let (size, glyph) = doom_glyph('7');
    let (size2, glyph2) = Doom::seven();
    assert_eq!(size.width(), size2.width());
    assert_eq!(size.height(), size2.height());
    assert_eq!(glyph.inner(), glyph2.inner());

    let (csize, cglyph) = colossal_glyph('M');
    let (csize2, cglyph2) = Colossal::m();
    assert_eq!(csize.width(), csize2.width());
    assert_eq!(csize.height(), csize2.height());
    assert_eq!(cglyph.inner(), cglyph2.inner());
}

#[test]
fn doom_one_rows() {
    let (size, glyph) = doom_glyph('1');
    assert_eq!(size.width(), 5);
    assert_eq!(glyph.inner()[0], r" __  ");
    assert_eq!(glyph.inner()[5], r"\___/");
}
