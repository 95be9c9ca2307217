//! The standard built-in page-description fonts and the mapping from
//! generic font families to them.
//!
//! The font-matching cache that the external layout engine consults is
//! seeded with these fourteen standard fonts and with one entry per
//! generic family name; which built-in answers which family is this
//! module's decision, while the byte payloads and the cache itself live
//! with the engine.

use vstd::prelude::*;

verus! {

/// One of the fourteen standard built-in fonts.
#[derive(Debug, Clone, Copy, PartialEq, Eq, Structural)]
pub enum BuiltinFont {
    TimesRoman,
    TimesBold,
    TimesItalic,
    TimesBoldItalic,
    Helvetica,
    HelveticaBold,
    HelveticaOblique,
    HelveticaBoldOblique,
    Courier,
    CourierOblique,
    CourierBold,
    CourierBoldOblique,
    Symbol,
    ZapfDingbats,
}

/// The standard name of one built-in font.
pub open spec fn builtin_font_id(b: BuiltinFont) -> Seq<char> {
    match b {
        BuiltinFont::TimesRoman => "Times-Roman"@,
        BuiltinFont::TimesBold => "Times-Bold"@,
        BuiltinFont::TimesItalic => "Times-Italic"@,
        BuiltinFont::TimesBoldItalic => "Times-BoldItalic"@,
        BuiltinFont::Helvetica => "Helvetica"@,
        BuiltinFont::HelveticaBold => "Helvetica-Bold"@,
        BuiltinFont::HelveticaOblique => "Helvetica-Oblique"@,
        BuiltinFont::HelveticaBoldOblique => "Helvetica-BoldOblique"@,
        BuiltinFont::Courier => "Courier"@,
        BuiltinFont::CourierOblique => "Courier-Oblique"@,
        BuiltinFont::CourierBold => "Courier-Bold"@,
        BuiltinFont::CourierBoldOblique => "Courier-BoldOblique"@,
        BuiltinFont::Symbol => "Symbol"@,
        BuiltinFont::ZapfDingbats => "ZapfDingbats"@,
    }
}

impl BuiltinFont {
    /// The standard name of this font.
    pub fn get_id(&self) -> (r: String)
        ensures
            r@ == builtin_font_id(*self),
    {
        match self {
            BuiltinFont::TimesRoman => String::from_str("Times-Roman"),
            BuiltinFont::TimesBold => String::from_str("Times-Bold"),
            BuiltinFont::TimesItalic => String::from_str("Times-Italic"),
            BuiltinFont::TimesBoldItalic => String::from_str("Times-BoldItalic"),
            BuiltinFont::Helvetica => String::from_str("Helvetica"),
            BuiltinFont::HelveticaBold => String::from_str("Helvetica-Bold"),
            BuiltinFont::HelveticaOblique => String::from_str("Helvetica-Oblique"),
            BuiltinFont::HelveticaBoldOblique => String::from_str("Helvetica-BoldOblique"),
            BuiltinFont::Courier => String::from_str("Courier"),
            BuiltinFont::CourierOblique => String::from_str("Courier-Oblique"),
            BuiltinFont::CourierBold => String::from_str("Courier-Bold"),
            BuiltinFont::CourierBoldOblique => String::from_str("Courier-BoldOblique"),
            BuiltinFont::Symbol => String::from_str("Symbol"),
            BuiltinFont::ZapfDingbats => String::from_str("ZapfDingbats"),
        }
    }
}

/// A font-matching pattern for one cache entry: the name it answers to and
/// the face index inside the payload.
#[derive(Debug, Clone, PartialEq, Eq)]
pub struct FontPattern {
    pub name: String,
    pub font_index: i64,
}

/// The pattern under which one built-in font is entered into the matching
/// cache: its standard name, face index zero.
pub fn get_fcpat(b: BuiltinFont) -> (r: (FontPattern, BuiltinFont))
    ensures
        r.0.name@ == builtin_font_id(b),
        r.0.font_index == 0,
        r.1 == b,
{
    (FontPattern { name: b.get_id(), font_index: 0 }, b)
}

/// Which generic family resolves to which built-in font.
pub open spec fn system_font_mapping(family: Seq<char>) -> Option<BuiltinFont> {
    if family == "serif"@ {
        Option::Some(BuiltinFont::TimesRoman)
    } else if family == "sans-serif"@ {
        Option::Some(BuiltinFont::Helvetica)
    } else if family == "cursive"@ {
        Option::Some(BuiltinFont::TimesItalic)
    } else if family == "fantasy"@ {
        Option::Some(BuiltinFont::TimesItalic)
    } else if family == "monospace"@ {
        Option::Some(BuiltinFont::Courier)
    } else {
        Option::None
    }
}

/// The cache entries for the generic font families, in a fixed order:
/// every generic family name paired with the built-in font that answers
/// it.
pub fn get_system_fonts() -> (r: Vec<(String, BuiltinFont)>)
    ensures
        r@.len() == 5,
        forall|i: int|
            0 <= i < r@.len() ==> system_font_mapping(#[trigger] r@[i].0@) == Option::Some(
                r@[i].1,
            ),
        r@[0].0@ == "serif"@ && r@[0].1 == BuiltinFont::TimesRoman,
        r@[1].0@ == "sans-serif"@ && r@[1].1 == BuiltinFont::Helvetica,
        r@[2].0@ == "cursive"@ && r@[2].1 == BuiltinFont::TimesItalic,
        r@[3].0@ == "fantasy"@ && r@[3].1 == BuiltinFont::TimesItalic,
        r@[4].0@ == "monospace"@ && r@[4].1 == BuiltinFont::Courier,
{
    let mut v: Vec<(String, BuiltinFont)> = Vec::new();
    v.push((String::from_str("serif"), BuiltinFont::TimesRoman));
    v.push((String::from_str("sans-serif"), BuiltinFont::Helvetica));
    v.push((String::from_str("cursive"), BuiltinFont::TimesItalic));
    v.push((String::from_str("fantasy"), BuiltinFont::TimesItalic));
    v.push((String::from_str("monospace"), BuiltinFont::Courier));
    proof {
        assert(v@[0].0@ == "serif"@ && v@[1].0@ == "sans-serif"@ && v@[2].0@ == "cursive"@
            && v@[3].0@ == "fantasy"@ && v@[4].0@ == "monospace"@);
        assert(("serif"@ != "sans-serif"@ && "serif"@ != "cursive"@ && "serif"@ != "fantasy"@
            && "serif"@ != "monospace"@)) by {
            reveal_strlit("serif");
            reveal_strlit("sans-serif");
            reveal_strlit("cursive");
            reveal_strlit("fantasy");
            reveal_strlit("monospace");
        }
        reveal_strlit("serif");
        reveal_strlit("sans-serif");
        reveal_strlit("cursive");
        reveal_strlit("fantasy");
        reveal_strlit("monospace");
    }
    v
}

} // verus!
