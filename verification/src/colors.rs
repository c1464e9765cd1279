//! The color resolver: a fixed, ordered lookup table from capture names to
//! colors, with a default fallback, so that resolution is total.

use vstd::prelude::*;

use crate::types::opt_str_model;

verus! {

/// One entry of the color table.
pub struct ColorEntry {
    pub name: String,
    pub color: u32,
}

/// A fixed mapping from capture names to RGB colors, plus one default color
/// for uncaptured or unrecognized text and the background color. Immutable
/// after construction.
pub struct ColorTable {
    pub entries: Vec<ColorEntry>,
    pub default_color: u32,
    pub background: u32,
}

/// Spec view of the table's entries.
pub open spec fn entries_model(es: Seq<ColorEntry>) -> Seq<(Seq<char>, u32)> {
    es.map_values(|e: ColorEntry| (e.name@, e.color))
}

/// The color an optional capture name resolves to: the first entry whose
/// name matches exactly, else the default. No prefix matching and no
/// inheritance between names; total by construction.
pub open spec fn spec_resolve_color(
    es: Seq<(Seq<char>, u32)>,
    def: u32,
    cap: Option<Seq<char>>,
) -> u32
    decreases es.len(),
{
    match cap {
        Option::None => def,
        Option::Some(n) => if es.len() == 0 {
            def
        } else if es[0].0 == n {
            es[0].1
        } else {
            spec_resolve_color(es.drop_first(), def, cap)
        },
    }
}

impl ColorTable {
    /// Resolve an optional capture name to a color. Never fails: an
    /// unrecognized or absent name gets the default color.
    pub fn resolve_color(&self, cap: &Option<String>) -> (c: u32)
        ensures
            c == spec_resolve_color(
                entries_model(self.entries@),
                self.default_color,
                opt_str_model(*cap),
            ),
    {
        let name = match cap {
            Option::Some(n) => n,
            Option::None => {
                return self.default_color;
            },
        };
        let ghost es = entries_model(self.entries@);
        proof {
            assert(es.skip(0) =~= es);
        }
        let mut i: usize = 0;
        while i < self.entries.len()
            invariant
                i <= self.entries.len(),
                es == entries_model(self.entries@),
                opt_str_model(*cap) == Option::Some(name@),
                spec_resolve_color(es, self.default_color, Option::Some(name@))
                    == spec_resolve_color(
                    es.skip(i as int),
                    self.default_color,
                    Option::Some(name@),
                ),
            decreases self.entries.len() - i,
        {
            let e = &self.entries[i];
            proof {
                assert(es.skip(i as int)[0] == es[i as int]);
                assert(es[i as int] == (e.name@, e.color));
            }
            if e.name == *name {
                return e.color;
            }
            proof {
                assert(es.skip(i as int).drop_first() =~= es.skip(i + 1));
            }
            i = i + 1;
        }
        proof {
            assert(es.skip(self.entries@.len() as int) =~= Seq::<(Seq<char>, u32)>::empty());
        }
        self.default_color
    }
}

/// The dark theme of the viewer: the capture vocabulary's colors, the
/// default text color and the background.
pub fn dark_theme() -> (t: ColorTable)
    ensures
        t.background == 0x1e1e1eu32,
        t.default_color == 0xd4d4d4u32,
        entries_model(t.entries@) == seq![
            ("label"@, 0xdcdcaau32),
            ("keyword"@, 0x569cd6u32),
            ("register"@, 0x4ec9b0u32),
            ("number"@, 0xb5cea8u32),
            ("comment"@, 0x6a9955u32),
        ],
{
    let mut entries: Vec<ColorEntry> = Vec::new();
    entries.push(ColorEntry { name: "label".to_owned(), color: 0xdcdcaa });
    entries.push(ColorEntry { name: "keyword".to_owned(), color: 0x569cd6 });
    entries.push(ColorEntry { name: "register".to_owned(), color: 0x4ec9b0 });
    entries.push(ColorEntry { name: "number".to_owned(), color: 0xb5cea8 });
    entries.push(ColorEntry { name: "comment".to_owned(), color: 0x6a9955 });
    proof {
        assert(entries_model(entries@) =~= seq![
            ("label"@, 0xdcdcaau32),
            ("keyword"@, 0x569cd6u32),
            ("register"@, 0x4ec9b0u32),
            ("number"@, 0xb5cea8u32),
            ("comment"@, 0x6a9955u32),
        ]);
    }
    ColorTable { entries, default_color: 0xd4d4d4, background: 0x1e1e1e }
}

} // verus!
