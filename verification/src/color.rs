//! Element colors: an RGB palette keyed by chemical symbol.
//!
//! The palette is data, and lookup reports a configuration fault instead of
//! guessing: a symbol listed twice yields `DuplicateSymbol` (the stock
//! palette lists oxygen twice, with two different colors, so asking for its
//! color surfaces that fault), and a symbol not listed at all yields
//! `UnknownSymbol` — there is no fallback color.

use vstd::prelude::*;

verus! {

/// An opaque RGB triple.
#[derive(Clone, Copy, PartialEq, Eq, Structural, Debug)]
pub struct Rgb {
    pub r: u8,
    pub g: u8,
    pub b: u8,
}

/// Why a color lookup failed.
#[derive(Clone, Copy, PartialEq, Eq, Structural, Debug)]
pub enum ColorError {
    /// The symbol has no palette entry.
    UnknownSymbol,
    /// The symbol has more than one palette entry: the palette is
    /// ill-configured and no entry is silently preferred.
    DuplicateSymbol,
}

/// One palette entry: a chemical symbol and its color.
#[derive(Clone, Debug)]
pub struct ColorEntry {
    pub symbol: String,
    pub color: Rgb,
}

/// A palette: an ordered list of entries.
#[derive(Clone, Debug)]
pub struct ColorTable {
    pub entries: Vec<ColorEntry>,
}

/// How many entries of `s` carry the symbol `k`.
pub open spec fn count_key(s: Seq<ColorEntry>, k: Seq<char>) -> nat
    decreases s.len(),
{
    if s.len() == 0 {
        0
    } else {
        (if s[0].symbol@ == k {
            1nat
        } else {
            0nat
        }) + count_key(s.drop_first(), k)
    }
}

/// The color of the first entry of `s` carrying the symbol `k`, if any.
pub open spec fn first_color(s: Seq<ColorEntry>, k: Seq<char>) -> Option<Rgb>
    decreases s.len(),
{
    if s.len() == 0 {
        None
    } else if s[0].symbol@ == k {
        Some(s[0].color)
    } else {
        first_color(s.drop_first(), k)
    }
}

/// What a lookup of `k` in `s` returns: the unique matching entry's color,
/// or the precise error.
pub open spec fn lookup_spec(s: Seq<ColorEntry>, k: Seq<char>) -> Result<Rgb, ColorError> {
    if count_key(s, k) == 0 {
        Err(ColorError::UnknownSymbol)
    } else if count_key(s, k) >= 2 {
        Err(ColorError::DuplicateSymbol)
    } else {
        match first_color(s, k) {
            Some(c) => Ok(c),
            None => Err(ColorError::UnknownSymbol),
        }
    }
}

proof fn lemma_count_key_first_color(s: Seq<ColorEntry>, k: Seq<char>)
    ensures
        count_key(s, k) > 0 <==> first_color(s, k) is Some,
    decreases s.len(),
{
    if s.len() > 0 {
        lemma_count_key_first_color(s.drop_first(), k);
    }
}

proof fn lemma_count_key_push(s: Seq<ColorEntry>, e: ColorEntry, k: Seq<char>)
    ensures
        count_key(s.push(e), k) == count_key(s, k) + (if e.symbol@ == k {
            1nat
        } else {
            0nat
        }),
    decreases s.len(),
{
    assert(s.push(e)[s.len() as int] == e);
    if s.len() == 0 {
        assert(s.push(e).drop_first() =~= Seq::<ColorEntry>::empty());
        assert(count_key(s.push(e).drop_first(), k) == 0);
    } else {
        assert(s.push(e)[0] == s[0]);
        assert(s.push(e).drop_first() =~= s.drop_first().push(e));
        lemma_count_key_push(s.drop_first(), e, k);
    }
}

proof fn lemma_first_color_push(s: Seq<ColorEntry>, e: ColorEntry, k: Seq<char>)
    ensures
        first_color(s.push(e), k) == (if first_color(s, k) is Some {
            first_color(s, k)
        } else if e.symbol@ == k {
            Some(e.color)
        } else {
            None::<Rgb>
        }),
    decreases s.len(),
{
    assert(s.push(e)[s.len() as int] == e);
    if s.len() == 0 {
        assert(s.push(e).drop_first() =~= Seq::<ColorEntry>::empty());
        assert(first_color(s.push(e).drop_first(), k) is None);
    } else {
        assert(s.push(e)[0] == s[0]);
        assert(s.push(e).drop_first() =~= s.drop_first().push(e));
        lemma_first_color_push(s.drop_first(), e, k);
    }
}

impl ColorTable {
    /// Looks `symbol` up: `Ok` with the unique entry's color; otherwise says
    /// exactly why not.
    pub fn lookup(&self, symbol: &str) -> (r: Result<Rgb, ColorError>)
        ensures
            r == lookup_spec(self.entries@, symbol@),
    {
        let sym: String = symbol.to_owned();
        let n: usize = self.entries.len();
        let mut i: usize = 0;
        let mut cnt: usize = 0;
        let mut first: Option<Rgb> = None;
        while i < n
            invariant
                n == self.entries@.len(),
                i <= n,
                cnt <= i,
                sym@ == symbol@,
                cnt as nat == count_key(self.entries@.take(i as int), symbol@),
                first == first_color(self.entries@.take(i as int), symbol@),
            decreases n - i,
        {
            proof {
                assert(self.entries@.take(i + 1) =~= self.entries@.take(i as int).push(
                    self.entries@[i as int],
                ));
                lemma_count_key_push(self.entries@.take(i as int), self.entries@[i as int], symbol@);
                lemma_first_color_push(
                    self.entries@.take(i as int),
                    self.entries@[i as int],
                    symbol@,
                );
                lemma_count_key_first_color(self.entries@.take(i as int), symbol@);
            }
            let e = &self.entries[i];
            if e.symbol == sym {
                cnt = cnt + 1;
                if first.is_none() {
                    first = Some(e.color);
                }
            }
            i = i + 1;
        }
        proof {
            assert(self.entries@.take(n as int) =~= self.entries@);
            lemma_count_key_first_color(self.entries@, symbol@);
        }
        if cnt == 0 {
            Err(ColorError::UnknownSymbol)
        } else if cnt >= 2 {
            Err(ColorError::DuplicateSymbol)
        } else {
            match first {
                Some(c) => Ok(c),
                None => Err(ColorError::UnknownSymbol),
            }
        }
    }
}

/// The stock palette, entry by entry. Oxygen appears twice — a fault the
/// palette carries on purpose, surfaced by lookup as `DuplicateSymbol`.
pub open spec fn is_stock_palette(s: Seq<ColorEntry>) -> bool {
    &&& s.len() == 5
    &&& s[0].symbol@ == "C"@ && s[0].color == (Rgb { r: 144, g: 144, b: 144 })
    &&& s[1].symbol@ == "Si"@ && s[1].color == (Rgb { r: 94, g: 94, b: 94 })
    &&& s[2].symbol@ == "O"@ && s[2].color == (Rgb { r: 0, g: 255, b: 0 })
    &&& s[3].symbol@ == "O"@ && s[3].color == (Rgb { r: 48, g: 80, b: 248 })
    &&& s[4].symbol@ == "H"@ && s[4].color == (Rgb { r: 255, g: 255, b: 255 })
}

/// Builds the stock palette.
pub fn stock_palette() -> (t: ColorTable)
    ensures
        is_stock_palette(t.entries@),
{
    let mut entries: Vec<ColorEntry> = Vec::new();
    entries.push(ColorEntry { symbol: "C".to_owned(), color: Rgb { r: 144, g: 144, b: 144 } });
    entries.push(ColorEntry { symbol: "Si".to_owned(), color: Rgb { r: 94, g: 94, b: 94 } });
    entries.push(ColorEntry { symbol: "O".to_owned(), color: Rgb { r: 0, g: 255, b: 0 } });
    entries.push(ColorEntry { symbol: "O".to_owned(), color: Rgb { r: 48, g: 80, b: 248 } });
    entries.push(ColorEntry { symbol: "H".to_owned(), color: Rgb { r: 255, g: 255, b: 255 } });
    ColorTable { entries }
}

/// What looking a symbol up in the stock palette yields, case by case.
pub open spec fn color_of(sym: Seq<char>) -> Result<Rgb, ColorError> {
    if sym == "C"@ {
        Ok(Rgb { r: 144, g: 144, b: 144 })
    } else if sym == "Si"@ {
        Ok(Rgb { r: 94, g: 94, b: 94 })
    } else if sym == "O"@ {
        Err(ColorError::DuplicateSymbol)
    } else if sym == "H"@ {
        Ok(Rgb { r: 255, g: 255, b: 255 })
    } else {
        Err(ColorError::UnknownSymbol)
    }
}

/// Looking any symbol up in any palette laid out like the stock one gives
/// exactly `color_of`.
pub proof fn lemma_stock_palette_lookup(s: Seq<ColorEntry>, k: Seq<char>)
    requires
        is_stock_palette(s),
    ensures
        lookup_spec(s, k) == color_of(k),
{
    reveal_strlit("C");
    reveal_strlit("Si");
    reveal_strlit("O");
    reveal_strlit("H");
    assert("C"@.len() == 1);
    assert("Si"@.len() == 2);
    assert("O"@.len() == 1);
    assert("H"@.len() == 1);
    assert("C"@[0] == 'C');
    assert("O"@[0] == 'O');
    assert("H"@[0] == 'H');
    let s1 = s.drop_first();
    let s2 = s1.drop_first();
    let s3 = s2.drop_first();
    let s4 = s3.drop_first();
    assert(s1[0] == s[1] && s1[1] == s[2] && s1[2] == s[3] && s1[3] == s[4]);
    assert(s2[0] == s[2] && s2[1] == s[3] && s2[2] == s[4]);
    assert(s3[0] == s[3] && s3[1] == s[4]);
    assert(s4[0] == s[4]);
    assert(s4.drop_first().len() == 0);
    assert(count_key(s4.drop_first(), k) == 0);
    assert(first_color(s4.drop_first(), k) is None);
    assert(count_key(s, k) == count_key(s1, k) + (if s[0].symbol@ == k {
        1nat
    } else {
        0nat
    }));
    assert(count_key(s1, k) == count_key(s2, k) + (if s[1].symbol@ == k {
        1nat
    } else {
        0nat
    }));
    assert(count_key(s2, k) == count_key(s3, k) + (if s[2].symbol@ == k {
        1nat
    } else {
        0nat
    }));
    assert(count_key(s3, k) == count_key(s4, k) + (if s[3].symbol@ == k {
        1nat
    } else {
        0nat
    }));
    assert(count_key(s4, k) == (if s[4].symbol@ == k {
        1nat
    } else {
        0nat
    }));
    assert(first_color(s, k) == (if s[0].symbol@ == k {
        Some(s[0].color)
    } else {
        first_color(s1, k)
    }));
    assert(first_color(s1, k) == (if s[1].symbol@ == k {
        Some(s[1].color)
    } else {
        first_color(s2, k)
    }));
    assert(first_color(s2, k) == (if s[2].symbol@ == k {
        Some(s[2].color)
    } else {
        first_color(s3, k)
    }));
    assert(first_color(s3, k) == (if s[3].symbol@ == k {
        Some(s[3].color)
    } else {
        first_color(s4, k)
    }));
    assert(first_color(s4, k) == (if s[4].symbol@ == k {
        Some(s[4].color)
    } else {
        None::<Rgb>
    }));
    if k == "C"@ {
        assert(count_key(s, k) == 1);
        assert(first_color(s, k) == Some(Rgb { r: 144, g: 144, b: 144 }));
        assert(lookup_spec(s, k) == color_of(k));
    } else if k == "Si"@ {
        assert(lookup_spec(s, k) == color_of(k));
    } else if k == "O"@ {
        assert(count_key(s, k) == 2);
        assert(lookup_spec(s, k) == color_of(k));
    } else if k == "H"@ {
        assert(lookup_spec(s, k) == color_of(k));
    } else {
        assert(count_key(s, k) == 0);
        assert(lookup_spec(s, k) == color_of(k));
    }
}

/// The color for an atom's chemical symbol, from the stock palette.
pub fn atom_color(symbol: &str) -> (r: Result<Rgb, ColorError>)
    ensures
        r == color_of(symbol@),
{
    let t = stock_palette();
    proof {
        lemma_stock_palette_lookup(t.entries@, symbol@);
    }
    t.lookup(symbol)
}

} // verus!

