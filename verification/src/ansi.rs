//! Terminal escape-sequence composition: bold and underline flags plus
//! optional background and foreground true-color parts, joined by
//! semicolons and wrapped in the escape frame.

use vstd::prelude::*;

use crate::component::dec3_seq;
use crate::component::dec3_u16;
use crate::rgb::RGBColor;

verus! {

/// The reset sequence appended after painted text.
pub open spec fn reset_seq() -> Seq<char> {
    seq!['\x1b', '[', '0', 'm']
}

/// Escape-sequence parts joined by semicolons.
pub open spec fn join_semi(parts: Seq<Seq<char>>) -> Seq<char>
    decreases parts.len(),
{
    if parts.len() == 0 {
        Seq::empty()
    } else if parts.len() == 1 {
        parts[0]
    } else {
        join_semi(parts.drop_last()) + seq![';'] + parts.last()
    }
}

/// The three zero-padded decimal channels joined by semicolons.
pub open spec fn channel_triplet_seq(c: RGBColor) -> Seq<char> {
    dec3_seq(c.red.value as int) + seq![';'] + dec3_seq(c.green.value as int) + seq![';']
        + dec3_seq(c.blue.value as int)
}

/// The background part, `48;2;` followed by the channels.
pub open spec fn bg_part_seq(c: RGBColor) -> Seq<char> {
    seq!['4', '8', ';', '2', ';'] + channel_triplet_seq(c)
}

/// The foreground part, `38;2;` followed by the channels.
pub open spec fn fg_part_seq(c: RGBColor) -> Seq<char> {
    seq!['3', '8', ';', '2', ';'] + channel_triplet_seq(c)
}

/// A terminal rendering style: optional foreground and background colors
/// plus bold and underline flags.
#[derive(Debug, Clone, Copy, PartialEq)]
pub struct ColorAnsi {
    pub foreground: Option<RGBColor>,
    pub background: Option<RGBColor>,
    pub bold: bool,
    pub underline: bool,
}

impl ColorAnsi {
    /// The escape-sequence parts that are switched on, in bold, underline,
    /// background, foreground order.
    pub open spec fn parts_spec(self) -> Seq<Seq<char>> {
        (if self.bold {
            seq![seq!['1']]
        } else {
            Seq::<Seq<char>>::empty()
        }) + (if self.underline {
            seq![seq!['4']]
        } else {
            Seq::<Seq<char>>::empty()
        }) + (match self.background {
            Option::Some(c) => seq![bg_part_seq(c)],
            Option::None => Seq::<Seq<char>>::empty(),
        }) + (match self.foreground {
            Option::Some(c) => seq![fg_part_seq(c)],
            Option::None => Seq::<Seq<char>>::empty(),
        })
    }

    /// The full escape string: the frame around the joined parts.
    pub open spec fn escape_spec(self) -> Seq<char> {
        seq!['\x1b', '['] + join_semi(self.parts_spec()) + seq!['m']
    }

    /// A style with the given colors and both flags off.
    pub fn new(foreground: Option<RGBColor>, background: Option<RGBColor>) -> (r: Self)
        ensures
            r == (ColorAnsi { foreground, background, bold: false, underline: false }),
    {
        ColorAnsi { foreground, background, bold: false, underline: false }
    }

    /// Wraps `value` between the escape string and the reset sequence.
    pub fn paint(&self, value: &str) -> (r: String)
        ensures
            r@ == self.escape_spec() + value@ + reset_seq(),
    {
        let mut r = self.to_escape_str();
        r.append(value);
        r.append("\x1b[0m");
        proof {
            reveal_strlit("\x1b[0m");
            assert(r@ =~= self.escape_spec() + value@ + reset_seq());
        }
        r
    }

    /// Composes the escape string from the switched-on parts.
    pub fn to_escape_str(&self) -> (r: String)
        ensures
            r@ == self.escape_spec(),
    {
        let mut parts: Vec<String> = Vec::new();
        let ghost mut gp: Seq<Seq<char>> = Seq::empty();
        if self.bold {
            let mut p = String::new();
            p.append("1");
            proof {
                reveal_strlit("1");
                gp = gp.push(seq!['1']);
                assert(p@ =~= seq!['1']);
            }
            parts.push(p);
        }
        if self.underline {
            let mut p = String::new();
            p.append("4");
            proof {
                reveal_strlit("4");
                gp = gp.push(seq!['4']);
                assert(p@ =~= seq!['4']);
            }
            parts.push(p);
        }
        if let Some(bg_color) = self.background {
            let mut p = String::new();
            p.append("48;2;");
            let t = channel_triplet(&bg_color);
            p.append(t.as_str());
            proof {
                reveal_strlit("48;2;");
                gp = gp.push(bg_part_seq(bg_color));
                assert(p@ =~= bg_part_seq(bg_color));
            }
            parts.push(p);
        }
        if let Some(fg_color) = self.foreground {
            let mut p = String::new();
            p.append("38;2;");
            let t = channel_triplet(&fg_color);
            p.append(t.as_str());
            proof {
                reveal_strlit("38;2;");
                gp = gp.push(fg_part_seq(fg_color));
                assert(p@ =~= fg_part_seq(fg_color));
            }
            parts.push(p);
        }
        proof {
            assert(gp =~= self.parts_spec());
        }
        let mut esc = String::new();
        esc.append("\x1b[");
        proof {
            reveal_strlit("\x1b[");
            assert(gp.take(0) =~= Seq::<Seq<char>>::empty());
            assert(esc@ =~= seq!['\x1b', '['] + join_semi(gp.take(0)));
        }
        let mut k: usize = 0;
        let n = parts.len();
        while k < n
            invariant
                0 <= k <= n,
                n == parts@.len(),
                parts@.len() == gp.len(),
                forall|t: int| 0 <= t < gp.len() ==> #[trigger] parts@[t]@ == gp[t],
                esc@ == seq!['\x1b', '['] + join_semi(gp.take(k as int)),
            decreases n - k,
        {
            if k > 0 {
                esc.append(";");
            }
            let p = &parts[k];
            esc.append(p.as_str());
            proof {
                reveal_strlit(";");
                assert(gp.take(k as int + 1).drop_last() =~= gp.take(k as int));
                assert(gp.take(k as int + 1).last() == gp[k as int]);
                if k == 0 {
                    assert(join_semi(gp.take(1)) == gp.take(1)[0]);
                    assert(gp.take(1)[0] == gp[0]);
                }
                assert(esc@ =~= seq!['\x1b', '['] + join_semi(gp.take(k as int + 1)));
            }
            k = k + 1;
        }
        proof {
            assert(gp.take(gp.len() as int) =~= gp);
        }
        esc.append("m");
        proof {
            reveal_strlit("m");
            assert(esc@ =~= self.escape_spec());
        }
        esc
    }

    /// Sets the background color; a later call overwrites it.
    pub fn background(&mut self, background: RGBColor)
        ensures
            *final(self) == (ColorAnsi { background: Some(background), ..*old(self) }),
    {
        self.background = Some(background);
    }

    /// Sets the foreground color; a later call overwrites it.
    pub fn foreground(&mut self, foreground: RGBColor)
        ensures
            *final(self) == (ColorAnsi { foreground: Some(foreground), ..*old(self) }),
    {
        self.foreground = Some(foreground);
    }

    /// Sets the bold flag.
    pub fn bold(&mut self, bold: bool)
        ensures
            *final(self) == (ColorAnsi { bold, ..*old(self) }),
    {
        self.bold = bold;
    }

    /// Sets the underline flag.
    pub fn underline(&mut self, underline: bool)
        ensures
            *final(self) == (ColorAnsi { underline, ..*old(self) }),
    {
        self.underline = underline;
    }
}

/// The `R;G;B` channel triplet of an escape-sequence part.
fn channel_triplet(c: &RGBColor) -> (r: String)
    ensures
        r@ == channel_triplet_seq(*c),
{
    let mut r = dec3_u16(c.red.value as u16);
    r.append(";");
    let g = dec3_u16(c.green.value as u16);
    r.append(g.as_str());
    r.append(";");
    let b = dec3_u16(c.blue.value as u16);
    r.append(b.as_str());
    proof {
        reveal_strlit(";");
        assert(r@ =~= channel_triplet_seq(*c));
    }
    r
}

} // verus!
