//! RGB color triples and their flat byte layout, shared by the persistence
//! record and the hardware report encoding.

use vstd::prelude::*;
use vstd::string::StringExecFns;

verus! {

/// One color, a triple of 8-bit channels.
#[derive(Clone, Copy, PartialEq, Eq, Structural, Debug)]
pub struct RGB {
    pub r: u8,
    pub g: u8,
    pub b: u8,
}

impl RGB {
    pub fn new(r: u8, g: u8, b: u8) -> (c: RGB)
        ensures
            c == (RGB { r, g, b }),
    {
        RGB { r, g, b }
    }

    /// The printable form of this color.
    pub fn to_s(&self) -> (s: String)
        ensures
            s@ == rgb_chars(*self),
    {
        let mut s = String::from_str("<RGB: ");
        s.append(u8_to_string(self.r).as_str());
        s.append(", ");
        s.append(u8_to_string(self.g).as_str());
        s.append(", ");
        s.append(u8_to_string(self.b).as_str());
        s.append(">");
        proof {
            assert(s@ =~= rgb_chars(*self));
        }
        s
    }
}


/// The character for one decimal digit.
pub open spec fn digit_char(d: u8) -> char {
    if d == 0 {
        '0'
    } else if d == 1 {
        '1'
    } else if d == 2 {
        '2'
    } else if d == 3 {
        '3'
    } else if d == 4 {
        '4'
    } else if d == 5 {
        '5'
    } else if d == 6 {
        '6'
    } else if d == 7 {
        '7'
    } else if d == 8 {
        '8'
    } else {
        '9'
    }
}

/// The decimal digits of a channel value, without leading zeros.
pub open spec fn u8_dec_chars(b: u8) -> Seq<char> {
    if b >= 100 {
        seq![digit_char(b / 100), digit_char((b / 10) % 10), digit_char(b % 10)]
    } else if b >= 10 {
        seq![digit_char(b / 10), digit_char(b % 10)]
    } else {
        seq![digit_char(b)]
    }
}

/// The printable form of a color.
pub open spec fn rgb_chars(c: RGB) -> Seq<char> {
    "<RGB: "@ + u8_dec_chars(c.r) + ", "@ + u8_dec_chars(c.g) + ", "@ + u8_dec_chars(c.b) + ">"@
}

fn digit_str(d: u8) -> (r: &'static str)
    requires
        d <= 9,
    ensures
        r@ == seq![digit_char(d)],
{
    proof {
        reveal_strlit("0");
        reveal_strlit("1");
        reveal_strlit("2");
        reveal_strlit("3");
        reveal_strlit("4");
        reveal_strlit("5");
        reveal_strlit("6");
        reveal_strlit("7");
        reveal_strlit("8");
        reveal_strlit("9");
    }
    match d {
        0 => "0",
        1 => "1",
        2 => "2",
        3 => "3",
        4 => "4",
        5 => "5",
        6 => "6",
        7 => "7",
        8 => "8",
        _ => "9",
    }
}

fn u8_to_string(b: u8) -> (s: String)
    ensures
        s@ == u8_dec_chars(b),
{
    let mut s = String::new();
    if b >= 100 {
        proof {
            assert(b / 100 <= 9) by (nonlinear_arith)
                requires
                    b <= 255,
            ;
        }
        s.append(digit_str(b / 100));
        s.append(digit_str((b / 10) % 10));
    } else if b >= 10 {
        proof {
            assert(b / 10 <= 9) by (nonlinear_arith)
                requires
                    b <= 99,
            ;
        }
        s.append(digit_str(b / 10));
    }
    s.append(digit_str(b % 10));
    proof {
        assert(s@ =~= u8_dec_chars(b));
    }
    s
}

/// The bytes of a color sequence: three per color, in order.
pub open spec fn colors_bytes(cs: Seq<RGB>) -> Seq<u8>
    decreases cs.len(),
{
    if cs.len() == 0 {
        seq![]
    } else {
        seq![cs[0].r, cs[0].g, cs[0].b] + colors_bytes(cs.drop_first())
    }
}

pub proof fn lemma_colors_bytes_len(cs: Seq<RGB>)
    ensures
        colors_bytes(cs).len() == 3 * cs.len(),
    decreases cs.len(),
{
    if cs.len() > 0 {
        lemma_colors_bytes_len(cs.drop_first());
    }
}

pub proof fn lemma_colors_bytes_index(cs: Seq<RGB>, i: int)
    requires
        0 <= i < cs.len(),
    ensures
        colors_bytes(cs)[3 * i] == cs[i].r,
        colors_bytes(cs)[3 * i + 1] == cs[i].g,
        colors_bytes(cs)[3 * i + 2] == cs[i].b,
    decreases i,
{
    lemma_colors_bytes_len(cs);
    if i > 0 {
        lemma_colors_bytes_index(cs.drop_first(), i - 1);
        lemma_colors_bytes_len(cs.drop_first());
    }
}

pub proof fn lemma_colors_bytes_push(cs: Seq<RGB>, c: RGB)
    ensures
        colors_bytes(cs.push(c)) == colors_bytes(cs) + seq![c.r, c.g, c.b],
    decreases cs.len(),
{
    if cs.len() == 0 {
        assert(cs.push(c).drop_first() =~= Seq::<RGB>::empty());
        assert(colors_bytes(cs.push(c).drop_first()) =~= Seq::<u8>::empty());
        assert(colors_bytes(cs.push(c)) =~= colors_bytes(cs) + seq![c.r, c.g, c.b]);
    } else {
        assert(cs.push(c).drop_first() =~= cs.drop_first().push(c));
        lemma_colors_bytes_push(cs.drop_first(), c);
        assert(colors_bytes(cs.push(c)) =~= colors_bytes(cs) + seq![c.r, c.g, c.b]);
    }
}

} // verus!
