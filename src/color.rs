use vstd::prelude::*;
use vstd::string::{StringExecFns, StringSliceAdditionalSpecFns};

verus! {

/// An RGB colour.
#[derive(Clone, Copy, Debug, PartialEq, Eq, Structural)]
pub struct Color(pub u8, pub u8, pub u8);

/// Value of an ASCII hexadecimal digit, either case.
pub open spec fn hex_value(b: u8) -> Option<int> {
    if 48 <= b <= 57 {
        Some(b - 48)
    } else if 65 <= b <= 70 {
        Some(b - 55)
    } else if 97 <= b <= 102 {
        Some(b - 87)
    } else {
        None
    }
}

/// Byte made of the two hexadecimal digits at `i` and `i + 1`.
pub open spec fn hex_byte_at(d: Seq<u8>, i: int) -> Option<u8> {
    match (hex_value(d[i]), hex_value(d[i + 1])) {
        (Some(hi), Some(lo)) => Some((hi * 16 + lo) as u8),
        _ => None,
    }
}

/// Colour written as six hexadecimal digits, optionally after a `#`; anything after the
/// sixth digit is ignored.
pub open spec fn color_of(b: Seq<u8>) -> Option<Color> {
    let d = if b.len() > 0 && b[0] == 35 {
        b.skip(1)
    } else {
        b
    };
    if d.len() < 6 {
        None
    } else {
        match (hex_byte_at(d, 0), hex_byte_at(d, 2), hex_byte_at(d, 4)) {
            (Some(r), Some(g), Some(b)) => Some(Color(r, g, b)),
            _ => None,
        }
    }
}

/// Upper-case hexadecimal digit for `v < 16`.
pub open spec fn hex_digit(v: int) -> char {
    if v < 10 {
        (48 + v) as char
    } else {
        (55 + v) as char
    }
}

/// `#RRGGBB` with upper-case digits.
pub open spec fn hex_code_of(c: Color) -> Seq<char> {
    seq![
        '#',
        hex_digit(c.0 as int / 16),
        hex_digit(c.0 as int % 16),
        hex_digit(c.1 as int / 16),
        hex_digit(c.1 as int % 16),
        hex_digit(c.2 as int / 16),
        hex_digit(c.2 as int % 16),
    ]
}

fn hex_value_exec(b: u8) -> (r: Option<u8>)
    ensures
        r.is_some() == hex_value(b).is_some(),
        r.is_some() ==> r.unwrap() == hex_value(b).unwrap(),
{
    if 48 <= b && b <= 57 {
        Some(b - 48)
    } else if 65 <= b && b <= 70 {
        Some(b - 55)
    } else if 97 <= b && b <= 102 {
        Some(b - 87)
    } else {
        None
    }
}

fn hex_byte_exec(d: &[u8], i: usize) -> (r: Option<u8>)
    requires
        i + 1 < d@.len(),
    ensures
        r == hex_byte_at(d@, i as int),
{
    match (hex_value_exec(d[i]), hex_value_exec(d[i + 1])) {
        (Some(hi), Some(lo)) => Some(hi * 16 + lo),
        _ => None,
    }
}

/// The upper-case hexadecimal digit for `v < 16`, as a one-character string.
fn hex_digit_str(v: u8) -> (r: &'static str)
    requires
        v < 16,
    ensures
        r@ == seq![hex_digit(v as int)],
{
    if v == 0 {
        proof {
            reveal_strlit("0");
        }
        "0"
    } else if v == 1 {
        proof {
            reveal_strlit("1");
        }
        "1"
    } else if v == 2 {
        proof {
            reveal_strlit("2");
        }
        "2"
    } else if v == 3 {
        proof {
            reveal_strlit("3");
        }
        "3"
    } else if v == 4 {
        proof {
            reveal_strlit("4");
        }
        "4"
    } else if v == 5 {
        proof {
            reveal_strlit("5");
        }
        "5"
    } else if v == 6 {
        proof {
            reveal_strlit("6");
        }
        "6"
    } else if v == 7 {
        proof {
            reveal_strlit("7");
        }
        "7"
    } else if v == 8 {
        proof {
            reveal_strlit("8");
        }
        "8"
    } else if v == 9 {
        proof {
            reveal_strlit("9");
        }
        "9"
    } else if v == 10 {
        proof {
            reveal_strlit("A");
        }
        "A"
    } else if v == 11 {
        proof {
            reveal_strlit("B");
        }
        "B"
    } else if v == 12 {
        proof {
            reveal_strlit("C");
        }
        "C"
    } else if v == 13 {
        proof {
            reveal_strlit("D");
        }
        "D"
    } else if v == 14 {
        proof {
            reveal_strlit("E");
        }
        "E"
    } else {
        proof {
            reveal_strlit("F");
        }
        "F"
    }
}

/// `#RRGGBB` for the three channels.
fn hex_code(r: u8, g: u8, b: u8) -> (s: String)
    ensures
        s@ == hex_code_of(Color(r, g, b)),
{
    proof {
        reveal_strlit("#");
    }
    let mut s = String::from_str("#");
    s.append(hex_digit_str(r / 16));
    s.append(hex_digit_str(r % 16));
    s.append(hex_digit_str(g / 16));
    s.append(hex_digit_str(g % 16));
    s.append(hex_digit_str(b / 16));
    s.append(hex_digit_str(b % 16));
    assert(s@ =~= hex_code_of(Color(r, g, b)));
    s
}

impl Color {
    /// Reads a colour from its hexadecimal code, `#RRGGBB` or `RRGGBB`.
    pub fn from_hex(s: &str) -> (r: Option<Color>)
        ensures
            r == color_of(s.spec_bytes()),
    {
        let b = s.as_bytes();
        let start: usize = if b.len() > 0 && b[0] == 35 { 1 } else { 0 };
        proof {
            let d = if b@.len() > 0 && b@[0] == 35 { b@.skip(1) } else { b@ };
            assert(d =~= b@.skip(start as int));
        }
        if b.len() - start < 6 {
            return None;
        }
        let ghost d = b@.skip(start as int);
        let r = hex_byte_exec(b, start);
        let g = hex_byte_exec(b, start + 2);
        let bl = hex_byte_exec(b, start + 4);
        proof {
            assert(d[0] == b@[start as int] && d[1] == b@[start + 1]);
            assert(d[2] == b@[start + 2] && d[3] == b@[start + 3]);
            assert(d[4] == b@[start + 4] && d[5] == b@[start + 5]);
        }
        match (r, g, bl) {
            (Some(r), Some(g), Some(bl)) => Some(Color(r, g, bl)),
            _ => None,
        }
    }

    /// The colour's code, `#RRGGBB` with upper-case digits.
    pub fn to_hex_string(&self) -> (r: String)
        ensures
            r@ == hex_code_of(*self),
    {
        hex_code(self.0, self.1, self.2)
    }
}

/// Each channel halfway between the two colours, rounded down.
pub fn blend_colors(color_1: Color, color_2: Color) -> (r: Color)
    ensures
        r.0 == (color_1.0 + color_2.0) / 2,
        r.1 == (color_1.1 + color_2.1) / 2,
        r.2 == (color_1.2 + color_2.2) / 2,
{
    let r = ((color_1.0 as u16 + color_2.0 as u16) / 2) as u8;
    let g = ((color_1.1 as u16 + color_2.1 as u16) / 2) as u8;
    let b = ((color_1.2 as u16 + color_2.2 as u16) / 2) as u8;
    Color(r, g, b)
}

/// Reading the code a colour writes gives the colour back.
pub proof fn lemma_hex_round_trip(c: Color)
    ensures
        color_of(hex_code_of(c).map_values(|ch: char| ch as u8)) == Some(c),
{
    let b = hex_code_of(c).map_values(|ch: char| ch as u8);
    let d = b.skip(1);
    assert(b[0] == 35);
    assert(d.len() == 6);
    assert(d[0] == hex_digit(c.0 as int / 16) as u8);
    assert(d[1] == hex_digit(c.0 as int % 16) as u8);
    assert(d[2] == hex_digit(c.1 as int / 16) as u8);
    assert(d[3] == hex_digit(c.1 as int % 16) as u8);
    assert(d[4] == hex_digit(c.2 as int / 16) as u8);
    assert(d[5] == hex_digit(c.2 as int % 16) as u8);
}

} // verus!
