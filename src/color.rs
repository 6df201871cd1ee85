use vstd::prelude::*;

verus! {

/// An RGB color with three 8-bit channels.
#[derive(Clone, Copy, Debug, PartialEq, Eq, Structural)]
pub struct Color {
    pub r: u8,
    pub g: u8,
    pub b: u8,
}

/// The character of a hexadecimal digit `d < 16`, upper case.
pub open spec fn hex_digit_char(d: int) -> char {
    if d < 10 {
        (48 + d) as u8 as char
    } else {
        (55 + d) as u8 as char
    }
}

/// The character of a decimal digit `d < 10`.
pub open spec fn dec_digit_char(d: int) -> char {
    (48 + d) as u8 as char
}

/// The decimal digits of `n`, without padding.
pub open spec fn dec_digits(n: nat) -> Seq<char>
    decreases n,
{
    if n < 10 {
        seq![dec_digit_char(n as int)]
    } else {
        dec_digits(n / 10).push(dec_digit_char((n % 10) as int))
    }
}

/// The two upper-case hexadecimal digits of a channel.
pub open spec fn hex_byte(v: u8) -> Seq<char> {
    seq![hex_digit_char(v as int / 16), hex_digit_char(v as int % 16)]
}

/// `#RRGGBB`, upper case, two digits per channel.
pub open spec fn hex_text(c: Color) -> Seq<char> {
    seq!['#'] + hex_byte(c.r) + hex_byte(c.g) + hex_byte(c.b)
}

/// `R,G,B` in decimal, without padding.
pub open spec fn dec_text(c: Color) -> Seq<char> {
    dec_digits(c.r as nat) + seq![','] + dec_digits(c.g as nat) + seq![','] + dec_digits(
        c.b as nat,
    )
}

/// The label of a color: decimal channels or the hexadecimal form.
pub open spec fn label_text(c: Color, decimal: bool) -> Seq<char> {
    if decimal {
        dec_text(c)
    } else {
        hex_text(c)
    }
}

/// The value of a hexadecimal digit, in either case.
pub open spec fn hex_value(ch: char) -> Option<int> {
    if '0' <= ch && ch <= '9' {
        Some(ch as int - 48)
    } else if 'A' <= ch && ch <= 'F' {
        Some(ch as int - 55)
    } else if 'a' <= ch && ch <= 'f' {
        Some(ch as int - 87)
    } else {
        None
    }
}

/// The channel written by the two hexadecimal digits at `i` and `i + 1`.
pub open spec fn hex_pair(s: Seq<char>, i: int) -> int {
    hex_value(s[i]).unwrap() * 16 + hex_value(s[i + 1]).unwrap()
}

/// The color that a `#RRGGBB` text names (either case), if it is one.
pub open spec fn parse_hex(s: Seq<char>) -> Option<Color> {
    if s.len() == 7 && s[0] == '#' && (forall|i: int| 1 <= i < 7 ==> (#[trigger] hex_value(s[i])).is_some()) {
        Some(Color { r: hex_pair(s, 1) as u8, g: hex_pair(s, 3) as u8, b: hex_pair(s, 5) as u8 })
    } else {
        None
    }
}

proof fn lemma_dec_digits_len(n: nat)
    requires
        n < 256,
    ensures
        1 <= dec_digits(n).len() <= 3,
{
    reveal_with_fuel(dec_digits, 3);
}

/// A label is never longer than eleven characters.
pub proof fn lemma_label_len(c: Color, decimal: bool)
    ensures
        1 <= label_text(c, decimal).len() <= 11,
{
    lemma_dec_digits_len(c.r as nat);
    lemma_dec_digits_len(c.g as nat);
    lemma_dec_digits_len(c.b as nat);
}

fn hex_digit(d: u8) -> (ch: char)
    requires
        d < 16,
    ensures
        ch == hex_digit_char(d as int),
{
    if d < 10 {
        (48 + d) as char
    } else {
        (55 + d) as char
    }
}

fn push_hex_byte(s: &mut String, v: u8)
    ensures
        final(s)@ == old(s)@ + hex_byte(v),
{
    s.push(hex_digit(v / 16));
    s.push(hex_digit(v % 16));
    assert(final(s)@ =~= old(s)@ + hex_byte(v));
}

fn push_dec(s: &mut String, v: u8)
    ensures
        final(s)@ == old(s)@ + dec_digits(v as nat),
{
    proof {
        reveal_with_fuel(dec_digits, 3);
    }
    if v >= 100 {
        s.push((48 + v / 100) as char);
    }
    if v >= 10 {
        s.push((48 + v / 10 % 10) as char);
    }
    s.push((48 + v % 10) as char);
    proof {
        if v >= 100 {
            assert(v as nat / 10 / 10 == v / 100);
            assert(dec_digits(v as nat / 10 / 10) == seq![dec_digit_char((v / 100) as int)]);
        }
    }
    assert(final(s)@ =~= old(s)@ + dec_digits(v as nat));
}

proof fn lemma_hex_digit_value(d: int)
    requires
        0 <= d < 16,
    ensures
        hex_value(hex_digit_char(d)) == Some(d),
{
}

/// Reading back the hexadecimal form of a color gives the same color.
pub proof fn lemma_hex_round_trip(c: Color)
    ensures
        parse_hex(hex_text(c)) == Some(c),
{
    let s = hex_text(c);
    assert(s.len() == 7);
    lemma_hex_digit_value(c.r as int / 16);
    lemma_hex_digit_value(c.r as int % 16);
    lemma_hex_digit_value(c.g as int / 16);
    lemma_hex_digit_value(c.g as int % 16);
    lemma_hex_digit_value(c.b as int / 16);
    lemma_hex_digit_value(c.b as int % 16);
    assert(s[1] == hex_digit_char(c.r as int / 16));
    assert(s[2] == hex_digit_char(c.r as int % 16));
    assert(s[3] == hex_digit_char(c.g as int / 16));
    assert(s[4] == hex_digit_char(c.g as int % 16));
    assert(s[5] == hex_digit_char(c.b as int / 16));
    assert(s[6] == hex_digit_char(c.b as int % 16));
    assert(forall|i: int| 1 <= i < 7 ==> (#[trigger] hex_value(s[i])).is_some());
}

fn hex_digit_value(ch: char) -> (v: Option<u8>)
    ensures
        v.is_some() == hex_value(ch).is_some(),
        v.is_some() ==> v.unwrap() as int == hex_value(ch).unwrap(),
{
    if '0' <= ch && ch <= '9' {
        Some((ch as u32 - 48) as u8)
    } else if 'A' <= ch && ch <= 'F' {
        Some((ch as u32 - 55) as u8)
    } else if 'a' <= ch && ch <= 'f' {
        Some((ch as u32 - 87) as u8)
    } else {
        None
    }
}

impl Color {
    pub fn new(r: u8, g: u8, b: u8) -> (c: Color)
        ensures
            c == (Color { r, g, b }),
    {
        Color { r, g, b }
    }

    /// `#RRGGBB`, upper case.
    pub fn to_hex_string(&self) -> (s: String)
        ensures
            s@ == hex_text(*self),
    {
        let mut s = String::new();
        s.push('#');
        push_hex_byte(&mut s, self.r);
        push_hex_byte(&mut s, self.g);
        push_hex_byte(&mut s, self.b);
        assert(s@ =~= hex_text(*self));
        s
    }

    /// `R,G,B` in decimal.
    pub fn to_decimal_string(&self) -> (s: String)
        ensures
            s@ == dec_text(*self),
    {
        let mut s = String::new();
        push_dec(&mut s, self.r);
        s.push(',');
        push_dec(&mut s, self.g);
        s.push(',');
        push_dec(&mut s, self.b);
        assert(s@ =~= dec_text(*self));
        s
    }

    /// The color that a `#RRGGBB` text names, with digits in either case;
    /// `None` for any other text.
    pub fn from_hex(s: &str) -> (c: Option<Color>)
        ensures
            c == parse_hex(s@),
    {
        if s.unicode_len() != 7 {
            return None;
        }
        if s.get_char(0) != '#' {
            return None;
        }
        let mut vals: Vec<u8> = Vec::new();
        let mut i: usize = 1;
        while i < 7
            invariant
                1 <= i <= 7,
                s@.len() == 7,
                vals@.len() == i - 1,
                forall|k: int|
                    1 <= k < i ==> (#[trigger] hex_value(s@[k])).is_some() && hex_value(s@[k]).unwrap()
                        == vals@[k - 1] as int,
            decreases 7 - i,
        {
            match hex_digit_value(s.get_char(i)) {
                None => {
                    return None;
                },
                Some(v) => {
                    vals.push(v);
                },
            }
            i = i + 1;
        }
        assert(hex_value(s@[1]).is_some() && hex_value(s@[2]).is_some());
        assert(hex_value(s@[3]).is_some() && hex_value(s@[4]).is_some());
        assert(hex_value(s@[5]).is_some() && hex_value(s@[6]).is_some());
        Some(
            Color {
                r: vals[0] * 16 + vals[1],
                g: vals[2] * 16 + vals[3],
                b: vals[4] * 16 + vals[5],
            },
        )
    }

    /// The label of the color, in decimal or in hexadecimal form.
    pub fn label(&self, decimal: bool) -> (s: String)
        ensures
            s@ == label_text(*self, decimal),
    {
        if decimal {
            self.to_decimal_string()
        } else {
            self.to_hex_string()
        }
    }
}

} // verus!
