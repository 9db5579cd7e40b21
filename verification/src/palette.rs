//! Named colours and the style of each candidate line.

use vstd::prelude::*;

verus! {

/// The colour triple that a colour name stands for: gray and orange are
/// known, every other name is black.
pub open spec fn rgb_of(name: Seq<char>) -> (u8, u8, u8) {
    if name == "gray"@ {
        (128u8, 128u8, 128u8)
    } else if name == "orange"@ {
        (255u8, 165u8, 0u8)
    } else {
        (0u8, 0u8, 0u8)
    }
}

/// Whether two pieces of text hold the same characters.
pub fn same_text(a: &str, b: &str) -> (same: bool)
    ensures
        same == (a@ == b@),
{
    let left = a.to_owned();
    let right = b.to_owned();
    left == right
}

/// Looks a colour name up; unknown names give black.
pub fn color_to_rgb(color: &str) -> (rgb: (u8, u8, u8))
    ensures
        rgb == rgb_of(color@),
{
    if same_text(color, "gray") {
        (128, 128, 128)
    } else if same_text(color, "orange") {
        (255, 165, 0)
    } else {
        (0, 0, 0)
    }
}

/// The character of one decimal digit.
pub open spec fn digit_char(d: nat) -> char {
    if d == 0 {
        '0'
    } else if d == 1 {
        '1'
    } else if d == 2 {
        '2'
    } else if d == 3 {
        '3'
    } else if d == 4 {
        '4'
    } else if d == 5 {
        '5'
    } else if d == 6 {
        '6'
    } else if d == 7 {
        '7'
    } else if d == 8 {
        '8'
    } else {
        '9'
    }
}

/// A natural number written in base ten, without leading zeros.
pub open spec fn decimal(n: nat) -> Seq<char>
    decreases n,
{
    if n < 10 {
        seq![digit_char(n)]
    } else {
        decimal(n / 10).push(digit_char(n % 10))
    }
}

fn digit_text(d: usize) -> (text: &'static str)
    requires
        d < 10,
    ensures
        text@ == seq![digit_char(d as nat)],
{
    proof {
        reveal_strlit("0");
        reveal_strlit("1");
        reveal_strlit("2");
        reveal_strlit("3");
        reveal_strlit("4");
        reveal_strlit("5");
        reveal_strlit("6");
        reveal_strlit("7");
        reveal_strlit("8");
        reveal_strlit("9");
    }
    let text = if d == 0 {
        "0"
    } else if d == 1 {
        "1"
    } else if d == 2 {
        "2"
    } else if d == 3 {
        "3"
    } else if d == 4 {
        "4"
    } else if d == 5 {
        "5"
    } else if d == 6 {
        "6"
    } else if d == 7 {
        "7"
    } else if d == 8 {
        "8"
    } else {
        "9"
    };
    assert(text@ =~= seq![digit_char(d as nat)]);
    text
}

/// Appends a number in base ten to a text.
pub fn push_decimal(out: &mut String, n: usize)
    ensures
        final(out)@ == old(out)@ + decimal(n as nat),
    decreases n,
{
    if n >= 10 {
        push_decimal(out, n / 10);
    }
    out.append(digit_text(n % 10));
    assert(final(out)@ =~= old(out)@ + decimal(n as nat));
}

/// A colour with its opacity in tenths: 0 is transparent, 10 is opaque.
#[derive(Clone, Copy, Debug, PartialEq, Eq, Structural)]
pub struct Rgba {
    pub red: u8,
    pub green: u8,
    pub blue: u8,
    pub alpha_tenths: u8,
}

/// The colour of the candidate line at `index` among `count` lines: the last
/// line is orange at opacity 8, every other line gray at opacity 3.
pub open spec fn line_color_of(index: nat, count: nat) -> Rgba {
    if index + 1 == count {
        Rgba { red: 255, green: 165, blue: 0, alpha_tenths: 8 }
    } else {
        Rgba { red: 128, green: 128, blue: 128, alpha_tenths: 3 }
    }
}

/// Picks the colour of one candidate line by its place among the lines.
pub fn line_color(index: usize, count: usize) -> (color: Rgba)
    ensures
        color == line_color_of(index as nat, count as nat),
{
    let last = count > 0 && index == count - 1;
    let (red, green, blue) = if last {
        color_to_rgb("orange")
    } else {
        color_to_rgb("gray")
    };
    let alpha_tenths: u8 = if last {
        8
    } else {
        3
    };
    proof {
        reveal_strlit("orange");
        reveal_strlit("gray");
        assert("orange"@ != "gray"@) by {
            assert("orange"@.len() == 6);
            assert("gray"@.len() == 4);
        }
    }
    Rgba { red, green, blue, alpha_tenths }
}

/// An opacity in tenths written as a decimal fraction: "0", "0.1" to "0.9",
/// and "1" for ten tenths or more.
pub open spec fn alpha_text(tenths: nat) -> Seq<char> {
    if tenths == 0 {
        seq!['0']
    } else if tenths >= 10 {
        seq!['1']
    } else {
        seq!['0', '.'].push(digit_char(tenths))
    }
}

/// The colour as a style sheet value, such as `rgba(255, 165, 0, 0.8)`.
pub open spec fn css_of(color: Rgba) -> Seq<char> {
    seq!['r', 'g', 'b', 'a', '('] + decimal(color.red as nat) + seq![',', ' '] + decimal(
        color.green as nat,
    ) + seq![',', ' '] + decimal(color.blue as nat) + seq![',', ' '] + alpha_text(
        color.alpha_tenths as nat,
    ) + seq![')']
}

impl Rgba {
    /// Writes the colour as a style sheet value.
    pub fn css(&self) -> (text: String)
        ensures
            text@ == css_of(*self),
    {
        proof {
            reveal_strlit("rgba(");
            reveal_strlit(", ");
            reveal_strlit(")");
            reveal_strlit("0");
            reveal_strlit("1");
            reveal_strlit("0.");
        }
        let mut text = String::new();
        text.append("rgba(");
        push_decimal(&mut text, self.red as usize);
        text.append(", ");
        push_decimal(&mut text, self.green as usize);
        text.append(", ");
        push_decimal(&mut text, self.blue as usize);
        text.append(", ");
        if self.alpha_tenths == 0 {
            text.append("0");
        } else if self.alpha_tenths >= 10 {
            text.append("1");
        } else {
            text.append("0.");
            text.append(digit_text(self.alpha_tenths as usize));
        }
        text.append(")");
        assert(text@ =~= css_of(*self));
        text
    }
}

} // verus!
