//! Colour themes: sixteen base colours, read from a base16 theme file whose
//! entries are hexadecimal RGB values.
use vstd::prelude::*;
use vstd::utf8::encode_utf8;

verus! {

/// A 24-bit colour.
#[derive(Clone, Copy, Debug, PartialEq, Eq, Structural)]
pub struct Rgb {
    pub r: u8,
    pub g: u8,
    pub b: u8,
}

impl Rgb {
    /// The colour of `0xRRGGBB`: red from bits 16..24, green from bits 8..16,
    /// blue from bits 0..8; higher bits are ignored.
    pub fn from_u32(u: u32) -> (c: Rgb)
        ensures
            c.r == (u / 65536) % 256,
            c.g == (u / 256) % 256,
            c.b == u % 256,
    {
        Rgb { r: ((u / 65536) % 256) as u8, g: ((u / 256) % 256) as u8, b: (u % 256) as u8 }
    }
}

/// The sixteen base colours of a theme.
#[derive(Clone, Copy, Debug, PartialEq, Eq, Structural)]
pub struct Theme {
    pub base00: Rgb,
    pub base01: Rgb,
    pub base02: Rgb,
    pub base03: Rgb,
    pub base04: Rgb,
    pub base05: Rgb,
    pub base06: Rgb,
    pub base07: Rgb,
    pub base08: Rgb,
    pub base09: Rgb,
    pub base0a: Rgb,
    pub base0b: Rgb,
    pub base0c: Rgb,
    pub base0d: Rgb,
    pub base0e: Rgb,
    pub base0f: Rgb,
}

pub open spec fn rgb_of(u: u32) -> Rgb {
    Rgb { r: ((u / 65536) % 256) as u8, g: ((u / 256) % 256) as u8, b: (u % 256) as u8 }
}

/// The standard theme (`colors.yaml`).
pub open spec fn standard_theme_spec() -> Theme {
    Theme {
        base00: rgb_of(0x111111u32),
        base01: rgb_of(0x333333u32),
        base02: rgb_of(0x555555u32),
        base03: rgb_of(0x777777u32),
        base04: rgb_of(0x999999u32),
        base05: rgb_of(0xbbbbbbu32),
        base06: rgb_of(0xddddddu32),
        base07: rgb_of(0xffffffu32),
        base08: rgb_of(0xff4136u32),
        base09: rgb_of(0xff851bu32),
        base0a: rgb_of(0xffdc00u32),
        base0b: rgb_of(0x2ecc40u32),
        base0c: rgb_of(0x7fdbffu32),
        base0d: rgb_of(0x0074d9u32),
        base0e: rgb_of(0xb10dc9u32),
        base0f: rgb_of(0x85144bu32),
    }
}

/// The standard theme (`colors.yaml`).
pub fn standard_theme() -> (t: Theme)
    ensures
        t == standard_theme_spec(),
{
    Theme {
        base00: Rgb::from_u32(0x111111),
        base01: Rgb::from_u32(0x333333),
        base02: Rgb::from_u32(0x555555),
        base03: Rgb::from_u32(0x777777),
        base04: Rgb::from_u32(0x999999),
        base05: Rgb::from_u32(0xbbbbbb),
        base06: Rgb::from_u32(0xdddddd),
        base07: Rgb::from_u32(0xffffff),
        base08: Rgb::from_u32(0xff4136),
        base09: Rgb::from_u32(0xff851b),
        base0a: Rgb::from_u32(0xffdc00),
        base0b: Rgb::from_u32(0x2ecc40),
        base0c: Rgb::from_u32(0x7fdbff),
        base0d: Rgb::from_u32(0x0074d9),
        base0e: Rgb::from_u32(0xb10dc9),
        base0f: Rgb::from_u32(0x85144b),
    }
}

/// Value of a hexadecimal digit byte (`0-9`, `a-f`, `A-F`).
pub open spec fn hex_digit(b: u8) -> Option<nat> {
    if 48 <= b <= 57 {
        Some((b - 48) as nat)
    } else if 97 <= b <= 102 {
        Some((b - 87) as nat)
    } else if 65 <= b <= 70 {
        Some((b - 55) as nat)
    } else {
        None
    }
}

/// Value of a sequence of hexadecimal digits, most significant first.
pub open spec fn hex_digits_value(s: Seq<u8>) -> Option<nat>
    decreases s.len(),
{
    if s.len() == 0 {
        Some(0)
    } else {
        match (hex_digits_value(s.drop_last()), hex_digit(s.last())) {
            (Some(v), Some(d)) => Some(v * 16 + d),
            _ => None,
        }
    }
}

/// What `u32::from_str_radix(s, 16)` accepts: an optional `+` then one or
/// more hexadecimal digits whose value fits in 32 bits.
pub open spec fn hex_u32(s: Seq<u8>) -> Option<u32> {
    let digits = if s.len() > 0 && s[0] == 43 { s.drop_first() } else { s };
    if digits.len() == 0 {
        None
    } else {
        match hex_digits_value(digits) {
            Some(v) => if v <= u32::MAX { Some(v as u32) } else { None },
            None => None,
        }
    }
}

proof fn lemma_hex_digits_monotone(s: Seq<u8>, i: int)
    requires
        0 <= i <= s.len(),
        hex_digits_value(s) is Some,
    ensures
        hex_digits_value(s.take(i)) is Some,
        hex_digits_value(s.take(i))->0 <= hex_digits_value(s)->0,
    decreases s.len() - i,
{
    if i < s.len() {
        assert(s.take(i + 1).drop_last() =~= s.take(i));
        lemma_hex_digits_monotone(s, i + 1);
        assert(s.take(i + 1).last() == s[i]);
    } else {
        assert(s.take(i) =~= s);
    }
}

/// Parses a hexadecimal `u32` as `u32::from_str_radix(s, 16)` does.
pub fn parse_hex_u32(s: &str) -> (r: Option<u32>)
    ensures
        r == hex_u32(encode_utf8(s@)),
{
    let bytes = s.as_bytes();
    let ghost all = bytes@;
    let start: usize = if bytes.len() > 0 && bytes[0] == 43u8 { 1 } else { 0 };
    let ghost digits = if all.len() > 0 && all[0] == 43 { all.drop_first() } else { all };
    assert(digits =~= all.subrange(start as int, all.len() as int));
    if start == bytes.len() {
        return None;
    }
    let mut value: u64 = 0;
    let mut i: usize = start;
    while i < bytes.len()
        invariant
            start <= i <= bytes@.len(),
            bytes@ == all,
            all == encode_utf8(s@),
            digits == (if all.len() > 0 && all[0] == 43 { all.drop_first() } else { all }),
            digits.len() > 0,
            digits =~= all.subrange(start as int, all.len() as int),
            hex_digits_value(digits.take(i - start)) == Some(value as nat),
            value <= u32::MAX,
        decreases bytes.len() - i,
    {
        let b = bytes[i];
        let d: u64 = if 48u8 <= b && b <= 57u8 {
            (b - 48u8) as u64
        } else if 97u8 <= b && b <= 102u8 {
            (b - 87u8) as u64
        } else if 65u8 <= b && b <= 70u8 {
            (b - 55u8) as u64
        } else {
            proof {
                let k = i - start;
                assert(digits.take(k + 1).last() == b);
                assert(digits.take(k + 1).drop_last() =~= digits.take(k));
                if hex_digits_value(digits) is Some {
                    lemma_hex_digits_monotone(digits, k + 1);
                }
            }
            return None;
        };
        proof {
            let k = i - start;
            assert(digits.take(k + 1).last() == b);
            assert(digits.take(k + 1).drop_last() =~= digits.take(k));
        }
        let next = value * 16 + d;
        if next > 4294967295u64 {
            proof {
                let k = i - start;
                if hex_digits_value(digits) is Some {
                    lemma_hex_digits_monotone(digits, k + 1);
                }
            }
            return None;
        }
        value = next;
        i = i + 1;
    }
    assert(digits.take(digits.len() as int) =~= digits);
    Some(value as u32)
}

/// The sixteen entries of a theme file, as written there.
pub struct ThemeStrings {
    pub base00: String,
    pub base01: String,
    pub base02: String,
    pub base03: String,
    pub base04: String,
    pub base05: String,
    pub base06: String,
    pub base07: String,
    pub base08: String,
    pub base09: String,
    pub base0a: String,
    pub base0b: String,
    pub base0c: String,
    pub base0d: String,
    pub base0e: String,
    pub base0f: String,
}

/// The value of a theme entry, read as `u32::from_str_radix(entry, 16)` reads
/// its UTF-8 bytes.
pub open spec fn entry_value(s: String) -> Option<u32> {
    hex_u32(encode_utf8(s@))
}

fn parse_entry(s: &String) -> (r: Option<u32>)
    ensures
        r == entry_value(*s),
{
    parse_hex_u32(s.as_str())
}

fn color_of_entry(s: &String) -> (c: Rgb)
    requires
        entry_value(*s) is Some,
    ensures
        c == rgb_of(entry_value(*s)->0),
{
    Rgb::from_u32(parse_entry(s).unwrap())
}

impl ThemeStrings {
    /// Every entry is a hexadecimal `u32`.
    pub open spec fn valid(&self) -> bool {
        &&& entry_value(self.base00) is Some
        &&& entry_value(self.base01) is Some
        &&& entry_value(self.base02) is Some
        &&& entry_value(self.base03) is Some
        &&& entry_value(self.base04) is Some
        &&& entry_value(self.base05) is Some
        &&& entry_value(self.base06) is Some
        &&& entry_value(self.base07) is Some
        &&& entry_value(self.base08) is Some
        &&& entry_value(self.base09) is Some
        &&& entry_value(self.base0a) is Some
        &&& entry_value(self.base0b) is Some
        &&& entry_value(self.base0c) is Some
        &&& entry_value(self.base0d) is Some
        &&& entry_value(self.base0e) is Some
        &&& entry_value(self.base0f) is Some
    }

    /// Whether every entry is a hexadecimal `u32`, so that `theme` can read
    /// them.
    pub fn is_valid(&self) -> (r: bool)
        ensures
            r == self.valid(),
    {
        parse_entry(&self.base00).is_some() && parse_entry(&self.base01).is_some()
            && parse_entry(&self.base02).is_some() && parse_entry(&self.base03).is_some()
            && parse_entry(&self.base04).is_some() && parse_entry(&self.base05).is_some()
            && parse_entry(&self.base06).is_some() && parse_entry(&self.base07).is_some()
            && parse_entry(&self.base08).is_some() && parse_entry(&self.base09).is_some()
            && parse_entry(&self.base0a).is_some() && parse_entry(&self.base0b).is_some()
            && parse_entry(&self.base0c).is_some() && parse_entry(&self.base0d).is_some()
            && parse_entry(&self.base0e).is_some() && parse_entry(&self.base0f).is_some()
    }

    /// The theme the entries describe: each entry's hexadecimal value read as
    /// `0xRRGGBB`.
    pub fn theme(&self) -> (t: Theme)
        requires
            self.valid(),
        ensures
            t.base00 == rgb_of(entry_value(self.base00)->0),
            t.base01 == rgb_of(entry_value(self.base01)->0),
            t.base02 == rgb_of(entry_value(self.base02)->0),
            t.base03 == rgb_of(entry_value(self.base03)->0),
            t.base04 == rgb_of(entry_value(self.base04)->0),
            t.base05 == rgb_of(entry_value(self.base05)->0),
            t.base06 == rgb_of(entry_value(self.base06)->0),
            t.base07 == rgb_of(entry_value(self.base07)->0),
            t.base08 == rgb_of(entry_value(self.base08)->0),
            t.base09 == rgb_of(entry_value(self.base09)->0),
            t.base0a == rgb_of(entry_value(self.base0a)->0),
            t.base0b == rgb_of(entry_value(self.base0b)->0),
            t.base0c == rgb_of(entry_value(self.base0c)->0),
            t.base0d == rgb_of(entry_value(self.base0d)->0),
            t.base0e == rgb_of(entry_value(self.base0e)->0),
            t.base0f == rgb_of(entry_value(self.base0f)->0),
    {
        Theme {
            base00: color_of_entry(&self.base00),
            base01: color_of_entry(&self.base01),
            base02: color_of_entry(&self.base02),
            base03: color_of_entry(&self.base03),
            base04: color_of_entry(&self.base04),
            base05: color_of_entry(&self.base05),
            base06: color_of_entry(&self.base06),
            base07: color_of_entry(&self.base07),
            base08: color_of_entry(&self.base08),
            base09: color_of_entry(&self.base09),
            base0a: color_of_entry(&self.base0a),
            base0b: color_of_entry(&self.base0b),
            base0c: color_of_entry(&self.base0c),
            base0d: color_of_entry(&self.base0d),
            base0e: color_of_entry(&self.base0e),
            base0f: color_of_entry(&self.base0f),
        }
    }
}

/// The file name of theme `name` in the themes folder: `{name}.yaml`.
pub fn theme_file_name(name: &str) -> (r: String)
    ensures
        r@ == name@ + ".yaml"@,
{
    let mut s = name.to_owned();
    s.append(".yaml");
    s
}

} // verus!
