//! Configuration types of a merge.

use vstd::prelude::*;

verus! {

/// Merge direction: vertical stacks top to bottom, horizontal left to right.
/// Smart is vertical with chrome-strip trimming and overlap removal.
#[derive(Debug, Clone, Copy, PartialEq, Eq, Structural)]
pub enum Direction {
    Vertical,
    Horizontal,
    Smart,
}

impl Default for Direction {
    fn default() -> (r: Self)
        ensures
            r == Direction::Vertical,
    {
        Direction::Vertical
    }
}

/// Background fill color for transparent areas.
#[derive(Debug, Clone, Copy, PartialEq, Eq, Structural)]
pub struct BackgroundColor {
    pub r: u8,
    pub g: u8,
    pub b: u8,
    pub a: u8,
}

impl Default for BackgroundColor {
    /// Opaque white.
    fn default() -> (c: Self)
        ensures
            c == (BackgroundColor { r: 255, g: 255, b: 255, a: 255 }),
    {
        BackgroundColor { r: 255, g: 255, b: 255, a: 255 }
    }
}

impl BackgroundColor {
    pub fn new(r: u8, g: u8, b: u8, a: u8) -> (c: Self)
        ensures
            c == (BackgroundColor { r, g, b, a }),
    {
        BackgroundColor { r, g, b, a }
    }

    pub fn white() -> (c: Self)
        ensures
            c == (BackgroundColor { r: 255, g: 255, b: 255, a: 255 }),
    {
        Self::default()
    }

    pub fn black() -> (c: Self)
        ensures
            c == (BackgroundColor { r: 0, g: 0, b: 0, a: 255 }),
    {
        BackgroundColor { r: 0, g: 0, b: 0, a: 255 }
    }

    pub fn transparent() -> (c: Self)
        ensures
            c == (BackgroundColor { r: 0, g: 0, b: 0, a: 0 }),
    {
        BackgroundColor { r: 0, g: 0, b: 0, a: 0 }
    }
}

/// Sensitivity used when none is given.
pub const DEFAULT_OVERLAP_SENSITIVITY: u8 = 35;

/// Largest meaningful overlap sensitivity.
pub const MAX_OVERLAP_SENSITIVITY: u8 = 100;

pub fn default_overlap_sensitivity() -> (s: u8)
    ensures
        s == DEFAULT_OVERLAP_SENSITIVITY,
{
    DEFAULT_OVERLAP_SENSITIVITY
}

/// Options for a merge.
#[derive(Debug, Clone, Copy, PartialEq, Eq, Structural)]
pub struct MergeOptions {
    pub direction: Direction,
    pub background: BackgroundColor,
    pub overlap_sensitivity: u8,
}

impl Default for MergeOptions {
    /// Vertical, on opaque white, at the default sensitivity.
    fn default() -> (o: Self)
        ensures
            o.direction == Direction::Vertical,
            o.background == (BackgroundColor { r: 255, g: 255, b: 255, a: 255 }),
            o.overlap_sensitivity == DEFAULT_OVERLAP_SENSITIVITY,
    {
        MergeOptions {
            direction: Direction::default(),
            background: BackgroundColor::default(),
            overlap_sensitivity: default_overlap_sensitivity(),
        }
    }
}

/// Clamps an integer sensitivity into `0..=100`.
pub fn clamp_sensitivity(value: i64) -> (s: u8)
    ensures
        value < 0 ==> s == 0,
        value > MAX_OVERLAP_SENSITIVITY ==> s == MAX_OVERLAP_SENSITIVITY,
        0 <= value <= MAX_OVERLAP_SENSITIVITY ==> s == value,
{
    if value < 0 {
        0
    } else if value > MAX_OVERLAP_SENSITIVITY as i64 {
        MAX_OVERLAP_SENSITIVITY
    } else {
        value as u8
    }
}

/// Direction named by an option string: "horizontal" and "smart" are
/// recognised, anything else means vertical.
pub fn direction_from_name(name: &str) -> (d: Direction)
    ensures
        d == direction_of_name(name@),
{
    let bytes = name.as_bytes_vec();
    let horizontal = "horizontal";
    let smart = "smart";
    proof {
        vstd::utf8::encode_utf8_decode_utf8(name@);
        vstd::utf8::encode_utf8_decode_utf8(horizontal@);
        vstd::utf8::encode_utf8_decode_utf8(smart@);
    }
    if bytes_equal(&bytes, horizontal.as_bytes_vec()) {
        Direction::Horizontal
    } else if bytes_equal(&bytes, smart.as_bytes_vec()) {
        Direction::Smart
    } else {
        Direction::Vertical
    }
}

pub open spec fn direction_of_name(name: Seq<char>) -> Direction {
    if name == "horizontal"@ {
        Direction::Horizontal
    } else if name == "smart"@ {
        Direction::Smart
    } else {
        Direction::Vertical
    }
}

fn bytes_equal(a: &Vec<u8>, b: Vec<u8>) -> (r: bool)
    ensures
        r == (a@ == b@),
{
    if a.len() != b.len() {
        return false;
    }
    let mut i: usize = 0;
    while i < a.len()
        invariant
            a@.len() == b@.len(),
            0 <= i <= a@.len(),
            forall|j: int| 0 <= j < i ==> a@[j] == b@[j],
        decreases a@.len() - i,
    {
        if a[i] != b[i] {
            return false;
        }
        i = i + 1;
    }
    assert(a@ =~= b@);
    true
}

} // verus!
