//! Errors of a merge.

use vstd::prelude::*;

verus! {

/// Errors that can occur during a merge.
#[derive(Debug, Clone, PartialEq, Eq)]
pub enum MergeError {
    /// No images were provided.
    NoImages,
    /// The element at `index` is not an image byte buffer.
    InvalidInput { index: usize },
    /// The image at zero-based `index` could not be decoded.
    DecodeError { index: usize, file_name: Option<String>, message: String },
    /// The planned output exceeds the pixel limit.
    TooLarge { width: u64, height: u64, pixels: u64, max: u64 },
    /// The output could not be produced: encoder failure, or planned
    /// dimensions beyond 32 bits.
    EncodeError { message: String },
}

/// The character of a decimal digit.
pub open spec fn digit_char(d: nat) -> char {
    if d == 0 {
        '0'
    } else if d == 1 {
        '1'
    } else if d == 2 {
        '2'
    } else if d == 3 {
        '3'
    } else if d == 4 {
        '4'
    } else if d == 5 {
        '5'
    } else if d == 6 {
        '6'
    } else if d == 7 {
        '7'
    } else if d == 8 {
        '8'
    } else {
        '9'
    }
}

/// Decimal digits of `n`, without sign or padding.
pub open spec fn decimal(n: nat) -> Seq<char>
    decreases n,
{
    if n < 10 {
        seq![digit_char(n)]
    } else {
        decimal(n / 10) + seq![digit_char(n % 10)]
    }
}

fn digit_str(d: u64) -> (s: &'static str)
    requires
        d < 10,
    ensures
        s@ == seq![digit_char(d as nat)],
{
    proof {
        reveal_strlit("0");
        reveal_strlit("1");
        reveal_strlit("2");
        reveal_strlit("3");
        reveal_strlit("4");
        reveal_strlit("5");
        reveal_strlit("6");
        reveal_strlit("7");
        reveal_strlit("8");
        reveal_strlit("9");
    }
    let s = match d {
        0 => "0",
        1 => "1",
        2 => "2",
        3 => "3",
        4 => "4",
        5 => "5",
        6 => "6",
        7 => "7",
        8 => "8",
        _ => "9",
    };
    assert(s@ =~= seq![digit_char(d as nat)]);
    s
}

/// `n` in decimal digits.
fn decimal_string(n: u64) -> (s: String)
    ensures
        s@ == decimal(n as nat),
    decreases n,
{
    if n < 10 {
        String::from_str(digit_str(n))
    } else {
        let mut s = decimal_string(n / 10);
        s.append(digit_str(n % 10));
        s
    }
}

/// Protocol code of each error kind.
pub open spec fn error_code(e: MergeError) -> Seq<char> {
    match e {
        MergeError::NoImages => "NO_IMAGES"@,
        MergeError::InvalidInput { .. } => "INVALID_INPUT"@,
        MergeError::DecodeError { .. } => "DECODE_FAILED"@,
        MergeError::TooLarge { .. } => "TOO_LARGE"@,
        MergeError::EncodeError { .. } => "INTERNAL_ERROR"@,
    }
}

/// Human-readable text of each error.
pub open spec fn error_message(e: MergeError) -> Seq<char> {
    match e {
        MergeError::NoImages => "No images provided"@,
        MergeError::InvalidInput { index } => "Expected image bytes at index "@ + decimal(index as nat),
        MergeError::DecodeError { index, file_name, message } => {
            let head = "Failed to decode image at index "@ + decimal(index as nat) + ": "@ + message@;
            match file_name {
                Some(name) => head + " (file: "@ + name@ + ")"@,
                None => head,
            }
        },
        MergeError::TooLarge { width, height, pixels, max } => "Output too large: "@ + decimal(width as nat)
            + "x"@ + decimal(height as nat) + " = "@ + decimal(pixels as nat)
            + " pixels exceeds limit of "@ + decimal(max as nat) + " pixels"@,
        MergeError::EncodeError { message } => "Failed to encode output: "@ + message@,
    }
}

impl MergeError {
    /// Error code string of the worker protocol.
    pub fn code(&self) -> (c: &'static str)
        ensures
            c@ == error_code(*self),
    {
        match self {
            MergeError::NoImages => "NO_IMAGES",
            MergeError::InvalidInput { .. } => "INVALID_INPUT",
            MergeError::DecodeError { .. } => "DECODE_FAILED",
            MergeError::TooLarge { .. } => "TOO_LARGE",
            MergeError::EncodeError { .. } => "INTERNAL_ERROR",
        }
    }

    /// Human-readable description of the error.
    pub fn message(&self) -> (m: String)
        ensures
            m@ == error_message(*self),
    {
        match self {
            MergeError::NoImages => String::from_str("No images provided"),
            MergeError::InvalidInput { index } => {
                let mut s = String::from_str("Expected image bytes at index ");
                s.append(decimal_string(*index as u64).as_str());
                s
            },
            MergeError::DecodeError { index, file_name, message } => {
                let mut s = String::from_str("Failed to decode image at index ");
                s.append(decimal_string(*index as u64).as_str());
                s.append(": ");
                s.append(message.as_str());
                match file_name {
                    Some(name) => {
                        s.append(" (file: ");
                        s.append(name.as_str());
                        s.append(")");
                    },
                    None => {},
                }
                s
            },
            MergeError::TooLarge { width, height, pixels, max } => {
                let mut s = String::from_str("Output too large: ");
                s.append(decimal_string(*width).as_str());
                s.append("x");
                s.append(decimal_string(*height).as_str());
                s.append(" = ");
                s.append(decimal_string(*pixels).as_str());
                s.append(" pixels exceeds limit of ");
                s.append(decimal_string(*max).as_str());
                s.append(" pixels");
                s
            },
            MergeError::EncodeError { message } => {
                let mut s = String::from_str("Failed to encode output: ");
                s.append(message.as_str());
                s
            },
        }
    }
}

} // verus!
