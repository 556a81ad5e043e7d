//! EXIF orientation: best-effort extraction from JPEG bytes.
//!
//! Only JPEG carries an orientation here; every other input, and every
//! input that cannot be parsed, reads as `Normal`.

use vstd::prelude::*;
use vstd::slice::slice_subrange;

verus! {

/// EXIF orientation values 1 to 8.
#[derive(Debug, Clone, Copy, PartialEq, Eq, Structural)]
pub enum Orientation {
    /// 1: no transformation.
    Normal,
    /// 2: mirrored horizontally.
    FlipHorizontal,
    /// 3: rotated 180 degrees.
    Rotate180,
    /// 4: mirrored vertically.
    FlipVertical,
    /// 5: rotated 90 degrees clockwise, then mirrored horizontally.
    Rotate90FlipH,
    /// 6: rotated 90 degrees clockwise.
    Rotate90,
    /// 7: rotated 270 degrees clockwise, then mirrored horizontally.
    Rotate270FlipH,
    /// 8: rotated 270 degrees clockwise.
    Rotate270,
}

impl Default for Orientation {
    fn default() -> (o: Self)
        ensures
            o == Orientation::Normal,
    {
        Orientation::Normal
    }
}

/// The orientation that an EXIF tag value names; unknown values are `Normal`.
pub open spec fn orientation_of(value: u16) -> Orientation {
    if value == 2 {
        Orientation::FlipHorizontal
    } else if value == 3 {
        Orientation::Rotate180
    } else if value == 4 {
        Orientation::FlipVertical
    } else if value == 5 {
        Orientation::Rotate90FlipH
    } else if value == 6 {
        Orientation::Rotate90
    } else if value == 7 {
        Orientation::Rotate270FlipH
    } else if value == 8 {
        Orientation::Rotate270
    } else {
        Orientation::Normal
    }
}

impl From<u16> for Orientation {
    fn from(value: u16) -> (o: Self) {
        match value {
            2 => Orientation::FlipHorizontal,
            3 => Orientation::Rotate180,
            4 => Orientation::FlipVertical,
            5 => Orientation::Rotate90FlipH,
            6 => Orientation::Rotate90,
            7 => Orientation::Rotate270FlipH,
            8 => Orientation::Rotate270,
            _ => Orientation::Normal,
        }
    }
}

impl vstd::std_specs::convert::FromSpecImpl<u16> for Orientation {
    open spec fn obeys_from_spec() -> bool {
        true
    }

    open spec fn from_spec(v: u16) -> Orientation {
        orientation_of(v)
    }
}

/// Tag values outside 1 to 8 name no orientation and read as `Normal`.
pub proof fn lemma_unknown_orientation_is_normal(value: u16)
    requires
        value == 0 || value > 8,
    ensures
        orientation_of(value) == Orientation::Normal,
{
}

/// The EXIF orientation tag.
pub const ORIENTATION_TAG: u16 = 0x0112;

/// Marker bytes that end the walk over JPEG segments: end of image, start of scan.
pub const MARKER_EOI: u8 = 0xD9;
pub const MARKER_SOS: u8 = 0xDA;
/// The APP1 marker, which carries EXIF data.
pub const MARKER_APP1: u8 = 0xE1;

/// A 16-bit value at `off`, in the given byte order.
pub open spec fn read16(data: Seq<u8>, off: int, little_endian: bool) -> nat {
    if little_endian {
        data[off] as nat + 256 * data[off + 1] as nat
    } else {
        256 * data[off] as nat + data[off + 1] as nat
    }
}

/// A 32-bit value at `off`, in the given byte order.
pub open spec fn read32(data: Seq<u8>, off: int, little_endian: bool) -> nat {
    if little_endian {
        read16(data, off, true) + 65536 * read16(data, off + 2, true)
    } else {
        65536 * read16(data, off, false) + read16(data, off + 2, false)
    }
}

/// The TIFF header: byte order ("II" little, "MM" big), the magic 42 and
/// the offset of the first IFD.
pub open spec fn tiff_header(data: Seq<u8>) -> Option<(bool, nat)> {
    if data.len() < 8 {
        None
    } else {
        let le = data[0] == 0x49u8 && data[1] == 0x49u8;
        let be = data[0] == 0x4Du8 && data[1] == 0x4Du8;
        if !le && !be {
            None
        } else if read16(data, 2, le) != 42 {
            None
        } else {
            Some((le, read32(data, 4, le)))
        }
    }
}

/// The orientation tag among IFD entries `i..count` that start at `start`,
/// stopping at the first entry that does not fit in `data`.
pub open spec fn scan_entries(data: Seq<u8>, start: nat, i: nat, count: nat, le: bool) -> Option<Orientation>
    decreases count - i,
{
    if i >= count {
        None
    } else {
        let off = start + 12 * i;
        if off + 12 > data.len() {
            None
        } else if read16(data, off as int, le) == ORIENTATION_TAG as nat {
            Some(orientation_of(read16(data, off + 8int, le) as u16))
        } else {
            scan_entries(data, start, i + 1, count, le)
        }
    }
}

/// The orientation in the IFD at `ifd_offset`, if its entries hold one.
pub open spec fn ifd_orientation(data: Seq<u8>, ifd_offset: nat, le: bool) -> Option<Orientation> {
    if ifd_offset + 2 > data.len() {
        None
    } else {
        scan_entries(data, ifd_offset + 2, 0, read16(data, ifd_offset as int, le), le)
    }
}

/// The orientation in an APP1 payload that starts with "Exif\0\0".
pub open spec fn exif_segment_orientation(segment: Seq<u8>) -> Option<Orientation> {
    if segment.len() < 14 || segment.subrange(0, 6) != exif_magic() {
        None
    } else {
        let tiff = segment.subrange(6, segment.len() as int);
        match tiff_header(tiff) {
            Some((le, offset)) => ifd_orientation(tiff, offset, le),
            None => None,
        }
    }
}

pub open spec fn exif_magic() -> Seq<u8> {
    seq![0x45u8, 0x78u8, 0x69u8, 0x66u8, 0u8, 0u8]
}

/// The walk over JPEG segments from `pos`: padding bytes are skipped, the
/// walk stops at end of image or start of scan, and the first APP1 segment
/// that fits and holds an orientation gives it.
pub open spec fn jpeg_walk(bytes: Seq<u8>, pos: nat) -> Option<Orientation>
    decreases bytes.len() - pos,
{
    if pos + 4 > bytes.len() {
        None
    } else if bytes[pos as int] != 0xFFu8 {
        None
    } else {
        let marker = bytes[pos + 1int];
        if marker == 0xFFu8 {
            jpeg_walk(bytes, pos + 1)
        } else if marker == MARKER_EOI || marker == MARKER_SOS {
            None
        } else {
            let length = read16(bytes, pos + 2int, false);
            let end = pos + 2 + length;
            let found = if marker == MARKER_APP1 && length >= 2 && end <= bytes.len() {
                exif_segment_orientation(bytes.subrange(pos + 4int, end as int))
            } else {
                None
            };
            match found {
                Some(o) => Some(o),
                None => if end > bytes.len() { None } else { jpeg_walk(bytes, end) },
            }
        }
    }
}

/// The orientation that the bytes of an image declare.
pub open spec fn orientation_in(bytes: Seq<u8>) -> Orientation {
    if bytes.len() < 2 || bytes[0] != 0xFFu8 || bytes[1] != 0xD8u8 {
        Orientation::Normal
    } else {
        match jpeg_walk(bytes, 2) {
            Some(o) => o,
            None => Orientation::Normal,
        }
    }
}

fn read_u16(data: &[u8], off: usize, little_endian: bool) -> (v: u16)
    requires
        off + 2 <= data.len(),
    ensures
        v as nat == read16(data@, off as int, little_endian),
{
    let a = data[off] as u16;
    let b = data[off + 1] as u16;
    if little_endian {
        a + 256 * b
    } else {
        256 * a + b
    }
}

fn read_u32(data: &[u8], off: usize, little_endian: bool) -> (v: u32)
    requires
        off + 4 <= data.len(),
    ensures
        v as nat == read32(data@, off as int, little_endian),
{
    let lo = read_u16(data, off, little_endian) as u32;
    let hi = read_u16(data, off + 2, little_endian) as u32;
    if little_endian {
        lo + 65536 * hi
    } else {
        65536 * lo + hi
    }
}

/// Extracts the EXIF orientation from image bytes. Only JPEG is read;
/// other formats and unparsable data give `Normal`.
pub fn extract_orientation(bytes: &[u8]) -> (o: Orientation)
    ensures
        o == orientation_in(bytes@),
{
    if bytes.len() < 2 || bytes[0] != 0xFF || bytes[1] != 0xD8 {
        return Orientation::Normal;
    }
    match parse_jpeg_exif(bytes) {
        Some(o) => o,
        None => Orientation::Normal,
    }
}

/// Walks the JPEG segments after SOI looking for an orientation in APP1.
fn parse_jpeg_exif(bytes: &[u8]) -> (r: Option<Orientation>)
    requires
        bytes@.len() >= 2,
    ensures
        r == jpeg_walk(bytes@, 2),
{
    let mut pos: usize = 2;
    while bytes.len() >= 4 && pos <= bytes.len() - 4
        invariant
            2 <= pos <= bytes@.len(),
            jpeg_walk(bytes@, 2) == jpeg_walk(bytes@, pos as nat),
        decreases bytes@.len() - pos,
    {
        if bytes[pos] != 0xFF {
            return None;
        }
        let marker = bytes[pos + 1];
        if marker == 0xFF {
            pos = pos + 1;
            continue;
        }
        if marker == MARKER_EOI || marker == MARKER_SOS {
            return None;
        }
        let length = read_u16(bytes, pos + 2, false) as usize;
        if length + 2 > bytes.len() - pos {
            // The next segment would start past the end: nothing more to read.
            return None;
        }
        let end = pos + 2 + length;
        if marker == MARKER_APP1 && length >= 2 {
            let segment = slice_subrange(bytes, pos + 4, end);
            let found = parse_exif_segment(segment);
            if found.is_some() {
                return found;
            }
        }
        pos = end;
    }
    None
}

/// Reads the orientation from an APP1 payload.
fn parse_exif_segment(segment: &[u8]) -> (r: Option<Orientation>)
    ensures
        r == exif_segment_orientation(segment@),
{
    if segment.len() < 14 {
        return None;
    }
    if !(segment[0] == 0x45 && segment[1] == 0x78 && segment[2] == 0x69 && segment[3] == 0x66
        && segment[4] == 0 && segment[5] == 0) {
        proof {
            assert(segment@.subrange(0, 6) != exif_magic()) by {
                let s = segment@.subrange(0, 6);
                assert(s[0] == segment@[0] && s[1] == segment@[1] && s[2] == segment@[2]);
                assert(s[3] == segment@[3] && s[4] == segment@[4] && s[5] == segment@[5]);
            }
        }
        return None;
    }
    assert(segment@.subrange(0, 6) =~= exif_magic());
    let tiff = slice_subrange(segment, 6, segment.len());
    match parse_tiff_header(tiff) {
        Some((le, offset)) => parse_ifd_for_orientation(tiff, offset as usize, le),
        None => None,
    }
}

/// Parses the TIFF header: byte order and offset of the first IFD.
fn parse_tiff_header(data: &[u8]) -> (r: Option<(bool, u32)>)
    ensures
        r matches Some((le, off)) ==> tiff_header(data@) == Some((le, off as nat)),
        r is None ==> tiff_header(data@) is None,
{
    if data.len() < 8 {
        return None;
    }
    let le = data[0] == 0x49 && data[1] == 0x49;
    let be = data[0] == 0x4D && data[1] == 0x4D;
    if !le && !be {
        return None;
    }
    if read_u16(data, 2, le) != 42 {
        return None;
    }
    Some((le, read_u32(data, 4, le)))
}

/// Looks for the orientation tag among the entries of the IFD at `ifd_offset`.
fn parse_ifd_for_orientation(data: &[u8], ifd_offset: usize, le: bool) -> (r: Option<Orientation>)
    ensures
        r == ifd_orientation(data@, ifd_offset as nat, le),
{
    if ifd_offset > data.len() || data.len() - ifd_offset < 2 {
        return None;
    }
    let count = read_u16(data, ifd_offset, le) as usize;
    let start = ifd_offset + 2;
    let mut i: usize = 0;
    while i < count
        invariant
            start == ifd_offset + 2,
            start <= data@.len(),
            count as nat == read16(data@, ifd_offset as int, le),
            count <= 65535,
            i <= count,
            ifd_orientation(data@, ifd_offset as nat, le) == scan_entries(data@, start as nat, i as nat, count as nat, le),
        decreases count - i,
    {
        if 12 * i + 12 > data.len() - start {
            return None;
        }
        let off = start + 12 * i;
        if read_u16(data, off, le) == ORIENTATION_TAG {
            let value = read_u16(data, off + 8, le);
            return Some(Orientation::from(value));
        }
        i = i + 1;
    }
    None
}

} // verus!
