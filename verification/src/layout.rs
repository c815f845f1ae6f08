//! The byte layout of a store file: the pointer widths, the fixed offsets of
//! its fields, and the little-endian integers that every field is written as.
//!
//! A file is a sequence of pages of one size. Page 0 holds the fixed header,
//! pages 1 and 2 hold the two copies of the meta record, and every page after
//! it is a page of a tree, of an overflow chain or of the free list. A field
//! that holds a page number is as wide as the pointers of the build that wrote
//! the file; all other fields have one size in every layout.
use vstd::prelude::*;
use vstd::slice::slice_subrange;

verus! {

/// The width of the pointers, and so of the page numbers, in a store file.
#[derive(Clone, Copy, Debug, PartialEq, Eq, Structural)]
pub enum PointerWidth {
    W32,
    W64,
}

impl PointerWidth {
    /// The number of bytes that a page number takes.
    pub open spec fn bytes(self) -> int {
        match self {
            PointerWidth::W32 => 4,
            PointerWidth::W64 => 8,
        }
    }

    /// The page number that stands for "no page": all bits of the width set.
    pub open spec fn none_page(self) -> u64 {
        match self {
            PointerWidth::W32 => 0xFFFF_FFFFu64,
            PointerWidth::W64 => 0xFFFF_FFFF_FFFF_FFFFu64,
        }
    }

    /// The length of the header in front of every page but page 0.
    pub open spec fn header_len(self) -> int {
        PAGE_NEXT + self.bytes()
    }

    pub fn size(self) -> (n: usize)
        ensures
            n == self.bytes(),
    {
        match self {
            PointerWidth::W32 => 4,
            PointerWidth::W64 => 8,
        }
    }

    pub fn no_page(self) -> (p: u64)
        ensures
            p == self.none_page(),
    {
        match self {
            PointerWidth::W32 => 0xFFFF_FFFFu64,
            PointerWidth::W64 => 0xFFFF_FFFF_FFFF_FFFFu64,
        }
    }

    pub fn page_header_size(self) -> (n: usize)
        ensures
            n == self.header_len(),
    {
        match self {
            PointerWidth::W32 => 8,
            PointerWidth::W64 => 12,
        }
    }
}

/// The value of a well-formed file's first four bytes, read little-endian.
pub const MAGIC: u32 = 0xBEEF_C0DE;

/// The data versions that this engine reads.
pub const VERSION_STABLE: u32 = 1;

pub const VERSION_DEVEL: u32 = 999;

/// Offsets in page 0, the fixed header.
pub const HEADER_MAGIC: usize = 0;

pub const HEADER_VERSION: usize = 4;

pub const HEADER_PAGE_SIZE: usize = 8;

pub const HEADER_LEN: usize = 12;

/// Offsets in the header of a page: its flags, the number of its nodes, and
/// the number of the page that follows it in an overflow chain.
pub const PAGE_FLAGS: usize = 0;

pub const PAGE_COUNT: usize = 2;

pub const PAGE_NEXT: usize = 4;

/// Offsets in a leaf node: the length of its value, its flags, the length of
/// its key, and the key itself; the node's data follow the key.
pub const NODE_SIZE: usize = 0;

pub const NODE_FLAGS: usize = 4;

pub const NODE_KEY_LEN: usize = 6;

pub const NODE_KEY: usize = 8;

/// Offsets in a database record: its flags and its root page. The record is
/// `RECORD_ROOT` bytes and one page number long.
pub const RECORD_FLAGS: usize = 0;

pub const RECORD_ROOT: usize = 4;

/// The two bytes at `at`, read as a little-endian integer.
pub open spec fn le16(s: Seq<u8>, at: int) -> int {
    s[at] + 0x100 * s[at + 1]
}

/// The four bytes at `at`, read as a little-endian integer.
pub open spec fn le32(s: Seq<u8>, at: int) -> int {
    le16(s, at) + 0x1_0000 * le16(s, at + 2)
}

/// The eight bytes at `at`, read as a little-endian integer.
pub open spec fn le64(s: Seq<u8>, at: int) -> int {
    le32(s, at) + 0x1_0000_0000 * le32(s, at + 4)
}

/// The page number at `at` in a layout of the given width.
pub open spec fn le_word(s: Seq<u8>, at: int, width: PointerWidth) -> int {
    match width {
        PointerWidth::W32 => le32(s, at),
        PointerWidth::W64 => le64(s, at),
    }
}

/// Whether the `n` bytes at `at` lie inside `s`.
pub open spec fn holds(s: Seq<u8>, at: int, n: int) -> bool {
    0 <= at && 0 <= n && at + n <= s.len()
}

pub fn read_u16(bytes: &[u8], at: usize) -> (r: Option<u16>)
    ensures
        r == if holds(bytes@, at as int, 2) {
            Some(le16(bytes@, at as int) as u16)
        } else {
            None
        },
        holds(bytes@, at as int, 2) ==> r.unwrap() == le16(bytes@, at as int),
{
    if bytes.len() < 2 || at > bytes.len() - 2 {
        return None;
    }
    let low: u16 = bytes[at] as u16;
    let high: u16 = bytes[at + 1] as u16;
    Some(low + 0x100 * high)
}

pub fn read_u32(bytes: &[u8], at: usize) -> (r: Option<u32>)
    ensures
        r == if holds(bytes@, at as int, 4) {
            Some(le32(bytes@, at as int) as u32)
        } else {
            None
        },
        holds(bytes@, at as int, 4) ==> r.unwrap() == le32(bytes@, at as int),
{
    if bytes.len() < 4 || at > bytes.len() - 4 {
        return None;
    }
    let low: u32 = read_u16(bytes, at).unwrap() as u32;
    let high: u32 = read_u16(bytes, at + 2).unwrap() as u32;
    Some(low + 0x1_0000 * high)
}

pub fn read_u64(bytes: &[u8], at: usize) -> (r: Option<u64>)
    ensures
        r == if holds(bytes@, at as int, 8) {
            Some(le64(bytes@, at as int) as u64)
        } else {
            None
        },
        holds(bytes@, at as int, 8) ==> r.unwrap() == le64(bytes@, at as int),
{
    if bytes.len() < 8 || at > bytes.len() - 8 {
        return None;
    }
    let low: u64 = read_u32(bytes, at).unwrap() as u64;
    let high: u64 = read_u32(bytes, at + 4).unwrap() as u64;
    Some(low + 0x1_0000_0000 * high)
}

/// Reads the page number at `at`, as wide as the layout's pointers.
pub fn read_word(bytes: &[u8], at: usize, width: PointerWidth) -> (r: Option<u64>)
    ensures
        r == if holds(bytes@, at as int, width.bytes()) {
            Some(le_word(bytes@, at as int, width) as u64)
        } else {
            None
        },
        holds(bytes@, at as int, width.bytes()) ==> r.unwrap() == le_word(bytes@, at as int, width),
        r is Some ==> r.unwrap() <= width.none_page(),
{
    match width {
        PointerWidth::W32 => match read_u32(bytes, at) {
            Some(v) => Some(v as u64),
            None => None,
        },
        PointerWidth::W64 => read_u64(bytes, at),
    }
}

/// Copies the `n` bytes at `at` out of `bytes`.
pub(crate) fn copy_range(bytes: &[u8], at: usize, n: usize) -> (out: Vec<u8>)
    requires
        holds(bytes@, at as int, n as int),
    ensures
        out@ == bytes@.subrange(at as int, at + n),
{
    let total: usize = bytes.len();
    assert(at + n <= total);
    vstd::slice::slice_to_vec(slice_subrange(bytes, at, at + n))
}

} // verus!
