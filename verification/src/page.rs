//! Reading pages out of a store file by their numbers.
use crate::error::{agrees, Fault, MigrateError};
use crate::layout::{
    le16, le_word, read_u16, read_word, PointerWidth, PAGE_COUNT, PAGE_FLAGS, PAGE_NEXT,
};
use vstd::prelude::*;
use vstd::slice::slice_subrange;

verus! {

/// The kinds of page. The flags of a page name exactly one of them.
#[derive(Clone, Copy, Debug, PartialEq, Eq, Structural)]
pub enum PageKind {
    Meta,
    Branch,
    Leaf,
    Overflow,
    Freelist,
}

pub const FLAG_BRANCH: u16 = 0x01;

pub const FLAG_LEAF: u16 = 0x02;

pub const FLAG_OVERFLOW: u16 = 0x04;

pub const FLAG_META: u16 = 0x08;

pub const FLAG_FREELIST: u16 = 0x10;

impl PageKind {
    /// The kind that a flags value names, if it names one.
    pub open spec fn of_flags(flags: int) -> Option<PageKind> {
        if flags == FLAG_BRANCH {
            Some(PageKind::Branch)
        } else if flags == FLAG_LEAF {
            Some(PageKind::Leaf)
        } else if flags == FLAG_OVERFLOW {
            Some(PageKind::Overflow)
        } else if flags == FLAG_META {
            Some(PageKind::Meta)
        } else if flags == FLAG_FREELIST {
            Some(PageKind::Freelist)
        } else {
            None
        }
    }

    pub fn from_flags(flags: u16) -> (r: Option<PageKind>)
        ensures
            r == Self::of_flags(flags as int),
    {
        if flags == FLAG_BRANCH {
            Some(PageKind::Branch)
        } else if flags == FLAG_LEAF {
            Some(PageKind::Leaf)
        } else if flags == FLAG_OVERFLOW {
            Some(PageKind::Overflow)
        } else if flags == FLAG_META {
            Some(PageKind::Meta)
        } else if flags == FLAG_FREELIST {
            Some(PageKind::Freelist)
        } else {
            None
        }
    }
}

/// A store file as the page reader sees it: its bytes, the size of its pages
/// and the width of its pointers.
pub struct SourceModel {
    pub bytes: Seq<u8>,
    pub page_size: int,
    pub width: PointerWidth,
}

impl SourceModel {
    /// Every page has room for its header and for at least one more byte.
    pub open spec fn wf(self) -> bool {
        self.width.header_len() < self.page_size
    }

    /// The number of whole pages in the file.
    pub open spec fn page_count(self) -> int {
        self.bytes.len() as int / self.page_size
    }

    /// The bytes of page `n`.
    pub open spec fn page(self, n: int) -> Seq<u8> {
        self.bytes.subrange(n * self.page_size, n * self.page_size + self.page_size)
    }

    /// The number of bytes in the body of a page.
    pub open spec fn capacity(self) -> int {
        self.page_size - self.width.header_len()
    }

    /// What reading page `n` gives: the fields of its header and its body, or
    /// the fault that keeps it from being read.
    pub open spec fn read_page(self, n: u64) -> Result<PageModel, Fault> {
        let page = self.page(n as int);
        if n > usize::MAX {
            Err(Fault::Narrowing)
        } else if n >= self.page_count() {
            Err(Fault::InvalidPageNum)
        } else {
            match PageKind::of_flags(le16(page, PAGE_FLAGS as int)) {
                None => Err(Fault::InvalidPageBits),
                Some(kind) => Ok(
                    PageModel {
                        kind,
                        count: le16(page, PAGE_COUNT as int) as u16,
                        next: le_word(page, PAGE_NEXT as int, self.width) as u64,
                        body: page.subrange(self.width.header_len(), self.page_size),
                    },
                ),
            }
        }
    }
}

/// A page as read: its kind, the number of its nodes, the page that follows
/// it in an overflow chain, and the bytes after its header.
pub struct PageModel {
    pub kind: PageKind,
    pub count: u16,
    pub next: u64,
    pub body: Seq<u8>,
}

/// A page of the file, borrowed from its bytes.
pub struct Page<'a> {
    pub kind: PageKind,
    pub count: u16,
    pub next: u64,
    pub body: &'a [u8],
}

impl<'a> View for Page<'a> {
    type V = PageModel;

    open spec fn view(&self) -> PageModel {
        PageModel {
            kind: self.kind,
            count: self.count,
            next: self.next,
            body: self.body@,
        }
    }
}

/// Reads pages by number from the bytes of a file. It keeps nothing between
/// two reads, so reading a page twice gives the same page.
pub struct PageReader<'a> {
    bytes: &'a [u8],
    page_size: usize,
    width: PointerWidth,
}

impl<'a> View for PageReader<'a> {
    type V = SourceModel;

    closed spec fn view(&self) -> SourceModel {
        SourceModel { bytes: self.bytes@, page_size: self.page_size as int, width: self.width }
    }
}

/// `n * size + size` stays inside `len` for every page number under the count.
pub proof fn lemma_page_in_file(len: int, size: int, n: int)
    requires
        0 < size,
        0 <= n < len / size,
        0 <= len,
    ensures
        0 <= n * size,
        n * size + size <= len,
{
    assert(n * size + size <= len) by (nonlinear_arith)
        requires
            0 < size,
            0 <= n,
            n + 1 <= len / size,
            0 <= len,
    {
        assert((n + 1) * size <= (len / size) * size);
        assert((len / size) * size <= len);
    }
    assert(0 <= n * size) by (nonlinear_arith)
        requires
            0 < size,
            0 <= n,
    ;
}

/// The body of a page that can be read is as long as a page's capacity.
pub proof fn lemma_body_len(source: SourceModel, n: u64)
    requires
        source.wf(),
    ensures
        source.read_page(n) matches Ok(page) ==> page.body.len() == source.capacity(),
{
    if source.read_page(n) is Ok {
        lemma_page_in_file(source.bytes.len() as int, source.page_size, n as int);
    }
}

impl<'a> PageReader<'a> {
    #[verifier::type_invariant]
    spec fn inv(self) -> bool {
        self@.wf()
    }

    /// A reader of the pages of `bytes`, if a page of `page_size` bytes has
    /// room for more than a header of the given width.
    pub fn new(bytes: &'a [u8], page_size: usize, width: PointerWidth) -> (r: Option<
        PageReader<'a>,
    >)
        ensures
            match r {
                Some(reader) => reader@ == (SourceModel {
                    bytes: bytes@,
                    page_size: page_size as int,
                    width,
                }) && reader@.wf(),
                None => page_size <= width.header_len(),
            },
    {
        if page_size <= width.page_header_size() {
            None
        } else {
            Some(PageReader { bytes, page_size, width })
        }
    }

    pub fn width(&self) -> (w: PointerWidth)
        ensures
            w == self@.width,
    {
        self.width
    }

    pub fn page_size(&self) -> (n: usize)
        ensures
            n == self@.page_size,
            self@.wf(),
    {
        proof {
            use_type_invariant(self);
        }
        self.page_size
    }

    /// The number of whole pages in the file.
    pub fn page_count(&self) -> (n: usize)
        ensures
            n == self@.page_count(),
    {
        proof {
            use_type_invariant(self);
        }
        self.bytes.len() / self.page_size
    }

    /// Reads the page with the given number: its offset is the number times
    /// the page size, and the whole page must lie inside the file.
    pub fn read_page(&self, n: u64) -> (r: Result<Page<'a>, MigrateError>)
        ensures
            agrees(r, self@.read_page(n)),
            r matches Ok(page) ==> page.body@.len() == self@.capacity(),
    {
        proof {
            use_type_invariant(self);
        }
        let index: usize = match usize::try_from(n) {
            Ok(index) => index,
            Err(e) => {
                return Err(MigrateError::from(e));
            },
        };
        let size: usize = self.page_size;
        if index >= self.bytes.len() / size {
            return Err(MigrateError::InvalidPageNum);
        }
        proof {
            lemma_page_in_file(self.bytes@.len() as int, size as int, index as int);
        }
        let start: usize = index * size;
        let page = slice_subrange(self.bytes, start, start + size);
        let flags: u16 = read_u16(page, PAGE_FLAGS).unwrap();
        let kind = match PageKind::from_flags(flags) {
            Some(kind) => kind,
            None => {
                return Err(MigrateError::InvalidPageBits);
            },
        };
        let count: u16 = read_u16(page, PAGE_COUNT).unwrap();
        let next: u64 = read_word(page, PAGE_NEXT, self.width).unwrap();
        let body = slice_subrange(page, self.width.page_header_size(), size);
        Ok(Page { kind, count, next, body })
    }
}

} // verus!
