//! Validating the fixed header of a store file and choosing between the two
//! copies of its meta record.
use crate::error::{Fault, MigrateError};
use crate::layout::{
    holds, le16, le32, le_word, read_u16, read_u32, read_word, PointerWidth, HEADER_MAGIC,
    HEADER_PAGE_SIZE, HEADER_VERSION, MAGIC, VERSION_DEVEL, VERSION_STABLE,
};
use crate::node::{check_database_flags, known_database_flags};
use crate::page::{PageKind, PageReader, SourceModel};
use vstd::prelude::*;

verus! {

/// What the fixed header says: the data version of the file and the page
/// size that it declares.
#[derive(Clone, Copy, Debug, PartialEq, Eq, Structural)]
pub struct FileHeader {
    pub version: u32,
    pub page_size: u32,
}

/// Whether a data version is one that this engine reads.
pub open spec fn known_version(version: int) -> bool {
    version == VERSION_STABLE || version == VERSION_DEVEL
}

/// The page size that a file declares; 0 where the file ends before the field.
pub open spec fn declared_page_size(bytes: Seq<u8>) -> int {
    if holds(bytes, HEADER_PAGE_SIZE as int, 4) {
        le32(bytes, HEADER_PAGE_SIZE as int)
    } else {
        0
    }
}

/// The fixed header of a file: the magic constant is looked at first, the
/// data version second.
pub open spec fn header_model(bytes: Seq<u8>) -> Result<FileHeader, Fault> {
    if !holds(bytes, HEADER_MAGIC as int, 4) || le32(bytes, HEADER_MAGIC as int) != MAGIC {
        Err(Fault::InvalidMagicNum)
    } else if !holds(bytes, HEADER_VERSION as int, 4) || !known_version(
        le32(bytes, HEADER_VERSION as int),
    ) {
        Err(Fault::InvalidDataVersion)
    } else {
        Ok(
            FileHeader {
                version: le32(bytes, HEADER_VERSION as int) as u32,
                page_size: declared_page_size(bytes) as u32,
            },
        )
    }
}

/// Validates the magic constant and the data version at the start of a file.
pub fn validate_header(bytes: &[u8]) -> (r: Result<FileHeader, MigrateError>)
    ensures
        match r {
            Ok(header) => header_model(bytes@) == Ok::<FileHeader, Fault>(header),
            Err(e) => header_model(bytes@) is Err && e.signals(header_model(bytes@)->Err_0),
        },
{
    match read_u32(bytes, HEADER_MAGIC) {
        Some(magic) => {
            if magic != MAGIC {
                return Err(MigrateError::InvalidMagicNum);
            }
        },
        None => {
            return Err(MigrateError::InvalidMagicNum);
        },
    }
    let version: u32 = match read_u32(bytes, HEADER_VERSION) {
        Some(version) => version,
        None => {
            return Err(MigrateError::InvalidDataVersion);
        },
    };
    if version != VERSION_STABLE && version != VERSION_DEVEL {
        return Err(MigrateError::InvalidDataVersion);
    }
    let page_size: u32 = match read_u32(bytes, HEADER_PAGE_SIZE) {
        Some(page_size) => page_size,
        None => 0,
    };
    Ok(FileHeader { version, page_size })
}

/// The fields of a meta record. Each has one offset and one size for every
/// pointer width.
#[derive(Clone, Copy, Debug, PartialEq, Eq, Structural)]
pub enum MetaField {
    /// The page size that the record declares.
    PageSize,
    /// The flags of the default database.
    Flags,
    /// The id of the transaction that wrote the record.
    TxnId,
    /// The root page of the free list.
    FreeRoot,
    /// The root page of the default database.
    MainRoot,
}

/// The place of a field in the body of a meta page.
#[derive(Clone, Copy, Debug, PartialEq, Eq, Structural)]
pub struct FieldPlace {
    pub offset: usize,
    pub size: usize,
}

impl MetaField {
    /// The offset of the field in the body of a meta page.
    pub open spec fn offset(self, width: PointerWidth) -> int {
        match self {
            MetaField::PageSize => 0,
            MetaField::Flags => 4,
            MetaField::TxnId => 8,
            MetaField::FreeRoot => 8 + width.bytes(),
            MetaField::MainRoot => 8 + 2 * width.bytes(),
        }
    }

    /// The size of the field.
    pub open spec fn len(self, width: PointerWidth) -> int {
        match self {
            MetaField::PageSize => 4,
            MetaField::Flags => 2,
            _ => width.bytes(),
        }
    }

    /// The one table of the record's layout, for both widths.
    pub fn place(self, width: PointerWidth) -> (p: FieldPlace)
        ensures
            p.offset == self.offset(width),
            p.size == self.len(width),
    {
        let word: usize = width.size();
        match self {
            MetaField::PageSize => FieldPlace { offset: 0, size: 4 },
            MetaField::Flags => FieldPlace { offset: 4, size: 2 },
            MetaField::TxnId => FieldPlace { offset: 8, size: word },
            MetaField::FreeRoot => FieldPlace { offset: 8 + word, size: word },
            MetaField::MainRoot => FieldPlace { offset: 8 + 2 * word, size: word },
        }
    }
}

/// The length of a meta record.
pub open spec fn meta_len(width: PointerWidth) -> int {
    8 + 3 * width.bytes()
}

/// The value of a field of the meta record in `body`.
pub open spec fn field_value(body: Seq<u8>, field: MetaField, width: PointerWidth) -> int {
    match field {
        MetaField::PageSize => le32(body, field.offset(width)),
        MetaField::Flags => le16(body, field.offset(width)),
        _ => le_word(body, field.offset(width), width),
    }
}

/// Reads a field of the meta record in `body`, if the body has room for a
/// meta record.
pub fn read_field(body: &[u8], field: MetaField, width: PointerWidth) -> (r: Option<u64>)
    ensures
        r == if body@.len() < meta_len(width) {
            None
        } else {
            Some(field_value(body@, field, width) as u64)
        },
        r matches Some(value) ==> value == field_value(body@, field, width),
{
    if body.len() < 8 + 3 * width.size() {
        return None;
    }
    let place = field.place(width);
    if place.size == 2 {
        Some(read_u16(body, place.offset).unwrap() as u64)
    } else if place.size == 4 && field == MetaField::PageSize {
        Some(read_u32(body, place.offset).unwrap() as u64)
    } else {
        Some(read_word(body, place.offset, width).unwrap())
    }
}

/// One copy of the meta record: the id of the transaction that wrote it, the
/// root and the flags of the default database, and the root of the free list.
#[derive(Clone, Copy, Debug, PartialEq, Eq, Structural)]
pub struct MetaPage {
    pub txn_id: u64,
    pub main_root: u64,
    pub main_flags: u16,
    pub free_root: u64,
}

/// Whether a root is the number that stands for no page, or a page of the
/// file.
pub open spec fn root_in_file(source: SourceModel, root: int) -> bool {
    root == source.width.none_page() || root < source.page_count()
}

/// The meta record in page `copy`, if the page passes validation: it is a
/// meta page, it declares the page size in use, the flags of the default
/// database hold known bits only, and both roots lie in the file.
pub open spec fn meta_model(source: SourceModel, copy: u64) -> Option<MetaPage> {
    match source.read_page(copy) {
        Err(_) => None,
        Ok(page) => {
            let width = source.width;
            let body = page.body;
            if page.kind != PageKind::Meta || body.len() < meta_len(width) {
                None
            } else if field_value(body, MetaField::PageSize, width) != source.page_size {
                None
            } else if !known_database_flags(field_value(body, MetaField::Flags, width) as u16) {
                None
            } else if !root_in_file(source, field_value(body, MetaField::MainRoot, width))
                || !root_in_file(source, field_value(body, MetaField::FreeRoot, width)) {
                None
            } else {
                Some(
                    MetaPage {
                        txn_id: field_value(body, MetaField::TxnId, width) as u64,
                        main_root: field_value(body, MetaField::MainRoot, width) as u64,
                        main_flags: field_value(body, MetaField::Flags, width) as u16,
                        free_root: field_value(body, MetaField::FreeRoot, width) as u64,
                    },
                )
            }
        },
    }
}

/// Decodes and validates the meta record in page `copy`.
pub fn read_meta(reader: &PageReader, copy: u64) -> (r: Option<MetaPage>)
    ensures
        r == meta_model(reader@, copy),
{
    let page = match reader.read_page(copy) {
        Ok(page) => page,
        Err(_) => {
            return None;
        },
    };
    let width = reader.width();
    match page.kind {
        PageKind::Meta => {},
        _ => {
            return None;
        },
    }
    let declared: u64 = match read_field(page.body, MetaField::PageSize, width) {
        Some(declared) => declared,
        None => {
            return None;
        },
    };
    if declared != reader.page_size() as u64 {
        return None;
    }
    let main_flags: u16 = read_field(page.body, MetaField::Flags, width).unwrap() as u16;
    if !check_database_flags(main_flags) {
        return None;
    }
    let main_root: u64 = read_field(page.body, MetaField::MainRoot, width).unwrap();
    let free_root: u64 = read_field(page.body, MetaField::FreeRoot, width).unwrap();
    let none: u64 = width.no_page();
    let count: u64 = reader.page_count() as u64;
    if (main_root != none && main_root >= count) || (free_root != none && free_root >= count) {
        return None;
    }
    let txn_id: u64 = read_field(page.body, MetaField::TxnId, width).unwrap();
    Some(MetaPage { txn_id, main_root, main_flags, free_root })
}

/// The page of the first copy of the meta record.
pub const META_FIRST: u64 = 1;

/// The page of the second copy of the meta record.
pub const META_SECOND: u64 = 2;

/// The meta record that a file goes by: of two valid copies the one with the
/// higher transaction id (the first if the ids are equal), else the one that
/// is valid.
pub open spec fn authoritative(source: SourceModel) -> Option<MetaPage> {
    match (meta_model(source, META_FIRST), meta_model(source, META_SECOND)) {
        (Some(first), Some(second)) => if second.txn_id > first.txn_id {
            Some(second)
        } else {
            Some(first)
        },
        (Some(first), None) => Some(first),
        (None, second) => second,
    }
}

/// Chooses between the two copies of the meta record.
pub fn select_meta(reader: &PageReader) -> (r: Option<MetaPage>)
    ensures
        r == authoritative(reader@),
{
    let first = read_meta(reader, META_FIRST);
    let second = read_meta(reader, META_SECOND);
    match (first, second) {
        (Some(first), Some(second)) => if second.txn_id > first.txn_id {
            Some(second)
        } else {
            Some(first)
        },
        (Some(first), None) => Some(first),
        (None, second) => second,
    }
}

} // verus!
