//! Decoding the nodes of leaf and branch pages, the database records that
//! sub-database nodes hold, and the values that overflow chains hold.
use crate::error::{agrees, Fault, MigrateError};
use crate::layout::{
    copy_range, holds, le16, le32, le_word, read_u16, read_u32, read_word, PointerWidth,
    NODE_FLAGS, NODE_KEY, NODE_KEY_LEN, NODE_SIZE, RECORD_FLAGS, RECORD_ROOT,
};
use crate::page::{lemma_body_len, PageKind, PageReader, SourceModel};
use vstd::prelude::*;
use vstd::slice::slice_subrange;
use vstd::string::StringExecFns;
use vstd::utf8::{encode_utf8, valid_utf8};

verus! {

/// `core::str::from_utf8` accepts exactly the byte sequences that are valid
/// UTF-8, and the string it gives back has the bytes it was given.
pub assume_specification<'a>[ core::str::from_utf8 ](v: &'a [u8]) -> (r: Result<
    &'a str,
    core::str::Utf8Error,
>)
    ensures
        r is Ok <==> valid_utf8(v@),
        r matches Ok(s) ==> encode_utf8(s@) == v@,
;

/// The kinds of leaf node. The flags of a node name exactly one of them.
#[derive(Clone, Copy, Debug, PartialEq, Eq, Structural)]
pub enum NodeKind {
    /// The value lies in the node.
    Plain,
    /// The value lies in a chain of overflow pages.
    BigData,
    /// The node holds the record of a sub-database named by its key.
    SubData,
    /// The value lies in the node, and the key has more than one value.
    DupData,
}

pub const NODE_BIGDATA: u16 = 0x01;

pub const NODE_SUBDATA: u16 = 0x02;

pub const NODE_DUPDATA: u16 = 0x04;

/// The bits that the flags of a database may hold.
pub const DATABASE_FLAGS: u16 = 0x7E;

impl NodeKind {
    /// The kind that a flags value names, if it names one.
    pub open spec fn of_flags(flags: int) -> Option<NodeKind> {
        if flags == 0 {
            Some(NodeKind::Plain)
        } else if flags == NODE_BIGDATA {
            Some(NodeKind::BigData)
        } else if flags == NODE_SUBDATA {
            Some(NodeKind::SubData)
        } else if flags == NODE_DUPDATA {
            Some(NodeKind::DupData)
        } else {
            None
        }
    }

    pub fn from_flags(flags: u16) -> (r: Option<NodeKind>)
        ensures
            r == Self::of_flags(flags as int),
    {
        if flags == 0 {
            Some(NodeKind::Plain)
        } else if flags == NODE_BIGDATA {
            Some(NodeKind::BigData)
        } else if flags == NODE_SUBDATA {
            Some(NodeKind::SubData)
        } else if flags == NODE_DUPDATA {
            Some(NodeKind::DupData)
        } else {
            None
        }
    }
}

/// Whether the flags of a database hold known bits only.
pub open spec fn known_database_flags(flags: u16) -> bool {
    flags & !DATABASE_FLAGS == 0
}

pub fn check_database_flags(flags: u16) -> (ok: bool)
    ensures
        ok == known_database_flags(flags),
{
    flags & !DATABASE_FLAGS == 0
}

/// A named database: the bytes of its name, the page of its root (or the
/// number that stands for no page, if it is empty) and its flags.
pub struct DatabaseModel {
    pub name: Seq<u8>,
    pub root: u64,
    pub flags: u16,
}

/// A named database inside the environment, apart from the default one.
#[derive(Debug)]
pub struct DatabaseRecord {
    pub name: String,
    pub root: u64,
    pub flags: u16,
}

impl View for DatabaseRecord {
    type V = DatabaseModel;

    open spec fn view(&self) -> DatabaseModel {
        DatabaseModel { name: encode_utf8(self.name@), root: self.root, flags: self.flags }
    }
}

/// What a leaf node holds.
pub enum NodeModel {
    Inline { key: Seq<u8>, value: Seq<u8> },
    Chained { key: Seq<u8>, size: u32, first: u64 },
    Database(DatabaseModel),
}

/// A leaf node as it stands in its page: a key with its value, a key with the
/// length and the first page of a value in an overflow chain, or the record of
/// a sub-database.
#[derive(Debug)]
pub enum Node {
    Inline { key: Vec<u8>, value: Vec<u8> },
    Chained { key: Vec<u8>, size: u32, first: u64 },
    Database(DatabaseRecord),
}

impl View for Node {
    type V = NodeModel;

    open spec fn view(&self) -> NodeModel {
        match self {
            Node::Inline { key, value } => NodeModel::Inline { key: key@, value: value@ },
            Node::Chained { key, size, first } => NodeModel::Chained {
                key: key@,
                size: *size,
                first: *first,
            },
            Node::Database(record) => NodeModel::Database(record@),
        }
    }
}

/// The database record that `data` holds for the database named `name`.
pub open spec fn record_model(data: Seq<u8>, name: Seq<u8>, width: PointerWidth) -> Result<
    DatabaseModel,
    Fault,
> {
    if data.len() < RECORD_ROOT + width.bytes() {
        Err(Fault::Truncated)
    } else if !known_database_flags(le16(data, RECORD_FLAGS as int) as u16) {
        Err(Fault::InvalidDatabaseBits)
    } else if !valid_utf8(name) {
        Err(Fault::InvalidName)
    } else {
        Ok(
            DatabaseModel {
                name,
                root: le_word(data, RECORD_ROOT as int, width) as u64,
                flags: le16(data, RECORD_FLAGS as int) as u16,
            },
        )
    }
}

/// Decodes the record of a sub-database from the data of its node. The name
/// is the node's key, read as UTF-8.
pub fn parse_record(data: &[u8], name: &[u8], width: PointerWidth) -> (r: Result<
    DatabaseRecord,
    MigrateError,
>)
    ensures
        agrees(r, record_model(data@, name@, width)),
{
    if data.len() < RECORD_ROOT + width.size() {
        return Err(MigrateError::truncated());
    }
    let flags: u16 = read_u16(data, RECORD_FLAGS).unwrap();
    if !check_database_flags(flags) {
        return Err(MigrateError::InvalidDatabaseBits);
    }
    let text = match core::str::from_utf8(name) {
        Ok(text) => text,
        Err(e) => {
            return Err(MigrateError::from(e));
        },
    };
    let root: u64 = read_word(data, RECORD_ROOT, width).unwrap();
    Ok(DatabaseRecord { name: String::from_str(text), root, flags })
}

/// The leaf node at offset `at` of a page body.
pub open spec fn leaf_node(body: Seq<u8>, width: PointerWidth, at: int) -> Result<
    NodeModel,
    Fault,
> {
    let size = le32(body, at + NODE_SIZE);
    let key_len = le16(body, at + NODE_KEY_LEN);
    let key_at = at + NODE_KEY;
    let data_at = key_at + key_len;
    let key = body.subrange(key_at, data_at);
    if !holds(body, at, NODE_KEY as int) {
        Err(Fault::Truncated)
    } else {
        match NodeKind::of_flags(le16(body, at + NODE_FLAGS)) {
            None => Err(Fault::InvalidNodeBits),
            Some(kind) => if !holds(body, key_at, key_len) {
                Err(Fault::Truncated)
            } else {
                match kind {
                    NodeKind::BigData => if !holds(body, data_at, width.bytes()) {
                        Err(Fault::Truncated)
                    } else {
                        Ok(
                            NodeModel::Chained {
                                key,
                                size: size as u32,
                                first: le_word(body, data_at, width) as u64,
                            },
                        )
                    },
                    NodeKind::SubData => if !holds(body, data_at, size) {
                        Err(Fault::Truncated)
                    } else {
                        match record_model(body.subrange(data_at, data_at + size), key, width) {
                            Ok(record) => Ok(NodeModel::Database(record)),
                            Err(fault) => Err(fault),
                        }
                    },
                    _ => if !holds(body, data_at, size) {
                        Err(Fault::Truncated)
                    } else {
                        Ok(NodeModel::Inline { key, value: body.subrange(data_at, data_at + size) })
                    },
                }
            },
        }
    }
}

/// Decodes the leaf node at offset `at` of a page body. Its flags are checked
/// before anything that depends on its kind is read.
pub fn parse_leaf_node(body: &[u8], width: PointerWidth, at: u16) -> (r: Result<
    Node,
    MigrateError,
>)
    ensures
        agrees(r, leaf_node(body@, width, at as int)),
{
    let total: usize = body.len();
    let at: usize = at as usize;
    if total < NODE_KEY || at > total - NODE_KEY {
        return Err(MigrateError::truncated());
    }
    let size: usize = read_u32(body, at + NODE_SIZE).unwrap() as usize;
    let flags: u16 = read_u16(body, at + NODE_FLAGS).unwrap();
    let key_len: usize = read_u16(body, at + NODE_KEY_LEN).unwrap() as usize;
    let kind = match NodeKind::from_flags(flags) {
        Some(kind) => kind,
        None => {
            return Err(MigrateError::InvalidNodeBits);
        },
    };
    let key_at: usize = at + NODE_KEY;
    if key_len > total - key_at {
        return Err(MigrateError::truncated());
    }
    let data_at: usize = key_at + key_len;
    match kind {
        NodeKind::BigData => {
            let first: u64 = match read_word(body, data_at, width) {
                Some(first) => first,
                None => {
                    return Err(MigrateError::truncated());
                },
            };
            Ok(Node::Chained { key: copy_range(body, key_at, key_len), size: size as u32, first })
        },
        NodeKind::SubData => {
            if size > total - data_at {
                return Err(MigrateError::truncated());
            }
            let data = slice_subrange(body, data_at, data_at + size);
            let name = slice_subrange(body, key_at, data_at);
            match parse_record(data, name, width) {
                Ok(record) => Ok(Node::Database(record)),
                Err(e) => Err(e),
            }
        },
        _ => {
            if size > total - data_at {
                return Err(MigrateError::truncated());
            }
            Ok(
                Node::Inline {
                    key: copy_range(body, key_at, key_len),
                    value: copy_range(body, data_at, size),
                },
            )
        },
    }
}

/// The page that the branch node at offset `at` of a page body points to.
/// The node's key follows the page number and must lie inside the page.
pub open spec fn branch_child(body: Seq<u8>, width: PointerWidth, at: int) -> Result<u64, Fault> {
    let key_len = le16(body, at + width.bytes());
    if !holds(body, at, width.bytes() + 2) {
        Err(Fault::Truncated)
    } else if !holds(body, at + width.bytes() + 2, key_len) {
        Err(Fault::Truncated)
    } else {
        Ok(le_word(body, at, width) as u64)
    }
}

/// Decodes the child pointer of the branch node at offset `at` of a page body.
pub fn parse_branch_node(body: &[u8], width: PointerWidth, at: u16) -> (r: Result<
    u64,
    MigrateError,
>)
    ensures
        agrees(r, branch_child(body@, width, at as int)),
{
    let total: usize = body.len();
    let at: usize = at as usize;
    let head: usize = width.size() + 2;
    if total < head || at > total - head {
        return Err(MigrateError::truncated());
    }
    let child: u64 = read_word(body, at, width).unwrap();
    let key_len: usize = read_u16(body, at + width.size()).unwrap() as usize;
    if key_len > total - (at + head) {
        return Err(MigrateError::truncated());
    }
    Ok(child)
}

/// The offset that slot `i` of a page body gives for its node.
pub open spec fn slot(body: Seq<u8>, i: int) -> int {
    le16(body, 2 * i)
}

/// Whether the slots of `count` nodes lie inside the page body.
pub open spec fn slots_fit(body: Seq<u8>, count: int) -> bool {
    2 * count <= body.len()
}

pub fn check_slots(body: &[u8], count: u16) -> (ok: bool)
    ensures
        ok == slots_fit(body@, count as int),
{
    2 * (count as usize) <= body.len()
}

pub(crate) fn read_slot(body: &[u8], count: u16, i: u16) -> (at: u16)
    requires
        slots_fit(body@, count as int),
        i < count,
    ensures
        at == slot(body@, i as int),
{
    read_u16(body, 2 * (i as usize)).unwrap()
}

/// A value followed by what the rest of its chain gives.
pub open spec fn extended(front: Seq<u8>, rest: Result<Seq<u8>, Fault>) -> Result<Seq<u8>, Fault> {
    match rest {
        Ok(bytes) => Ok(front + bytes),
        Err(fault) => Err(fault),
    }
}

/// The number of bytes that an overflow page gives to a value of which
/// `remaining` bytes are still missing.
pub open spec fn share(source: SourceModel, remaining: int) -> int {
    if remaining < source.capacity() {
        remaining
    } else {
        source.capacity()
    }
}

/// The `remaining` bytes of a value that the overflow chain from `page` on
/// holds. Every page gives its whole body, the last one what is still
/// missing; the chain must end exactly where the value does.
pub open spec fn chain(source: SourceModel, page: u64, remaining: int) -> Result<Seq<u8>, Fault>
    decreases remaining,
    when source.wf()
{
    if remaining <= 0 {
        if page == source.width.none_page() {
            Ok(Seq::empty())
        } else {
            Err(Fault::LengthMismatch)
        }
    } else if page == source.width.none_page() {
        Err(Fault::LengthMismatch)
    } else {
        match source.read_page(page) {
            Err(fault) => Err(fault),
            Ok(found) => if found.kind != PageKind::Overflow {
                Err(Fault::UnexpectedPageVariant)
            } else {
                extended(
                    found.body.subrange(0, share(source, remaining)),
                    chain(source, found.next, remaining - share(source, remaining)),
                )
            },
        }
    }
}

/// A chain that gives a value gives exactly as many bytes as were asked for.
pub proof fn lemma_chain_length(source: SourceModel, page: u64, remaining: int)
    requires
        source.wf(),
        0 <= remaining,
    ensures
        chain(source, page, remaining) matches Ok(value) ==> value.len() == remaining,
    decreases remaining,
{
    if remaining > 0 && page != source.width.none_page() {
        if let Ok(found) = source.read_page(page) {
            if found.kind == PageKind::Overflow {
                lemma_body_len(source, page);
                lemma_chain_length(source, found.next, remaining - share(source, remaining));
            }
        }
    }
}

/// A chain that ends while bytes of its value are still missing gives no
/// value.
pub proof fn lemma_chain_cut_short(source: SourceModel, remaining: int)
    requires
        source.wf(),
        0 < remaining,
    ensures
        chain(source, source.width.none_page(), remaining) == Err::<Seq<u8>, Fault>(
            Fault::LengthMismatch,
        ),
{
}

/// Reads a value of `size` bytes from the overflow chain that starts at page
/// `first`.
pub fn read_chain(reader: &PageReader, first: u64, size: u32) -> (r: Result<Vec<u8>, MigrateError>)
    ensures
        agrees(r, chain(reader@, first, size as int)),
        r matches Ok(value) ==> value@.len() == size,
{
    let capacity: usize = reader.page_size() - reader.width().page_header_size();
    let none: u64 = reader.width().no_page();
    let mut out: Vec<u8> = Vec::new();
    let mut page: u64 = first;
    let mut remaining: usize = size as usize;
    proof {
        lemma_chain_length(reader@, first, size as int);
    }
    while remaining > 0
        invariant
            reader@.wf(),
            capacity == reader@.capacity(),
            none == reader@.width.none_page(),
            chain(reader@, first, size as int) == extended(
                out@,
                chain(reader@, page, remaining as int),
            ),
        decreases remaining,
    {
        if page == none {
            return Err(MigrateError::length_mismatch());
        }
        let found = match reader.read_page(page) {
            Ok(found) => found,
            Err(e) => {
                return Err(e);
            },
        };
        match found.kind {
            PageKind::Overflow => {},
            _ => {
                return Err(MigrateError::UnexpectedPageVariant);
            },
        }
        let taken: usize = if remaining < capacity {
            remaining
        } else {
            capacity
        };
        let mut part: Vec<u8> = copy_range(found.body, 0, taken);
        let ghost before = out@;
        out.append(&mut part);
        proof {
            let rest = chain(reader@, found.next, remaining - taken);
            if let Ok(bytes) = rest {
                assert((before + found.body@.subrange(0, taken as int)) + bytes == before + (
                found.body@.subrange(0, taken as int) + bytes));
            }
        }
        remaining = remaining - taken;
        page = found.next;
    }
    if page != none {
        return Err(MigrateError::length_mismatch());
    }
    assert(out@ + Seq::<u8>::empty() == out@);
    Ok(out)
}

} // verus!
