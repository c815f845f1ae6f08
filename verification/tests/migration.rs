use rkv::bitdepth::{check_width, resolve_width};
use rkv::error::MigrateError;
use rkv::header::{read_meta, select_meta, validate_header};
use rkv::layout::{read_u16, read_u32, read_u64, read_word, PointerWidth};
use rkv::migrate::{open, plan, walk, MigrateOptions, MigrationSession, SessionProgress};
use rkv::node::{parse_branch_node, parse_leaf_node, read_chain, Node};
use rkv::page::{PageKind, PageReader};
use rkv::rewriter::{Action, Event};

const PAGE: usize = 128;

const BRANCH: u16 = 0x01;
const LEAF: u16 = 0x02;
const OVERFLOW: u16 = 0x04;
const META: u16 = 0x08;
const FREELIST: u16 = 0x10;

fn word(width: PointerWidth) -> usize {
    match width {
        PointerWidth::W32 => 4,
        PointerWidth::W64 => 8,
    }
}

fn none(width: PointerWidth) -> u64 {
    match width {
        PointerWidth::W32 => 0xFFFF_FFFF,
        PointerWidth::W64 => u64::MAX,
    }
}

fn put(file: &mut [u8], at: usize, value: u64, size: usize) {
    for i in 0..size {
        file[at + i] = (value >> (8 * i)) as u8;
    }
}

fn push_word(out: &mut Vec<u8>, value: u64, width: PointerWidth) {
    for i in 0..word(width) {
        out.push((value >> (8 * i)) as u8);
    }
}

/// A file of `pages` pages whose header declares the test page size.
fn blank_file(pages: usize) -> Vec<u8> {
    let mut file = vec![0u8; PAGE * pages];
    put(&mut file, 0, 0xBEEF_C0DE, 4);
    put(&mut file, 4, 1, 4);
    put(&mut file, 8, PAGE as u64, 4);
    file
}

fn set_page(file: &mut [u8], page: usize, flags: u16, count: u16, next: u64, width: PointerWidth, body: &[u8]) {
    let base = page * PAGE;
    put(file, base, flags as u64, 2);
    put(file, base + 2, count as u64, 2);
    put(file, base + 4, next, word(width));
    let start = base + 4 + word(width);
    file[start..start + body.len()].copy_from_slice(body);
}

fn meta_body(page_size: u32, flags: u16, txn: u64, free_root: u64, main_root: u64, width: PointerWidth) -> Vec<u8> {
    let mut body = Vec::new();
    body.extend_from_slice(&page_size.to_le_bytes());
    body.extend_from_slice(&flags.to_le_bytes());
    body.extend_from_slice(&[0, 0]);
    push_word(&mut body, txn, width);
    push_word(&mut body, free_root, width);
    push_word(&mut body, main_root, width);
    body
}

fn set_meta(file: &mut [u8], page: usize, txn: u64, main_root: u64, width: PointerWidth) {
    let body = meta_body(PAGE as u32, 0, txn, none(width), main_root, width);
    set_page(file, page, META, 0, 0, width, &body);
}

/// A file with a valid header and two valid meta pages whose default
/// database has the given root.
fn store(pages: usize, main_root: u64, width: PointerWidth) -> Vec<u8> {
    let mut file = blank_file(pages);
    set_meta(&mut file, 1, 1, main_root, width);
    set_meta(&mut file, 2, 2, main_root, width);
    file
}

fn leaf_node(size: u32, flags: u16, key: &[u8], data: &[u8]) -> Vec<u8> {
    let mut node = Vec::new();
    node.extend_from_slice(&size.to_le_bytes());
    node.extend_from_slice(&flags.to_le_bytes());
    node.extend_from_slice(&(key.len() as u16).to_le_bytes());
    node.extend_from_slice(key);
    node.extend_from_slice(data);
    node
}

fn inline_node(key: &[u8], value: &[u8]) -> Vec<u8> {
    leaf_node(value.len() as u32, 0, key, value)
}

fn big_node(key: &[u8], size: u32, first: u64, width: PointerWidth) -> Vec<u8> {
    let mut data = Vec::new();
    push_word(&mut data, first, width);
    leaf_node(size, 0x01, key, &data)
}

fn sub_node(name: &[u8], flags: u16, root: u64, width: PointerWidth) -> Vec<u8> {
    let mut data = Vec::new();
    data.extend_from_slice(&flags.to_le_bytes());
    data.extend_from_slice(&[0, 0]);
    push_word(&mut data, root, width);
    leaf_node(data.len() as u32, 0x02, name, &data)
}

fn branch_node(child: u64, key: &[u8], width: PointerWidth) -> Vec<u8> {
    let mut node = Vec::new();
    push_word(&mut node, child, width);
    node.extend_from_slice(&(key.len() as u16).to_le_bytes());
    node.extend_from_slice(key);
    node
}

/// The body of a page of nodes: a slot for each node, then the nodes.
fn node_body(nodes: &[Vec<u8>]) -> Vec<u8> {
    let mut body = vec![0u8; 2 * nodes.len()];
    for (i, node) in nodes.iter().enumerate() {
        let at = body.len() as u16;
        body[2 * i..2 * i + 2].copy_from_slice(&at.to_le_bytes());
        body.extend_from_slice(node);
    }
    body
}

fn set_nodes(file: &mut [u8], page: usize, flags: u16, nodes: &[Vec<u8>], width: PointerWidth) {
    let body = node_body(nodes);
    set_page(file, page, flags, nodes.len() as u16, 0, width, &body);
}

fn auto() -> MigrateOptions {
    MigrateOptions { width: None, page_size: None }
}

fn reader(file: &[u8], width: PointerWidth) -> PageReader<'_> {
    PageReader::new(file, PAGE, width).unwrap()
}

fn message(e: &MigrateError) -> Option<&str> {
    match e {
        MigrateError::FromString(text) => Some(text.as_str()),
        _ => None,
    }
}

const TRUNCATED: &str = "structure reaches past the end of its page";
const LENGTH: &str = "overflow chain does not match the length of its value";
const CYCLE: &str = "page reached twice";

#[test]
fn little_endian_fields_have_exact_values() {
    let bytes = [0x01u8, 0x02, 0x03, 0x04, 0x05, 0x06, 0x07, 0x08, 0x09];
    assert_eq!(read_u16(&bytes, 0), Some(0x0201));
    assert_eq!(read_u16(&bytes, 7), Some(0x0908));
    assert_eq!(read_u16(&bytes, 8), None);
    assert_eq!(read_u32(&bytes, 1), Some(0x0504_0302));
    assert_eq!(read_u32(&bytes, 6), None);
    assert_eq!(read_u64(&bytes, 1), Some(0x0908_0706_0504_0302));
    assert_eq!(read_u64(&bytes, 2), None);
    assert_eq!(read_word(&bytes, 0, PointerWidth::W32), Some(0x0403_0201));
    assert_eq!(read_word(&bytes, 0, PointerWidth::W64), Some(0x0807_0605_0403_0201));
    assert_eq!(read_word(&bytes, usize::MAX, PointerWidth::W32), None);
}

#[test]
fn pointer_width_sizes() {
    assert_eq!(PointerWidth::W32.size(), 4);
    assert_eq!(PointerWidth::W64.size(), 8);
    assert_eq!(PointerWidth::W32.no_page(), 0xFFFF_FFFF);
    assert_eq!(PointerWidth::W64.no_page(), u64::MAX);
    assert_eq!(PointerWidth::W32.page_header_size(), 8);
    assert_eq!(PointerWidth::W64.page_header_size(), 12);
}

#[test]
fn header_is_validated() {
    let file = blank_file(3);
    let header = validate_header(&file).unwrap();
    assert_eq!(header.version, 1);
    assert_eq!(header.page_size, PAGE as u32);

    let mut devel = blank_file(3);
    put(&mut devel, 4, 999, 4);
    assert_eq!(validate_header(&devel).unwrap().version, 999);
}

#[test]
fn wrong_magic_is_refused() {
    let mut file = store(4, none(PointerWidth::W32), PointerWidth::W32);
    file[0] ^= 0xFF;
    assert!(matches!(validate_header(&file), Err(MigrateError::InvalidMagicNum)));
    assert!(matches!(open(&file, &auto()), Err(MigrateError::InvalidMagicNum)));
    assert!(matches!(plan(&file, &auto()), Err(MigrateError::InvalidMagicNum)));
    assert!(matches!(validate_header(&[0xDE, 0xC0, 0xEF]), Err(MigrateError::InvalidMagicNum)));
    assert!(matches!(validate_header(&[]), Err(MigrateError::InvalidMagicNum)));
}

#[test]
fn wrong_magic_wins_over_wrong_version() {
    let mut file = blank_file(3);
    put(&mut file, 0, 0, 4);
    put(&mut file, 4, 7, 4);
    assert!(matches!(validate_header(&file), Err(MigrateError::InvalidMagicNum)));
}

#[test]
fn unknown_version_is_refused() {
    let mut file = store(4, none(PointerWidth::W32), PointerWidth::W32);
    put(&mut file, 4, 2, 4);
    assert!(matches!(plan(&file, &auto()), Err(MigrateError::InvalidDataVersion)));
    assert!(matches!(
        validate_header(&[0xDE, 0xC0, 0xEF, 0xBE, 1, 0]),
        Err(MigrateError::InvalidDataVersion)
    ));
}

#[test]
fn width_is_detected() {
    let narrow = store(4, none(PointerWidth::W32), PointerWidth::W32);
    let info = open(&narrow, &auto()).unwrap();
    assert_eq!(info.width, PointerWidth::W32);
    assert_eq!(info.page_size, PAGE);
    assert_eq!(info.meta.txn_id, 2);
    assert_eq!(info.meta.main_root, 0xFFFF_FFFF);

    let wide = store(4, none(PointerWidth::W64), PointerWidth::W64);
    let info = open(&wide, &auto()).unwrap();
    assert_eq!(info.width, PointerWidth::W64);
    assert_eq!(info.meta.main_root, u64::MAX);
    assert!(check_width(&wide, PAGE, PointerWidth::W64));
    assert!(!check_width(&wide, PAGE, PointerWidth::W32));
}

#[test]
fn explicit_width_must_fit() {
    let narrow = store(4, none(PointerWidth::W32), PointerWidth::W32);
    let right = MigrateOptions { width: Some(PointerWidth::W32), page_size: None };
    let wrong = MigrateOptions { width: Some(PointerWidth::W64), page_size: None };
    assert_eq!(open(&narrow, &right).unwrap().width, PointerWidth::W32);
    assert!(matches!(open(&narrow, &wrong), Err(MigrateError::IndeterminateBitDepth)));
    assert!(matches!(plan(&narrow, &wrong), Err(MigrateError::IndeterminateBitDepth)));
}

#[test]
fn no_candidate_and_two_fitting_candidates_are_refused() {
    let narrow = store(4, none(PointerWidth::W32), PointerWidth::W32);
    assert!(matches!(resolve_width(&narrow, PAGE, &[]), Err(MigrateError::IndeterminateBitDepth)));
    assert!(matches!(
        resolve_width(&narrow, PAGE, &[PointerWidth::W32, PointerWidth::W32]),
        Ok(PointerWidth::W32)
    ));

    // Page 1 is a valid meta page when read with 32-bit pointers, page 2 when
    // read with 64-bit pointers: both widths fit, so neither is chosen.
    let mut both = blank_file(4);
    set_meta(&mut both, 1, 1, none(PointerWidth::W32), PointerWidth::W32);
    set_meta(&mut both, 2, 1, none(PointerWidth::W64), PointerWidth::W64);
    assert!(check_width(&both, PAGE, PointerWidth::W32));
    assert!(check_width(&both, PAGE, PointerWidth::W64));
    assert!(matches!(open(&both, &auto()), Err(MigrateError::IndeterminateBitDepth)));
    let narrow_only = MigrateOptions { width: Some(PointerWidth::W32), page_size: None };
    assert_eq!(open(&both, &narrow_only).unwrap().width, PointerWidth::W32);
}

#[test]
fn both_meta_pages_invalid_is_indeterminate() {
    let mut file = store(4, none(PointerWidth::W32), PointerWidth::W32);
    // Page 1 is no meta page any more, page 2 declares another page size.
    put(&mut file, PAGE, LEAF as u64, 2);
    put(&mut file, 2 * PAGE + 8, 4096, 4);
    assert!(matches!(open(&file, &auto()), Err(MigrateError::IndeterminateBitDepth)));
    assert!(matches!(plan(&file, &auto()), Err(MigrateError::IndeterminateBitDepth)));
    let narrow = MigrateOptions { width: Some(PointerWidth::W32), page_size: None };
    assert!(matches!(plan(&file, &narrow), Err(MigrateError::IndeterminateBitDepth)));
}

#[test]
fn meta_page_is_validated() {
    let width = PointerWidth::W32;
    let good = store(4, 3, width);
    let r = reader(&good, width);
    let meta = read_meta(&r, 1).unwrap();
    assert_eq!(meta.txn_id, 1);
    assert_eq!(meta.main_root, 3);
    assert_eq!(meta.free_root, 0xFFFF_FFFF);
    assert_eq!(meta.main_flags, 0);

    // A root outside the file.
    let outside = store(4, 4, width);
    assert!(read_meta(&reader(&outside, width), 1).is_none());

    // Unknown bits in the flags of the default database.
    let mut flagged = store(4, 3, width);
    put(&mut flagged, PAGE + 8 + 4, 0x01, 2);
    assert!(read_meta(&reader(&flagged, width), 1).is_none());
    assert!(read_meta(&reader(&flagged, width), 2).is_some());

    // Known bits are kept.
    let mut sorted = store(4, 3, width);
    put(&mut sorted, PAGE + 8 + 4, 0x04, 2);
    assert_eq!(read_meta(&reader(&sorted, width), 1).unwrap().main_flags, 0x04);

    // A page past the end of the file.
    assert!(read_meta(&r, 9).is_none());
}

#[test]
fn authoritative_meta_page_has_the_higher_transaction_id() {
    let width = PointerWidth::W64;
    let mut file = blank_file(5);
    set_meta(&mut file, 1, 7, 3, width);
    set_meta(&mut file, 2, 5, 4, width);
    assert_eq!(select_meta(&reader(&file, width)).unwrap().main_root, 3);

    set_meta(&mut file, 2, 8, 4, width);
    assert_eq!(select_meta(&reader(&file, width)).unwrap().main_root, 4);

    // Equal ids: the first copy.
    set_meta(&mut file, 2, 7, 4, width);
    assert_eq!(select_meta(&reader(&file, width)).unwrap().main_root, 3);

    // Only the second copy is valid.
    put(&mut file, PAGE, LEAF as u64, 2);
    set_meta(&mut file, 2, 1, 4, width);
    assert_eq!(select_meta(&reader(&file, width)).unwrap().main_root, 4);
    assert_eq!(open(&file, &auto()).unwrap().meta.txn_id, 1);
}

#[test]
fn page_size_override_replaces_the_declared_one() {
    let width = PointerWidth::W32;
    let mut file = store(4, none(width), width);
    put(&mut file, 8, 4096, 4);
    assert!(matches!(open(&file, &auto()), Err(MigrateError::IndeterminateBitDepth)));
    let options = MigrateOptions { width: None, page_size: Some(PAGE as u32) };
    let info = open(&file, &options).unwrap();
    assert_eq!(info.page_size, PAGE);
    assert_eq!(info.header.page_size, 4096);

    let tiny = MigrateOptions { width: None, page_size: Some(8) };
    assert!(matches!(open(&file, &tiny), Err(MigrateError::IndeterminateBitDepth)));
    let zero = MigrateOptions { width: None, page_size: Some(0) };
    assert!(matches!(open(&file, &zero), Err(MigrateError::IndeterminateBitDepth)));
}

#[test]
fn page_reader_needs_room_for_a_header() {
    let file = blank_file(3);
    assert!(PageReader::new(&file, 8, PointerWidth::W32).is_none());
    assert!(PageReader::new(&file, 9, PointerWidth::W32).is_some());
    assert!(PageReader::new(&file, 12, PointerWidth::W64).is_none());
    assert!(PageReader::new(&file, 13, PointerWidth::W64).is_some());
    let r = PageReader::new(&file, 100, PointerWidth::W32).unwrap();
    assert_eq!(r.page_count(), 3);
    assert_eq!(r.page_size(), 100);
    assert_eq!(r.width(), PointerWidth::W32);
}

#[test]
fn pages_are_read_by_number() {
    let width = PointerWidth::W32;
    let mut file = blank_file(5);
    set_page(&mut file, 3, OVERFLOW, 0, 4, width, &[0xAA; 120]);
    set_page(&mut file, 4, FREELIST, 7, 0xFFFF_FFFF, width, &[0xBB; 120]);
    let r = reader(&file, width);
    let page = r.read_page(3).unwrap();
    assert_eq!(page.kind, PageKind::Overflow);
    assert_eq!(page.count, 0);
    assert_eq!(page.next, 4);
    assert_eq!(page.body, &[0xAA; 120][..]);
    let page = r.read_page(4).unwrap();
    assert_eq!(page.kind, PageKind::Freelist);
    assert_eq!(page.count, 7);
    assert_eq!(page.next, 0xFFFF_FFFF);
    assert_eq!(page.body.len(), 120);
    // Reading a page again gives the same page.
    let again = r.read_page(3).unwrap();
    assert_eq!(again.body, &[0xAA; 120][..]);

    assert!(matches!(r.read_page(5), Err(MigrateError::InvalidPageNum)));
    assert!(matches!(r.read_page(u64::MAX), Err(MigrateError::InvalidPageNum)));
    // The fixed header is no page of a tree: its first bytes name no kind.
    assert!(matches!(r.read_page(0), Err(MigrateError::InvalidPageBits)));

    let wide = reader(&file, PointerWidth::W64);
    assert_eq!(wide.read_page(3).unwrap().body.len(), 116);
}

#[test]
fn page_flags_name_exactly_one_kind() {
    assert_eq!(PageKind::from_flags(BRANCH), Some(PageKind::Branch));
    assert_eq!(PageKind::from_flags(LEAF), Some(PageKind::Leaf));
    assert_eq!(PageKind::from_flags(OVERFLOW), Some(PageKind::Overflow));
    assert_eq!(PageKind::from_flags(META), Some(PageKind::Meta));
    assert_eq!(PageKind::from_flags(FREELIST), Some(PageKind::Freelist));
    assert_eq!(PageKind::from_flags(0), None);
    assert_eq!(PageKind::from_flags(BRANCH | LEAF), None);
    assert_eq!(PageKind::from_flags(0x20), None);

    let width = PointerWidth::W32;
    let mut file = blank_file(4);
    set_page(&mut file, 3, BRANCH | LEAF, 0, 0, width, &[]);
    assert!(matches!(reader(&file, width).read_page(3), Err(MigrateError::InvalidPageBits)));
}

#[test]
fn a_partial_last_page_is_no_page() {
    let mut file = blank_file(4);
    file.truncate(4 * PAGE - 1);
    let r = reader(&file, PointerWidth::W32);
    assert_eq!(r.page_count(), 3);
    assert!(matches!(r.read_page(3), Err(MigrateError::InvalidPageNum)));
}

#[test]
fn leaf_nodes_are_decoded() {
    let width = PointerWidth::W64;
    let body = node_body(&[
        inline_node(b"apple", b"red"),
        leaf_node(5, 0x04, b"berry", b"black"),
        big_node(b"cherry", 300, 9, width),
        sub_node(b"fruits", 0x04, 12, width),
        inline_node(b"", b""),
    ]);
    let at = |i: usize| u16::from_le_bytes([body[2 * i], body[2 * i + 1]]);

    match parse_leaf_node(&body, width, at(0)).unwrap() {
        Node::Inline { key, value } => {
            assert_eq!(key, b"apple");
            assert_eq!(value, b"red");
        }
        other => panic!("{:?}", other),
    }
    match parse_leaf_node(&body, width, at(1)).unwrap() {
        Node::Inline { key, value } => {
            assert_eq!(key, b"berry");
            assert_eq!(value, b"black");
        }
        other => panic!("{:?}", other),
    }
    match parse_leaf_node(&body, width, at(2)).unwrap() {
        Node::Chained { key, size, first } => {
            assert_eq!(key, b"cherry");
            assert_eq!(size, 300);
            assert_eq!(first, 9);
        }
        other => panic!("{:?}", other),
    }
    match parse_leaf_node(&body, width, at(3)).unwrap() {
        Node::Database(record) => {
            assert_eq!(record.name, "fruits");
            assert_eq!(record.root, 12);
            assert_eq!(record.flags, 0x04);
        }
        other => panic!("{:?}", other),
    }
    match parse_leaf_node(&body, width, at(4)).unwrap() {
        Node::Inline { key, value } => {
            assert!(key.is_empty());
            assert!(value.is_empty());
        }
        other => panic!("{:?}", other),
    }
}

#[test]
fn node_flags_name_exactly_one_kind() {
    let width = PointerWidth::W32;
    for flags in [0x03u16, 0x05, 0x06, 0x07, 0x08, 0x8000] {
        let body = leaf_node(1, flags, b"k", b"v");
        assert!(matches!(parse_leaf_node(&body, width, 0), Err(MigrateError::InvalidNodeBits)));
    }
    // The flags are checked before the key and the data are looked at.
    let mut cut = leaf_node(100, 0x03, b"key", b"");
    cut.truncate(8);
    assert!(matches!(parse_leaf_node(&cut, width, 0), Err(MigrateError::InvalidNodeBits)));
}

#[test]
fn nodes_must_lie_in_their_page() {
    let width = PointerWidth::W32;
    let whole = inline_node(b"key", b"value");
    for cut in 0..whole.len() {
        let e = parse_leaf_node(&whole[..cut], width, 0).unwrap_err();
        assert_eq!(message(&e), Some(TRUNCATED));
    }
    assert!(parse_leaf_node(&whole, width, 0).is_ok());
    let e = parse_leaf_node(&whole, width, (whole.len() - 7) as u16).unwrap_err();
    assert_eq!(message(&e), Some(TRUNCATED));
    let e = parse_leaf_node(&whole, width, u16::MAX).unwrap_err();
    assert_eq!(message(&e), Some(TRUNCATED));

    let big = big_node(b"key", 9, 3, width);
    let e = parse_leaf_node(&big[..big.len() - 1], width, 0).unwrap_err();
    assert_eq!(message(&e), Some(TRUNCATED));

    // A database record that is shorter than its flags and its root.
    let short = leaf_node(7, 0x02, b"db", &[0u8; 7]);
    let e = parse_leaf_node(&short, width, 0).unwrap_err();
    assert_eq!(message(&e), Some(TRUNCATED));
    let exact = leaf_node(8, 0x02, b"db", &[0u8; 8]);
    assert!(parse_leaf_node(&exact, width, 0).is_ok());
    let e = parse_leaf_node(&exact, PointerWidth::W64, 0).unwrap_err();
    assert_eq!(message(&e), Some(TRUNCATED));
}

#[test]
fn database_records_are_validated() {
    let width = PointerWidth::W32;
    let flagged = sub_node(b"db", 0x01, 3, width);
    assert!(matches!(parse_leaf_node(&flagged, width, 0), Err(MigrateError::InvalidDatabaseBits)));
    let flagged = sub_node(b"db", 0x80, 3, width);
    assert!(matches!(parse_leaf_node(&flagged, width, 0), Err(MigrateError::InvalidDatabaseBits)));
    let all = sub_node(b"db", 0x7E, 3, width);
    assert!(parse_leaf_node(&all, width, 0).is_ok());

    let unnamed = sub_node(&[0xFF, 0xFE], 0, 3, width);
    assert!(matches!(parse_leaf_node(&unnamed, width, 0), Err(MigrateError::Utf8Error(_))));
    // The flags are looked at before the name.
    let neither = sub_node(&[0xFF], 0x01, 3, width);
    assert!(matches!(parse_leaf_node(&neither, width, 0), Err(MigrateError::InvalidDatabaseBits)));

    let named = sub_node("caf\u{e9}".as_bytes(), 0, 3, width);
    match parse_leaf_node(&named, width, 0).unwrap() {
        Node::Database(record) => assert_eq!(record.name, "caf\u{e9}"),
        other => panic!("{:?}", other),
    }
}

#[test]
fn branch_nodes_are_decoded() {
    let narrow = branch_node(0x0403_0201, b"key", PointerWidth::W32);
    assert_eq!(parse_branch_node(&narrow, PointerWidth::W32, 0).unwrap(), 0x0403_0201);
    let wide = branch_node(0x0807_0605_0403_0201, b"key", PointerWidth::W64);
    assert_eq!(parse_branch_node(&wide, PointerWidth::W64, 0).unwrap(), 0x0807_0605_0403_0201);
    for cut in 0..wide.len() {
        let e = parse_branch_node(&wide[..cut], PointerWidth::W64, 0).unwrap_err();
        assert_eq!(message(&e), Some(TRUNCATED));
    }
}

/// A file whose pages 3, 4 and 5 are an overflow chain that holds the bytes
/// 0, 1, 2, ... of a value.
fn chained(width: PointerWidth) -> (Vec<u8>, usize) {
    let capacity = PAGE - 4 - word(width);
    let value: Vec<u8> = (0..3 * capacity).map(|i| i as u8).collect();
    let mut file = store(7, none(width), width);
    set_page(&mut file, 3, OVERFLOW, 0, 4, width, &value[..capacity]);
    set_page(&mut file, 4, OVERFLOW, 0, 5, width, &value[capacity..2 * capacity]);
    set_page(&mut file, 5, OVERFLOW, 0, none(width), width, &value[2 * capacity..]);
    (file, capacity)
}

#[test]
fn overflow_chain_of_three_pages_gives_the_recorded_length() {
    for width in [PointerWidth::W32, PointerWidth::W64] {
        let (file, capacity) = chained(width);
        let r = reader(&file, width);
        let size = 2 * capacity + 10;
        let value = read_chain(&r, 3, size as u32).unwrap();
        assert_eq!(value.len(), size);
        let expected: Vec<u8> = (0..size).map(|i| i as u8).collect();
        assert_eq!(value, expected);

        let full = read_chain(&r, 3, (3 * capacity) as u32).unwrap();
        assert_eq!(full.len(), 3 * capacity);
        let last = read_chain(&r, 5, 1).unwrap();
        assert_eq!(last, vec![(2 * capacity) as u8]);
    }
}

#[test]
fn truncated_overflow_chain_is_refused() {
    let width = PointerWidth::W32;
    let (mut file, capacity) = chained(width);
    // The chain ends after its second page.
    put(&mut file, 4 * PAGE + 4, none(width), 4);
    let r = reader(&file, width);
    let e = read_chain(&r, 3, (2 * capacity + 10) as u32).unwrap_err();
    assert_eq!(message(&e), Some(LENGTH));
    assert_eq!(read_chain(&r, 3, (2 * capacity) as u32).unwrap().len(), 2 * capacity);
    // A value that asks for one byte more than the whole chain holds.
    let (file, capacity) = chained(width);
    let r = reader(&file, width);
    let e = read_chain(&r, 3, (3 * capacity + 1) as u32).unwrap_err();
    assert_eq!(message(&e), Some(LENGTH));
    // No chain at all.
    let e = read_chain(&r, none(width), 1).unwrap_err();
    assert_eq!(message(&e), Some(LENGTH));
}

#[test]
fn overlong_overflow_chain_is_refused() {
    let width = PointerWidth::W64;
    let (file, capacity) = chained(width);
    let r = reader(&file, width);
    let e = read_chain(&r, 3, (2 * capacity) as u32).unwrap_err();
    assert_eq!(message(&e), Some(LENGTH));
    let e = read_chain(&r, 3, 0).unwrap_err();
    assert_eq!(message(&e), Some(LENGTH));
    assert_eq!(read_chain(&r, none(width), 0).unwrap(), Vec::<u8>::new());
}

#[test]
fn overflow_chain_must_be_made_of_overflow_pages() {
    let width = PointerWidth::W32;
    let (mut file, capacity) = chained(width);
    put(&mut file, 4 * PAGE, LEAF as u64, 2);
    let e = read_chain(&reader(&file, width), 3, (3 * capacity) as u32).unwrap_err();
    assert!(matches!(e, MigrateError::UnexpectedPageVariant));

    let (mut file, capacity) = chained(width);
    put(&mut file, 4 * PAGE + 4, 7, 4);
    let e = read_chain(&reader(&file, width), 3, (3 * capacity) as u32).unwrap_err();
    assert!(matches!(e, MigrateError::InvalidPageNum));

    let (mut file, capacity) = chained(width);
    put(&mut file, 4 * PAGE, 0x40, 2);
    let e = read_chain(&reader(&file, width), 3, (3 * capacity) as u32).unwrap_err();
    assert!(matches!(e, MigrateError::InvalidPageBits));
}

/// A tree of one branch page (3) over two leaf pages (4 and 5).
fn tree(width: PointerWidth) -> Vec<u8> {
    let mut file = store(6, 3, width);
    set_nodes(&mut file, 3, BRANCH, &[branch_node(4, b"", width), branch_node(5, b"m", width)], width);
    set_nodes(&mut file, 4, LEAF, &[inline_node(b"a", b"1"), inline_node(b"b", b"2")], width);
    set_nodes(&mut file, 5, LEAF, &[inline_node(b"m", b"3"), inline_node(b"z", b"4")], width);
    file
}

fn pairs(plan: &rkv::migrate::MigrationPlan) -> Vec<(Option<usize>, Vec<u8>, Vec<u8>)> {
    plan.records.iter().map(|r| (r.database, r.key.clone(), r.value.clone())).collect()
}

#[test]
fn records_come_in_the_order_of_the_tree() {
    for width in [PointerWidth::W32, PointerWidth::W64] {
        let file = tree(width);
        let found = plan(&file, &auto()).unwrap();
        assert!(found.databases.is_empty());
        assert_eq!(
            pairs(&found),
            vec![
                (None, b"a".to_vec(), b"1".to_vec()),
                (None, b"b".to_vec(), b"2".to_vec()),
                (None, b"m".to_vec(), b"3".to_vec()),
                (None, b"z".to_vec(), b"4".to_vec()),
            ]
        );
    }
}

#[test]
fn migration_is_deterministic() {
    let file = tree(PointerWidth::W32);
    let first = plan(&file, &auto()).unwrap();
    let second = plan(&file, &auto()).unwrap();
    assert_eq!(pairs(&first), pairs(&second));
    assert_eq!(first.databases.len(), second.databases.len());
}

#[test]
fn empty_database_gives_an_empty_plan() {
    for width in [PointerWidth::W32, PointerWidth::W64] {
        let file = store(3, none(width), width);
        let found = plan(&file, &auto()).unwrap();
        assert!(found.records.is_empty());
        assert!(found.databases.is_empty());

        // A root that is a leaf page without nodes.
        let mut file = store(4, 3, width);
        set_nodes(&mut file, 3, LEAF, &[], width);
        let found = plan(&file, &auto()).unwrap();
        assert!(found.records.is_empty());
        assert!(found.databases.is_empty());
    }
}

#[test]
fn branch_that_points_back_is_refused() {
    let width = PointerWidth::W32;
    // The second child of the root is the root itself.
    let mut file = tree(width);
    set_nodes(&mut file, 3, BRANCH, &[branch_node(4, b"", width), branch_node(3, b"m", width)], width);
    let e = plan(&file, &auto()).unwrap_err();
    assert_eq!(message(&e), Some(CYCLE));

    // Two branch pages that point to each other.
    let mut file = store(6, 3, width);
    set_nodes(&mut file, 3, BRANCH, &[branch_node(4, b"", width)], width);
    set_nodes(&mut file, 4, BRANCH, &[branch_node(3, b"", width)], width);
    let e = plan(&file, &auto()).unwrap_err();
    assert_eq!(message(&e), Some(CYCLE));

    // A leaf page with two parents.
    let mut file = tree(width);
    set_nodes(&mut file, 3, BRANCH, &[branch_node(4, b"", width), branch_node(4, b"m", width)], width);
    let e = plan(&file, &auto()).unwrap_err();
    assert_eq!(message(&e), Some(CYCLE));
}

#[test]
fn tree_pages_must_be_branch_or_leaf_pages() {
    let width = PointerWidth::W32;
    for flags in [OVERFLOW, FREELIST, META] {
        let mut file = tree(width);
        put(&mut file, 5 * PAGE, flags as u64, 2);
        assert!(matches!(plan(&file, &auto()), Err(MigrateError::UnexpectedPageVariant)));
    }
    // A child that is one of the meta pages.
    let mut file = tree(width);
    set_nodes(&mut file, 3, BRANCH, &[branch_node(1, b"", width)], width);
    assert!(matches!(plan(&file, &auto()), Err(MigrateError::UnexpectedPageVariant)));
    // A child outside the file.
    let mut file = tree(width);
    set_nodes(&mut file, 3, BRANCH, &[branch_node(6, b"", width)], width);
    assert!(matches!(plan(&file, &auto()), Err(MigrateError::InvalidPageNum)));
    // A child whose flags name no kind.
    let mut file = tree(width);
    put(&mut file, 4 * PAGE, 0x03, 2);
    assert!(matches!(plan(&file, &auto()), Err(MigrateError::InvalidPageBits)));
    // A node whose flags name no kind.
    let mut file = tree(width);
    set_nodes(&mut file, 4, LEAF, &[leaf_node(1, 0x03, b"a", b"1")], width);
    assert!(matches!(plan(&file, &auto()), Err(MigrateError::InvalidNodeBits)));
}

#[test]
fn slot_table_must_lie_in_its_page() {
    let width = PointerWidth::W32;
    let mut file = tree(width);
    put(&mut file, 4 * PAGE + 2, 61, 2);
    let e = plan(&file, &auto()).unwrap_err();
    assert_eq!(message(&e), Some(TRUNCATED));
    let mut file = tree(width);
    put(&mut file, 3 * PAGE + 2, 0xFFFF, 2);
    let e = plan(&file, &auto()).unwrap_err();
    assert_eq!(message(&e), Some(TRUNCATED));
}

#[test]
fn named_databases_are_walked() {
    let width = PointerWidth::W64;
    let mut file = store(8, 3, width);
    set_nodes(
        &mut file,
        3,
        LEAF,
        &[
            inline_node(b"a", b"1"),
            sub_node(b"first", 0x04, 4, width),
            sub_node(b"empty", 0, none(width), width),
            sub_node(b"second", 0, 5, width),
            inline_node(b"z", b"2"),
        ],
        width,
    );
    set_nodes(&mut file, 4, LEAF, &[inline_node(b"k", b"first-value")], width);
    set_nodes(&mut file, 5, BRANCH, &[branch_node(6, b"", width)], width);
    set_nodes(&mut file, 6, LEAF, &[big_node(b"k", 5, 7, width)], width);
    set_page(&mut file, 7, OVERFLOW, 0, none(width), width, b"hello");

    let found = plan(&file, &auto()).unwrap();
    let names: Vec<&str> = found.databases.iter().map(|d| d.name.as_str()).collect();
    assert_eq!(names, vec!["first", "empty", "second"]);
    assert_eq!(found.databases[0].root, 4);
    assert_eq!(found.databases[0].flags, 0x04);
    assert_eq!(found.databases[1].root, u64::MAX);
    assert_eq!(
        pairs(&found),
        vec![
            (None, b"a".to_vec(), b"1".to_vec()),
            (None, b"z".to_vec(), b"2".to_vec()),
            (Some(2), b"k".to_vec(), b"hello".to_vec()),
            (Some(0), b"k".to_vec(), b"first-value".to_vec()),
        ]
    );
}

#[test]
fn databases_may_not_share_pages() {
    let width = PointerWidth::W32;
    let mut file = store(5, 3, width);
    set_nodes(
        &mut file,
        3,
        LEAF,
        &[sub_node(b"one", 0, 4, width), sub_node(b"two", 0, 4, width)],
        width,
    );
    set_nodes(&mut file, 4, LEAF, &[], width);
    let e = plan(&file, &auto()).unwrap_err();
    assert_eq!(message(&e), Some(CYCLE));

    // A database whose root is the page that names it.
    let mut file = store(5, 3, width);
    set_nodes(&mut file, 3, LEAF, &[sub_node(b"self", 0, 3, width)], width);
    let e = plan(&file, &auto()).unwrap_err();
    assert_eq!(message(&e), Some(CYCLE));

    // A database whose root lies outside the file.
    let mut file = store(5, 3, width);
    set_nodes(&mut file, 3, LEAF, &[sub_node(b"far", 0, 5, width)], width);
    assert!(matches!(plan(&file, &auto()), Err(MigrateError::InvalidPageNum)));
}

#[test]
fn duplicate_keys_keep_their_order() {
    let width = PointerWidth::W32;
    let mut file = store(4, 3, width);
    set_nodes(
        &mut file,
        3,
        LEAF,
        &[
            leaf_node(1, 0x04, b"k", b"2"),
            leaf_node(1, 0x04, b"k", b"1"),
            leaf_node(1, 0x04, b"k", b"2"),
        ],
        width,
    );
    let found = plan(&file, &auto()).unwrap();
    let values: Vec<Vec<u8>> = found.records.iter().map(|r| r.value.clone()).collect();
    assert_eq!(values, vec![b"2".to_vec(), b"1".to_vec(), b"2".to_vec()]);
}

#[test]
fn walk_starts_at_the_given_root() {
    let width = PointerWidth::W32;
    let file = tree(width);
    let r = reader(&file, width);
    let found = walk(&r, 5).unwrap();
    assert_eq!(
        pairs(&found),
        vec![(None, b"m".to_vec(), b"3".to_vec()), (None, b"z".to_vec(), b"4".to_vec())]
    );
    assert!(walk(&r, 0xFFFF_FFFF).unwrap().records.is_empty());
    assert!(matches!(walk(&r, 6), Err(MigrateError::InvalidPageNum)));
}

#[test]
fn value_in_overflow_pages_is_migrated_whole() {
    let width = PointerWidth::W32;
    let (mut file, capacity) = chained(width);
    let size = 2 * capacity + 10;
    set_nodes(&mut file, 6, LEAF, &[big_node(b"big", size as u32, 3, width)], width);
    set_meta(&mut file, 1, 1, 6, width);
    set_meta(&mut file, 2, 2, 6, width);
    let found = plan(&file, &auto()).unwrap();
    assert_eq!(found.records.len(), 1);
    assert_eq!(found.records[0].key, b"big");
    assert_eq!(found.records[0].value.len(), size);
    let expected: Vec<u8> = (0..size).map(|i| i as u8).collect();
    assert_eq!(found.records[0].value, expected);

    // With the chain cut after its second page nothing is listed.
    put(&mut file, 4 * PAGE + 4, none(width), 4);
    let e = plan(&file, &auto()).unwrap_err();
    assert_eq!(message(&e), Some(LENGTH));
}

#[test]
fn session_creates_a_named_database_before_its_first_record() {
    let width = PointerWidth::W32;
    let mut file = store(6, 3, width);
    set_nodes(
        &mut file,
        3,
        LEAF,
        &[
            inline_node(b"a", b"1"),
            sub_node(b"empty", 0, none(width), width),
            sub_node(b"named", 0, 4, width),
            inline_node(b"z", b"2"),
        ],
        width,
    );
    set_nodes(&mut file, 4, LEAF, &[inline_node(b"k", b"v"), inline_node(b"l", b"w")], width);

    let (mut session, first) = MigrationSession::start(&file, &auto()).unwrap();
    let names: Vec<&str> = session.plan().databases.iter().map(|d| d.name.as_str()).collect();
    assert_eq!(names, vec!["empty", "named"]);
    let mut actions = vec![first];
    let count = loop {
        match session.advance(Event::Succeeded) {
            SessionProgress::Next(next, action) => {
                session = next;
                actions.push(action);
            }
            SessionProgress::Done(result) => break result.unwrap(),
        }
    };
    // The database without records is never referred to, and never created.
    assert_eq!(
        actions,
        vec![
            Action::Begin,
            Action::Put(0),
            Action::Put(1),
            Action::Create(1),
            Action::Put(2),
            Action::Put(3),
            Action::Commit
        ]
    );
    assert_eq!(count, 4);
}
