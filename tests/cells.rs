use h3_wasm::api::{
    cellToCenterChild, cellToChildren, cellToLocalIj, cellToParent, getBaseCellNumber,
    getResolution, isPentagon, isResClassIII, isValidCell,
};
use h3_wasm::cell::{decode_cell, local_ij_from, Cell, LocalIj};
use h3_wasm::error::H3Error;
use h3_wasm::hex::{format_hex, parse_hex};

#[test]
fn decodes_known_cell() {
    let cell = decode_cell("8928308280fffff").unwrap();
    assert_eq!(cell.resolution(), 9);
    assert_eq!(cell.base_cell(), 20);
    assert!(!cell.is_pentagon());
    assert!(cell.is_class_iii());
    assert_eq!(getResolution("8928308280fffff"), Ok(9));
    assert_eq!(getBaseCellNumber("8928308280fffff"), Ok(20));
    assert_eq!(isPentagon("8928308280fffff"), Ok(false));
    assert_eq!(isResClassIII("8928308280fffff"), Ok(true));
    assert!(isValidCell("8928308280fffff"));
}

#[test]
fn text_round_trip_is_canonical() {
    let cell = decode_cell("8928308280FFFFF").unwrap();
    assert_eq!(cell.to_text(), "8928308280fffff");
    let padded = decode_cell("08928308280fffff").unwrap();
    assert_eq!(padded.to_text(), "8928308280fffff");
    assert_eq!(padded, cell);
}

#[test]
fn hex_parse_and_format() {
    assert_eq!(parse_hex("0"), Some(0));
    assert_eq!(parse_hex("00ff"), Some(255));
    assert_eq!(parse_hex("FFFFFFFFFFFFFFFF"), Some(u64::MAX));
    assert_eq!(parse_hex(""), None);
    assert_eq!(parse_hex("+ff"), None);
    assert_eq!(parse_hex("12345678901234567"), None);
    assert_eq!(parse_hex("g1"), None);
    assert_eq!(format_hex(0), "0");
    assert_eq!(format_hex(255), "ff");
    assert_eq!(format_hex(u64::MAX), "ffffffffffffffff");
}

#[test]
fn rejects_malformed_indexes() {
    assert_eq!(decode_cell("not hex"), Err(H3Error::InvalidFormat));
    assert_eq!(decode_cell(""), Err(H3Error::InvalidFormat));
    assert_eq!(decode_cell("0"), Err(H3Error::InvalidFormat));
    // resolution 9 with an unused digit in position 9
    assert_eq!(decode_cell("8928308287fffff"), Err(H3Error::InvalidFormat));
    // resolution 9 with a used digit past position 9
    assert_eq!(decode_cell("8928308280ffff0"), Err(H3Error::InvalidFormat));
    // base cell 122
    assert_eq!(Cell::from_index(0x80f5fffffffffff), None);
    // pentagon base cell 4 with first digit 1
    assert_eq!(decode_cell("81087ffffffffff"), Err(H3Error::InvalidFormat));
    // a directed edge is not a cell
    assert_eq!(decode_cell("1128308280fffff"), Err(H3Error::InvalidFormat));
    assert!(!isValidCell("zz"));
    assert_eq!(getResolution("zz"), Err(H3Error::InvalidFormat));
}

#[test]
fn pentagons() {
    let base = decode_cell("8009fffffffffff").unwrap();
    assert!(base.is_pentagon());
    assert_eq!(base.base_cell(), 4);
    assert_eq!(isPentagon("8009fffffffffff"), Ok(true));
    let center = base.center_child(2).unwrap();
    assert_eq!(center.to_text(), "820807fffffffff");
    assert!(center.is_pentagon());
    let kids = base.children(1).unwrap();
    assert_eq!(kids.len(), 6);
    assert!(kids.iter().all(|k| !k.to_text().starts_with("81087")));
}

#[test]
fn parents() {
    assert_eq!(cellToParent("8928308280fffff", 5), Ok("85283083fffffff".to_string()));
    assert_eq!(cellToParent("8928308280fffff", 0), Ok("8029fffffffffff".to_string()));
    assert_eq!(cellToParent("8928308280fffff", 9), Ok("8928308280fffff".to_string()));
    assert_eq!(cellToParent("8928308280fffff", 10), Err(H3Error::NoSuchRelation));
    assert_eq!(cellToParent("8928308280fffff", 16), Err(H3Error::InvalidResolution));
    assert_eq!(cellToParent("xyz", 3), Err(H3Error::InvalidFormat));
    let cell = decode_cell("8928308280fffff").unwrap();
    let p5 = cell.parent(5).unwrap();
    assert_eq!(p5.resolution(), 5);
    assert_eq!(p5.parent(2), cell.parent(2));
}

#[test]
fn center_children() {
    assert_eq!(cellToCenterChild("8928308280fffff", 10), Ok("8a28308280c7fff".to_string()));
    assert_eq!(cellToCenterChild("8928308280fffff", 15), Ok("8f28308280c0000".to_string()));
    assert_eq!(cellToCenterChild("8928308280fffff", 8), Err(H3Error::NoSuchRelation));
    assert_eq!(cellToCenterChild("8928308280fffff", 16), Err(H3Error::InvalidResolution));
    let cell = decode_cell("8928308280fffff").unwrap();
    for r in 9..=15u8 {
        let child = cell.center_child(r).unwrap();
        assert_eq!(child.parent(9), Some(cell));
    }
}

#[test]
fn children_lists() {
    let kids = cellToChildren("8928308280fffff", 10).unwrap();
    assert_eq!(kids.len(), 7);
    assert!(kids.contains(&"8a28308280c7fff".to_string()));
    let mut sorted = kids.clone();
    sorted.sort();
    sorted.dedup();
    assert_eq!(sorted.len(), 7);
    for k in &kids {
        assert_eq!(cellToParent(k, 9), Ok("8928308280fffff".to_string()));
    }
    assert_eq!(cellToChildren("8928308280fffff", 11).unwrap().len(), 49);
    assert_eq!(cellToChildren("8928308280fffff", 9).unwrap(), vec!["8928308280fffff".to_string()]);
    assert!(cellToChildren("8928308280fffff", 8).unwrap().is_empty());
    assert_eq!(cellToChildren("8928308280fffff", 16), Err(H3Error::InvalidResolution));
    assert_eq!(cellToChildren("nope", 10), Err(H3Error::InvalidFormat));
}

#[test]
fn local_ij_frames() {
    let here = cellToLocalIj("8928308280fffff", "8928308280fffff").unwrap();
    let next = cellToLocalIj("8928308280fffff", "89283082803ffff").unwrap();
    assert_ne!(here, next);
    let di = (next.i - here.i).abs();
    let dj = (next.j - here.j).abs();
    assert!(di <= 1 && dj <= 1 && di + dj >= 1);
    assert_eq!(cellToLocalIj("8928308280fffff", "85283083fffffff"), Err(H3Error::NoSuchRelation));
    assert_eq!(cellToLocalIj("bad", "8928308280fffff"), Err(H3Error::InvalidFormat));
    assert_eq!(local_ij_from(Some((3, -2))), Ok(LocalIj { i: 3, j: -2 }));
    assert_eq!(local_ij_from(None), Err(H3Error::NoSuchRelation));
}

#[test]
fn agrees_with_engine_hierarchy() {
    let raw = h3o::CellIndex::try_from(0x8928308280fffff).unwrap();
    let cell = decode_cell("8928308280fffff").unwrap();
    for r in 0..=9u8 {
        let expected = raw.parent(h3o::Resolution::try_from(r).unwrap()).unwrap();
        assert_eq!(cell.parent(r).unwrap().bits(), u64::from(expected));
    }
    for r in 9..=15u8 {
        let expected = raw.center_child(h3o::Resolution::try_from(r).unwrap()).unwrap();
        assert_eq!(cell.center_child(r).unwrap().bits(), u64::from(expected));
    }
    assert_eq!(cell.to_text(), raw.to_string());
}
