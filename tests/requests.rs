use h3_wasm::api::{area_query, checked_resolution, edge_length_query, polygon_query};
use h3_wasm::cell::decode_cell;
use h3_wasm::edge::decode_edge;
use h3_wasm::error::H3Error;
use h3_wasm::units::{parse_area_unit, parse_length_unit, same_text, AreaUnit, LengthUnit};

#[test]
fn unit_names() {
    assert_eq!(parse_area_unit("km2"), Ok(AreaUnit::Km2));
    assert_eq!(parse_area_unit("m2"), Ok(AreaUnit::M2));
    assert_eq!(parse_area_unit("rads2"), Ok(AreaUnit::Rads2));
    assert_eq!(parse_area_unit("km"), Err(H3Error::InvalidUnit));
    assert_eq!(parse_length_unit("km"), Ok(LengthUnit::Km));
    assert_eq!(parse_length_unit("m"), Ok(LengthUnit::M));
    assert_eq!(parse_length_unit("rads"), Ok(LengthUnit::Rads));
    assert_eq!(parse_length_unit("KM"), Err(H3Error::InvalidUnit));
    assert!(same_text("abc", "abc"));
    assert!(!same_text("abc", "abd"));
}

#[test]
fn area_requests() {
    let (cell, unit) = area_query("8928308280fffff", "m2").unwrap();
    assert_eq!(cell.bits(), 0x8928308280fffff);
    assert_eq!(unit, AreaUnit::M2);
    assert_eq!(area_query("8928308280fffff", "acres"), Err(H3Error::InvalidUnit));
    assert_eq!(area_query("xyz", "acres"), Err(H3Error::InvalidFormat));
}

#[test]
fn area_shrinks_down_a_lineage() {
    let mut cell = decode_cell("8029fffffffffff").unwrap();
    let mut last = f64::INFINITY;
    for r in 1..=15u8 {
        let raw = h3o::CellIndex::try_from(cell.bits()).unwrap();
        let area = raw.area_km2();
        assert!(area < last);
        last = area;
        cell = cell.center_child(r).unwrap();
    }
}

#[test]
fn edges_decode_and_measure() {
    let origin = h3o::CellIndex::try_from(0x85283083fffffff).unwrap();
    let raw = origin.edges().next().unwrap();
    let text = raw.to_string();
    let edge = decode_edge(&text).unwrap();
    assert_eq!(edge.bits(), u64::from(raw));
    assert_eq!(edge.origin().bits(), 0x85283083fffffff);
    assert!(1 <= edge.edge_number() && edge.edge_number() <= 6);
    let (edge, unit) = edge_length_query(&text, "km").unwrap();
    assert_eq!(unit, LengthUnit::Km);
    let km = h3o::DirectedEdgeIndex::try_from(edge.bits()).unwrap().length_km();
    assert!(km > 5.0 && km < 15.0);
    assert_eq!(edge_length_query(&text, "miles"), Err(H3Error::InvalidUnit));
    assert_eq!(edge_length_query("85283083fffffff", "km"), Err(H3Error::InvalidFormat));
    assert_eq!(decode_edge("85283083fffffff"), Err(H3Error::InvalidFormat));
}

#[test]
fn resolutions_and_polygons() {
    assert_eq!(checked_resolution(0), Ok(0));
    assert_eq!(checked_resolution(15), Ok(15));
    assert_eq!(checked_resolution(16), Err(H3Error::InvalidResolution));
    assert_eq!(polygon_query(4, 7), Ok(7));
    assert_eq!(polygon_query(2, 7), Err(H3Error::DegeneratePolygon));
    assert_eq!(polygon_query(2, 16), Err(H3Error::InvalidResolution));
}

fn inside(ring: &[(f64, f64)], lat: f64, lng: f64) -> bool {
    let mut hit = false;
    let n = ring.len();
    for i in 0..n {
        let (ya, xa) = ring[i];
        let (yb, xb) = ring[(i + 1) % n];
        if (ya > lat) != (yb > lat) && lng < (xb - xa) * (lat - ya) / (yb - ya) + xa {
            hit = !hit;
        }
    }
    hit
}

#[test]
fn polygon_cover_centers_lie_inside() {
    let ring = [(37.77, -122.42), (37.77, -122.40), (37.79, -122.40), (37.79, -122.42)];
    let res = polygon_query(ring.len(), 7).unwrap();
    let exterior: Vec<geo::Coord<f64>> =
        ring.iter().map(|&(lat, lng)| geo::Coord { x: lng, y: lat }).collect();
    let polygon = geo::Polygon::new(geo::LineString(exterior), vec![]);
    let mut tiler = h3o::geom::TilerBuilder::new(h3o::Resolution::try_from(res).unwrap())
        .containment_mode(h3o::geom::ContainmentMode::ContainsCentroid)
        .build();
    tiler.add(polygon).unwrap();
    let cells: Vec<h3o::CellIndex> = tiler.into_coverage().collect();
    assert!(!cells.is_empty());
    for c in cells {
        let cell = decode_cell(&c.to_string()).unwrap();
        assert_eq!(cell.resolution(), 7);
        let center = h3o::LatLng::from(c);
        assert!(inside(&ring, center.lat(), center.lng()));
    }
}
