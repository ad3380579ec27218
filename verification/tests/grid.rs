use jpk_reader::dataset::properties::error::Property;
use jpk_reader::dataset::properties::Properties;
use jpk_reader::qi_map::v2_0::{Grid, Numbering, PositionPattern, PositionPatternType};
use jpk_reader::qi_map::{ChannelQuery, IndexQuery, Pixel, PixelRect, PixelRectIter, Query, SegmentQuery};

fn pattern_text(i_length: &str, j_length: &str) -> String {
    format!(
        "quantitative-imaging-map.position-pattern.type=grid-position-pattern\n\
quantitative-imaging-map.position-pattern.numbering=left-to-right\n\
quantitative-imaging-map.position-pattern.grid.xcenter=1.5E-5\n\
quantitative-imaging-map.position-pattern.grid.ycenter=-2.0E-5\n\
quantitative-imaging-map.position-pattern.grid.ulength=1.0E-6\n\
quantitative-imaging-map.position-pattern.grid.vlength=2.0E-6\n\
quantitative-imaging-map.position-pattern.grid.unit.unit=m\n\
quantitative-imaging-map.position-pattern.grid.ilength={i_length}\n\
quantitative-imaging-map.position-pattern.grid.jlength={j_length}\n"
    )
}

fn pattern(i_length: u16, j_length: u16) -> PositionPattern {
    let properties = Properties::new(&pattern_text(&i_length.to_string(), &j_length.to_string())).unwrap();
    PositionPattern::from_properties(&properties).unwrap()
}

#[test]
fn grid_maps_indices_to_pixels_and_back() {
    for (i_length, j_length) in [(1u16, 1u16), (2, 2), (3, 5), (5, 3), (1, 7), (7, 1), (16, 16)] {
        let pattern = pattern(i_length, j_length);
        let count = i_length as usize * j_length as usize;
        for index in 0..count {
            let pixel = pattern.index_to_pixel(index).unwrap();
            assert!(pixel.x < i_length as usize && pixel.y < j_length as usize);
            assert_eq!(pattern.pixel_to_index(&pixel), Some(index));
        }
        for y in 0..j_length as usize {
            for x in 0..i_length as usize {
                let pixel = Pixel::new(x, y);
                let index = pattern.pixel_to_index(&pixel).unwrap();
                assert_eq!(index, y * i_length as usize + x);
                assert!(index < count);
                assert_eq!(pattern.index_to_pixel(index), Some(pixel));
            }
        }
        assert_eq!(pattern.index_to_pixel(count), None);
        assert_eq!(pattern.index_to_pixel(usize::MAX), None);
    }
}

#[test]
fn grid_has_no_index_for_a_pixel_outside() {
    let pattern = pattern(3, 2);
    assert_eq!(pattern.pixel_to_index(&Pixel::new(3, 0)), None);
    assert_eq!(pattern.pixel_to_index(&Pixel::new(0, 2)), None);
    assert_eq!(pattern.pixel_to_index(&Pixel::new(3, 2)), None);
    assert_eq!(pattern.pixel_to_index(&Pixel::new(usize::MAX, 0)), None);
    assert_eq!(pattern.pixel_to_index(&Pixel::new(0, usize::MAX)), None);
    assert_eq!(pattern.pixel_to_index(&Pixel::new(2, 1)), Some(5));
}

#[test]
fn grid_without_columns_or_rows_has_no_position() {
    for (i_length, j_length) in [(0u16, 0u16), (0, 4), (4, 0)] {
        let pattern = pattern(i_length, j_length);
        assert_eq!(pattern.pixel_to_index(&Pixel::new(0, 0)), None);
        assert_eq!(pattern.index_to_pixel(0), None);
    }
}

#[test]
fn grid_of_the_largest_size() {
    let pattern = pattern(65_535, 65_535);
    let last = Pixel::new(65_534, 65_534);
    assert_eq!(pattern.pixel_to_index(&last), Some(65_534 * 65_535 + 65_534));
    assert_eq!(pattern.index_to_pixel(65_534 * 65_535 + 65_534), Some(last));
    assert_eq!(pattern.index_to_pixel(65_535 * 65_535), None);
}

#[test]
fn grid_is_read_from_properties() {
    let properties = Properties::new(&pattern_text("12", "34")).unwrap();
    let grid = Grid::from_properties(&properties).unwrap();
    assert_eq!(grid.x_center(), "1.5E-5");
    assert_eq!(grid.y_center(), "-2.0E-5");
    assert_eq!(grid.u_length(), "1.0E-6");
    assert_eq!(grid.v_length(), "2.0E-6");
    assert_eq!(grid.unit(), "m");
    assert_eq!(grid.i_length(), 12);
    assert_eq!(grid.j_length(), 34);
    assert!(matches!(PositionPatternType::from_properties(&properties), Ok(PositionPatternType::Grid(_))));
}

#[test]
fn position_pattern_names_the_property_at_fault() {
    let invalid = |text: String| match PositionPattern::from_properties(&Properties::new(&text).unwrap()) {
        Err(Property::InvalidValue(key)) => key,
        _ => panic!("a value is invalid"),
    };
    let missing = |text: String| match PositionPattern::from_properties(&Properties::new(&text).unwrap()) {
        Err(Property::NotFound(key)) => key,
        _ => panic!("a property is missing"),
    };
    assert_eq!(invalid(pattern_text("65536", "1")), "quantitative-imaging-map.position-pattern.grid.ilength");
    assert_eq!(invalid(pattern_text("1", "-1")), "quantitative-imaging-map.position-pattern.grid.jlength");
    assert_eq!(
        invalid(pattern_text("1", "1").replace("=left-to-right", "=top-to-bottom")),
        "quantitative-imaging-map.position-pattern.numbering"
    );
    assert_eq!(
        invalid(pattern_text("1", "1").replace("=grid-position-pattern", "=grid")),
        "quantitative-imaging-map.position-pattern.type"
    );
    assert_eq!(
        missing(pattern_text("1", "1").replace("quantitative-imaging-map.position-pattern.grid.unit.unit=m\n", "")),
        "quantitative-imaging-map.position-pattern.grid.unit.unit"
    );
    assert_eq!(missing(String::new()), "quantitative-imaging-map.position-pattern.numbering");
    assert_eq!(Numbering::from_str("left-to-right"), Some(Numbering::LeftToRight));
    assert_eq!(Numbering::from_str("Left-to-right"), None);
}

#[test]
fn pixel_rect_is_normalised() {
    let rect = PixelRect::new(Pixel::new(5, 1), Pixel::new(2, 3));
    assert_eq!(rect.rows(), 3);
    assert_eq!(rect.cols(), 4);
    let rect = PixelRect::new(Pixel::new(7, 7), Pixel::new(7, 7));
    assert_eq!(rect.rows(), 1);
    assert_eq!(rect.cols(), 1);
}

#[test]
fn pixel_rect_gives_its_pixels_row_by_row() {
    let rect = PixelRect::new(Pixel::new(3, 2), Pixel::new(1, 1));
    let mut walk = rect.iter();
    let mut pixels = Vec::new();
    while let Some(pixel) = walk.next() {
        pixels.push((pixel.x, pixel.y));
    }
    assert_eq!(pixels, vec![(1, 1), (2, 1), (3, 1), (1, 2), (2, 2), (3, 2)]);
    assert_eq!(walk.next(), None);
    assert_eq!(walk.next(), None);

    let mut again = PixelRectIter::new(&rect);
    assert_eq!(again.next(), Some(Pixel::new(1, 1)));
    let mut third = rect.iter();
    assert_eq!(third.next(), Some(Pixel::new(1, 1)));
    assert_eq!(again.next(), Some(Pixel::new(2, 1)));
}

#[test]
fn pixel_rect_at_the_edge_of_the_numbers() {
    let rect = PixelRect::new(Pixel::new(usize::MAX, usize::MAX), Pixel::new(usize::MAX - 1, usize::MAX));
    let mut walk = rect.iter();
    assert_eq!(walk.next(), Some(Pixel::new(usize::MAX - 1, usize::MAX)));
    assert_eq!(walk.next(), Some(Pixel::new(usize::MAX, usize::MAX)));
    assert_eq!(walk.next(), None);
}

#[test]
fn pixel_to_index_by_columns() {
    assert_eq!(Pixel::new(3, 2).to_index(10), 23);
    assert_eq!(Pixel::new(0, 0).to_index(0), 0);
    assert_eq!(Pixel::new(9, 0).to_index(1), 9);
}

#[test]
fn queries_are_built() {
    let query = Query::select_all();
    assert!(matches!(query.index, IndexQuery::All));
    assert!(matches!(query.segment, SegmentQuery::All));
    assert!(matches!(query.channel, ChannelQuery::All));
    match ChannelQuery::including(vec!["a", "b"]) {
        ChannelQuery::Include(names) => assert_eq!(names, vec!["a", "b"]),
        _ => panic!("the query names its channels"),
    }
}
