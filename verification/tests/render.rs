use std::collections::HashMap;
use tileview::model::{Cause, InvalidationReason, ItemUid, Rgb, SvgRect, Tile, TileOffset};
use tileview::number::Number;
use tileview::render::{find_slice, slices_to_svg, tile_to_svg};
use tileview::tiles::{Slice, TileCacheInstance, TileMap};

const SVG_HEAD: &str = "<?xml-stylesheet type=\"text/css\" href=\"tilecache_base.css\" ?>\n<?xml-stylesheet type=\"text/css\" href=\"tilecache.css\" ?>\n";
const BACKGROUND: &str = "<rect fill=\"black\" width=\"100%\" height=\"100%\"/>\n";

fn number(text: &str) -> Number {
    Number::new(text.to_string(), text.parse::<f32>().unwrap().to_bits()).unwrap()
}

fn rect(x: &str, y: &str, w: &str, h: &str) -> SvgRect {
    SvgRect { x: number(x), y: number(y), width: number(w), height: number(h) }
}

fn cause(reason: InvalidationReason, dump: &str) -> Option<Cause> {
    Some(Cause { reason, dump: dump.to_string() })
}

fn scale_changed() -> Option<Cause> {
    cause(InvalidationReason::ScaleChanged, "ScaleChanged")
}

fn tile(height: &str, cause: Option<Cause>) -> Tile {
    Tile { rect: rect("10", "20", "30", height), invalidation_reason: cause, background_color: None }
}

fn slice(index: usize, tiles: Vec<(TileOffset, Tile)>, background: Option<Rgb>) -> Slice {
    let mut map = TileMap::new();
    for (key, tile) in tiles {
        map.insert(key, tile);
    }
    Slice { tile_cache: TileCacheInstance { slice: index, tiles: map, background_color: background } }
}

fn key(x: i32, y: i32) -> TileOffset {
    TileOffset { x, y }
}

#[test]
fn tile_with_cause_and_predecessor_is_drawn_with_title_and_reported() {
    let current = slice(3, Vec::new(), None);
    let t = tile("40", scale_changed());
    let before = tile("35", None);
    let mut report = String::from("before");
    let svg = tile_to_svg(key(1, -2), &t, &current, Some(&before), &HashMap::new(), "stroke:none;", &mut report);
    assert_eq!(
        svg,
        "\n<!-- tile key 1,-2 ; -->\n<rect x=\"10\" y=\"20\" width=\"30\" height=\"40\" style=\"fill:#ff80ff;fill-opacity:0.1;stroke:none;\" ></rect><rect x=\"10\" y=\"20\" width=\"30\" height=\"40\" style=\"fill-opacity:0.001;stroke:none;\" ><title>slice 3 tile (1,-2) - ScaleChanged</title></rect>"
    );
    assert_eq!(
        report,
        "before<div class=\"subheader\">slice 3 key (1,-2)</div><div class=\"data\">ScaleChanged</div>\n"
    );
}

#[test]
fn title_holds_the_dump_of_the_cause() {
    let current = slice(0, Vec::new(), None);
    let t = tile(
        "40",
        cause(
            InvalidationReason::SurfaceOpacityChanged { became_opaque: true },
            "SurfaceOpacityChanged { became_opaque: true }",
        ),
    );
    let mut report = String::new();
    let svg = tile_to_svg(key(0, 0), &t, &current, Some(&t), &HashMap::new(), "stroke:none;", &mut report);
    assert!(svg.contains("<title>slice 0 tile (0,0) - SurfaceOpacityChanged { became_opaque: true }</title>"));
    assert!(!svg.contains("Some("));
    assert_eq!(
        report,
        "<div class=\"subheader\">slice 0 key (0,0)</div><div class=\"data\"><b>SurfaceOpacityChanged</b> changed from false to true</div>\n"
    );
}

#[test]
fn new_tile_has_no_title_and_no_entry() {
    let current = slice(0, Vec::new(), Some(Rgb { r: 255, g: 255, b: 255 }));
    let t = tile("40", None);
    let mut report = String::from("before");
    let svg = tile_to_svg(key(0, 0), &t, &current, None, &HashMap::new(), "stroke:none;", &mut report);
    assert!(!svg.contains("<title>"));
    assert_eq!(report, "before");
    assert_eq!(
        svg,
        "\n<!-- tile key 0,0 ; -->\n<rect x=\"10\" y=\"20\" width=\"30\" height=\"40\" style=\"fill:rgb(255,255,255);fill-opacity:0.3;stroke:none;\" ></rect><rect x=\"10\" y=\"20\" width=\"30\" height=\"40\" style=\"fill-opacity:0.001;stroke:none;\" ></rect>"
    );
}

#[test]
fn new_tile_with_a_cause_has_no_title_and_no_entry() {
    let current = slice(1, Vec::new(), None);
    let t = tile("40", cause(InvalidationReason::NoTexture, "NoTexture"));
    let mut report = String::from("before");
    let svg = tile_to_svg(key(2, 3), &t, &current, None, &HashMap::new(), "stroke:none;", &mut report);
    assert!(!svg.contains("<title>"));
    assert_eq!(report, "before");
    assert_eq!(
        svg,
        "\n<!-- tile key 2,3 ; -->\n<rect x=\"10\" y=\"20\" width=\"30\" height=\"40\" style=\"fill:#c04040;fill-opacity:0.1;stroke:none;\" ></rect><rect x=\"10\" y=\"20\" width=\"30\" height=\"40\" style=\"fill-opacity:0.001;stroke:none;\" ></rect>"
    );
}

#[test]
fn old_tile_without_cause_has_no_title_and_no_entry() {
    let current = slice(1, Vec::new(), None);
    let t = tile("40", None);
    let mut report = String::from("before");
    let svg = tile_to_svg(key(2, 3), &t, &current, Some(&t), &HashMap::new(), "stroke:none;", &mut report);
    assert!(!svg.contains("<title>"));
    assert_eq!(report, "before");
}

#[test]
fn tile_background_wins_over_that_of_the_cache() {
    let current = slice(0, Vec::new(), Some(Rgb { r: 0, g: 0, b: 255 }));
    let mut t = tile("40", None);
    t.background_color = Some(Rgb { r: 255, g: 0, b: 0 });
    let mut report = String::new();
    let svg = tile_to_svg(key(0, 0), &t, &current, None, &HashMap::new(), "stroke:none;", &mut report);
    assert!(svg.contains("style=\"fill:rgb(255,0,0);fill-opacity:0.3;stroke:none;\""));
    assert!(!svg.contains("fill:none;"));
}

#[test]
fn tile_stroke_goes_into_the_tooltip_rectangle() {
    let current = slice(0, Vec::new(), None);
    let t = tile("40", None);
    let mut report = String::new();
    let svg = tile_to_svg(key(0, 0), &t, &current, None, &HashMap::new(), "stroke:grey;", &mut report);
    assert!(svg.ends_with("style=\"fill-opacity:0.001;stroke:grey;\" ></rect>"));
    assert!(svg.contains("style=\"fill:none;stroke:none;\" ></rect>"));
}

#[test]
fn find_slice_takes_the_first_match() {
    let slices = vec![slice(4, Vec::new(), None), slice(7, Vec::new(), None), slice(4, Vec::new(), None)];
    assert_eq!(find_slice(&slices, 4), Some(0));
    assert_eq!(find_slice(&slices, 7), Some(1));
    assert_eq!(find_slice(&slices, 5), None);
    assert_eq!(find_slice(&Vec::new(), 4), None);
}

#[test]
fn no_slices_give_the_empty_documents() {
    let mut max = 5usize;
    let (svg, report) = slices_to_svg(&[], None, &HashMap::new(), 640, 480, &mut max);
    assert_eq!(
        svg,
        format!(
            "{}<svg version=\"1.1\" baseProfile=\"full\" xmlns=\"http://www.w3.org/2000/svg\" width=\"640\" height=\"480\" >\n{}\n</svg>\n",
            SVG_HEAD, BACKGROUND
        )
    );
    assert_eq!(report, "<div class=\"header\">Invalidation</div>\n");
    assert_eq!(max, 5);
}

#[test]
fn slice_without_tiles_gives_an_empty_group() {
    let mut max = 0usize;
    let (svg, report) = slices_to_svg(&[slice(2, Vec::new(), None)], None, &HashMap::new(), 0, -1, &mut max);
    assert_eq!(
        svg,
        format!(
            "{}<svg version=\"1.1\" baseProfile=\"full\" xmlns=\"http://www.w3.org/2000/svg\" width=\"0\" height=\"-1\" >\n{}\n<g id=\"tile_slice2_everything\">\n<!-- tile_cache slice 2 -->\n\n</g>\n</svg>\n",
            SVG_HEAD, BACKGROUND
        )
    );
    assert_eq!(
        report,
        "<div class=\"header\">Invalidation</div>\n<div id=\"invalidation_slice2\">\n</div>\n"
    );
    assert_eq!(max, 2);
}

#[test]
fn max_slice_index_is_the_largest_seen() {
    let slices = [slice(3, Vec::new(), None), slice(9, Vec::new(), None), slice(1, Vec::new(), None)];
    let mut max = 4usize;
    slices_to_svg(&slices, None, &HashMap::new(), 1, 1, &mut max);
    assert_eq!(max, 9);
    let mut max = 12usize;
    slices_to_svg(&slices, None, &HashMap::new(), 1, 1, &mut max);
    assert_eq!(max, 12);
}

#[test]
fn scale_change_of_one_tile_end_to_end() {
    let previous = vec![slice(
        0,
        vec![(key(0, 0), tile("40", None)), (key(1, 0), tile("40", None)), (key(0, 1), tile("40", None))],
        None,
    )];
    let current = [slice(
        0,
        vec![
            (key(0, 0), tile("40", None)),
            (key(1, 0), tile("55", scale_changed())),
            (key(0, 1), tile("40", None)),
        ],
        None,
    )];
    let mut max = 0usize;
    let (svg, report) = slices_to_svg(&current, Some(previous), &HashMap::new(), 100, 100, &mut max);
    assert_eq!(svg.matches("<!-- tile key ").count(), 3);
    assert_eq!(svg.matches("<rect x=").count(), 6);
    assert_eq!(svg.matches("></rect><rect x=").count(), 3);
    assert_eq!(svg.matches("<title>").count(), 1);
    assert!(svg.contains("<title>slice 0 tile (1,0) - ScaleChanged</title>"));
    assert!(svg.contains("height=\"55\" style=\"fill:#ff80ff;fill-opacity:0.1;stroke:none;\""));
    assert_eq!(report.matches("<div class=\"subheader\">").count(), 1);
    assert_eq!(report.matches("ScaleChanged").count(), 1);
    assert_eq!(
        report,
        "<div class=\"header\">Invalidation</div>\n<div id=\"invalidation_slice0\">\n<div class=\"subheader\">slice 0 key (1,0)</div><div class=\"data\">ScaleChanged</div>\n</div>\n"
    );
}

#[test]
fn without_earlier_slices_nothing_is_titled_or_reported() {
    let current = [slice(
        0,
        vec![(key(0, 0), tile("40", None)), (key(1, 0), tile("55", scale_changed()))],
        None,
    )];
    let mut max = 0usize;
    let (svg, report) = slices_to_svg(&current, None, &HashMap::new(), 100, 100, &mut max);
    assert_eq!(svg.matches("<rect x=").count(), 4);
    assert_eq!(svg.matches("<title>").count(), 0);
    assert!(svg.contains("height=\"55\" style=\"fill:#ff80ff;fill-opacity:0.1;stroke:none;\""));
    assert_eq!(
        report,
        "<div class=\"header\">Invalidation</div>\n<div id=\"invalidation_slice0\">\n</div>\n"
    );
}

#[test]
fn tile_that_the_earlier_slice_lacks_is_not_reported() {
    let previous = vec![slice(0, vec![(key(0, 0), tile("40", None))], None)];
    let current = [slice(
        0,
        vec![(key(0, 0), tile("40", scale_changed())), (key(1, 0), tile("55", scale_changed()))],
        None,
    )];
    let mut max = 0usize;
    let (svg, report) = slices_to_svg(&current, Some(previous), &HashMap::new(), 100, 100, &mut max);
    assert_eq!(svg.matches("<title>").count(), 1);
    assert!(svg.contains("<title>slice 0 tile (0,0) - ScaleChanged</title>"));
    assert_eq!(
        report,
        "<div class=\"header\">Invalidation</div>\n<div id=\"invalidation_slice0\">\n<div class=\"subheader\">slice 0 key (0,0)</div><div class=\"data\">ScaleChanged</div>\n</div>\n"
    );
}

#[test]
fn slice_is_paired_by_its_index_with_the_first_match() {
    let previous = vec![
        slice(7, vec![(key(0, 0), tile("40", None))], None),
        slice(3, vec![(key(1, 1), tile("40", None))], None),
        slice(3, vec![(key(0, 0), tile("40", None))], None),
    ];
    let current = [slice(
        3,
        vec![(key(0, 0), tile("40", scale_changed())), (key(1, 1), tile("40", scale_changed()))],
        None,
    )];
    let mut max = 0usize;
    let (svg, report) = slices_to_svg(&current, Some(previous), &HashMap::new(), 100, 100, &mut max);
    assert_eq!(svg.matches("<title>").count(), 1);
    assert!(svg.contains("<title>slice 3 tile (1,1) - ScaleChanged</title>"));
    assert_eq!(report.matches("<div class=\"subheader\">").count(), 1);
    assert!(report.contains("<div class=\"subheader\">slice 3 key (1,1)</div>"));
}

#[test]
fn slice_with_another_index_is_no_predecessor() {
    let previous = vec![slice(1, vec![(key(0, 0), tile("40", None))], None)];
    let current = [slice(2, vec![(key(0, 0), tile("40", scale_changed()))], None)];
    let mut max = 0usize;
    let (svg, report) = slices_to_svg(&current, Some(previous), &HashMap::new(), 100, 100, &mut max);
    assert_eq!(svg.matches("<title>").count(), 0);
    assert_eq!(report.matches("<div class=\"subheader\">").count(), 0);
}

#[test]
fn slices_and_tiles_keep_their_order() {
    let names: HashMap<u64, String> = [(1u64, "one".to_string())].into_iter().collect();
    let tiles_of_first = || vec![(key(5, 5), tile("1", cause(InvalidationReason::NoSurface, "NoSurface")))];
    let tiles_of_second = || {
        vec![
            (
                key(2, 0),
                tile(
                    "2",
                    cause(
                        InvalidationReason::PrimCount { old: vec![ItemUid { uid: 1 }], new: Vec::new() },
                        "PrimCount",
                    ),
                ),
            ),
            (key(1, 0), tile("3", cause(InvalidationReason::NoTexture, "NoTexture"))),
        ]
    };
    let current = [slice(1, tiles_of_first(), None), slice(0, tiles_of_second(), None)];
    let previous = vec![slice(0, tiles_of_second(), None), slice(1, tiles_of_first(), None)];
    let mut max = 0usize;
    let (svg, report) = slices_to_svg(&current, Some(previous), &names, 10, 20, &mut max);
    assert_eq!(max, 1);
    let first = svg.find("<g id=\"tile_slice1_everything\">").unwrap();
    let second = svg.find("<g id=\"tile_slice0_everything\">").unwrap();
    assert!(first < second);
    let a = svg.find("<!-- tile key 2,0 ; -->").unwrap();
    let b = svg.find("<!-- tile key 1,0 ; -->").unwrap();
    assert!(second < a && a < b);
    assert_eq!(
        report,
        "<div class=\"header\">Invalidation</div>\n<div id=\"invalidation_slice1\">\n<div class=\"subheader\">slice 1 key (5,5)</div><div class=\"data\">NoSurface</div>\n</div>\n<div id=\"invalidation_slice0\">\n<div class=\"subheader\">slice 0 key (2,0)</div><div class=\"data\"><b>PrimCount</b> changed from 1 to 0:<br/>removed:<ul><li>1...one</li>\n</ul>\n                              added:<ul></ul></div>\n<div class=\"subheader\">slice 0 key (1,0)</div><div class=\"data\">NoTexture</div>\n</div>\n"
    );
}
