use tileview::model::{SvgRect, TileNode};
use tileview::number::Number;
use tileview::tree::{flatten, tile_node_to_svg};

fn number(text: &str) -> Number {
    Number::new(text.to_string(), text.parse::<f32>().unwrap().to_bits()).unwrap()
}

fn rect(x: &str, y: &str, w: &str, h: &str) -> SvgRect {
    SvgRect { x: number(x), y: number(y), width: number(w), height: number(h) }
}

fn leaf(x: &str) -> TileNode {
    TileNode::Leaf { rect: Some(rect(x, "0.00", "1.00", "2.00")) }
}

fn element(x: &str) -> String {
    format!("<rect x=\"{}\" y=\"0.00\" width=\"1.00\" height=\"2.00\" />\n", x)
}

#[test]
fn leaf_gives_exactly_one_rectangle() {
    let node = TileNode::Leaf { rect: Some(rect("1.50", "2.00", "30.25", "4.00")) };
    let parts = flatten(&node);
    assert_eq!(parts, vec!["<rect x=\"1.50\" y=\"2.00\" width=\"30.25\" height=\"4.00\" />\n".to_string()]);
    assert_eq!(tile_node_to_svg(&node), parts[0]);
}

#[test]
fn leaf_without_rectangle_is_skipped() {
    let node = TileNode::Leaf { rect: None };
    assert!(flatten(&node).is_empty());
    assert_eq!(tile_node_to_svg(&node), "");
    let tree = TileNode::Node { children: vec![leaf("1.00"), TileNode::Leaf { rect: None }, leaf("2.00")] };
    assert_eq!(flatten(&tree), vec![element("1.00"), element("2.00")]);
}

#[test]
fn interior_without_children_gives_nothing() {
    let node = TileNode::Node { children: Vec::new() };
    assert!(flatten(&node).is_empty());
    assert_eq!(tile_node_to_svg(&node), "");
}

#[test]
fn interior_concatenates_its_children_in_order() {
    let tree = TileNode::Node {
        children: vec![
            leaf("1.00"),
            TileNode::Node { children: vec![leaf("2.00"), leaf("3.00")] },
            TileNode::Node { children: Vec::new() },
            leaf("4.00"),
        ],
    };
    assert_eq!(flatten(&tree), vec![element("1.00"), element("2.00"), element("3.00"), element("4.00")]);
    assert_eq!(
        tile_node_to_svg(&tree),
        format!("{}{}{}{}", element("1.00"), element("2.00"), element("3.00"), element("4.00"))
    );
}

#[test]
fn interior_is_the_concatenation_of_each_child_alone() {
    let children = || vec![leaf("1.00"), TileNode::Node { children: vec![leaf("2.00"), leaf("3.00")] }, leaf("4.00")];
    let mut expected = String::new();
    for child in children().iter() {
        expected.push_str(&tile_node_to_svg(child));
    }
    assert_eq!(tile_node_to_svg(&TileNode::Node { children: children() }), expected);
}

#[test]
fn flat_tree_draws_as_the_nested_tree() {
    let nested = TileNode::Node {
        children: vec![
            TileNode::Node { children: vec![leaf("1.00"), TileNode::Node { children: vec![leaf("2.00")] }] },
            leaf("3.00"),
        ],
    };
    let flat = TileNode::Node { children: vec![leaf("1.00"), leaf("2.00"), leaf("3.00")] };
    assert_eq!(flatten(&nested), flatten(&flat));
    assert_eq!(tile_node_to_svg(&nested), tile_node_to_svg(&flat));
}

#[test]
fn flattening_twice_gives_the_same() {
    let tree = TileNode::Node { children: vec![leaf("1.00"), leaf("2.00")] };
    assert_eq!(flatten(&tree), flatten(&tree));
}

#[test]
fn leaf_fragment_opens_one_element() {
    let node = TileNode::Leaf { rect: Some(rect("-1.50", "inf", "NaN", "1e3")) };
    let svg = tile_node_to_svg(&node);
    assert_eq!(svg, "<rect x=\"-1.50\" y=\"inf\" width=\"NaN\" height=\"1e3\" />\n");
    assert!(svg.starts_with('<'));
    assert_eq!(svg.matches('<').count(), 1);
    assert_eq!(svg.matches("<rect").count(), 1);
}
