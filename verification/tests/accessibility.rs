use sentinel::accessibility::{
    capture_focused_element, format_rect, walk_tree, ElementSource, Rect, UIElement, WalkError,
};

fn rect(left: i32, top: i32, right: i32, bottom: i32) -> Rect {
    Rect { left, top, right, bottom }
}

fn node(name: &str, children: Vec<ElementSource>) -> ElementSource {
    ElementSource {
        name: Some(name.to_string()),
        control_type: Some("pane".to_string()),
        bounds: Some(rect(0, 0, 10, 10)),
        children: Some(children),
    }
}

fn element(name: &str, children: Vec<UIElement>) -> UIElement {
    UIElement {
        name: name.to_string(),
        control_type: "pane".to_string(),
        bounding_rectangle: "left=0,top=0,right=10,bottom=10".to_string(),
        children,
    }
}

fn chain(depth: u32) -> ElementSource {
    let mut current = node(&format!("level{}", depth), vec![]);
    let mut level = depth;
    while level > 0 {
        level -= 1;
        current = node(&format!("level{}", level), vec![current]);
    }
    current
}

fn height(e: &UIElement) -> u32 {
    let mut tallest = 0;
    for child in &e.children {
        let h = 1 + height(child);
        if h > tallest {
            tallest = h;
        }
    }
    tallest
}

#[test]
fn new_has_no_children() {
    let e = UIElement::new("Save".to_string(), "button".to_string(), "left=1".to_string());
    assert_eq!(e.name, "Save");
    assert_eq!(e.control_type, "button");
    assert_eq!(e.bounding_rectangle, "left=1");
    assert!(e.children.is_empty());
}

#[test]
fn rectangles_as_text() {
    assert_eq!(format_rect(&rect(0, 0, 1920, 1080)), "left=0,top=0,right=1920,bottom=1080");
    assert_eq!(format_rect(&rect(-8, -8, 100, 50)), "left=-8,top=-8,right=100,bottom=50");
    assert_eq!(
        format_rect(&rect(i32::MIN, i32::MAX, 0, -1)),
        "left=-2147483648,top=2147483647,right=0,bottom=-1"
    );
}

#[test]
fn a_tree_of_three_nodes_is_walked_whole() {
    let source = node("root", vec![node("a", vec![]), node("b", vec![])]);
    let tree = walk_tree(&source, 0, 3).unwrap();
    assert_eq!(tree, element("root", vec![element("a", vec![]), element("b", vec![])]));
    assert_eq!(tree.children.len(), 2);
    assert!(tree.children.iter().all(|c| c.children.is_empty()));
}

#[test]
fn the_walk_stops_at_the_depth_asked_for() {
    let source = chain(6);
    for max_depth in 0..=8u32 {
        let tree = walk_tree(&source, 0, max_depth).unwrap();
        assert_eq!(height(&tree), max_depth.min(6), "max_depth {}", max_depth);
    }
}

#[test]
fn at_the_depth_asked_for_children_are_not_looked_at() {
    let source = node("root", vec![node("a", vec![node("deep", vec![])])]);
    assert_eq!(walk_tree(&source, 0, 0).unwrap(), element("root", vec![]));
    assert_eq!(
        walk_tree(&source, 0, 1).unwrap(),
        element("root", vec![element("a", vec![])])
    );
    assert_eq!(
        walk_tree(&source, 0, 2).unwrap(),
        element("root", vec![element("a", vec![element("deep", vec![])])])
    );
    assert_eq!(walk_tree(&source, 3, 3).unwrap(), element("root", vec![]));
    assert_eq!(walk_tree(&source, 5, 3).unwrap(), element("root", vec![]));
    assert_eq!(walk_tree(&source, 2, 3).unwrap(), element("root", vec![element("a", vec![])]));
}

#[test]
fn a_child_that_cannot_be_read_is_left_out() {
    let mut broken = node("broken", vec![node("below", vec![])]);
    broken.name = None;
    let source = node("root", vec![node("a", vec![]), broken, node("b", vec![])]);
    assert_eq!(
        walk_tree(&source, 0, 3).unwrap(),
        element("root", vec![element("a", vec![]), element("b", vec![])])
    );
}

#[test]
fn children_that_cannot_be_listed_are_none() {
    let mut source = node("root", vec![]);
    source.children = None;
    assert_eq!(walk_tree(&source, 0, 3).unwrap(), element("root", vec![]));
}

#[test]
fn the_root_must_be_readable() {
    let mut no_name = node("x", vec![]);
    no_name.name = None;
    no_name.control_type = None;
    no_name.bounds = None;
    assert_eq!(walk_tree(&no_name, 0, 3), Err(WalkError::NameUnreadable));
    let mut no_type = node("x", vec![]);
    no_type.control_type = None;
    no_type.bounds = None;
    assert_eq!(walk_tree(&no_type, 0, 3), Err(WalkError::ControlTypeUnreadable));
    let mut no_bounds = node("x", vec![]);
    no_bounds.bounds = None;
    assert_eq!(walk_tree(&no_bounds, 0, 3), Err(WalkError::BoundsUnreadable));
}

#[test]
fn the_bounds_are_written_as_text() {
    let mut source = node("root", vec![]);
    source.bounds = Some(rect(-1, 2, 30, 400));
    assert_eq!(walk_tree(&source, 0, 1).unwrap().bounding_rectangle, "left=-1,top=2,right=30,bottom=400");
}

#[test]
fn the_focused_element_is_described_whatever_can_be_read() {
    let source = ElementSource { name: None, control_type: None, bounds: None, children: None };
    let e = capture_focused_element(&source);
    assert_eq!(e.name, "Unknown");
    assert_eq!(e.control_type, "Unknown");
    assert_eq!(e.bounding_rectangle, "Unknown");
    assert!(e.children.is_empty());
}

#[test]
fn the_focused_element_has_no_children() {
    let mut source = node("Editor", vec![node("child", vec![])]);
    source.bounds = Some(rect(1, 2, 3, 4));
    let e = capture_focused_element(&source);
    assert_eq!(
        e,
        UIElement {
            name: "Editor".to_string(),
            control_type: "pane".to_string(),
            bounding_rectangle: "left=1,top=2,right=3,bottom=4".to_string(),
            children: vec![],
        }
    );
}

#[test]
fn an_element_as_a_document() {
    let tree = element("root", vec![element("a\"b", vec![])]);
    assert_eq!(
        tree.to_json_text(),
        "{\"name\":\"root\",\"control_type\":\"pane\",\
         \"bounding_rectangle\":\"left=0,top=0,right=10,bottom=10\",\"children\":[\
         {\"name\":\"a\\\"b\",\"control_type\":\"pane\",\
         \"bounding_rectangle\":\"left=0,top=0,right=10,bottom=10\",\"children\":[]}]}"
    );
}

#[test]
fn the_messages_of_a_failed_walk() {
    assert_eq!(WalkError::NameUnreadable.message(), "the name of the element cannot be read");
    assert_eq!(
        WalkError::ControlTypeUnreadable.message(),
        "the control type of the element cannot be read"
    );
    assert_eq!(WalkError::BoundsUnreadable.message(), "the bounds of the element cannot be read");
}
