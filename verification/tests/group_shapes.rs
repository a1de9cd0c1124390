use pptx::shapes::model::{AutoShape, GroupShape, Shape};
use pptx::shapes::parse::TABLE_URI;
use pptx::units::{Emu, ShapeId};

fn make_empty_group() -> GroupShape {
    GroupShape {
        shape_id: ShapeId(10),
        name: "Group 1".to_string(),
        left: Emu(0),
        top: Emu(0),
        width: Emu(914400),
        height: Emu(914400),
        rotation: 0,
        shapes: Vec::new(),
    }
}

#[test]
fn group_add_shape_counts() {
    let mut group = make_empty_group();
    let child = AutoShape::with_geometry(ShapeId(11), "Rect 1", Emu(0), Emu(0), Emu(457200), Emu(457200), "rect");
    group.add_shape(Shape::AutoShape(child));
    assert_eq!(group.len(), 1);
    assert!(!group.is_empty());
    assert_eq!(group.max_shape_id(), ShapeId(11));
}

#[test]
fn test_max_shape_id_empty() {
    let group = make_empty_group();
    assert_eq!(group.max_shape_id(), ShapeId(0));
}

#[test]
fn test_max_shape_id_with_children() {
    let mut group = make_empty_group();
    group.add_textbox(Emu(0), Emu(0), Emu(100), Emu(100));
    group.add_textbox(Emu(0), Emu(0), Emu(100), Emu(100));
    // shape_id of group is 10, children should be 11 and 12
    assert_eq!(group.max_shape_id(), ShapeId(12));
}

#[test]
fn test_max_shape_id_nested_group() {
    let mut group = make_empty_group();
    group.add_textbox(Emu(0), Emu(0), Emu(100), Emu(100)); // id=11
    let nested = group.add_group_shape(); // id=12
    if let Shape::GroupShape(ref mut g) = nested {
        g.add_textbox(Emu(0), Emu(0), Emu(50), Emu(50)); // id=13
    }
    assert_eq!(group.max_shape_id(), ShapeId(13));
}

#[test]
fn test_mixed_shapes_increment_ids() {
    let mut group = make_empty_group();
    group.add_textbox(Emu(0), Emu(0), Emu(100), Emu(100)); // id=11
    group.add_autoshape("rect", Emu(0), Emu(0), Emu(100), Emu(100)); // id=12
    group.add_picture("rId1", Emu(0), Emu(0), Emu(100), Emu(100)); // id=13
    group.add_connector("line", Emu(0), Emu(0), Emu(100), Emu(100)); // id=14
    group.add_table(1, 1, Emu(0), Emu(0), Emu(100), Emu(100)); // id=15
    group.add_group_shape(); // id=16

    assert_eq!(group.len(), 6);
    assert_eq!(group.shapes[0].shape_id(), ShapeId(11));
    assert_eq!(group.shapes[1].shape_id(), ShapeId(12));
    assert_eq!(group.shapes[2].shape_id(), ShapeId(13));
    assert_eq!(group.shapes[3].shape_id(), ShapeId(14));
    assert_eq!(group.shapes[4].shape_id(), ShapeId(15));
    assert_eq!(group.shapes[5].shape_id(), ShapeId(16));
}

#[test]
fn tests_builders_test_add_textbox() {
    let mut group = make_empty_group();
    let shape = group.add_textbox(Emu(100), Emu(200), Emu(300), Emu(400));
    assert_eq!(shape.shape_id(), ShapeId(11));
    assert_eq!(shape.name(), "TextBox 1");
    assert_eq!(shape.left(), Emu(100));
    assert_eq!(shape.top(), Emu(200));
    assert_eq!(shape.width(), Emu(300));
    assert_eq!(shape.height(), Emu(400));
    if let Shape::AutoShape(a) = shape {
        assert!(a.is_textbox);
        assert_eq!(a.prst_geom.as_deref(), Some("rect"));
    } else {
        panic!("Expected AutoShape");
    }
}

#[test]
fn test_add_textbox_increments_name() {
    let mut group = make_empty_group();
    group.add_textbox(Emu(0), Emu(0), Emu(100), Emu(100));
    let second = group.add_textbox(Emu(0), Emu(0), Emu(100), Emu(100));
    assert_eq!(second.name(), "TextBox 2");
}

#[test]
fn test_add_autoshape_rect() {
    let mut group = make_empty_group();
    let shape = group.add_autoshape("rect", Emu(0), Emu(0), Emu(500), Emu(500));
    assert_eq!(shape.shape_id(), ShapeId(11));
    assert_eq!(shape.name(), "Rectangle 1");
    if let Shape::AutoShape(a) = shape {
        assert!(!a.is_textbox);
        assert_eq!(a.prst_geom.as_deref(), Some("rect"));
    } else {
        panic!("Expected AutoShape");
    }
}

#[test]
fn test_add_autoshape_ellipse() {
    let mut group = make_empty_group();
    let shape = group.add_autoshape("ellipse", Emu(0), Emu(0), Emu(500), Emu(500));
    assert_eq!(shape.name(), "Oval 1");
    if let Shape::AutoShape(a) = shape {
        assert_eq!(a.prst_geom.as_deref(), Some("ellipse"));
    } else {
        panic!("Expected AutoShape");
    }
}

#[test]
fn test_add_autoshape_increments_name() {
    let mut group = make_empty_group();
    group.add_autoshape("rect", Emu(0), Emu(0), Emu(100), Emu(100));
    let second = group.add_autoshape("rect", Emu(0), Emu(0), Emu(100), Emu(100));
    assert_eq!(second.name(), "Rectangle 2");
}

#[test]
fn tests_builders_test_add_picture() {
    let mut group = make_empty_group();
    let shape = group.add_picture("rId2", Emu(0), Emu(0), Emu(914400), Emu(914400));
    assert_eq!(shape.shape_id(), ShapeId(11));
    assert_eq!(shape.name(), "Picture 1");
    if let Shape::Picture(p) = shape {
        assert_eq!(p.image_r_id.as_deref(), Some("rId2"));
    } else {
        panic!("Expected Picture");
    }
}

#[test]
fn test_add_picture_increments_name() {
    let mut group = make_empty_group();
    group.add_picture("rId1", Emu(0), Emu(0), Emu(100), Emu(100));
    let second = group.add_picture("rId2", Emu(0), Emu(0), Emu(100), Emu(100));
    assert_eq!(second.name(), "Picture 2");
}

#[test]
fn tests_builders_test_add_connector_straight() {
    let mut group = make_empty_group();
    let shape = group.add_connector("line", Emu(100), Emu(200), Emu(500), Emu(600));
    assert_eq!(shape.shape_id(), ShapeId(11));
    assert_eq!(shape.name(), "Connector 1");
    if let Shape::Connector(c) = shape {
        assert_eq!(c.prst_geom.as_deref(), Some("line"));
        assert_eq!(c.left, Emu(100));
        assert_eq!(c.top, Emu(200));
        assert_eq!(c.width, Emu(400));
        assert_eq!(c.height, Emu(400));
        assert!(!c.flip_h);
        assert!(!c.flip_v);
    } else {
        panic!("Expected Connector");
    }
}

#[test]
fn tests_builders_test_add_connector_with_flip() {
    let mut group = make_empty_group();
    let shape = group.add_connector("line", Emu(500), Emu(600), Emu(100), Emu(200));
    if let Shape::Connector(c) = shape {
        assert!(c.flip_h);
        assert!(c.flip_v);
        assert_eq!(c.left, Emu(100));
        assert_eq!(c.top, Emu(200));
    } else {
        panic!("Expected Connector");
    }
}

#[test]
fn tests_builders_test_add_table() {
    let mut group = make_empty_group();
    let shape = group.add_table(3, 4, Emu(914400), Emu(914400), Emu(6096000), Emu(370840));
    assert_eq!(shape.shape_id(), ShapeId(11));
    assert_eq!(shape.name(), "Table 1");
    if let Shape::GraphicFrame(g) = shape {
        assert!(g.has_table);
        assert!(!g.has_chart);
        assert_eq!(g.graphic_data_uri.as_deref(), Some(TABLE_URI));
        assert_eq!(g.height, Emu(370840 * 3));
    } else {
        panic!("Expected GraphicFrame");
    }
}

#[test]
fn test_add_table_increments_name() {
    let mut group = make_empty_group();
    group.add_table(1, 1, Emu(0), Emu(0), Emu(1000), Emu(300));
    let second = group.add_table(2, 2, Emu(0), Emu(0), Emu(1000), Emu(300));
    assert_eq!(second.name(), "Table 2");
}

#[test]
fn tests_builders_test_add_group_shape() {
    let mut group = make_empty_group();
    let shape = group.add_group_shape();
    assert_eq!(shape.shape_id(), ShapeId(11));
    assert_eq!(shape.name(), "Group 1");
    if let Shape::GroupShape(g) = shape {
        assert!(g.shapes.is_empty());
        assert_eq!(g.left, Emu(0));
        assert_eq!(g.width, Emu(0));
    } else {
        panic!("Expected GroupShape");
    }
}

#[test]
fn test_add_group_shape_increments_name() {
    let mut group = make_empty_group();
    group.add_group_shape();
    let second = group.add_group_shape();
    assert_eq!(second.name(), "Group 2");
}

#[test]
fn group_next_shape_id_counts_own_id() {
    let mut group = make_empty_group();
    assert_eq!(group.next_shape_id(), ShapeId(11));
    group.add_shape(Shape::AutoShape(AutoShape::new(ShapeId(40), "X", Emu(0), Emu(0), Emu(1), Emu(1))));
    assert_eq!(group.next_shape_id(), ShapeId(41));
    assert_eq!(group.count_shapes_with_prefix("X"), 1);
}
