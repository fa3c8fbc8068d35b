use socha::action::Action;
use socha::board::Board;
use socha::cube_dir::CubeDir;
use socha::cube_vec::CubeVec;
use socha::element::Element;
use socha::error::Error;
use socha::moves::{perform_move, Move, Perform};

fn leaf(name: &str, attrs: &[(&str, &str)]) -> Element {
    let mut e = Element::new(name);
    for (k, v) in attrs {
        e = e.with_attribute(k, v.to_string());
    }
    e
}

#[test]
fn test_xml_parses() {
    let e = leaf("position", &[("r", "23"), ("q", "0"), ("s", "-2")]);
    assert_eq!(CubeVec::from_element(&e).unwrap(), CubeVec::new(23, 0, -2));
}

#[test]
fn test_xml_formats() {
    let m = Move {
        actions: vec![
            Action::accelerate(-1),
            Action::turn(CubeDir::DownRight),
            Action::advance(2),
        ],
    };
    let expected = Element::new("data")
        .with_attribute("class", "move".to_string())
        .with_child(Element::new("actions").with_childs(vec![
            leaf("acceleration", &[("acc", "-1")]),
            leaf("turn", &[("direction", "DOWN_RIGHT")]),
            leaf("advance", &[("distance", "2")]),
        ]));
    let e = m.to_element();
    assert_eq!(
        e.to_xml(),
        [
            r#"<data class="move">"#,
            r#"<actions>"#,
            r#"<acceleration acc="-1"/>"#,
            r#"<turn direction="DOWN_RIGHT"/>"#,
            r#"<advance distance="2"/>"#,
            r#"</actions>"#,
            r#"</data>"#,
        ]
        .concat()
    );
    assert_eq!(e, expected);
}

#[test]
fn test_xml_roundtrips() {
    let m = Move {
        actions: vec![
            Action::advance(1),
            Action::turn(CubeDir::DownRight),
            Action::turn(CubeDir::Left),
        ],
    };
    assert_eq!(Move::from_element(&m.clone().to_element()).unwrap(), m);
}

#[test]
fn empty_move_round_trips() {
    let m = Move::new();
    assert!(m.is_empty());
    assert_eq!(m.last(), None);
    assert_eq!(Move::from_element(&m.clone().to_element()).unwrap(), m);
}

#[test]
fn every_action_kind_round_trips() {
    let m = Move {
        actions: vec![
            Action::accelerate(i32::MIN),
            Action::advance(i32::MAX),
            Action::push(CubeDir::UpLeft),
            Action::turn(CubeDir::UpRight),
        ],
    };
    assert_eq!(Move::from_element(&m.clone().to_element()).unwrap(), m);
}

#[test]
fn move_without_actions_child_fails() {
    let e = Element::new("data").with_attribute("class", "move".to_string());
    assert_eq!(Move::from_element(&e), Err(Error::MissingChild("actions".to_string())));
}

#[test]
fn unknown_direction_token_fails() {
    assert_eq!(CubeDir::parse("UP"), Err(Error::UnknownVariant("UP".to_string())));
    assert_eq!(CubeDir::parse("DOWN_LEFT"), Ok(CubeDir::DownLeft));
    assert_eq!(CubeDir::UpLeft.token(), "UP_LEFT");
}

#[test]
fn unknown_action_node_fails() {
    let e = Element::new("data").with_child(Element::new("actions").with_child(leaf("jump", &[])));
    assert_eq!(Move::from_element(&e), Err(Error::UnknownVariant("jump".to_string())));
}

#[test]
fn malformed_and_missing_attributes_fail() {
    let e = leaf("position", &[("r", "x1"), ("q", "0"), ("s", "0")]);
    assert_eq!(
        CubeVec::from_element(&e),
        Err(Error::MalformedValue("r".to_string(), "x1".to_string()))
    );
    let e = leaf("position", &[("r", "1"), ("s", "0")]);
    assert_eq!(CubeVec::from_element(&e), Err(Error::MissingAttribute("q".to_string())));
    let e = leaf("position", &[("r", "99999999999"), ("q", "0"), ("s", "0")]);
    assert!(matches!(CubeVec::from_element(&e), Err(Error::MalformedValue(_, _))));
}

#[test]
fn integer_attributes_are_formatted_in_decimal() {
    let e = Action::accelerate(-17).to_element();
    assert_eq!(e.attribute("acc").unwrap(), "-17");
    assert_eq!(e.attribute_i32("acc"), Ok(-17));
    assert_eq!(leaf("a", &[("v", "+5")]).attribute_i32("v"), Ok(5));
}

#[test]
fn move_building() {
    let mut m = Move::from_action(Action::advance(1));
    m.push(Action::turn(CubeDir::Left));
    assert_eq!(m.last(), Some(&Action::turn(CubeDir::Left)));
    assert_eq!(m.iter(), &[Action::advance(1), Action::turn(CubeDir::Left)]);
    m.iter_mut()[0] = Action::advance(3);
    assert_eq!(m.clone().into_actions(), vec![Action::advance(3), Action::turn(CubeDir::Left)]);
}

fn segment(dir: &str, r: &str, q: &str, s: &str) -> Element {
    Element::new("segment")
        .with_attribute("direction", dir.to_string())
        .with_child(leaf("center", &[("r", r), ("q", q), ("s", s)]))
}

#[test]
fn board_reads_segments_in_order() {
    let e = Element::new("board")
        .with_attribute("nextDirection", "DOWN_RIGHT".to_string())
        .with_child(segment("RIGHT", "0", "0", "0"))
        .with_child(leaf("other", &[]))
        .with_child(segment("UP_LEFT", "4", "-2", "-2"));
    let b = Board::from_element(&e).unwrap();
    assert_eq!(b.next_direction(), CubeDir::DownRight);
    assert_eq!(b.segments().len(), 2);
    assert_eq!(b.segments()[0].direction, CubeDir::Right);
    assert_eq!(b.segments()[1].direction, CubeDir::UpLeft);
    assert_eq!(b.segments()[1].center, CubeVec::new(4, -2, -2));
}

#[test]
fn board_needs_next_direction() {
    let e = Element::new("board").with_child(segment("RIGHT", "0", "0", "0"));
    assert_eq!(
        Board::from_element(&e),
        Err(Error::MissingAttribute("nextDirection".to_string()))
    );
    let e = Element::new("board")
        .with_attribute("nextDirection", "RIGHT".to_string())
        .with_child(segment("NORTH", "0", "0", "0"));
    assert_eq!(Board::from_element(&e), Err(Error::UnknownVariant("NORTH".to_string())));
}

#[test]
fn vector_text_and_empty_node_xml() {
    assert_eq!(CubeVec::new(23, 0, -2).to_text(), "(23, 0, -2)");
    assert_eq!(Element::new("actions").to_xml(), "<actions/>");
    assert_eq!(Move::new().to_element().to_xml(), r#"<data class="move"><actions/></data>"#);
}

#[test]
fn performing_a_move_appends_its_actions_in_order() {
    let mut target = Move::from_action(Action::advance(1));
    let m = Move {
        actions: vec![Action::turn(CubeDir::Left), Action::accelerate(2)],
    };
    assert_eq!(perform_move(&mut target, &m), Ok(()));
    assert_eq!(
        target.actions,
        vec![Action::advance(1), Action::turn(CubeDir::Left), Action::accelerate(2)]
    );
    assert_eq!(target.perform(Action::push(CubeDir::Right)), Ok(()));
    assert_eq!(target.last(), Some(&Action::push(CubeDir::Right)));
}
