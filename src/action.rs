use vstd::prelude::*;

use crate::cube_dir::{lemma_parse_token, CubeDir};
use crate::element::{attr_i32, find_attr, int_attr_error, Element};
use crate::error::Error;
use crate::text::{format_i32, int_text, lemma_int_text_round_trip, text_eq};

verus! {

/// An atomic move primitive.
#[derive(Debug, Clone, Copy, PartialEq, Eq, Hash, Structural)]
pub enum Action {
    /// Changes the speed by the given amount.
    Accelerate(i32),
    /// Moves forward by the given distance.
    Advance(i32),
    /// Pushes an opponent in the given direction.
    Push(CubeDir),
    /// Turns to face the given direction.
    Turn(CubeDir),
}

/// The node name of an action.
pub open spec fn tag(a: Action) -> Seq<char> {
    match a {
        Action::Accelerate(_) => "acceleration"@,
        Action::Advance(_) => "advance"@,
        Action::Push(_) => "push"@,
        Action::Turn(_) => "turn"@,
    }
}

/// The name of the single attribute of an action's node.
pub open spec fn attr_key(a: Action) -> Seq<char> {
    match a {
        Action::Accelerate(_) => "acc"@,
        Action::Advance(_) => "distance"@,
        Action::Push(_) => "direction"@,
        Action::Turn(_) => "direction"@,
    }
}

/// The value of the single attribute of an action's node.
pub open spec fn attr_text(a: Action) -> Seq<char> {
    match a {
        Action::Accelerate(v) => int_text(v as int),
        Action::Advance(v) => int_text(v as int),
        Action::Push(d) => d.token_spec(),
        Action::Turn(d) => d.token_spec(),
    }
}

/// Whether `e` is the node of action `a`: its name, one attribute and no children.
pub open spec fn encodes_action(a: Action, e: Element) -> bool {
    &&& e.name@ == tag(a)
    &&& e.attributes@.len() == 1
    &&& e.attributes@[0].0@ == attr_key(a)
    &&& e.attributes@[0].1@ == attr_text(a)
    &&& e.childs@.len() == 0
}

/// The direction held by the first attribute named `key`, if it holds a token.
pub open spec fn attr_dir(e: Element, key: Seq<char>) -> Option<CubeDir> {
    match find_attr(e.attributes@, key) {
        Some(t) => CubeDir::parse_spec(t),
        None => None,
    }
}

/// Whether `err` is the error for a missing attribute `key` of `e`, or for a
/// value of it that is no direction token.
pub open spec fn dir_attr_error(e: Element, key: Seq<char>, err: Error) -> bool {
    match find_attr(e.attributes@, key) {
        Some(t) => err matches Error::UnknownVariant(n) && n@ == t,
        None => err matches Error::MissingAttribute(n) && n@ == key,
    }
}

/// Whether `name` is the node name of some action.
pub open spec fn is_action_tag(name: Seq<char>) -> bool {
    name == "acceleration"@ || name == "advance"@ || name == "push"@ || name == "turn"@
}

/// The action that node `e` stands for, if any.
pub open spec fn decode_action(e: Element) -> Option<Action> {
    if e.name@ == "acceleration"@ {
        match attr_i32(e, "acc"@) {
            Some(v) => Some(Action::Accelerate(v)),
            None => None,
        }
    } else if e.name@ == "advance"@ {
        match attr_i32(e, "distance"@) {
            Some(v) => Some(Action::Advance(v)),
            None => None,
        }
    } else if e.name@ == "push"@ {
        match attr_dir(e, "direction"@) {
            Some(d) => Some(Action::Push(d)),
            None => None,
        }
    } else if e.name@ == "turn"@ {
        match attr_dir(e, "direction"@) {
            Some(d) => Some(Action::Turn(d)),
            None => None,
        }
    } else {
        None
    }
}

impl Action {
    /// An acceleration by `acc`.
    pub fn accelerate(acc: i32) -> (a: Action)
        ensures
            a == Action::Accelerate(acc),
    {
        Action::Accelerate(acc)
    }

    /// An advance by `distance`.
    pub fn advance(distance: i32) -> (a: Action)
        ensures
            a == Action::Advance(distance),
    {
        Action::Advance(distance)
    }

    /// A push in direction `d`.
    pub fn push(d: CubeDir) -> (a: Action)
        ensures
            a == Action::Push(d),
    {
        Action::Push(d)
    }

    /// A turn to direction `d`.
    pub fn turn(d: CubeDir) -> (a: Action)
        ensures
            a == Action::Turn(d),
    {
        Action::Turn(d)
    }

    /// The wire node of this action.
    pub fn to_element(self) -> (e: Element)
        ensures
            encodes_action(self, e),
    {
        let e = match self {
            Action::Accelerate(v) => Element::new("acceleration").with_attribute("acc", format_i32(v)),
            Action::Advance(v) => Element::new("advance").with_attribute("distance", format_i32(v)),
            Action::Push(d) => Element::new("push").with_attribute("direction", d.token().to_owned()),
            Action::Turn(d) => Element::new("turn").with_attribute("direction", d.token().to_owned()),
        };
        proof {
            assert(e.attributes@[0] == e.attributes@.last());
        }
        e
    }

    /// Reads an action from its wire node.
    pub fn from_element(e: &Element) -> (r: Result<Action, Error>)
        ensures
            match decode_action(*e) {
                Some(a) => r == Ok::<Action, Error>(a),
                None => r matches Err(err) && if e.name@ == "acceleration"@ {
                    int_attr_error(*e, "acc"@, err)
                } else if e.name@ == "advance"@ {
                    int_attr_error(*e, "distance"@, err)
                } else if is_action_tag(e.name@) {
                    dir_attr_error(*e, "direction"@, err)
                } else {
                    err matches Error::UnknownVariant(n) && n@ == e.name@
                },
            },
    {
        let name = e.name.as_str();
        if text_eq(name, "acceleration") {
            match e.attribute_i32("acc") {
                Ok(v) => Ok(Action::Accelerate(v)),
                Err(err) => Err(err),
            }
        } else if text_eq(name, "advance") {
            match e.attribute_i32("distance") {
                Ok(v) => Ok(Action::Advance(v)),
                Err(err) => Err(err),
            }
        } else if text_eq(name, "push") {
            match attribute_dir(e) {
                Ok(d) => Ok(Action::Push(d)),
                Err(err) => Err(err),
            }
        } else if text_eq(name, "turn") {
            match attribute_dir(e) {
                Ok(d) => Ok(Action::Turn(d)),
                Err(err) => Err(err),
            }
        } else {
            Err(Error::UnknownVariant(e.name.clone()))
        }
    }
}

/// The direction held by the `direction` attribute of `e`.
fn attribute_dir(e: &Element) -> (r: Result<CubeDir, Error>)
    ensures
        match attr_dir(*e, "direction"@) {
            Some(d) => r == Ok::<CubeDir, Error>(d),
            None => r matches Err(err) && dir_attr_error(*e, "direction"@, err),
        },
{
    match e.attribute("direction") {
        Ok(t) => CubeDir::parse(t.as_str()),
        Err(err) => Err(err),
    }
}

/// The node names and attribute names of actions, as far as they must differ.
proof fn lemma_action_names()
    ensures
        "acceleration"@ != "advance"@,
        "acceleration"@ != "push"@,
        "acceleration"@ != "turn"@,
        "advance"@ != "push"@,
        "advance"@ != "turn"@,
        "push"@ != "turn"@,
{
    reveal_strlit("acceleration");
    reveal_strlit("advance");
    reveal_strlit("push");
    reveal_strlit("turn");
    assert("acceleration"@.len() == 12);
    assert("advance"@.len() == 7);
    assert("push"@.len() == 4);
    assert("push"@[0] != "turn"@[0]);
}

/// Reading back the node of an action gives that action.
pub proof fn lemma_action_round_trip(a: Action, e: Element)
    requires
        encodes_action(a, e),
    ensures
        decode_action(e) == Some(a),
{
    lemma_action_names();
    let attrs = e.attributes@;
    assert(attrs.drop_last().len() == 0);
    assert(find_attr(attrs.drop_last(), attr_key(a)) is None);
    assert(attrs.last() == attrs[0]);
    assert(find_attr(attrs, attr_key(a)) == Some(attr_text(a)));
    match a {
        Action::Accelerate(v) => lemma_int_text_round_trip(v as int),
        Action::Advance(v) => lemma_int_text_round_trip(v as int),
        Action::Push(d) => lemma_parse_token(d),
        Action::Turn(d) => lemma_parse_token(d),
    }
}

} // verus!
