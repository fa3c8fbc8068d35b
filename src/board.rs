use vstd::prelude::*;

use crate::cube_dir::CubeDir;
use crate::cube_vec::{CubeVec, Triple};
use crate::action::{attr_dir, dir_attr_error};
use crate::element::{attr_i32, find_child, Element};
use crate::text::text_eq;
use crate::error::Error;

verus! {

/// A segment of the board: the direction it faces and the position of its center.
#[derive(Debug, Clone, Copy, PartialEq, Eq, Hash)]
pub struct Segment {
    pub direction: CubeDir,
    pub center: CubeVec,
}

/// The board: its segments in path order, and the direction of the next one.
#[derive(Debug, Clone, PartialEq, Eq)]
pub struct Board {
    segments: Vec<Segment>,
    next_direction: CubeDir,
}

impl View for Segment {
    type V = (CubeDir, Triple);

    open spec fn view(&self) -> (CubeDir, Triple) {
        (self.direction, self.center@)
    }
}

/// The vector held by the integer attributes `r`, `q` and `s` of `e`, if any.
pub open spec fn decode_vec(e: Element) -> Option<Triple> {
    match (attr_i32(e, "r"@), attr_i32(e, "q"@), attr_i32(e, "s"@)) {
        (Some(r), Some(q), Some(s)) => Some((r as int, q as int, s as int)),
        _ => None,
    }
}

/// The segment that node `e` stands for: its `direction` attribute and the
/// vector of its first child named `center`.
pub open spec fn decode_segment(e: Element) -> Option<(CubeDir, Triple)> {
    match (attr_dir(e, "direction"@), find_child_vec(e)) {
        (Some(d), Some(c)) => Some((d, c)),
        _ => None,
    }
}

/// The vector of the first child of `e` named `center`, if any.
pub open spec fn find_child_vec(e: Element) -> Option<Triple> {
    match find_child(e.childs@, "center"@) {
        Some(i) => decode_vec(e.childs@[i]),
        None => None,
    }
}

/// The segments that the nodes named `segment` among `cs` stand for, in
/// order, if every one of them stands for a segment.
pub open spec fn decode_segments(cs: Seq<Element>) -> Option<Seq<(CubeDir, Triple)>>
    decreases cs.len(),
{
    if cs.len() == 0 {
        Some(Seq::empty())
    } else {
        match decode_segments(cs.drop_last()) {
            Some(s) => if cs.last().name@ == "segment"@ {
                match decode_segment(cs.last()) {
                    Some(x) => Some(s.push(x)),
                    None => None,
                }
            } else {
                Some(s)
            },
            None => None,
        }
    }
}

impl Segment {
    /// Reads a segment from its wire node.
    pub fn from_element(e: &Element) -> (r: Result<Segment, Error>)
        ensures
            match decode_segment(*e) {
                Some(x) => r matches Ok(s) && s@ == x,
                None => r is Err,
            },
    {
        let direction = match e.attribute("direction") {
            Ok(t) => match CubeDir::parse(t.as_str()) {
                Ok(d) => d,
                Err(err) => return Err(err),
            },
            Err(err) => return Err(err),
        };
        let center = match e.child_by_name("center") {
            Ok(c) => match CubeVec::from_element(c) {
                Ok(v) => v,
                Err(err) => return Err(err),
            },
            Err(err) => return Err(err),
        };
        Ok(Segment { direction, center })
    }
}

impl Board {
    /// The segments, in path order.
    pub closed spec fn segments_spec(&self) -> Seq<(CubeDir, Triple)> {
        self.segments@.map_values(|s: Segment| s@)
    }

    /// The direction of the next segment.
    pub closed spec fn next_direction_spec(&self) -> CubeDir {
        self.next_direction
    }

    /// The segments, in path order.
    pub fn segments(&self) -> (r: &Vec<Segment>)
        ensures
            r@.map_values(|s: Segment| s@) == self.segments_spec(),
    {
        &self.segments
    }

    /// The direction of the next segment.
    pub fn next_direction(&self) -> (r: CubeDir)
        ensures
            r == self.next_direction_spec(),
    {
        self.next_direction
    }

    /// Reads a board from its wire node: every child named `segment`, in
    /// order, and the `nextDirection` attribute.
    pub fn from_element(e: &Element) -> (r: Result<Board, Error>)
        ensures
            match (decode_segments(e.childs@), attr_dir(*e, "nextDirection"@)) {
                (Some(segs), Some(d)) => r matches Ok(b) && b.segments_spec() == segs
                    && b.next_direction_spec() == d,
                (Some(_), None) => r matches Err(err) && dir_attr_error(*e, "nextDirection"@, err),
                (None, _) => r is Err,
            },
    {
        let mut segments: Vec<Segment> = Vec::new();
        let mut i: usize = 0;
        while i < e.childs.len()
            invariant
                0 <= i <= e.childs@.len(),
                decode_segments(e.childs@.take(i as int)) == Some(segments@.map_values(|s: Segment| s@)),
            decreases e.childs@.len() - i,
        {
            proof {
                assert(e.childs@.take(i + 1).drop_last() =~= e.childs@.take(i as int));
            }
            if text_eq(e.childs[i].name.as_str(), "segment") {
                match Segment::from_element(&e.childs[i]) {
                    Ok(s) => {
                        let ghost before = segments@;
                        segments.push(s);
                        proof {
                            assert(segments@.map_values(|s: Segment| s@) =~= before.map_values(
                                |s: Segment| s@,
                            ).push(s@));
                        }
                    },
                    Err(err) => {
                        proof { lemma_decode_segments_prefix_fails(e.childs@, i + 1); }
                        return Err(err);
                    },
                }
            }
            i = i + 1;
        }
        proof {
            assert(e.childs@.take(i as int) =~= e.childs@);
        }
        let next_direction = match e.attribute("nextDirection") {
            Ok(t) => match CubeDir::parse(t.as_str()) {
                Ok(d) => d,
                Err(err) => return Err(err),
            },
            Err(err) => return Err(err),
        };
        Ok(Board { segments, next_direction })
    }
}

/// Once a prefix holds a segment node that stands for no segment, so does the whole.
proof fn lemma_decode_segments_prefix_fails(cs: Seq<Element>, n: int)
    requires
        0 <= n <= cs.len(),
        decode_segments(cs.take(n)) is None,
    ensures
        decode_segments(cs) is None,
    decreases cs.len() - n,
{
    if n < cs.len() {
        assert(cs.take(n + 1).drop_last() =~= cs.take(n));
        lemma_decode_segments_prefix_fails(cs, n + 1);
    } else {
        assert(cs.take(n) =~= cs);
    }
}

} // verus!
