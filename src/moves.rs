use vstd::prelude::*;

use crate::action::{decode_action, encodes_action, lemma_action_round_trip, Action};
use crate::element::{find_child, Element};
use crate::error::Error;

verus! {

/// A game move: actions in execution order.
#[derive(Debug, Clone, PartialEq, Eq, Hash)]
pub struct Move {
    pub actions: Vec<Action>,
}

/// Something that can carry out actions one at a time.
pub trait Perform: View + Sized {
    /// What goes wrong when an action cannot be carried out.
    type Failure;

    /// The state after carrying out `action` in state `v`, and whether it could.
    spec fn performed(v: Self::V, action: Action) -> (Self::V, Result<(), Self::Failure>);

    /// Carries out one action.
    fn perform(&mut self, action: Action) -> (r: Result<(), Self::Failure>)
        ensures
            (final(self)@, r) == Self::performed(old(self)@, action),
    ;
}

/// The receiver after carrying out `acts` in order, stopping at the first
/// action that fails, and that failure if any.
pub open spec fn perform_all<T: Perform>(t: T::V, acts: Seq<Action>) -> (T::V, Result<(), T::Failure>)
    decreases acts.len(),
{
    if acts.len() == 0 {
        (t, Ok(()))
    } else {
        let (u, r) = perform_all::<T>(t, acts.drop_last());
        match r {
            Ok(_) => T::performed(u, acts.last()),
            Err(e) => (u, Err(e)),
        }
    }
}

/// The actions that the nodes `cs` stand for, in order, if every one of them
/// stands for an action.
pub open spec fn decode_all(cs: Seq<Element>) -> Option<Seq<Action>>
    decreases cs.len(),
{
    if cs.len() == 0 {
        Some(Seq::empty())
    } else {
        match decode_all(cs.drop_last()) {
            Some(s) => match decode_action(cs.last()) {
                Some(a) => Some(s.push(a)),
                None => None,
            },
            None => None,
        }
    }
}

/// The actions of the move that node `e` stands for: those of the children of
/// its first child named `actions`.
pub open spec fn decode_move(e: Element) -> Option<Seq<Action>> {
    match find_child(e.childs@, "actions"@) {
        Some(i) => decode_all(e.childs@[i].childs@),
        None => None,
    }
}

/// Whether `e` is the node of a move with actions `acts`: a `data` node of
/// class `move` whose one child `actions` holds the nodes of the actions, in order.
pub open spec fn encodes_move(acts: Seq<Action>, e: Element) -> bool {
    &&& e.name@ == "data"@
    &&& e.attributes@.len() == 1
    &&& e.attributes@[0].0@ == "class"@
    &&& e.attributes@[0].1@ == "move"@
    &&& e.childs@.len() == 1
    &&& e.childs@[0].name@ == "actions"@
    &&& e.childs@[0].attributes@.len() == 0
    &&& e.childs@[0].childs@.len() == acts.len()
    &&& forall|i: int| 0 <= i < acts.len() ==> encodes_action(acts[i], #[trigger] e.childs@[0].childs@[i])
}

impl Default for Move {
    fn default() -> (m: Self)
        ensures
            m.actions@ == Seq::<Action>::empty(),
    {
        Move::new()
    }
}

impl Move {
    /// Creates an empty move.
    pub fn new() -> (m: Self)
        ensures
            m.actions@ == Seq::<Action>::empty(),
    {
        Move { actions: Vec::new() }
    }

    /// A move of one action.
    pub fn from_action(action: Action) -> (m: Self)
        ensures
            m.actions@ == seq![action],
    {
        let mut actions = Vec::new();
        actions.push(action);
        proof {
            assert(actions@ =~= seq![action]);
        }
        Move { actions }
    }

    /// Appends an action at the end.
    pub fn push(&mut self, action: Action)
        ensures
            final(self).actions@ == old(self).actions@.push(action),
    {
        self.actions.push(action);
    }

    /// The last action within the move.
    pub fn last(&self) -> (r: Option<&Action>)
        ensures
            self.actions@.len() == 0 ==> r is None,
            self.actions@.len() > 0 ==> r == Some(&self.actions@.last()),
    {
        let n = self.actions.len();
        if n == 0 {
            None
        } else {
            Some(&self.actions[n - 1])
        }
    }

    /// The actions within this move, in order.
    pub fn iter(&self) -> (r: &[Action])
        ensures
            r@ == self.actions@,
    {
        self.actions.as_slice()
    }

    /// The actions within this move, in order, open to change.
    pub fn iter_mut(&mut self) -> (r: &mut [Action])
        ensures
            r@ == old(self).actions@,
            final(r)@ == final(self).actions@,
    {
        self.actions.as_mut_slice()
    }

    /// Whether the move contains no actions.
    pub fn is_empty(&self) -> (r: bool)
        ensures
            r == (self.actions@.len() == 0),
    {
        self.actions.len() == 0
    }

    /// The actions of this move, taken out of it.
    pub fn into_actions(self) -> (r: Vec<Action>)
        ensures
            r@ == self.actions@,
    {
        self.actions
    }

    /// The wire node of this move.
    pub fn to_element(self) -> (e: Element)
        ensures
            encodes_move(self.actions@, e),
    {
        let mut nodes: Vec<Element> = Vec::new();
        let mut i: usize = 0;
        while i < self.actions.len()
            invariant
                0 <= i <= self.actions@.len(),
                nodes@.len() == i,
                forall|j: int| 0 <= j < i ==> encodes_action(self.actions@[j], #[trigger] nodes@[j]),
            decreases self.actions@.len() - i,
        {
            nodes.push(self.actions[i].to_element());
            i = i + 1;
        }
        let inner = Element::new("actions").with_childs(nodes);
        let e = Element::new("data").with_attribute("class", "move".to_owned()).with_child(inner);
        proof {
            assert(e.attributes@[0] == e.attributes@.last());
            assert(e.childs@[0] == inner);
        }
        e
    }

    /// Reads a move from its wire node.
    pub fn from_element(e: &Element) -> (r: Result<Move, Error>)
        ensures
            match decode_move(*e) {
                Some(acts) => r matches Ok(m) && m.actions@ == acts,
                None => r is Err,
            },
            find_child(e.childs@, "actions"@) is None ==> (r matches Err(Error::MissingChild(n))
                && n@ == "actions"@),
    {
        let node = match e.child_by_name("actions") {
            Ok(node) => node,
            Err(err) => return Err(err),
        };
        let ghost found = find_child(e.childs@, "actions"@);
        assert(found is Some && decode_move(*e) == decode_all(node.childs@));
        let mut actions: Vec<Action> = Vec::new();
        let mut i: usize = 0;
        while i < node.childs.len()
            invariant
                0 <= i <= node.childs@.len(),
                found == find_child(e.childs@, "actions"@),
                found is Some,
                decode_move(*e) == decode_all(node.childs@),
                decode_all(node.childs@.take(i as int)) == Some(actions@),
            decreases node.childs@.len() - i,
        {
            proof {
                assert(node.childs@.take(i + 1).drop_last() =~= node.childs@.take(i as int));
            }
            match Action::from_element(&node.childs[i]) {
                Ok(a) => actions.push(a),
                Err(err) => {
                    proof { lemma_decode_all_prefix_fails(node.childs@, i + 1); }
                    return Err(err);
                },
            }
            i = i + 1;
        }
        proof {
            assert(node.childs@.take(i as int) =~= node.childs@);
        }
        Ok(Move { actions })
    }
}

/// Carries out the actions of a move on a receiver, one after another, in
/// order; the first failure stops the rest and is handed back.
pub fn perform_move<T: Perform>(receiver: &mut T, m: &Move) -> (r: Result<(), T::Failure>)
    ensures
        (final(receiver)@, r) == perform_all::<T>(old(receiver)@, m.actions@),
{
    let mut i: usize = 0;
    while i < m.actions.len()
        invariant
            0 <= i <= m.actions@.len(),
            (receiver@, Ok::<(), T::Failure>(())) == perform_all::<T>(old(receiver)@, m.actions@.take(i as int)),
        decreases m.actions@.len() - i,
    {
        proof {
            assert(m.actions@.take(i + 1).drop_last() =~= m.actions@.take(i as int));
            assert(m.actions@.take(i + 1).last() == m.actions@[i as int]);
        }
        let ghost before = receiver@;
        let r = receiver.perform(m.actions[i]);
        assert((receiver@, r) == T::performed(before, m.actions@[i as int]));
        match r {
            Ok(u) => {
                assert(u == ());
            },
            Err(e) => {
                proof { lemma_perform_all_stops::<T>(old(receiver)@, m.actions@, i + 1); }
                return Err(e);
            },
        }
        i = i + 1;
    }
    proof {
        assert(m.actions@.take(i as int) =~= m.actions@);
    }
    Ok(())
}

/// Once a prefix of the actions fails, the rest leaves the receiver and the
/// failure as they are.
proof fn lemma_perform_all_stops<T: Perform>(t: T::V, acts: Seq<Action>, n: int)
    requires
        0 <= n <= acts.len(),
        perform_all::<T>(t, acts.take(n)).1 is Err,
    ensures
        perform_all::<T>(t, acts) == perform_all::<T>(t, acts.take(n)),
    decreases acts.len() - n,
{
    if n < acts.len() {
        assert(acts.take(n + 1).drop_last() =~= acts.take(n));
        lemma_perform_all_stops::<T>(t, acts, n + 1);
    } else {
        assert(acts.take(n) =~= acts);
    }
}

impl View for Move {
    type V = Seq<Action>;

    open spec fn view(&self) -> Seq<Action> {
        self.actions@
    }
}

impl Perform for Move {
    /// Appending to a move never fails.
    type Failure = ();

    open spec fn performed(v: Seq<Action>, action: Action) -> (Seq<Action>, Result<(), ()>) {
        (v.push(action), Ok(()))
    }

    fn perform(&mut self, action: Action) -> (r: Result<(), ()>) {
        self.push(action);
        Ok(())
    }
}

/// Once a prefix holds a node that stands for no action, so does the whole.
proof fn lemma_decode_all_prefix_fails(cs: Seq<Element>, n: int)
    requires
        0 <= n <= cs.len(),
        decode_all(cs.take(n)) is None,
    ensures
        decode_all(cs) is None,
    decreases cs.len() - n,
{
    if n < cs.len() {
        assert(cs.take(n + 1).drop_last() =~= cs.take(n));
        lemma_decode_all_prefix_fails(cs, n + 1);
    } else {
        assert(cs.take(n) =~= cs);
    }
}

/// The nodes of a run of actions read back as that run.
proof fn lemma_decode_all_encoded(acts: Seq<Action>, cs: Seq<Element>)
    requires
        cs.len() == acts.len(),
        forall|i: int| 0 <= i < acts.len() ==> encodes_action(acts[i], #[trigger] cs[i]),
    ensures
        decode_all(cs) == Some(acts),
    decreases cs.len(),
{
    if cs.len() > 0 {
        let n = cs.len() - 1;
        assert forall|i: int| 0 <= i < n implies encodes_action(acts.drop_last()[i], #[trigger] cs.drop_last()[i]) by {
            assert(encodes_action(acts[i], cs[i]));
        }
        lemma_decode_all_encoded(acts.drop_last(), cs.drop_last());
        assert(encodes_action(acts[n], cs[n]));
        lemma_action_round_trip(acts.last(), cs.last());
        assert(acts.drop_last().push(acts.last()) =~= acts);
    } else {
        assert(acts =~= Seq::<Action>::empty());
    }
}

/// Reading back the node of a move, the empty move included, gives the same
/// actions in the same order.
pub proof fn lemma_move_round_trip(acts: Seq<Action>, e: Element)
    requires
        encodes_move(acts, e),
    ensures
        decode_move(e) == Some(acts),
{
    assert(e.childs@.drop_last().len() == 0);
    assert(find_child(e.childs@.drop_last(), "actions"@) is None);
    assert(e.childs@.last() == e.childs@[0]);
    lemma_decode_all_encoded(acts, e.childs@[0].childs@);
}

} // verus!
