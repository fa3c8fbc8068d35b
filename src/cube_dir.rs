use vstd::prelude::*;

use crate::error::Error;
use crate::text::text_eq;

verus! {

/// A cube coordinate direction, ordered clockwise starting at `Right`.
#[derive(Debug, Clone, Copy, PartialEq, Eq, Hash, Structural)]
pub enum CubeDir {
    Right,
    DownRight,
    DownLeft,
    Left,
    UpLeft,
    UpRight,
}

/// The number of directions.
pub const COUNT: usize = 6;

/// The signed minimal clockwise turn count from ordinal `from` to ordinal `to`,
/// canonicalised to `-3..3` (an opposite direction is three turns to the left).
pub open spec fn turn_count(from: int, to: int) -> int {
    ((6 + to - from + 3) % 6) - 3
}

impl Default for CubeDir {
    fn default() -> (d: Self)
        ensures
            d == CubeDir::Right,
    {
        CubeDir::Right
    }
}

impl CubeDir {
    /// The ordinal of this direction (`Right` is 0, `UpRight` is 5).
    pub open spec fn ord(self) -> int {
        match self {
            CubeDir::Right => 0,
            CubeDir::DownRight => 1,
            CubeDir::DownLeft => 2,
            CubeDir::Left => 3,
            CubeDir::UpLeft => 4,
            CubeDir::UpRight => 5,
        }
    }

    /// The direction with ordinal `i % 6`.
    pub open spec fn of_ord(i: int) -> CubeDir {
        let k = i % 6;
        if k == 0 {
            CubeDir::Right
        } else if k == 1 {
            CubeDir::DownRight
        } else if k == 2 {
            CubeDir::DownLeft
        } else if k == 3 {
            CubeDir::Left
        } else if k == 4 {
            CubeDir::UpLeft
        } else {
            CubeDir::UpRight
        }
    }

    /// The wire token of this direction.
    pub open spec fn token_spec(self) -> Seq<char> {
        match self {
            CubeDir::Right => "RIGHT"@,
            CubeDir::DownRight => "DOWN_RIGHT"@,
            CubeDir::DownLeft => "DOWN_LEFT"@,
            CubeDir::Left => "LEFT"@,
            CubeDir::UpLeft => "UP_LEFT"@,
            CubeDir::UpRight => "UP_RIGHT"@,
        }
    }

    /// The direction whose wire token is `s`, if any.
    pub open spec fn parse_spec(s: Seq<char>) -> Option<CubeDir> {
        if s == "RIGHT"@ {
            Some(CubeDir::Right)
        } else if s == "DOWN_RIGHT"@ {
            Some(CubeDir::DownRight)
        } else if s == "DOWN_LEFT"@ {
            Some(CubeDir::DownLeft)
        } else if s == "LEFT"@ {
            Some(CubeDir::Left)
        } else if s == "UP_LEFT"@ {
            Some(CubeDir::UpLeft)
        } else if s == "UP_RIGHT"@ {
            Some(CubeDir::UpRight)
        } else {
            None
        }
    }

    /// Every direction, in clockwise order starting at `Right`.
    pub fn all() -> (r: [CubeDir; 6])
        ensures
            forall|i: int| 0 <= i < 6 ==> (#[trigger] r@[i]).ord() == i,
    {
        [
            CubeDir::Right,
            CubeDir::DownRight,
            CubeDir::DownLeft,
            CubeDir::Left,
            CubeDir::UpLeft,
            CubeDir::UpRight,
        ]
    }

    /// The number of turns from the default direction (right).
    pub fn turns(self) -> (r: i32)
        ensures
            r == self.ord(),
    {
        match self {
            CubeDir::Right => 0,
            CubeDir::DownRight => 1,
            CubeDir::DownLeft => 2,
            CubeDir::Left => 3,
            CubeDir::UpLeft => 4,
            CubeDir::UpRight => 5,
        }
    }

    /// Clockwise turns to the target (in `-3..3`).
    pub fn turn_count_to(self, target: Self) -> (r: i32)
        ensures
            r == turn_count(self.ord(), target.ord()),
            -3 <= r < 3,
    {
        ((COUNT as i32 + target.turns() - self.turns() + 3) % COUNT as i32) - 3
    }

    /// The wire token of this direction.
    pub fn token(self) -> (r: &'static str)
        ensures
            r@ == self.token_spec(),
    {
        match self {
            CubeDir::Right => "RIGHT",
            CubeDir::DownRight => "DOWN_RIGHT",
            CubeDir::DownLeft => "DOWN_LEFT",
            CubeDir::Left => "LEFT",
            CubeDir::UpLeft => "UP_LEFT",
            CubeDir::UpRight => "UP_RIGHT",
        }
    }

    /// Reads a direction from its wire token.
    pub fn parse(s: &str) -> (r: Result<CubeDir, Error>)
        ensures
            match CubeDir::parse_spec(s@) {
                Some(d) => r == Ok::<CubeDir, Error>(d),
                None => r matches Err(Error::UnknownVariant(t)) && t@ == s@,
            },
    {
        let all = CubeDir::all();
        let mut i: usize = 0;
        while i < 6
            invariant
                0 <= i <= 6,
                forall|j: int| 0 <= j < 6 ==> (#[trigger] all@[j]).ord() == j,
                forall|j: int| 0 <= j < i ==> s@ != (#[trigger] all@[j]).token_spec(),
            decreases 6 - i,
        {
            let d = all[i];
            if text_eq(s, d.token()) {
                proof { lemma_parse_token(d); }
                return Ok(d);
            }
            i = i + 1;
        }
        proof { lemma_parse_none(s@, all@); }
        Err(Error::UnknownVariant(s.to_owned()))
    }
}

/// The six tokens have six different lengths.
pub proof fn lemma_token_lengths()
    ensures
        "RIGHT"@.len() == 5,
        "DOWN_RIGHT"@.len() == 10,
        "DOWN_LEFT"@.len() == 9,
        "LEFT"@.len() == 4,
        "UP_LEFT"@.len() == 7,
        "UP_RIGHT"@.len() == 8,
{
    reveal_strlit("RIGHT");
    reveal_strlit("DOWN_RIGHT");
    reveal_strlit("DOWN_LEFT");
    reveal_strlit("LEFT");
    reveal_strlit("UP_LEFT");
    reveal_strlit("UP_RIGHT");
}

/// Reading back the token of a direction gives that direction.
pub proof fn lemma_parse_token(d: CubeDir)
    ensures
        CubeDir::parse_spec(d.token_spec()) == Some(d),
{
    lemma_token_lengths();
}

proof fn lemma_parse_none(s: Seq<char>, all: Seq<CubeDir>)
    requires
        all.len() == 6,
        forall|j: int| 0 <= j < 6 ==> (#[trigger] all[j]).ord() == j,
        forall|j: int| 0 <= j < 6 ==> s != (#[trigger] all[j]).token_spec(),
    ensures
        CubeDir::parse_spec(s) is None,
{
    assert(s != all[0].token_spec());
    assert(s != all[1].token_spec());
    assert(s != all[2].token_spec());
    assert(s != all[3].token_spec());
    assert(s != all[4].token_spec());
    assert(s != all[5].token_spec());
}

/// Turning from a direction to any other gives a count in `-3..3`, and
/// turning to the same direction gives no turns at all.
pub proof fn lemma_turn_count_range(a: CubeDir, b: CubeDir)
    ensures
        -3 <= turn_count(a.ord(), b.ord()) < 3,
        turn_count(a.ord(), a.ord()) == 0,
{
}

/// Turning from a direction to its opposite, three ordinals away, counts as
/// three turns to the left.
pub proof fn lemma_turn_to_opposite(a: CubeDir)
    ensures
        turn_count(a.ord(), CubeDir::of_ord(a.ord() + 3).ord()) == -3,
{
}

} // verus!
