//! Positions and movements.

use vstd::prelude::*;

verus! {

/// The score that is worse than any real score: the starting point of every
/// maximum, and the value of a position without legal movements.
pub const WORST: i8 = -127;

/// One legal transition between positions. The search never looks inside;
/// it only hands the chosen one back.
#[derive(Clone, Copy, Debug, PartialEq, Eq, Structural)]
pub struct Movement(pub u32);

/// A legal movement together with the position that playing it leads to.
pub struct Branch {
    pub(crate) movement: Movement,
    pub(crate) next: GameTree,
}

/// An immutable position: its static value from the point of view of the
/// player to move, and its legal movements in enumeration order. A position
/// without branches is terminal.
///
/// Every position is valid: its static value and those of its successors
/// are scores that can be negated, and no movement is listed twice. The
/// constructors refuse anything else.
pub struct GameTree {
    pub(crate) value: i8,
    pub(crate) branches: Vec<Branch>,
}

impl GameTree {
    /// The static value of the position.
    pub open(crate) spec fn score(self) -> i8 {
        self.value
    }

    /// The number of legal movements.
    pub open(crate) spec fn width(self) -> nat {
        self.branches@.len()
    }

    /// The position reached by the `i`-th legal movement.
    pub open(crate) spec fn successor(self, i: int) -> GameTree {
        self.branches@[i].next
    }

    /// The `i`-th legal movement.
    pub open(crate) spec fn movement(self, i: int) -> Movement {
        self.branches@[i].movement
    }

    /// The movement that an optional index stands for.
    pub open spec fn movement_at(self, pick: Option<int>) -> Option<Movement> {
        match pick {
            Some(i) => Some(self.movement(i)),
            None => None,
        }
    }

    /// Whether `movement` is legal in the position.
    pub open spec fn lists(self, movement: Movement) -> bool {
        exists|i: int| 0 <= i < self.width() && #[trigger] self.movement(i) == movement
    }

    /// Whether no movement is listed twice.
    pub open spec fn distinct_movements(self) -> bool {
        forall|i: int, j: int|
            0 <= i < j < self.width() ==> self.movement(i) != self.movement(j)
    }

    /// What holds of every position: its static value and those of its
    /// successors exceed the one score that has no negation, and no movement
    /// is listed twice.
    pub open spec fn valid(self) -> bool {
        &&& self.score() > i8::MIN
        &&& self.distinct_movements()
        &&& forall|i: int| 0 <= i < self.width() ==> (#[trigger] self.successor(i)).score() > i8::MIN
    }

    #[verifier::type_invariant]
    pub(crate) open spec fn always_valid(self) -> bool {
        self.valid()
    }

    /// Whether `i` is the first index at which `movement` is legal.
    pub open spec fn first_index_of(self, movement: Movement, i: int) -> bool {
        &&& 0 <= i < self.width()
        &&& self.movement(i) == movement
        &&& forall|j: int| 0 <= j < i ==> self.movement(j) != movement
    }

    /// A terminal position with the given static value; nothing for the one
    /// score that has no negation.
    pub fn leaf(value: i8) -> (r: Option<GameTree>)
        ensures
            r is Some <==> value > i8::MIN,
            r matches Some(tree) ==> tree.score() == value && tree.width() == 0 && tree.valid(),
    {
        if value == i8::MIN {
            None
        } else {
            Some(GameTree { value, branches: Vec::new() })
        }
    }

    /// Adds a legal movement, after those already present, leading to `next`;
    /// nothing where the movement is already listed.
    pub fn with_branch(self, movement: Movement, next: GameTree) -> (r: Option<GameTree>)
        ensures
            r is Some <==> !self.lists(movement),
            r matches Some(tree) ==> tree.score() == self.score() && tree.width() == self.width()
                + 1 && tree.movement(self.width() as int) == movement && tree.successor(
                self.width() as int,
            ) == next && tree.valid() && forall|i: int|
                0 <= i < self.width() ==> tree.movement(i) == self.movement(i) && tree.successor(i)
                    == self.successor(i),
    {
        proof {
            use_type_invariant(&self);
            use_type_invariant(&next);
        }
        if self.play(&movement).is_some() {
            return None;
        }
        let ghost before = self;
        let GameTree { value, mut branches } = self;
        branches.push(Branch { movement, next });
        proof {
            assert forall|i: int| 0 <= i < branches@.len() implies (#[trigger] branches@[i]).next.value
                > i8::MIN by {
                if i < before.width() {
                    assert(before.successor(i).score() > i8::MIN);
                }
            }
            assert forall|i: int, j: int| 0 <= i < j < branches@.len() implies (
            #[trigger] branches@[i]).movement != (#[trigger] branches@[j]).movement by {
                assert(before.movement(i) != movement);
                if j < before.width() {
                    assert(before.movement(i) != before.movement(j));
                }
            }
        }
        let tree = GameTree { value, branches };
        Some(tree)
    }

    /// Shows that the position is valid, as every position is.
    pub fn validity(&self)
        ensures
            self.valid(),
    {
        proof {
            use_type_invariant(self);
        }
    }

    /// The static value of the position for the player to move.
    pub fn value(&self) -> (r: i8)
        ensures
            r == self.score(),
            r > i8::MIN,
    {
        proof {
            use_type_invariant(self);
        }
        self.value
    }

    /// The legal movements, in enumeration order.
    pub fn movements(&self) -> (r: Vec<Movement>)
        ensures
            r@.len() == self.width(),
            forall|i: int| 0 <= i < self.width() ==> r@[i] == self.movement(i),
    {
        let mut list: Vec<Movement> = Vec::new();
        let mut i: usize = 0;
        while i < self.branches.len()
            invariant
                i <= self.width(),
                list@.len() == i,
                forall|j: int| 0 <= j < i ==> list@[j] == self.movement(j),
            decreases self.width() - i,
        {
            list.push(self.branches[i].movement);
            i += 1;
        }
        list
    }

    /// The position that playing `movement` leads to, or nothing where the
    /// movement is not legal here. The position itself stays as it is.
    pub fn play(&self, movement: &Movement) -> (r: Option<&GameTree>)
        ensures
            r is Some <==> self.lists(*movement),
            r matches Some(next) ==> exists|i: int|
                #[trigger] self.first_index_of(*movement, i) && *next == self.successor(i),
    {
        let mut i: usize = 0;
        while i < self.branches.len()
            invariant
                i <= self.width(),
                forall|j: int| 0 <= j < i ==> self.movement(j) != *movement,
            decreases self.width() - i,
        {
            if self.branches[i].movement == *movement {
                assert(self.first_index_of(*movement, i as int));
                return Some(&self.branches[i].next);
            }
            i += 1;
        }
        None
    }

    /// Whether the position has no legal movement.
    pub fn is_terminal(&self) -> (r: bool)
        ensures
            r == (self.width() == 0),
    {
        self.branches.len() == 0
    }
}

} // verus!
