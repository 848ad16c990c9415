//! Grid squares: the closed marker vocabulary and the per-cell marker set.
//!
//! Every marker (`LayeredSquare`) is bijectively mapped onto the dense index
//! range `0 .. MARKER_COUNT`; every other structure of the engine indexes by
//! that bijection.

use vstd::prelude::*;

verus! {

/// Number of entity kinds.
pub const ENTITY_COUNT: usize = 6;

/// Number of property kinds.
pub const PROPERTY_COUNT: usize = 4;

/// Number of distinct text tokens (word-blocks).
pub const TEXT_COUNT: usize = 11;

/// Number of distinct markers, the size of the marker index space.
pub const MARKER_COUNT: usize = 17;

/// An entity kind in the world. `EMPTY` and `TEXT` are bookkeeping
/// sentinels and are never placed directly as gameplay pieces.
#[allow(non_camel_case_types)]
#[derive(Clone, Copy, Debug, PartialEq, Eq, Structural)]
pub enum Entity {
    BABA,
    FLAG,
    WALL,
    ROCK,
    EMPTY,
    TEXT,
}

/// A property that an entity kind can have through a rule.
#[allow(non_camel_case_types)]
#[derive(Clone, Copy, Debug, PartialEq, Eq, Structural)]
pub enum Property {
    YOU,
    WIN,
    STOP,
    PUSH,
}

/// A text token (word-block) denotes an entity, a property, or the
/// `Is` keyword of a rule sentence.
#[derive(Clone, Copy, Debug, PartialEq, Eq, Structural)]
pub enum Text {
    Entity(Entity),
    Property(Property),
    Is,
}

/// An atomic occupant of one grid cell: an entity instance or a word-block.
#[derive(Clone, Copy, Debug, PartialEq, Eq, Structural)]
pub enum LayeredSquare {
    Entity(Entity),
    Text(Text),
}

/// Index of an entity kind in `0 .. ENTITY_COUNT`.
pub open spec fn entity_index_spec(e: Entity) -> int {
    match e {
        Entity::BABA => 0,
        Entity::FLAG => 1,
        Entity::WALL => 2,
        Entity::ROCK => 3,
        Entity::EMPTY => 4,
        Entity::TEXT => 5,
    }
}

/// Index of a property kind in `0 .. PROPERTY_COUNT`.
pub open spec fn property_index_spec(p: Property) -> int {
    match p {
        Property::YOU => 0,
        Property::WIN => 1,
        Property::STOP => 2,
        Property::PUSH => 3,
    }
}

/// Index of a text token in `0 .. TEXT_COUNT`: entity words first, then
/// property words, then `Is`.
pub open spec fn text_index_spec(t: Text) -> int {
    match t {
        Text::Entity(e) => entity_index_spec(e),
        Text::Property(p) => ENTITY_COUNT + property_index_spec(p),
        Text::Is => ENTITY_COUNT + PROPERTY_COUNT,
    }
}

/// Index of a marker in `0 .. MARKER_COUNT`: entity markers first, then
/// word-blocks.
pub open spec fn marker_index_spec(s: LayeredSquare) -> int {
    match s {
        LayeredSquare::Entity(e) => entity_index_spec(e),
        LayeredSquare::Text(t) => ENTITY_COUNT + text_index_spec(t),
    }
}

/// Inverse of `entity_index_spec` on `0 .. ENTITY_COUNT`.
pub open spec fn entity_from_index_spec(i: int) -> Entity {
    if i == 0 {
        Entity::BABA
    } else if i == 1 {
        Entity::FLAG
    } else if i == 2 {
        Entity::WALL
    } else if i == 3 {
        Entity::ROCK
    } else if i == 4 {
        Entity::EMPTY
    } else {
        Entity::TEXT
    }
}

/// Inverse of `property_index_spec` on `0 .. PROPERTY_COUNT`.
pub open spec fn property_from_index_spec(i: int) -> Property {
    if i == 0 {
        Property::YOU
    } else if i == 1 {
        Property::WIN
    } else if i == 2 {
        Property::STOP
    } else {
        Property::PUSH
    }
}

/// Inverse of `text_index_spec` on `0 .. TEXT_COUNT`.
pub open spec fn text_from_index_spec(i: int) -> Text {
    if i < ENTITY_COUNT {
        Text::Entity(entity_from_index_spec(i))
    } else if i < ENTITY_COUNT + PROPERTY_COUNT {
        Text::Property(property_from_index_spec(i - ENTITY_COUNT))
    } else {
        Text::Is
    }
}

/// Inverse of `marker_index_spec` on `0 .. MARKER_COUNT`.
pub open spec fn marker_from_index_spec(i: int) -> LayeredSquare {
    if i < ENTITY_COUNT {
        LayeredSquare::Entity(entity_from_index_spec(i))
    } else {
        LayeredSquare::Text(text_from_index_spec(i - ENTITY_COUNT))
    }
}

/// Entity kind a marker collapses to for rule lookup: a word-block is
/// treated as an instance of the `TEXT` entity kind.
pub open spec fn entity_of_spec(s: LayeredSquare) -> Entity {
    match s {
        LayeredSquare::Entity(e) => e,
        LayeredSquare::Text(_) => Entity::TEXT,
    }
}

/// The collapse of `entity_of_spec` expressed on marker indices.
pub open spec fn collapse_index(k: int) -> int {
    if k < ENTITY_COUNT {
        k
    } else {
        entity_index_spec(Entity::TEXT)
    }
}

/// Half of the bijection law: decoding any in-range index and re-encoding
/// it yields the same index.
pub proof fn lemma_index_of_from_index(i: int)
    requires
        0 <= i < MARKER_COUNT,
    ensures
        marker_index_spec(marker_from_index_spec(i)) == i,
{
}

/// Other half of the bijection law: every constructible marker survives a
/// round trip through its index.
pub proof fn lemma_from_index_of_index(s: LayeredSquare)
    ensures
        0 <= marker_index_spec(s) < MARKER_COUNT,
        marker_from_index_spec(marker_index_spec(s)) == s,
{
}

/// Collapsing a marker value to its entity kind matches the collapse of
/// its index.
pub proof fn lemma_collapse_of_marker(s: LayeredSquare)
    ensures
        entity_index_spec(entity_of_spec(s)) == collapse_index(marker_index_spec(s)),
{
    match s {
        LayeredSquare::Entity(_) => {
        },
        LayeredSquare::Text(t) => {
            match t {
                Text::Entity(_) => {
                },
                Text::Property(_) => {
                },
                Text::Is => {
                },
            }
        },
    }
}

impl Entity {
    /// Index of this entity kind.
    pub fn index(self) -> (r: usize)
        ensures
            r == entity_index_spec(self),
    {
        match self {
            Entity::BABA => 0,
            Entity::FLAG => 1,
            Entity::WALL => 2,
            Entity::ROCK => 3,
            Entity::EMPTY => 4,
            Entity::TEXT => 5,
        }
    }

    /// Entity kind for an in-range index.
    pub fn from_index(i: usize) -> (r: Option<Entity>)
        ensures
            i < ENTITY_COUNT ==> r == Some(entity_from_index_spec(i as int)),
            i >= ENTITY_COUNT ==> r is None,
    {
        if i == 0 {
            Some(Entity::BABA)
        } else if i == 1 {
            Some(Entity::FLAG)
        } else if i == 2 {
            Some(Entity::WALL)
        } else if i == 3 {
            Some(Entity::ROCK)
        } else if i == 4 {
            Some(Entity::EMPTY)
        } else if i == 5 {
            Some(Entity::TEXT)
        } else {
            None
        }
    }
}

impl Property {
    /// Index of this property kind.
    pub fn index(self) -> (r: usize)
        ensures
            r == property_index_spec(self),
    {
        match self {
            Property::YOU => 0,
            Property::WIN => 1,
            Property::STOP => 2,
            Property::PUSH => 3,
        }
    }
}

impl LayeredSquare {
    /// Index of this marker in the dense marker index space.
    pub fn index(self) -> (r: usize)
        ensures
            r == marker_index_spec(self),
            r < MARKER_COUNT,
    {
        match self {
            LayeredSquare::Entity(e) => e.index(),
            LayeredSquare::Text(t) => match t {
                Text::Entity(e) => 6 + e.index(),
                Text::Property(p) => 12 + p.index(),
                Text::Is => 16,
            },
        }
    }

    /// Marker for an index that is known to be in range.
    pub fn of_index(i: usize) -> (r: LayeredSquare)
        requires
            i < MARKER_COUNT,
        ensures
            r == marker_from_index_spec(i as int),
    {
        if i < 6 {
            match Entity::from_index(i) {
                Some(e) => LayeredSquare::Entity(e),
                None => LayeredSquare::Entity(Entity::TEXT),
            }
        } else if i < 12 {
            match Entity::from_index(i - 6) {
                Some(e) => LayeredSquare::Text(Text::Entity(e)),
                None => LayeredSquare::Text(Text::Is),
            }
        } else if i == 12 {
            LayeredSquare::Text(Text::Property(Property::YOU))
        } else if i == 13 {
            LayeredSquare::Text(Text::Property(Property::WIN))
        } else if i == 14 {
            LayeredSquare::Text(Text::Property(Property::STOP))
        } else if i == 15 {
            LayeredSquare::Text(Text::Property(Property::PUSH))
        } else {
            LayeredSquare::Text(Text::Is)
        }
    }

    /// Decodes a raw index; out-of-range indices are a conversion error.
    pub fn from_index(i: usize) -> (r: Option<LayeredSquare>)
        ensures
            i < MARKER_COUNT ==> r == Some(marker_from_index_spec(i as int)),
            i >= MARKER_COUNT ==> r is None,
    {
        if i < MARKER_COUNT {
            Some(LayeredSquare::of_index(i))
        } else {
            None
        }
    }

    /// Entity kind this marker collapses to for rule lookup.
    pub fn entity_of(self) -> (r: Entity)
        ensures
            r == entity_of_spec(self),
    {
        match self {
            LayeredSquare::Entity(e) => e,
            LayeredSquare::Text(_) => Entity::TEXT,
        }
    }
}

/// Whether bit `i` of `v` is set.
pub open spec fn sq_bit(v: u32, i: int) -> bool {
    (v >> (i as u32)) & 1u32 == 1u32
}

proof fn lemma_bit_zero()
    by (bit_vector)
    ensures
        forall|j: u32| j < 32 ==> #[trigger] ((0u32 >> j) & 1u32) == 0u32,
{
}

proof fn lemma_bit_or(v: u32, i: u32)
    by (bit_vector)
    requires
        i < 32,
    ensures
        forall|j: u32|
            j < 32 ==> #[trigger] (((v | (1u32 << i)) >> j) & 1u32) == (if j == i {
                1u32
            } else {
                (v >> j) & 1u32
            }),
{
}

proof fn lemma_bit_clear(v: u32, i: u32)
    by (bit_vector)
    requires
        i < 32,
    ensures
        forall|j: u32|
            j < 32 ==> #[trigger] (((v & !(1u32 << i)) >> j) & 1u32) == (if j == i {
                0u32
            } else {
                (v >> j) & 1u32
            }),
{
}

/// The set of markers stacked on one cell, packed as a bitset over the
/// marker index space. Value semantics: copied, not referenced.
#[derive(Clone, Copy, Debug, PartialEq, Eq, Structural)]
pub struct Square {
    value: u32,
}

impl View for Square {
    type V = Set<int>;

    closed spec fn view(&self) -> Set<int> {
        Set::new(|i: int| 0 <= i < MARKER_COUNT && sq_bit(self.value, i))
    }
}

impl Square {
    /// An empty cell.
    pub fn new() -> (r: Square)
        ensures
            r@ == Set::<int>::empty(),
    {
        let r = Square { value: 0 };
        proof {
            lemma_bit_zero();
            assert forall|i: int| !r@.contains(i) by {
                if 0 <= i < MARKER_COUNT {
                    assert((0u32 >> (i as u32)) & 1u32 == 0u32);
                }
            }
            assert(r@ =~= Set::<int>::empty());
        }
        r
    }

    /// Adds a layer to this square in place; idempotent.
    pub fn add_layer(&mut self, layer: LayeredSquare)
        ensures
            final(self)@ == old(self)@.insert(marker_index_spec(layer)),
    {
        let idx = layer.index();
        let ghost v0 = self.value;
        proof {
            lemma_bit_or(v0, idx as u32);
        }
        self.value = self.value | (1u32 << (idx as u32));
        proof {
            assert forall|j: int| final(self)@.contains(j) == old(self)@.insert(
                marker_index_spec(layer),
            ).contains(j) by {
                if 0 <= j < MARKER_COUNT {
                    assert(((v0 | (1u32 << (idx as u32))) >> (j as u32)) & 1u32 == (if (j as u32)
                        == (idx as u32) {
                        1u32
                    } else {
                        (v0 >> (j as u32)) & 1u32
                    }));
                }
            }
            assert(final(self)@ =~= old(self)@.insert(marker_index_spec(layer)));
        }
    }

    /// Removes a layer from this square in place; a no-op when absent.
    pub fn remove_layer(&mut self, layer: LayeredSquare)
        ensures
            final(self)@ == old(self)@.remove(marker_index_spec(layer)),
    {
        let idx = layer.index();
        let ghost v0 = self.value;
        proof {
            lemma_bit_clear(v0, idx as u32);
        }
        self.value = self.value & !(1u32 << (idx as u32));
        proof {
            assert forall|j: int| final(self)@.contains(j) == old(self)@.remove(
                marker_index_spec(layer),
            ).contains(j) by {
                if 0 <= j < MARKER_COUNT {
                    assert(((v0 & !(1u32 << (idx as u32))) >> (j as u32)) & 1u32 == (if (j as u32)
                        == (idx as u32) {
                        0u32
                    } else {
                        (v0 >> (j as u32)) & 1u32
                    }));
                }
            }
            assert(final(self)@ =~= old(self)@.remove(marker_index_spec(layer)));
        }
    }

    /// Whether this square holds the given marker.
    pub fn contains(&self, layer: LayeredSquare) -> (r: bool)
        ensures
            r == self@.contains(marker_index_spec(layer)),
    {
        let idx = layer.index();
        (self.value >> (idx as u32)) & 1u32 == 1u32
    }

    /// Whether this square holds the marker with the given index.
    pub fn contains_index(&self, idx: usize) -> (r: bool)
        requires
            idx < MARKER_COUNT,
        ensures
            r == self@.contains(idx as int),
    {
        (self.value >> (idx as u32)) & 1u32 == 1u32
    }
}

/// Iterates the markers of one square in ascending index order.
pub struct SquareIterator {
    square: Square,
    next_index: usize,
}

impl SquareIterator {
    /// The square being iterated.
    pub closed spec fn square_spec(&self) -> Square {
        self.square
    }

    /// Index the iteration has advanced to.
    pub closed spec fn cursor_spec(&self) -> int {
        self.next_index as int
    }

    /// Starts an iteration over the given square.
    pub fn new(square: Square) -> (r: SquareIterator)
        ensures
            r.square_spec() == square,
            r.cursor_spec() == 0,
    {
        SquareIterator { square, next_index: 0 }
    }

    /// The next contained marker in ascending index order, if any.
    pub fn next(&mut self) -> (r: Option<LayeredSquare>)
        requires
            old(self).cursor_spec() <= MARKER_COUNT,
        ensures
            final(self).square_spec() == old(self).square_spec(),
            match r {
                Some(m) => {
                    let k = marker_index_spec(m);
                    &&& old(self).cursor_spec() <= k < MARKER_COUNT
                    &&& old(self).square_spec()@.contains(k)
                    &&& forall|j: int|
                        old(self).cursor_spec() <= j < k ==> !old(self).square_spec()@.contains(j)
                    &&& final(self).cursor_spec() == k + 1
                },
                None => {
                    &&& forall|j: int|
                        old(self).cursor_spec() <= j < MARKER_COUNT ==> !old(
                            self,
                        ).square_spec()@.contains(j)
                    &&& final(self).cursor_spec() == MARKER_COUNT
                },
            },
    {
        let mut i = self.next_index;
        while i < MARKER_COUNT
            invariant
                self == old(self),
                old(self).next_index <= i <= MARKER_COUNT,
                forall|j: int| old(self).cursor_spec() <= j < i ==> !self.square@.contains(j),
            decreases MARKER_COUNT - i,
        {
            if self.square.contains_index(i) {
                let m = LayeredSquare::of_index(i);
                proof {
                    lemma_index_of_from_index(i as int);
                }
                self.next_index = i + 1;
                return Some(m);
            }
            i = i + 1;
        }
        self.next_index = MARKER_COUNT;
        None
    }
}

} // verus!
