//! The rule table: which properties each entity kind currently has.
//!
//! A flat Entity×Property boolean table, mutated only by explicit rule
//! declarations. Base state: the `TEXT` entity kind always has `PUSH`
//! (word-blocks are always pushable); all other entries start false.

use vstd::prelude::*;

use crate::square::ENTITY_COUNT;
use crate::square::MARKER_COUNT;
use crate::square::PROPERTY_COUNT;
use crate::square::Entity;
use crate::square::Property;
use crate::square::Square;
use crate::square::collapse_index;
use crate::square::entity_index_spec;
use crate::square::property_index_spec;

verus! {

/// Number of entries in the rule table.
pub const RULE_TABLE_SIZE: usize = 24;

/// Flat position of the entry for entity `e` and property `p`.
pub open spec fn rule_pos(e: int, p: int) -> int {
    e * PROPERTY_COUNT + p
}

/// Whether the table `t` has property `p` set for entity kind `e`.
pub open spec fn rule_at(t: Seq<bool>, e: int, p: int) -> bool {
    t[rule_pos(e, p)]
}

/// The table `t` with the entry for `(e, p)` set true.
pub open spec fn spec_add_rule(t: Seq<bool>, e: int, p: int) -> Seq<bool> {
    t.update(rule_pos(e, p), true)
}

/// Whether any marker of `cell`, after collapsing to its entity kind, has
/// property `p` in table `t`.
pub open spec fn spec_square_has_property(t: Seq<bool>, cell: Set<int>, p: int) -> bool {
    exists|k: int| 0 <= k < MARKER_COUNT && #[trigger] cell.contains(k) && rule_at(t, collapse_index(k), p)
}

/// An Entity×Property boolean table: `rule[e][p]` true means every instance
/// of entity kind `e` currently has property `p`.
#[derive(Debug)]
pub struct RuleManager {
    table: Vec<bool>,
}

impl View for RuleManager {
    type V = Seq<bool>;

    closed spec fn view(&self) -> Seq<bool> {
        self.table@
    }
}

impl RuleManager {
    /// The table is exactly as large as the Entity×Property space.
    pub open spec fn wf(self) -> bool {
        self@.len() == RULE_TABLE_SIZE
    }

    /// The base table: all entries false, except that `TEXT` has `PUSH`.
    pub fn new() -> (r: RuleManager)
        ensures
            r.wf(),
            forall|e: int, p: int|
                0 <= e < ENTITY_COUNT && 0 <= p < PROPERTY_COUNT ==> (#[trigger] rule_at(r@, e, p)
                    <==> (e == entity_index_spec(Entity::TEXT) && p == property_index_spec(
                    Property::PUSH,
                ))),
    {
        let mut table: Vec<bool> = Vec::new();
        let mut i: usize = 0;
        while i < RULE_TABLE_SIZE
            invariant
                table@.len() == i,
                i <= RULE_TABLE_SIZE,
                forall|j: int| 0 <= j < i ==> !table@[j],
            decreases RULE_TABLE_SIZE - i,
        {
            table.push(false);
            i = i + 1;
        }
        let mut r = RuleManager { table };
        r.add_rule(Entity::TEXT, Property::PUSH);
        proof {
            assert forall|e: int, p: int|
                0 <= e < ENTITY_COUNT && 0 <= p < PROPERTY_COUNT implies (#[trigger] rule_at(
                r@,
                e,
                p,
            ) <==> (e == 5 && p == 3)) by {
                assert(0 <= rule_pos(e, p) < RULE_TABLE_SIZE) by (nonlinear_arith)
                    requires
                        0 <= e < 6 && 0 <= p < 4,
                ;
                assert(rule_pos(e, p) == 23 ==> e == 5 && p == 3) by (nonlinear_arith)
                    requires
                        0 <= e < 6 && 0 <= p < 4,
                ;
            }
        }
        r
    }

    /// An independent copy of this table, for the frozen pre-move snapshot.
    pub fn snapshot(&self) -> (r: RuleManager)
        ensures
            r@ == self@,
    {
        let mut table: Vec<bool> = Vec::new();
        let mut i: usize = 0;
        while i < self.table.len()
            invariant
                i <= self.table@.len(),
                table@ == self.table@.subrange(0, i as int),
            decreases self.table@.len() - i,
        {
            table.push(self.table[i]);
            proof {
                assert(table@ =~= self.table@.subrange(0, i + 1 as int));
            }
            i = i + 1;
        }
        proof {
            assert(table@ =~= self.table@);
        }
        RuleManager { table }
    }

    /// Declares that entity kind `entity` has property `property`;
    /// idempotent, and never clears an entry.
    pub fn add_rule(&mut self, entity: Entity, property: Property)
        requires
            old(self).wf(),
        ensures
            final(self).wf(),
            final(self)@ == spec_add_rule(
                old(self)@,
                entity_index_spec(entity),
                property_index_spec(property),
            ),
    {
        let e = entity.index();
        let p = property.index();
        let pos = e * 4 + p;
        assert(pos == rule_pos(entity_index_spec(entity), property_index_spec(property)));
        assert(pos < RULE_TABLE_SIZE);
        self.table[pos] = true;
    }

    /// Reads the entry for the entity kind with index `e` and the property
    /// with index `p`.
    pub fn has_rule_index(&self, e: usize, p: usize) -> (r: bool)
        requires
            self.wf(),
            e < ENTITY_COUNT,
            p < PROPERTY_COUNT,
        ensures
            r == rule_at(self@, e as int, p as int),
    {
        let pos = e * 4 + p;
        assert(pos < RULE_TABLE_SIZE);
        self.table[pos]
    }

    /// Reads the entry for `entity` and `property`.
    pub fn has_rule(&self, entity: Entity, property: Property) -> (r: bool)
        requires
            self.wf(),
        ensures
            r == rule_at(self@, entity_index_spec(entity), property_index_spec(property)),
    {
        self.has_rule_index(entity.index(), property.index())
    }

    /// Whether any marker in `square`, collapsed to its entity kind,
    /// currently has `property`.
    pub fn square_has_property(&self, square: Square, property: Property) -> (r: bool)
        requires
            self.wf(),
        ensures
            r == spec_square_has_property(self@, square@, property_index_spec(property)),
    {
        let p = property.index();
        let mut k: usize = 0;
        while k < MARKER_COUNT
            invariant
                self.wf(),
                k <= MARKER_COUNT,
                p == property_index_spec(property),
                forall|j: int|
                    0 <= j < k ==> !(#[trigger] square@.contains(j) && rule_at(
                        self@,
                        collapse_index(j),
                        p as int,
                    )),
            decreases MARKER_COUNT - k,
        {
            if square.contains_index(k) {
                let e = if k < ENTITY_COUNT {
                    k
                } else {
                    5
                };
                if self.has_rule_index(e, p) {
                    return true;
                }
            }
            k = k + 1;
        }
        false
    }
}

/// Declaring a rule twice leaves the table identical to declaring it once.
pub proof fn lemma_add_rule_idempotent(t: Seq<bool>, e: int, p: int)
    requires
        t.len() == RULE_TABLE_SIZE,
        0 <= e < ENTITY_COUNT,
        0 <= p < PROPERTY_COUNT,
    ensures
        spec_add_rule(spec_add_rule(t, e, p), e, p) == spec_add_rule(t, e, p),
{
    assert(0 <= rule_pos(e, p) < RULE_TABLE_SIZE) by (nonlinear_arith)
        requires
            0 <= e < 6 && 0 <= p < 4,
    ;
    assert(spec_add_rule(spec_add_rule(t, e, p), e, p) =~= spec_add_rule(t, e, p));
}

} // verus!
