//! Which objects on the field run into one another.
use vstd::prelude::*;
use crate::grid::{GridObject, ObjectType};

verus! {

/// Object `a` of `objects` runs into object `b`: `a` is part of the snake and
/// the two are different objects on the same cell.
pub open spec fn runs_into(objects: Seq<GridObject>, a: int, b: int) -> bool {
    &&& objects[a].obj_type == ObjectType::Snake
    &&& objects[a].x == objects[b].x
    &&& objects[a].y == objects[b].y
    &&& a != b
}

/// The objects among the first `upto` that object `a` runs into, in order.
pub open spec fn hits_of(objects: Seq<GridObject>, a: int, upto: int) -> Seq<GridObject>
    decreases upto,
{
    if upto <= 0 {
        Seq::empty()
    } else {
        let prev = hits_of(objects, a, upto - 1);
        if runs_into(objects, a, upto - 1) {
            prev.push(objects[upto - 1])
        } else {
            prev
        }
    }
}

/// What the first `upto` objects run into, object by object.
pub open spec fn collisions_upto(objects: Seq<GridObject>, upto: int) -> Seq<GridObject>
    decreases upto,
{
    if upto <= 0 {
        Seq::empty()
    } else {
        collisions_upto(objects, upto - 1) + hits_of(objects, upto - 1, objects.len() as int)
    }
}

/// Every collision on the field: for each part of the snake in order, every
/// other object on its cell, in order.
pub open spec fn collisions(objects: Seq<GridObject>) -> Seq<GridObject> {
    collisions_upto(objects, objects.len() as int)
}

/// An object that is not part of the snake runs into nothing.
pub proof fn lemma_no_hits(objects: Seq<GridObject>, a: int, upto: int)
    requires
        objects[a].obj_type != ObjectType::Snake,
    ensures
        hits_of(objects, a, upto) == Seq::<GridObject>::empty(),
    decreases upto,
{
    if upto > 0 {
        lemma_no_hits(objects, a, upto - 1);
    }
}

/// Every collision among `objects`.
pub fn find_collisions(objects: &Vec<GridObject>) -> (r: Vec<GridObject>)
    ensures
        r@ == collisions(objects@),
{
    let n = objects.len();
    let mut out: Vec<GridObject> = Vec::new();
    let mut a: usize = 0;
    while a < n
        invariant
            n == objects@.len(),
            a <= n,
            out@ == collisions_upto(objects@, a as int),
        decreases n - a,
    {
        let ghost before = out@;
        if objects[a].obj_type == ObjectType::Snake {
            let mut b: usize = 0;
            while b < n
                invariant
                    n == objects@.len(),
                    a < n,
                    b <= n,
                    objects@[a as int].obj_type == ObjectType::Snake,
                    out@ == before + hits_of(objects@, a as int, b as int),
                decreases n - b,
            {
                if objects[a].x == objects[b].x && objects[a].y == objects[b].y && a != b {
                    out.push(objects[b]);
                }
                assert(out@ =~= before + hits_of(objects@, a as int, b + 1));
                b = b + 1;
            }
        } else {
            proof {
                lemma_no_hits(objects@, a as int, n as int);
            }
            assert(out@ =~= before + hits_of(objects@, a as int, n as int));
        }
        a = a + 1;
    }
    out
}

/// Every collision found among the first `upto` objects is one of `objects`
/// on the cell of a part of the snake that is a different object.
pub proof fn lemma_collision_members(objects: Seq<GridObject>, upto: int)
    requires
        upto <= objects.len(),
    ensures
        forall|k: int| 0 <= k < collisions_upto(objects, upto).len() ==> #[trigger] comes_from(
            objects,
            upto,
            collisions_upto(objects, upto)[k],
        ),
    decreases upto,
{
    if upto > 0 {
        lemma_collision_members(objects, upto - 1);
        lemma_hits_members(objects, upto - 1, objects.len() as int);
        let prev = collisions_upto(objects, upto - 1);
        let hits = hits_of(objects, upto - 1, objects.len() as int);
        let all = collisions_upto(objects, upto);
        assert forall|k: int| 0 <= k < all.len() implies #[trigger] comes_from(objects, upto, all[k]) by {
            if k < prev.len() {
                assert(all[k] == prev[k]);
                assert(comes_from(objects, upto - 1, prev[k]));
                let (a, b) = choose|a: int, b: int|
                    0 <= a < upto - 1 && 0 <= b < objects.len() && #[trigger] runs_into(objects, a, b) && prev[k] == objects[b];
                assert(runs_into(objects, a, b));
            } else {
                assert(all[k] == hits[k - prev.len()]);
                assert(hit_by(objects, upto - 1, hits[k - prev.len()]));
                let b = choose|b: int| 0 <= b < objects.len() && #[trigger] runs_into(objects, upto - 1, b)
                    && hits[k - prev.len()] == objects[b];
                assert(runs_into(objects, upto - 1, b));
            }
        }
    }
}

/// `o` is an object that one of the first `upto` objects runs into.
pub open spec fn comes_from(objects: Seq<GridObject>, upto: int, o: GridObject) -> bool {
    exists|a: int, b: int| 0 <= a < upto && 0 <= b < objects.len() && #[trigger] runs_into(objects, a, b) && o == objects[b]
}

/// `o` is an object that object `a` runs into.
pub open spec fn hit_by(objects: Seq<GridObject>, a: int, o: GridObject) -> bool {
    exists|b: int| 0 <= b < objects.len() && #[trigger] runs_into(objects, a, b) && o == objects[b]
}

/// Every object that object `a` runs into, among the first `upto`.
pub proof fn lemma_hits_members(objects: Seq<GridObject>, a: int, upto: int)
    requires
        upto <= objects.len(),
    ensures
        forall|k: int| 0 <= k < hits_of(objects, a, upto).len() ==> #[trigger] hit_by(objects, a, hits_of(objects, a, upto)[k]),
    decreases upto,
{
    if upto > 0 {
        lemma_hits_members(objects, a, upto - 1);
        let prev = hits_of(objects, a, upto - 1);
        let all = hits_of(objects, a, upto);
        assert forall|k: int| 0 <= k < all.len() implies #[trigger] hit_by(objects, a, all[k]) by {
            if k < prev.len() {
                assert(all[k] == prev[k]);
                assert(hit_by(objects, a, prev[k]));
            } else {
                assert(runs_into(objects, a, upto - 1));
                assert(all[k] == objects[upto - 1]);
            }
        }
    }
}

/// Object `a` runs into every object `b` it shares a cell with.
pub proof fn lemma_hits_holds(objects: Seq<GridObject>, a: int, b: int, upto: int)
    requires
        0 <= b < upto <= objects.len(),
        runs_into(objects, a, b),
    ensures
        hits_of(objects, a, upto).contains(objects[b]),
    decreases upto,
{
    let prev = hits_of(objects, a, upto - 1);
    let all = hits_of(objects, a, upto);
    if b < upto - 1 {
        lemma_hits_holds(objects, a, b, upto - 1);
        let k = choose|k: int| 0 <= k < prev.len() && prev[k] == objects[b];
        assert(all[k] == prev[k]);
    } else {
        assert(all[all.len() - 1] == objects[b]);
    }
}

/// What stands on the head's cell is run into: with the head first among
/// the objects, every other object on its cell is among the collisions.
pub proof fn law_head_meets_its_cell(objects: Seq<GridObject>, b: int)
    requires
        0 < b < objects.len(),
        objects[0].obj_type == ObjectType::Snake,
        objects[0].x == objects[b].x,
        objects[0].y == objects[b].y,
    ensures
        collisions(objects).contains(objects[b]),
{
    lemma_hits_holds(objects, 0, b, objects.len() as int);
    lemma_collisions_hold(objects, 0, objects.len() as int, objects[b]);
}

/// What object `a` runs into is among the collisions of the first `upto`
/// objects, for any `upto` past `a`.
pub proof fn lemma_collisions_hold(objects: Seq<GridObject>, a: int, upto: int, o: GridObject)
    requires
        0 <= a < upto <= objects.len(),
        hits_of(objects, a, objects.len() as int).contains(o),
    ensures
        collisions_upto(objects, upto).contains(o),
    decreases upto,
{
    let prev = collisions_upto(objects, upto - 1);
    let hits = hits_of(objects, upto - 1, objects.len() as int);
    let all = collisions_upto(objects, upto);
    if a < upto - 1 {
        lemma_collisions_hold(objects, a, upto - 1, o);
        let k = choose|k: int| 0 <= k < prev.len() && prev[k] == o;
        assert(all[k] == prev[k]);
    } else {
        let k = choose|k: int| 0 <= k < hits.len() && hits[k] == o;
        assert(all[prev.len() + k] == hits[k]);
    }
}

/// Parts of the snake that stand on different cells never run into one
/// another: no collision is a part of the snake.
pub proof fn law_parts_apart_never_hit(objects: Seq<GridObject>, k: int)
    requires
        forall|a: int, b: int|
            0 <= a < objects.len() && 0 <= b < objects.len() && a != b && (#[trigger] objects[a]).obj_type
                == ObjectType::Snake && (#[trigger] objects[b]).obj_type == ObjectType::Snake ==> !(objects[a].x
                == objects[b].x && objects[a].y == objects[b].y),
        0 <= k < collisions(objects).len(),
    ensures
        collisions(objects)[k].obj_type != ObjectType::Snake,
{
    lemma_collision_members(objects, objects.len() as int);
    assert(comes_from(objects, objects.len() as int, collisions(objects)[k]));
    let (a, b) = choose|a: int, b: int|
        0 <= a < objects.len() && 0 <= b < objects.len() && #[trigger] runs_into(objects, a, b)
            && collisions(objects)[k] == objects[b];
    assert(runs_into(objects, a, b));
}

/// With the head the only part of the snake that can run into things, the
/// snake never runs into itself: no collision is a part of the snake.
pub proof fn law_lone_head_never_hits_snake(objects: Seq<GridObject>, k: int)
    requires
        forall|j: int| 0 < j < objects.len() ==> (#[trigger] objects[j]).obj_type != ObjectType::Snake,
        0 <= k < collisions(objects).len(),
    ensures
        collisions(objects)[k].obj_type != ObjectType::Snake,
{
    lemma_collision_members(objects, objects.len() as int);
    assert(comes_from(objects, objects.len() as int, collisions(objects)[k]));
    let (a, b) = choose|a: int, b: int|
        0 <= a < objects.len() && 0 <= b < objects.len() && #[trigger] runs_into(objects, a, b)
            && collisions(objects)[k] == objects[b];
    if a > 0 {
        assert(objects[a].obj_type != ObjectType::Snake);
    }
}

} // verus!
