use vstd::prelude::*;

use crate::geom::Pt;
use crate::objects::{Entity, ID};

verus! {

/// The first entity at or after position `i` whose hit region contains
/// `pt`, scanning front to back.
pub open spec fn spec_first_hit_from(list: Seq<Entity>, pt: Pt, i: int) -> Option<ID>
    decreases list.len() - i,
{
    if i < 0 || i >= list.len() {
        None
    } else if list[i].hit.spec_contains(pt) {
        Some(list[i].id)
    } else {
        spec_first_hit_from(list, pt, i + 1)
    }
}

pub open spec fn spec_first_hit(list: Seq<Entity>, pt: Pt) -> Option<ID> {
    spec_first_hit_from(list, pt, 0)
}

/// The selection the resolver owes for this cursor point: dynamic
/// entities first in their given order, then static entities in reverse
/// of their draw order, first containment match wins.
pub open spec fn spec_mouseover(statics: Seq<Entity>, dynamics: Seq<Entity>, pt: Pt) -> Option<
    ID,
> {
    match spec_first_hit(dynamics, pt) {
        Some(id) => Some(id),
        None => spec_first_hit(statics.reverse(), pt),
    }
}

/// Hit-tests the cursor point against the frame's entities: dynamic
/// entities front to back, then static entities topmost-drawn first.
pub fn mouseover_something(statics: &Vec<Entity>, dynamics: &Vec<Entity>, pt: Pt) -> (r: Option<
    ID,
>)
    ensures
        r == spec_mouseover(statics@, dynamics@, pt),
{
    let mut i: usize = 0;
    while i < dynamics.len()
        invariant
            0 <= i as int <= dynamics@.len(),
            spec_first_hit(dynamics@, pt) == spec_first_hit_from(dynamics@, pt, i as int),
        decreases dynamics@.len() - i as int,
    {
        if dynamics[i].hit.contains_pt(pt) {
            return Some(dynamics[i].id);
        }
        i = i + 1;
    }
    let ghost rev = statics@.reverse();
    let mut j: usize = statics.len();
    while j > 0
        invariant
            0 <= j as int <= statics@.len(),
            rev == statics@.reverse(),
            spec_first_hit(rev, pt) == spec_first_hit_from(rev, pt, statics@.len() - j as int),
            spec_first_hit(dynamics@, pt) is None,
        decreases j,
    {
        let ghost k = statics@.len() - j as int;
        proof {
            assert(rev[k] == statics@[j as int - 1]);
        }
        if statics[j - 1].hit.contains_pt(pt) {
            return Some(statics[j - 1].id);
        }
        j = j - 1;
    }
    None
}

/// What a first-hit scan promises: a `None` means nothing from `i` on
/// contains the point; a `Some` names the front-most containing entity.
pub proof fn lemma_first_hit_from_props(list: Seq<Entity>, pt: Pt, i: int)
    requires
        0 <= i <= list.len(),
    ensures
        spec_first_hit_from(list, pt, i) is None ==> forall|j: int|
            i <= j < list.len() ==> !list[j].hit.spec_contains(pt),
        spec_first_hit_from(list, pt, i) matches Some(id) ==> exists|j: int|
            i <= j < list.len() && list[j].hit.spec_contains(pt) && id == list[j].id && (forall|
                k: int,
            | i <= k < j ==> !list[k].hit.spec_contains(pt)),
    decreases list.len() - i,
{
    if i < list.len() && !list[i].hit.spec_contains(pt) {
        lemma_first_hit_from_props(list, pt, i + 1);
        if spec_first_hit_from(list, pt, i + 1) is Some {
            let id = spec_first_hit_from(list, pt, i + 1)->Some_0;
            let j = choose|j: int|
                i + 1 <= j < list.len() && list[j].hit.spec_contains(pt) && id == list[j].id && (
                forall|k: int| i + 1 <= k < j ==> !list[k].hit.spec_contains(pt));
            assert(list[j].hit.spec_contains(pt) && spec_first_hit_from(list, pt, i)
                == Some(list[j].id) && (forall|k: int|
                i <= k < j ==> !list[k].hit.spec_contains(pt)));
        }
    }
}

/// A cursor inside both a dynamic and a static entity's region always
/// selects a dynamic one — in fact the front-most dynamic entity that
/// contains the point, whatever the static list holds.
pub proof fn lemma_selection_prefers_dynamic(statics: Seq<Entity>, dynamics: Seq<Entity>, pt: Pt)
    requires
        exists|j: int| 0 <= j < dynamics.len() && dynamics[j].hit.spec_contains(pt),
    ensures
        exists|j: int|
            0 <= j < dynamics.len() && dynamics[j].hit.spec_contains(pt) && spec_mouseover(
                statics,
                dynamics,
                pt,
            ) == Some(dynamics[j].id) && (forall|k: int|
                0 <= k < j ==> !dynamics[k].hit.spec_contains(pt)),
{
    lemma_first_hit_from_props(dynamics, pt, 0);
}

} // verus!
