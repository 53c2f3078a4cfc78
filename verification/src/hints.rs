use vstd::prelude::*;

use crate::objects::{Color, EventLoopMode, IntersectionID, Label, ID};

verus! {

pub open spec fn spec_color_lookup(s: Seq<(ID, Color)>, id: ID, i: int) -> Option<Color>
    decreases s.len() - i,
{
    if i < 0 || i >= s.len() {
        None
    } else if s[i].0 == id {
        Some(s[i].1)
    } else {
        spec_color_lookup(s, id, i + 1)
    }
}

pub open spec fn spec_id_present(s: Seq<ID>, id: ID, i: int) -> bool
    decreases s.len() - i,
{
    if i < 0 || i >= s.len() {
        false
    } else if s[i] == id {
        true
    } else {
        spec_id_present(s, id, i + 1)
    }
}

/// The frame's write-only rendering output: created empty at frame
/// start, mutated during the event phase, consumed once by the renderer,
/// then discarded; never persisted.
pub struct RenderingHints {
    pub mode: EventLoopMode,
    pub osd: Vec<Label>,
    pub suppress_intersection_icon: Option<IntersectionID>,
    pub color_overrides: Vec<(ID, Color)>,
    pub hidden: Vec<ID>,
}

impl RenderingHints {
    /// The color override registered for an entity, first registration
    /// winning.
    pub open spec fn spec_color_of(self, id: ID) -> Option<Color> {
        spec_color_lookup(self.color_overrides@, id, 0)
    }

    pub open spec fn spec_is_hidden(self, id: ID) -> bool {
        spec_id_present(self.hidden@, id, 0)
    }

    pub fn new() -> (r: RenderingHints)
        ensures
            r.mode == EventLoopMode::InputOnly,
            r.osd@ =~= Seq::<Label>::empty(),
            r.suppress_intersection_icon is None,
            r.color_overrides@ =~= Seq::<(ID, Color)>::empty(),
            r.hidden@ =~= Seq::<ID>::empty(),
    {
        RenderingHints {
            mode: EventLoopMode::InputOnly,
            osd: Vec::new(),
            suppress_intersection_icon: None,
            color_overrides: Vec::new(),
            hidden: Vec::new(),
        }
    }

    /// The color override registered for one entity, if any.
    pub fn get_color_override(&self, id: ID) -> (r: Option<Color>)
        ensures
            r == self.spec_color_of(id),
    {
        let mut i: usize = 0;
        while i < self.color_overrides.len()
            invariant
                0 <= i as int <= self.color_overrides@.len(),
                spec_color_lookup(self.color_overrides@, id, 0) == spec_color_lookup(
                    self.color_overrides@,
                    id,
                    i as int,
                ),
            decreases self.color_overrides@.len() - i as int,
        {
            if self.color_overrides[i].0 == id {
                return Some(self.color_overrides[i].1);
            }
            i = i + 1;
        }
        None
    }

    /// Registers a color override for one entity; an entity that already
    /// has one keeps it.
    pub fn set_color_override(&mut self, id: ID, c: Color)
        ensures
            final(self).spec_color_of(id) == Some(
                if old(self).spec_color_of(id) is Some {
                    old(self).spec_color_of(id)->Some_0
                } else {
                    c
                },
            ),
            forall|k: ID| k != id ==> final(self).spec_color_of(k) == old(self).spec_color_of(k),
            final(self).mode == old(self).mode,
            final(self).osd@ =~= old(self).osd@,
            final(self).suppress_intersection_icon == old(self).suppress_intersection_icon,
            final(self).hidden@ =~= old(self).hidden@,
    {
        let ghost orig = self.color_overrides@;
        let mut i: usize = 0;
        while i < self.color_overrides.len()
            invariant
                0 <= i as int <= orig.len(),
                self.color_overrides@ =~= orig,
                forall|j: int| 0 <= j < i as int ==> orig[j].0 != id,
                self.mode == old(self).mode,
                self.osd@ =~= old(self).osd@,
                self.suppress_intersection_icon == old(self).suppress_intersection_icon,
                self.hidden@ =~= old(self).hidden@,
            decreases orig.len() - i as int,
        {
            if self.color_overrides[i].0 == id {
                proof {
                    lemma_color_lookup_found(orig, id, 0, i as int);
                }
                return;
            }
            i = i + 1;
        }
        self.color_overrides.push((id, c));
        proof {
            lemma_color_lookup_push_all(orig, id, c);
            lemma_color_lookup_none(orig, id, 0);
        }
    }

    /// Marks one element as hidden this frame; hiding twice changes
    /// nothing.
    pub fn hide_element(&mut self, id: ID)
        ensures
            final(self).spec_is_hidden(id),
            forall|k: ID| k != id ==> final(self).spec_is_hidden(k) == old(self).spec_is_hidden(k),
            final(self).mode == old(self).mode,
            final(self).osd@ =~= old(self).osd@,
            final(self).suppress_intersection_icon == old(self).suppress_intersection_icon,
            final(self).color_overrides@ =~= old(self).color_overrides@,
    {
        let ghost orig = self.hidden@;
        let mut i: usize = 0;
        while i < self.hidden.len()
            invariant
                0 <= i as int <= orig.len(),
                self.hidden@ =~= orig,
                forall|j: int| 0 <= j < i as int ==> orig[j] != id,
                self.mode == old(self).mode,
                self.osd@ =~= old(self).osd@,
                self.suppress_intersection_icon == old(self).suppress_intersection_icon,
                self.color_overrides@ =~= old(self).color_overrides@,
            decreases orig.len() - i as int,
        {
            if self.hidden[i] == id {
                proof {
                    lemma_id_present_found(orig, id, 0, i as int);
                }
                return;
            }
            i = i + 1;
        }
        self.hidden.push(id);
        proof {
            lemma_id_present_push_all(orig, id);
        }
    }
}

proof fn lemma_color_lookup_found(s: Seq<(ID, Color)>, id: ID, i: int, j: int)
    requires
        0 <= i <= j < s.len(),
        s[j].0 == id,
    ensures
        spec_color_lookup(s, id, i) is Some,
    decreases j - i,
{
    if i < j && s[i].0 != id {
        lemma_color_lookup_found(s, id, i + 1, j);
    }
}

proof fn lemma_color_lookup_none(s: Seq<(ID, Color)>, id: ID, i: int)
    requires
        0 <= i,
        forall|j: int| i <= j < s.len() ==> s[j].0 != id,
    ensures
        spec_color_lookup(s, id, i) is None,
    decreases s.len() - i,
{
    if i < s.len() {
        lemma_color_lookup_none(s, id, i + 1);
    }
}

/// Appending an entry leaves every earlier lookup result alone and only
/// fills in the appended key where it was absent.
proof fn lemma_color_lookup_push(s: Seq<(ID, Color)>, id: ID, c: Color, k: ID, i: int)
    requires
        0 <= i <= s.len(),
    ensures
        spec_color_lookup(s.push((id, c)), k, i) == if spec_color_lookup(s, k, i) is Some {
            spec_color_lookup(s, k, i)
        } else if k == id {
            Some(c)
        } else {
            None::<Color>
        },
    decreases s.len() - i,
{
    let s2 = s.push((id, c));
    if i < s.len() {
        assert(s2[i] == s[i]);
        lemma_color_lookup_push(s, id, c, k, i + 1);
    } else {
        assert(s2[i] == (id, c));
        assert(spec_color_lookup(s2, k, i + 1) is None);
    }
}

proof fn lemma_color_lookup_push_all(s: Seq<(ID, Color)>, id: ID, c: Color)
    ensures
        forall|k: ID|
            #[trigger] spec_color_lookup(s.push((id, c)), k, 0) == if spec_color_lookup(s, k, 0)
                is Some {
                spec_color_lookup(s, k, 0)
            } else if k == id {
                Some(c)
            } else {
                None::<Color>
            },
{
    assert forall|k: ID|
        #[trigger] spec_color_lookup(s.push((id, c)), k, 0) == if spec_color_lookup(s, k, 0)
            is Some {
            spec_color_lookup(s, k, 0)
        } else if k == id {
            Some(c)
        } else {
            None::<Color>
        } by {
        lemma_color_lookup_push(s, id, c, k, 0);
    }
}

proof fn lemma_id_present_found(s: Seq<ID>, id: ID, i: int, j: int)
    requires
        0 <= i <= j < s.len(),
        s[j] == id,
    ensures
        spec_id_present(s, id, i),
    decreases j - i,
{
    if i < j && s[i] != id {
        lemma_id_present_found(s, id, i + 1, j);
    }
}

proof fn lemma_id_present_push(s: Seq<ID>, id: ID, k: ID, i: int)
    requires
        0 <= i <= s.len(),
    ensures
        spec_id_present(s.push(id), k, i) == (spec_id_present(s, k, i) || k == id),
    decreases s.len() - i,
{
    let s2 = s.push(id);
    if i < s.len() {
        assert(s2[i] == s[i]);
        lemma_id_present_push(s, id, k, i + 1);
    } else {
        assert(s2[i] == id);
        assert(!spec_id_present(s2, k, i + 1));
    }
}

proof fn lemma_id_present_push_all(s: Seq<ID>, id: ID)
    ensures
        forall|k: ID|
            #[trigger] spec_id_present(s.push(id), k, 0) == (spec_id_present(s, k, 0) || k == id),
{
    assert forall|k: ID|
        #[trigger] spec_id_present(s.push(id), k, 0) == (spec_id_present(s, k, 0) || k == id) by {
        lemma_id_present_push(s, id, k, 0);
    }
}

} // verus!
