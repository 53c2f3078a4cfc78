use vstd::prelude::*;

use crate::geom::Pt;
use crate::objects::Label;

verus! {

/// A physical key this core can bind.
#[derive(Clone, Copy, PartialEq, Eq, Structural, Debug)]
pub enum Key {
    F,
    Return,
    Escape,
    Space,
    Other(u8),
}

/// The raw event delivered by the input source for one frame.
#[derive(Clone, Copy, PartialEq, Eq, Structural, Debug)]
pub enum InputEvent {
    NoEvent,
    KeyPress(Key),
    MouseMove(Pt),
    Drag(i64, i64),
    Scroll(i64),
}

/// The frame's consumable input: one raw event, a consumed flag giving
/// single-claim semantics, and the key-binding labels registered so far
/// for the frame's OSD.
pub struct UserInput {
    pub event: InputEvent,
    pub event_consumed: bool,
    pub labels: Vec<Label>,
}

impl UserInput {
    /// Whether a query for `key` would succeed right now: the frame's
    /// event is that key going down and nobody has claimed it yet.
    pub open spec fn spec_would_claim(self, key: Key) -> bool {
        !self.event_consumed && self.event == InputEvent::KeyPress(key)
    }

    /// The mouse-move point this frame, unless the event was consumed.
    pub open spec fn spec_moved_mouse(self) -> Option<Pt> {
        if !self.event_consumed {
            match self.event {
                InputEvent::MouseMove(pt) => Some(pt),
                _ => None,
            }
        } else {
            None
        }
    }

    pub fn new(event: InputEvent) -> (r: UserInput)
        ensures
            r.event == event,
            !r.event_consumed,
            r.labels@ =~= Seq::<Label>::empty(),
    {
        UserInput { event, event_consumed: false, labels: Vec::new() }
    }

    /// Reports the key at most once per physical key-down: true exactly
    /// when this frame's event is that key and it is still unclaimed, and
    /// a true report claims it for the rest of the frame. Registers
    /// `label` for the frame's OSD either way.
    pub fn key_pressed(&mut self, key: Key, label: Label) -> (r: bool)
        ensures
            r == old(self).spec_would_claim(key),
            final(self).event == old(self).event,
            final(self).event_consumed == (old(self).event_consumed || r),
            final(self).labels@ =~= old(self).labels@.push(label),
    {
        self.labels.push(label);
        let hit = match self.event {
            InputEvent::KeyPress(k) => !self.event_consumed && k == key,
            _ => false,
        };
        if hit {
            self.event_consumed = true;
        }
        hit
    }

    /// Like `key_pressed`, but for reserved global bindings that never
    /// appear among the frame's OSD labels.
    pub fn unimportant_key_pressed(&mut self, key: Key) -> (r: bool)
        ensures
            r == old(self).spec_would_claim(key),
            final(self).event == old(self).event,
            final(self).event_consumed == (old(self).event_consumed || r),
            final(self).labels@ =~= old(self).labels@,
    {
        let hit = match self.event {
            InputEvent::KeyPress(k) => !self.event_consumed && k == key,
            _ => false,
        };
        if hit {
            self.event_consumed = true;
        }
        hit
    }

    pub fn get_moved_mouse(&self) -> (r: Option<Pt>)
        ensures
            r == self.spec_moved_mouse(),
    {
        if self.event_consumed {
            return None;
        }
        match self.event {
            InputEvent::MouseMove(pt) => Some(pt),
            _ => None,
        }
    }

    /// Moves every label registered this frame to the end of `osd`,
    /// leaving no label behind.
    pub fn populate_osd(&mut self, osd: &mut Vec<Label>)
        ensures
            final(osd)@ =~= old(osd)@ + old(self).labels@,
            final(self).labels@ =~= Seq::<Label>::empty(),
            final(self).event == old(self).event,
            final(self).event_consumed == old(self).event_consumed,
    {
        let ghost orig: Seq<Label> = self.labels@;
        let ghost dest: Seq<Label> = osd@;
        let mut i: usize = 0;
        while i < self.labels.len()
            invariant
                0 <= i as int <= orig.len(),
                self.labels@ =~= orig,
                self.event == old(self).event,
                self.event_consumed == old(self).event_consumed,
                osd@ =~= dest + orig.take(i as int),
            decreases orig.len() - i as int,
        {
            let l = &self.labels[i];
            osd.push(Label { action: l.action.clone(), subject: l.subject });
            proof {
                assert(orig.take(i as int + 1) =~= orig.take(i as int).push(orig[i as int]));
            }
            i = i + 1;
        }
        proof {
            assert(orig.take(orig.len() as int) =~= orig);
        }
        self.labels = Vec::new();
    }
}

/// The single-claim law: when two consumers query the same key in priority
/// order within one frame — each call leaving the input as `key_pressed`
/// and `unimportant_key_pressed` describe — a key reported to the first is
/// never reported again to the second.
pub proof fn lemma_key_claimed_once(
    i0: UserInput,
    i1: UserInput,
    key: Key,
    r1: bool,
    r2: bool,
)
    requires
        r1 == i0.spec_would_claim(key),
        i1.event == i0.event,
        i1.event_consumed == (i0.event_consumed || r1),
        r2 == i1.spec_would_claim(key),
    ensures
        r1 ==> !r2,
{
}

} // verus!
