//! Talking to characters: a dialogue reveals its text while the player stays near.
use vstd::prelude::*;
use crate::collider::Collider;
use crate::geom::Time;
use crate::placeable::Npc;
use crate::text_scroller::{events_view, pushes_view, ScrollEvent, ScrollerView, TextConfig, TextScroller, TextScrollerView};

verus! {

/// A dialogue in progress: its scroller, the text revealed so far, and the area
/// the player must stay in.
#[derive(Debug)]
pub struct Dialogue {
    pub scroller: TextScroller,
    pub text: String,
    pub collider: Collider,
}

/// The pieces joined in order.
pub open spec fn joined(pieces: Seq<Seq<char>>) -> Seq<char>
    decreases pieces.len(),
{
    if pieces.len() == 0 {
        Seq::empty()
    } else {
        joined(pieces.drop_last()) + pieces.last()
    }
}

impl Dialogue {
    /// A dialogue at the start of `config`, with nothing revealed.
    pub fn new(config: TextConfig, collider: Collider) -> (d: Dialogue)
        ensures
            d.scroller.spec_view() == (TextScrollerView {
                char_delay: config.char_delay as int,
                events: events_view(config.events@),
                state: ScrollerView::Event { next: 0 },
            }),
            d.text@ == Seq::<char>::empty(),
            d.collider == collider,
    {
        Dialogue { scroller: TextScroller::new(config), text: String::new(), collider }
    }

    /// Lets `delta_time` pass and appends what the scroller reveals.
    pub fn update(&mut self, delta_time: Time)
        requires
            old(self).scroller.can_update(delta_time),
        ensures
            ({
                let (v, shown) = old(self).scroller.spec_view().spec_update(delta_time as int);
                &&& final(self).scroller.spec_view() == v
                &&& final(self).text@ == old(self).text@ + joined(shown)
            }),
            final(self).collider == old(self).collider,
    {
        let events = self.scroller.update(delta_time);
        let ghost start = self.text@;
        let ghost sv = self.scroller.spec_view();
        let n = events.len();
        let mut i: usize = 0;
        while i < n
            invariant
                n == events@.len(),
                i <= n,
                self.scroller.spec_view() == sv,
                self.collider == old(self).collider,
                start == old(self).text@,
                sv == old(self).scroller.spec_view().spec_update(delta_time as int).0,
                pushes_view(events@) == old(self).scroller.spec_view().spec_update(delta_time as int).1,
                self.text@ == start + joined(pushes_view(events@).take(i as int)),
            decreases n - i,
        {
            match &events[i] {
                ScrollEvent::Push(s) => {
                    self.text.append(s.as_str());
                },
            }
            proof {
                let p = pushes_view(events@);
                assert(p.take(i as int + 1).drop_last() =~= p.take(i as int));
                assert(p.take(i as int + 1).last() == p[i as int]);
            }
            i += 1;
        }
        assert(pushes_view(events@).take(n as int) =~= pushes_view(events@));
    }
}

/// The first character whose area the player's box overlaps, if any.
pub open spec fn first_npc_near(player: Collider, npcs: Seq<Npc>, n: int) -> Option<int>
    decreases n,
{
    if n <= 0 {
        None
    } else {
        match first_npc_near(player, npcs, n - 1) {
            Some(i) => Some(i),
            None => if player@.spec_intersects(npcs[n - 1].interact_collider@) { Some(n - 1) } else { None },
        }
    }
}

proof fn lemma_first_npc_stays(player: Collider, npcs: Seq<Npc>, m: int, n: int)
    requires
        0 < m <= n,
        first_npc_near(player, npcs, m) is Some,
    ensures
        first_npc_near(player, npcs, n) == first_npc_near(player, npcs, m),
    decreases n - m,
{
    if n > m {
        lemma_first_npc_stays(player, npcs, m, n - 1);
    }
}

/// Starts talking to the first character near the player, if any.
pub fn start_dialogue(player: &Collider, npcs: &Vec<Npc>) -> (d: Option<Dialogue>)
    ensures
        match first_npc_near(*player, npcs@, npcs@.len() as int) {
            None => d is None,
            Some(i) => d matches Some(d) && d.collider == npcs@[i].interact_collider
                && d.text@ == Seq::<char>::empty()
                && d.scroller.spec_view() == (TextScrollerView {
                    char_delay: npcs@[i].text.char_delay as int,
                    events: events_view(npcs@[i].text.events@),
                    state: ScrollerView::Event { next: 0 },
                }),
        },
{
    let n = npcs.len();
    let mut i: usize = 0;
    while i < n
        invariant
            n == npcs@.len(),
            i <= n,
            first_npc_near(*player, npcs@, i as int) is None,
        decreases n - i,
    {
        if player.check(&npcs[i].interact_collider) {
            proof {
                lemma_first_npc_stays(*player, npcs@, i as int + 1, n as int);
            }
            return Some(Dialogue::new(npcs[i].text.clone(), npcs[i].interact_collider));
        }
        i += 1;
    }
    None
}

/// Goes on with a dialogue while the player stays in its area; it ends when the
/// player leaves.
pub fn update_dialogue(player: &Collider, dialogue: Dialogue, delta_time: Time) -> (d: Option<Dialogue>)
    requires
        dialogue.scroller.can_update(delta_time),
    ensures
        !player@.spec_intersects(dialogue.collider@) ==> d is None,
        player@.spec_intersects(dialogue.collider@) ==> (d matches Some(d) && {
            let (v, shown) = dialogue.scroller.spec_view().spec_update(delta_time as int);
            &&& d.scroller.spec_view() == v
            &&& d.text@ == dialogue.text@ + joined(shown)
            &&& d.collider == dialogue.collider
        }),
{
    if !player.check(&dialogue.collider) {
        return None;
    }
    let mut dialogue = dialogue;
    dialogue.update(delta_time);
    Some(dialogue)
}

} // verus!
