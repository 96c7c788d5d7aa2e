//! A text scroller: reveals a dialogue one grapheme at a time, with pauses.
use vstd::prelude::*;
use std::collections::VecDeque;
use unicode_segmentation::UnicodeSegmentation;
use crate::geom::Time;

verus! {

/// One step of a dialogue script.
#[derive(Debug)]
pub enum TextEvent {
    /// Text to reveal, one grapheme per character delay.
    Text(String),
    /// A pause.
    Delay(Time),
}

/// A dialogue script and the pause between revealed graphemes.
#[derive(Debug)]
pub struct TextConfig {
    pub char_delay: Time,
    pub events: VecDeque<TextEvent>,
}

impl Clone for TextEvent {
    fn clone(&self) -> (r: Self)
        ensures
            r == *self,
    {
        match self {
            TextEvent::Text(t) => TextEvent::Text(t.clone()),
            TextEvent::Delay(d) => TextEvent::Delay(*d),
        }
    }
}

impl Clone for TextConfig {
    fn clone(&self) -> (r: Self)
        ensures
            r.char_delay == self.char_delay,
            r.events@ == self.events@,
    {
        let events = self.events.clone();
        proof {
            assert forall|i: int| 0 <= i < events@.len() implies events@[i] == self.events@[i] by {
                assert(cloned::<TextEvent>(self.events@[i], events@[i]));
            }
            assert(events@ =~= self.events@);
        }
        TextConfig { char_delay: self.char_delay, events }
    }
}

/// Where a scroller stands: revealing the graphemes of a text (the next one when
/// its clock `next` runs out), or waiting to take the next step of the script.
#[derive(Clone, Debug)]
pub enum ScrollerState {
    Text { text: VecDeque<String>, next: Time },
    Event { next: Time },
}

/// What the scroller tells its user.
#[derive(Clone, Debug)]
pub enum ScrollEvent {
    /// Append to the end of the text.
    Push(String),
}

/// A scroller working through a dialogue script.
#[derive(Clone, Debug)]
pub struct TextScroller {
    config: TextConfig,
    state: ScrollerState,
}

/// The grapheme clusters of a text, as `unicode_segmentation` splits it.
pub uninterp spec fn grapheme_clusters(text: Seq<char>) -> Seq<Seq<char>>;

/// The pieces of a text, joined in order.
pub open spec fn flat_text(pieces: Seq<Seq<char>>) -> Seq<char>
    decreases pieces.len(),
{
    if pieces.len() == 0 {
        Seq::empty()
    } else {
        pieces[0] + flat_text(pieces.drop_first())
    }
}

/// The extended grapheme clusters of `text`, by
/// `UnicodeSegmentation::graphemes(text, true)`. The contract names the result,
/// since how Unicode segments a text takes more than a few lines to state, and
/// states that the clusters are consecutive pieces of the text: joined, they give
/// it back.
#[verifier::external_body]
fn graphemes(text: &String) -> (r: VecDeque<String>)
    ensures
        strings_view(r@) == grapheme_clusters(text@),
        flat_text(strings_view(r@)) == text@,
{
    UnicodeSegmentation::graphemes(text.as_str(), true).map(|s| s.to_owned()).collect()
}

/// A step of a script, by value.
pub enum TextEventView {
    Text(Seq<char>),
    Delay(int),
}

/// What the scroller is doing: revealing graphemes, or waiting for the next step.
pub enum ScrollerView {
    Text { text: Seq<Seq<char>>, next: int },
    Event { next: int },
}

/// A scroller, by value.
pub struct TextScrollerView {
    pub char_delay: int,
    pub events: Seq<TextEventView>,
    pub state: ScrollerView,
}

pub open spec fn event_view(e: TextEvent) -> TextEventView {
    match e {
        TextEvent::Text(t) => TextEventView::Text(t@),
        TextEvent::Delay(d) => TextEventView::Delay(d as int),
    }
}

/// The largest pause, about twelve days; it keeps the clock arithmetic in range.
pub const MAX_DELAY: Time = 0x100_0000_0000;

/// Reveals graphemes while the clock allows: each costs `delay`; when the text
/// runs out the scroller goes back to the script. Returns what was revealed and
/// the new state.
pub open spec fn drain_text(text: Seq<Seq<char>>, next: int, delay: int) -> (Seq<Seq<char>>, ScrollerView)
    decreases text.len(),
{
    if next > 0 {
        (Seq::empty(), ScrollerView::Text { text, next })
    } else if text.len() == 0 {
        (Seq::empty(), ScrollerView::Event { next: 0 })
    } else {
        let (rest, state) = drain_text(text.drop_first(), next + delay, delay);
        (seq![text[0]] + rest, state)
    }
}

/// Works through the script while the clock allows: a pause adds to the clock,
/// a text starts revealing. Returns the steps left and the new state.
pub open spec fn run_events(events: Seq<TextEventView>, next: int) -> (Seq<TextEventView>, ScrollerView)
    decreases events.len(),
{
    if next > 0 || events.len() == 0 {
        (events, ScrollerView::Event { next })
    } else {
        match events[0] {
            TextEventView::Text(t) => (events.drop_first(), ScrollerView::Text { text: grapheme_clusters(t), next }),
            TextEventView::Delay(d) => run_events(events.drop_first(), next + d),
        }
    }
}

/// The text of a script: its texts, joined in order.
pub open spec fn script_text(events: Seq<TextEventView>) -> Seq<char>
    decreases events.len(),
{
    if events.len() == 0 {
        Seq::empty()
    } else {
        match events[0] {
            TextEventView::Text(t) => t + script_text(events.drop_first()),
            TextEventView::Delay(_) => script_text(events.drop_first()),
        }
    }
}

/// What is left to reveal of the text being revealed.
pub open spec fn state_text(state: ScrollerView) -> Seq<char> {
    match state {
        ScrollerView::Text { text, .. } => flat_text(text),
        ScrollerView::Event { .. } => Seq::empty(),
    }
}

/// Revealing graphemes loses and adds nothing: what is revealed, followed by what
/// is left of the text, is the text.
pub proof fn lemma_drain_keeps(text: Seq<Seq<char>>, next: int, delay: int)
    ensures
        flat_text(drain_text(text, next, delay).0) + state_text(drain_text(text, next, delay).1) == flat_text(text),
    decreases text.len(),
{
    if next > 0 {
        assert(flat_text(Seq::<Seq<char>>::empty()) == Seq::<char>::empty());
        assert(Seq::<char>::empty() + flat_text(text) =~= flat_text(text));
    } else if text.len() == 0 {
        assert(Seq::<char>::empty() + Seq::<char>::empty() =~= Seq::<char>::empty());
    } else {
        lemma_drain_keeps(text.drop_first(), next + delay, delay);
        let (rest, st) = drain_text(text.drop_first(), next + delay, delay);
        let shown = seq![text[0]] + rest;
        assert(shown.drop_first() =~= rest);
        assert(shown[0] == text[0]);
        assert(flat_text(shown) == text[0] + flat_text(rest));
        assert((text[0] + flat_text(rest)) + state_text(st) =~= text[0] + (flat_text(rest) + state_text(st)));
    }
}

impl TextScrollerView {
    /// Everything still to be revealed: the rest of the text being revealed, then
    /// the texts of the script.
    pub open spec fn pending(self) -> Seq<char> {
        state_text(self.state) + script_text(self.events)
    }

    /// The scroller after `delta` more time, and the graphemes it revealed.
    pub open spec fn spec_update(self, delta: int) -> (TextScrollerView, Seq<Seq<char>>) {
        match self.state {
            ScrollerView::Text { text, next } => {
                let (shown, state) = drain_text(text, next - delta, self.char_delay);
                (TextScrollerView { state, ..self }, shown)
            },
            ScrollerView::Event { next } => {
                let (events, state) = run_events(self.events, next - delta);
                (TextScrollerView { events, state, ..self }, Seq::empty())
            },
        }
    }
}

pub open spec fn delays_ok(events: Seq<TextEventView>) -> bool {
    forall|i: int| 0 <= i < events.len() ==> match #[trigger] events[i] {
        TextEventView::Delay(d) => 0 <= d <= MAX_DELAY,
        TextEventView::Text(_) => true,
    }
}

impl TextScroller {
    pub closed spec fn spec_view(&self) -> TextScrollerView {
        TextScrollerView {
            char_delay: self.config.char_delay as int,
            events: events_view(self.config.events@),
            state: match self.state {
                ScrollerState::Text { text, next } => ScrollerView::Text {
                    text: strings_view(text@),
                    next: next as int,
                },
                ScrollerState::Event { next } => ScrollerView::Event { next: next as int },
            },
        }
    }

    /// Whether `update(delta)` keeps its clock arithmetic in range: pauses are
    /// at most `MAX_DELAY`, the step at most `MAX_DELAY` either way, and the clock
    /// within `MAX_DELAY` of the end of its range.
    pub open spec fn can_update(&self, delta: Time) -> bool {
        let v = self.spec_view();
        &&& -MAX_DELAY <= delta <= MAX_DELAY
        &&& 0 <= v.char_delay <= MAX_DELAY
        &&& delays_ok(v.events)
        &&& match v.state {
            ScrollerView::Text { next, .. } => i64::MIN + MAX_DELAY <= next <= MAX_DELAY,
            ScrollerView::Event { next } => i64::MIN + MAX_DELAY <= next <= MAX_DELAY,
        }
    }

    /// A scroller at the start of `text`.
    pub fn new(text: TextConfig) -> (s: TextScroller)
        ensures
            s.spec_view() == (TextScrollerView {
                char_delay: text.char_delay as int,
                events: events_view(text.events@),
                state: ScrollerView::Event { next: 0 },
            }),
    {
        TextScroller { config: text, state: ScrollerState::Event { next: 0 } }
    }

    /// Lets `delta_time` pass and returns the graphemes revealed meanwhile, in order.
    pub fn update(&mut self, delta_time: Time) -> (events: Vec<ScrollEvent>)
        requires
            old(self).can_update(delta_time),
        ensures
            ({
                let (v, shown) = old(self).spec_view().spec_update(delta_time as int);
                &&& final(self).spec_view() == v
                &&& pushes_view(events@) == shown
            }),
            flat_text(pushes_view(events@)) + final(self).spec_view().pending() == old(self).spec_view().pending(),
    {
        let mut state = ScrollerState::Event { next: 0 };
        std::mem::swap(&mut state, &mut self.state);
        match state {
            ScrollerState::Text { text, next } => {
                let (shown, new_state) = drain(text, next - delta_time, self.config.char_delay);
                proof {
                    let tv = strings_view(text@);
                    lemma_drain_keeps(tv, (next - delta_time) as int, self.config.char_delay as int);
                    let script = script_text(events_view(self.config.events@));
                    let d = drain_text(tv, (next - delta_time) as int, self.config.char_delay as int);
                    assert(flat_text(d.0) + (state_text(d.1) + script) =~= (flat_text(d.0) + state_text(d.1)) + script);
                }
                self.state = new_state;
                shown
            },
            ScrollerState::Event { next } => {
                let new_state = self.run(next - delta_time);
                self.state = new_state;
                let r: Vec<ScrollEvent> = Vec::new();
                proof {
                    assert(pushes_view(r@) =~= Seq::<Seq<char>>::empty());
                    assert(flat_text(pushes_view(r@)) == Seq::<char>::empty());
                    assert(Seq::<char>::empty() + self.spec_view().pending() =~= self.spec_view().pending());
                    assert(Seq::<char>::empty() + script_text(events_view(old(self).config.events@))
                        =~= script_text(events_view(old(self).config.events@)));
                }
                r
            },
        }
    }

    /// Works through the script from clock `next`; see `run_events`.
    fn run(&mut self, next0: Time) -> (state: ScrollerState)
        requires
            i64::MIN <= next0 <= 2 * MAX_DELAY,
            delays_ok(events_view(old(self).config.events@)),
        ensures
            final(self).config.char_delay == old(self).config.char_delay,
            ({
                let (events, st) = run_events(events_view(old(self).config.events@), next0 as int);
                &&& events_view(final(self).config.events@) == events
                &&& state_view(state) == st
            }),
            state_text(state_view(state)) + script_text(events_view(final(self).config.events@))
                == script_text(events_view(old(self).config.events@)),
    {
        let ghost target = run_events(events_view(old(self).config.events@), next0 as int);
        let mut next = next0;
        loop
            invariant
                self.config.char_delay == old(self).config.char_delay,
                i64::MIN <= next <= 2 * MAX_DELAY,
                target == run_events(events_view(old(self).config.events@), next0 as int),
                delays_ok(events_view(self.config.events@)),
                run_events(events_view(self.config.events@), next as int) == target,
                script_text(events_view(self.config.events@)) == script_text(events_view(old(self).config.events@)),
            decreases self.config.events@.len(),
        {
            let ghost evs = events_view(self.config.events@);
            if next > 0 {
                proof {
                    assert(Seq::<char>::empty() + script_text(evs) =~= script_text(evs));
                }
                return ScrollerState::Event { next };
            }
            match self.config.events.pop_front() {
                None => {
                    proof {
                        assert(Seq::<char>::empty() + script_text(evs) =~= script_text(evs));
                    }
                    return ScrollerState::Event { next };
                },
                Some(TextEvent::Text(t)) => {
                    proof {
                        assert(events_view(self.config.events@) =~= evs.drop_first());
                        assert(evs[0] == TextEventView::Text(t@));
                    }
                    let text = graphemes(&t);
                    return ScrollerState::Text { text, next };
                },
                Some(TextEvent::Delay(d)) => {
                    proof {
                        assert(events_view(self.config.events@) =~= evs.drop_first());
                        assert(evs[0] == TextEventView::Delay(d as int));
                    }
                    next = next + d;
                },
            }
        }
    }
}

pub open spec fn strings_view(s: Seq<String>) -> Seq<Seq<char>> {
    s.map_values(|x: String| x@)
}

pub open spec fn events_view(s: Seq<TextEvent>) -> Seq<TextEventView> {
    s.map_values(|e: TextEvent| event_view(e))
}

pub open spec fn pushes_view(s: Seq<ScrollEvent>) -> Seq<Seq<char>> {
    s.map_values(|e: ScrollEvent| push_view(e))
}

/// The revealed grapheme of a scroll event.
pub open spec fn push_view(e: ScrollEvent) -> Seq<char> {
    match e {
        ScrollEvent::Push(s) => s@,
    }
}

pub open spec fn state_view(s: ScrollerState) -> ScrollerView {
    match s {
        ScrollerState::Text { text, next } => ScrollerView::Text { text: strings_view(text@), next: next as int },
        ScrollerState::Event { next } => ScrollerView::Event { next: next as int },
    }
}

/// Reveals the graphemes `text0` of a text from clock `next0`, each costing
/// `delay`; see `drain_text`.
pub fn drain(text0: VecDeque<String>, next0: Time, delay: Time) -> (r: (Vec<ScrollEvent>, ScrollerState))
    requires
        i64::MIN <= next0 <= 2 * MAX_DELAY,
        0 <= delay <= MAX_DELAY,
    ensures
        ({
            let (shown, st) = drain_text(strings_view(text0@), next0 as int, delay as int);
            &&& pushes_view(r.0@) == shown
            &&& state_view(r.1) == st
        }),
{
    let ghost target = drain_text(strings_view(text0@), next0 as int, delay as int);
    let mut text = text0;
    let mut next = next0;
    let mut events: Vec<ScrollEvent> = Vec::new();
    loop
        invariant
            0 <= delay <= MAX_DELAY,
            i64::MIN <= next <= 2 * MAX_DELAY,
            target == drain_text(strings_view(text0@), next0 as int, delay as int),
            ({
                let (shown, st) = drain_text(strings_view(text@), next as int, delay as int);
                &&& target.0 == pushes_view(events@) + shown
                &&& target.1 == st
            }),
        decreases text@.len(),
    {
        let ghost tv = strings_view(text@);
        if next > 0 {
            proof {
                assert(target.0 =~= pushes_view(events@));
            }
            let st = ScrollerState::Text { text, next };
            proof {
                assert(state_view(st) == target.1);
            }
            return (events, st);
        }
        let after = next + delay;
        match text.pop_front() {
            None => {
                proof {
                    assert(target.0 =~= pushes_view(events@));
                }
                return (events, ScrollerState::Event { next: 0 });
            },
            Some(g) => {
                let ghost ev_before = pushes_view(events@);
                events.push(ScrollEvent::Push(g));
                proof {
                    assert(strings_view(text@) =~= tv.drop_first());
                    assert(pushes_view(events@) =~= ev_before.push(tv[0]));
                    let (rest, _) = drain_text(tv.drop_first(), after as int, delay as int);
                    assert(ev_before + (seq![tv[0]] + rest) =~= ev_before.push(tv[0]) + rest);
                }
                next = after;
            },
        }
    }
}

/// How many steps a script has left: a pause counts one, a text two plus its
/// graphemes (one to start it, one for each grapheme, one to end it).
pub open spec fn events_items(events: Seq<TextEventView>) -> nat
    decreases events.len(),
{
    if events.len() == 0 {
        0
    } else {
        (match events[0] {
            TextEventView::Text(t) => 2 + grapheme_clusters(t).len(),
            TextEventView::Delay(_) => 1nat,
        }) + events_items(events.drop_first())
    }
}

/// How many steps the state has left: a text being revealed counts its
/// graphemes and one to end it.
pub open spec fn state_items(state: ScrollerView) -> nat {
    match state {
        ScrollerView::Text { text, .. } => 1 + text.len(),
        ScrollerView::Event { .. } => 0,
    }
}

/// The clock of a state.
pub open spec fn state_next(state: ScrollerView) -> int {
    match state {
        ScrollerView::Text { next, .. } => next,
        ScrollerView::Event { next } => next,
    }
}

/// Revealing graphemes from a clock that has run out takes at least one step, and
/// leaves the clock no further ahead than one delay.
pub proof fn lemma_drain_progress(text: Seq<Seq<char>>, next: int, delay: int)
    requires
        next <= 0,
        0 <= delay <= MAX_DELAY,
    ensures
        state_items(drain_text(text, next, delay).1) < 1 + text.len(),
        state_next(drain_text(text, next, delay).1) <= MAX_DELAY,
    decreases text.len(),
{
    if text.len() > 0 {
        let rest = text.drop_first();
        assert(drain_text(text, next, delay).1 == drain_text(rest, next + delay, delay).1);
        if next + delay <= 0 {
            lemma_drain_progress(rest, next + delay, delay);
        } else {
            assert(drain_text(rest, next + delay, delay).1 == (ScrollerView::Text { text: rest, next: next + delay }));
        }
    }
}

/// Working through a script from a clock that has run out takes at least one
/// step, leaves the clock no further ahead than one pause, and leaves a suffix of
/// the script.
pub proof fn lemma_run_progress(events: Seq<TextEventView>, next: int)
    requires
        next <= 0,
        events.len() > 0,
        delays_ok(events),
    ensures
        events_items(run_events(events, next).0) + state_items(run_events(events, next).1) < events_items(events),
        state_next(run_events(events, next).1) <= MAX_DELAY,
        delays_ok(run_events(events, next).0),
    decreases events.len(),
{
    let rest = events.drop_first();
    assert(delays_ok(rest)) by {
        assert forall|i: int| 0 <= i < rest.len() implies match #[trigger] rest[i] {
            TextEventView::Delay(d) => 0 <= d <= MAX_DELAY,
            TextEventView::Text(_) => true,
        } by {
            assert(rest[i] == events[i + 1]);
        }
    }
    assert(match events[0] {
        TextEventView::Delay(d) => 0 <= d <= MAX_DELAY,
        TextEventView::Text(_) => true,
    });
    match events[0] {
        TextEventView::Text(t) => {},
        TextEventView::Delay(d) => {
            if next + d <= 0 && rest.len() > 0 {
                lemma_run_progress(rest, next + d);
            }
        },
    }
}

impl TextScrollerView {
    /// How many steps the scroller has left.
    pub open spec fn items(self) -> nat {
        events_items(self.events) + state_items(self.state)
    }

    /// What the scroller keeps to, as `TextScroller::can_update` asks: delays
    /// and pauses of at most `MAX_DELAY`, and a clock at most that far ahead.
    pub open spec fn steady(self) -> bool {
        &&& 0 <= self.char_delay <= MAX_DELAY
        &&& delays_ok(self.events)
        &&& state_next(self.state) <= MAX_DELAY
    }

    /// A measure that every update by a positive step lowers while steps are left.
    pub open spec fn measure(self) -> nat {
        (self.items() * (MAX_DELAY + 1) + if state_next(self.state) > 0 { state_next(self.state) } else { 0 }) as nat
    }

    /// The scroller after `k` updates by `delta` each.
    pub open spec fn updated(self, delta: int, k: nat) -> TextScrollerView
        decreases k,
    {
        if k == 0 {
            self
        } else {
            self.spec_update(delta).0.updated(delta, (k - 1) as nat)
        }
    }
}

/// An update by a positive step keeps the scroller steady and, while steps are
/// left, lowers its measure.
pub proof fn lemma_update_progress(v: TextScrollerView, delta: int)
    requires
        v.steady(),
        0 < delta,
        v.items() > 0,
    ensures
        v.spec_update(delta).0.steady(),
        v.spec_update(delta).0.measure() < v.measure(),
{
    let m = MAX_DELAY + 1;
    match v.state {
        ScrollerView::Text { text, next } => {
            if next - delta <= 0 {
                lemma_drain_progress(text, next - delta, v.char_delay);
                let st = drain_text(text, next - delta, v.char_delay).1;
                assert(state_items(st) + 1 <= 1 + text.len());
                assert((events_items(v.events) + state_items(st)) * m + m <= v.items() * m) by (nonlinear_arith)
                    requires
                        state_items(st) + 1 <= 1 + text.len(),
                        v.items() == events_items(v.events) + 1 + text.len(),
                        m > 0,
                ;
            }
        },
        ScrollerView::Event { next } => {
            if next - delta > 0 {
            } else {
                assert(v.events.len() > 0);
                lemma_run_progress(v.events, next - delta);
                let (evs, st) = run_events(v.events, next - delta);
                assert((events_items(evs) + state_items(st)) * m + m <= v.items() * m) by (nonlinear_arith)
                    requires
                        events_items(evs) + state_items(st) + 1 <= v.items(),
                        m > 0,
                ;
            }
        },
    }
}

/// A scroller that has no steps left has nothing left to reveal.
pub proof fn lemma_no_items_nothing_pending(v: TextScrollerView)
    requires
        v.items() == 0,
    ensures
        v.pending() == Seq::<char>::empty(),
{
    if v.events.len() > 0 {
        assert(events_items(v.events) > 0);
    }
    assert(v.events.len() == 0);
    assert(script_text(v.events) == Seq::<char>::empty());
    assert(v.state is Event);
}

/// Updated again and again by one positive step, a steady scroller comes to the
/// end of its script: after finitely many updates nothing is left to reveal. As
/// each update reveals exactly what it takes off what is pending (see
/// `TextScroller::update`), what was revealed by then is the whole text of the
/// script; a new scroller is steady when its delay and pauses are at most
/// `MAX_DELAY`.
pub proof fn law_scroll_finishes(v: TextScrollerView, delta: int)
    requires
        v.steady(),
        0 < delta,
    ensures
        exists|k: nat| #[trigger] v.updated(delta, k).pending() == Seq::<char>::empty(),
    decreases v.measure(),
{
    if v.items() == 0 {
        lemma_no_items_nothing_pending(v);
        assert(v.updated(delta, 0) == v);
    } else {
        let w = v.spec_update(delta).0;
        lemma_update_progress(v, delta);
        law_scroll_finishes(w, delta);
        let k = choose|k: nat| #[trigger] w.updated(delta, k).pending() == Seq::<char>::empty();
        assert(v.updated(delta, k + 1) == w.updated(delta, k));
    }
}

} // verus!
