use vstd::prelude::*;
use crate::allocator::PanelId;
use crate::text::push_text;

verus! {

/// What a panel is to the contracts: its id, its name and its text.
pub type PanelModel = (PanelId, Seq<char>, Seq<char>);

/// A script-created display panel.
pub struct Panel {
    pub id: PanelId,
    pub name: String,
    pub text: String,
}

impl View for Panel {
    type V = PanelModel;

    open spec fn view(&self) -> PanelModel {
        (self.id, self.name@, self.text@)
    }
}

/// A message from a script to the presentation loop.
pub enum PanelEvent {
    Create(PanelId, String),
    Append(PanelId, String),
    Close(PanelId),
}

/// What an event is to the contracts.
pub enum EventModel {
    Create(PanelId, Seq<char>),
    Append(PanelId, Seq<char>),
    Close(PanelId),
}

impl View for PanelEvent {
    type V = EventModel;

    open spec fn view(&self) -> EventModel {
        match self {
            PanelEvent::Create(id, name) => EventModel::Create(*id, name@),
            PanelEvent::Append(id, text) => EventModel::Append(*id, text@),
            PanelEvent::Close(id) => EventModel::Close(*id),
        }
    }
}

/// `i` is the position of the first panel of `s` whose id is `id`.
pub open spec fn is_first_with_id(s: Seq<PanelModel>, id: PanelId, i: int) -> bool {
    &&& 0 <= i < s.len()
    &&& s[i].0 == id
    &&& forall|j: int| 0 <= j < i ==> s[j].0 != id
}

/// Some panel of `s` has the id `id`.
pub open spec fn has_id(s: Seq<PanelModel>, id: PanelId) -> bool {
    exists|i: int| 0 <= i < s.len() && s[i].0 == id
}

/// The position of the first panel of `s` whose id is `id`, where there is one.
pub open spec fn first_with_id(s: Seq<PanelModel>, id: PanelId) -> int {
    choose|i: int| is_first_with_id(s, id, i)
}

/// The panels after one event: a creation adds a panel with empty text at the
/// end; an append adds the text at the end of the first panel with that id; a
/// close removes that panel where closing is enabled. An event whose id names
/// no panel changes nothing.
pub open spec fn apply_event(s: Seq<PanelModel>, close_enabled: bool, e: EventModel) -> Seq<PanelModel> {
    match e {
        EventModel::Create(id, name) => s.push((id, name, Seq::<char>::empty())),
        EventModel::Append(id, text) => if has_id(s, id) {
            let i = first_with_id(s, id);
            s.update(i, (s[i].0, s[i].1, s[i].2 + text))
        } else {
            s
        },
        EventModel::Close(id) => if close_enabled && has_id(s, id) {
            s.remove(first_with_id(s, id))
        } else {
            s
        },
    }
}

/// The panels after a sequence of events, applied in order.
pub open spec fn apply_events(s: Seq<PanelModel>, close_enabled: bool, es: Seq<EventModel>) -> Seq<PanelModel>
    decreases es.len(),
{
    if es.len() == 0 {
        s
    } else {
        apply_event(apply_events(s, close_enabled, es.drop_last()), close_enabled, es.last())
    }
}

/// The first position with a given id is unique, and exists wherever the id does.
pub proof fn lemma_first_with_id(s: Seq<PanelModel>, id: PanelId)
    ensures
        has_id(s, id) ==> is_first_with_id(s, id, first_with_id(s, id)),
        forall|i: int| #[trigger] is_first_with_id(s, id, i) ==> i == first_with_id(s, id),
{
    if has_id(s, id) {
        let k = choose|k: int| 0 <= k < s.len() && s[k].0 == id;
        lemma_first_exists(s, id, k);
        let f = first_with_id(s, id);
        assert forall|i: int| #[trigger] is_first_with_id(s, id, i) implies i == f by {
            if i < f {
                assert(s[i].0 != id);
            } else if f < i {
                assert(s[f].0 != id);
            }
        }
    }
}

proof fn lemma_first_exists(s: Seq<PanelModel>, id: PanelId, k: int)
    requires
        0 <= k < s.len(),
        s[k].0 == id,
    ensures
        exists|i: int| is_first_with_id(s, id, i),
    decreases k,
{
    if forall|j: int| 0 <= j < k ==> s[j].0 != id {
        assert(is_first_with_id(s, id, k));
    } else {
        let j = choose|j: int| 0 <= j < k && s[j].0 == id;
        lemma_first_exists(s, id, j);
    }
}

/// All the texts of `ts`, concatenated in order.
pub open spec fn concat_texts(ts: Seq<Seq<char>>) -> Seq<char>
    decreases ts.len(),
{
    if ts.len() == 0 {
        Seq::<char>::empty()
    } else {
        concat_texts(ts.drop_last()) + ts.last()
    }
}

/// One append event to `id` for each text of `ts`, in order.
pub open spec fn appends_to(id: PanelId, ts: Seq<Seq<char>>) -> Seq<EventModel> {
    ts.map_values(|t: Seq<char>| EventModel::Append(id, t))
}

/// Applying a batch of events in one go or split in two batches gives the
/// same panels: how many events the presentation loop drains per tick makes
/// no difference to the outcome.
pub proof fn lemma_drain_granularity(s: Seq<PanelModel>, close_enabled: bool, a: Seq<EventModel>, b: Seq<EventModel>)
    ensures
        apply_events(s, close_enabled, a + b) == apply_events(apply_events(s, close_enabled, a), close_enabled, b),
    decreases b.len(),
{
    if b.len() == 0 {
        assert(a + b =~= a);
    } else {
        lemma_drain_granularity(s, close_enabled, a, b.drop_last());
        assert((a + b).drop_last() =~= a + b.drop_last());
        assert((a + b).last() == b.last());
    }
}

/// An append event whose id names no panel leaves the panels unchanged.
pub proof fn lemma_append_unknown_id(s: Seq<PanelModel>, close_enabled: bool, id: PanelId, t: Seq<char>)
    requires
        !has_id(s, id),
    ensures
        apply_event(s, close_enabled, EventModel::Append(id, t)) == s,
{
}

/// After a run of append events to a panel that exists, its text is its
/// former text followed by all the appended texts in order, and no other
/// panel has changed.
pub proof fn lemma_appends_concatenate(s: Seq<PanelModel>, close_enabled: bool, id: PanelId, ts: Seq<Seq<char>>)
    requires
        has_id(s, id),
    ensures
        ({
            let i = first_with_id(s, id);
            apply_events(s, close_enabled, appends_to(id, ts)) == s.update(i, (s[i].0, s[i].1, s[i].2 + concat_texts(ts)))
        }),
    decreases ts.len(),
{
    lemma_first_with_id(s, id);
    let i = first_with_id(s, id);
    if ts.len() == 0 {
        assert(s[i].2 + concat_texts(ts) =~= s[i].2);
        assert(s.update(i, (s[i].0, s[i].1, s[i].2 + concat_texts(ts))) =~= s);
    } else {
        let prev = ts.drop_last();
        lemma_appends_concatenate(s, close_enabled, id, prev);
        assert(appends_to(id, ts).drop_last() =~= appends_to(id, prev));
        let r = s.update(i, (s[i].0, s[i].1, s[i].2 + concat_texts(prev)));
        assert(is_first_with_id(r, id, i));
        lemma_first_with_id(r, id);
        assert(s[i].2 + concat_texts(ts) =~= s[i].2 + concat_texts(prev) + ts.last());
        assert(apply_event(r, close_enabled, EventModel::Append(id, ts.last())) =~= s.update(
            i,
            (s[i].0, s[i].1, s[i].2 + concat_texts(ts)),
        ));
    }
}

/// Two creation events with the same name and distinct ids, the first of
/// them new, add two panels of that name with empty texts; an append to the
/// first then leaves the second as it was.
pub proof fn lemma_create_twice(s: Seq<PanelModel>, close_enabled: bool, a: PanelId, b: PanelId, name: Seq<char>, t: Seq<char>)
    requires
        a != b,
        !has_id(s, a),
    ensures
        apply_events(s, close_enabled, seq![EventModel::Create(a, name), EventModel::Create(b, name)])
            == s.push((a, name, Seq::<char>::empty())).push((b, name, Seq::<char>::empty())),
        apply_events(
            s,
            close_enabled,
            seq![EventModel::Create(a, name), EventModel::Create(b, name), EventModel::Append(a, t)],
        ) == s.push((a, name, t)).push((b, name, Seq::<char>::empty())),
{
    let e1 = EventModel::Create(a, name);
    let e2 = EventModel::Create(b, name);
    let e3 = EventModel::Append(a, t);
    assert(seq![e1].drop_last() =~= Seq::<EventModel>::empty());
    assert(seq![e1, e2].drop_last() =~= seq![e1]);
    assert(seq![e1, e2, e3].drop_last() =~= seq![e1, e2]);
    let r = s.push((a, name, Seq::<char>::empty())).push((b, name, Seq::<char>::empty()));
    assert(apply_events(s, close_enabled, Seq::<EventModel>::empty()) == s);
    assert(apply_events(s, close_enabled, seq![e1]) == s.push((a, name, Seq::<char>::empty())));
    assert(apply_events(s, close_enabled, seq![e1, e2]) == r);
    assert(is_first_with_id(r, a, s.len() as int));
    lemma_first_with_id(r, a);
    assert(Seq::<char>::empty() + t =~= t);
    assert(r.update(s.len() as int, (a, name, Seq::<char>::empty() + t)) =~= s.push((a, name, t)).push(
        (b, name, Seq::<char>::empty()),
    ));
}

/// The panels that the presentation loop shows, in order of creation.
pub struct PanelRegistry {
    panels: Vec<Panel>,
    close_enabled: bool,
}

impl PanelRegistry {
    /// The panels, in order.
    pub closed spec fn spec_panels(&self) -> Seq<PanelModel> {
        self.panels@.map_values(|p: Panel| p@)
    }

    /// Whether a close event removes its panel (otherwise it is ignored).
    pub closed spec fn spec_close_enabled(&self) -> bool {
        self.close_enabled
    }

    /// An empty registry. With `close_enabled` false, close events are
    /// ignored and panels stay for the whole session.
    pub fn new(close_enabled: bool) -> (r: Self)
        ensures
            r.spec_panels() == Seq::<PanelModel>::empty(),
            r.spec_close_enabled() == close_enabled,
    {
        PanelRegistry { panels: Vec::new(), close_enabled }
    }

    pub fn close_enabled(&self) -> (r: bool)
        ensures
            r == self.spec_close_enabled(),
    {
        self.close_enabled
    }

    /// The number of panels.
    pub fn len(&self) -> (r: usize)
        ensures
            r == self.spec_panels().len(),
    {
        self.panels.len()
    }

    /// The panel at position `i`.
    pub fn get(&self, i: usize) -> (r: &Panel)
        requires
            i < self.spec_panels().len(),
        ensures
            r@ == self.spec_panels()[i as int],
    {
        &self.panels[i]
    }

    /// The position of the first panel with id `id`, if there is one.
    pub fn position(&self, id: PanelId) -> (r: Option<usize>)
        ensures
            r.is_none() == !has_id(self.spec_panels(), id),
            r.is_some() ==> r.unwrap() as int == first_with_id(self.spec_panels(), id),
    {
        proof {
            lemma_first_with_id(self.spec_panels(), id);
        }
        let mut i: usize = 0;
        while i < self.panels.len()
            invariant
                i <= self.panels@.len(),
                forall|j: int| 0 <= j < i ==> self.spec_panels()[j].0 != id,
            decreases self.panels@.len() - i,
        {
            if self.panels[i].id == id {
                assert(is_first_with_id(self.spec_panels(), id, i as int));
                return Some(i);
            }
            i = i + 1;
        }
        proof {
            if has_id(self.spec_panels(), id) {
                let k = choose|k: int| 0 <= k < self.spec_panels().len() && self.spec_panels()[k].0 == id;
                assert(self.spec_panels()[k].0 != id);
            }
        }
        None
    }

    /// Applies one event: see `apply_event`.
    pub fn apply(&mut self, e: PanelEvent)
        ensures
            final(self).spec_close_enabled() == old(self).spec_close_enabled(),
            final(self).spec_panels() == apply_event(old(self).spec_panels(), old(self).spec_close_enabled(), e@),
    {
        match e {
            PanelEvent::Create(id, name) => {
                let p = Panel { id, name, text: String::new() };
                self.panels.push(p);
                assert(self.spec_panels() =~= apply_event(old(self).spec_panels(), self.close_enabled, e@));
            },
            PanelEvent::Append(id, text) => {
                match self.position(id) {
                    Some(i) => {
                        proof {
                            lemma_first_with_id(self.spec_panels(), id);
                        }
                        let mut t = self.panels[i].text.clone();
                        push_text(&mut t, text.as_str());
                        let p = Panel { id: self.panels[i].id, name: self.panels[i].name.clone(), text: t };
                        self.panels.set(i, p);
                        assert(self.spec_panels() =~= apply_event(old(self).spec_panels(), self.close_enabled, e@));
                    },
                    None => {},
                }
            },
            PanelEvent::Close(id) => {
                if self.close_enabled {
                    match self.position(id) {
                        Some(i) => {
                            proof {
                                lemma_first_with_id(self.spec_panels(), id);
                            }
                            self.panels.remove(i);
                            assert(self.spec_panels() =~= apply_event(old(self).spec_panels(), self.close_enabled, e@));
                        },
                        None => {},
                    }
                }
            },
        }
    }

    /// Applies a batch of events, in order.
    pub fn apply_all(&mut self, es: Vec<PanelEvent>)
        ensures
            final(self).spec_close_enabled() == old(self).spec_close_enabled(),
            final(self).spec_panels() == apply_events(
                old(self).spec_panels(),
                old(self).spec_close_enabled(),
                es@.map_values(|e: PanelEvent| e@),
            ),
    {
        let ghost models = es@.map_values(|e: PanelEvent| e@);
        let mut es = es;
        let ghost start = old(self).spec_panels();
        let ghost done: Seq<EventModel> = Seq::empty();
        while es.len() > 0
            invariant
                self.close_enabled == old(self).spec_close_enabled(),
                done.len() + es@.len() == models.len(),
                done =~= models.subrange(0, done.len() as int),
                forall|k: int| 0 <= k < es@.len() ==> #[trigger] es@[k]@ == models[done.len() + k],
                self.spec_panels() == apply_events(start, self.close_enabled, done),
            decreases es@.len(),
        {
            let ghost before = es@;
            let e = es.remove(0);
            proof {
                let d2 = done.push(e@);
                assert(d2.drop_last() =~= done);
                done = d2;
                assert forall|k: int| 0 <= k < es@.len() implies #[trigger] es@[k]@ == models[done.len() + k] by {
                    assert(es@[k] == before[k + 1]);
                }
            }
            self.apply(e);
        }
        assert(done =~= models);
    }
}

} // verus!
