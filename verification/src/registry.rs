//! The loaded plugins by id, and the subscribers of the actor bus by topic.
use vstd::prelude::*;

use crate::text::str_eq;

verus! {

/// The position of the first entry with this id.
pub open spec fn id_index<P>(es: Seq<(Seq<char>, P)>, id: Seq<char>) -> Option<int>
    decreases es.len(),
{
    if es.len() == 0 {
        None
    } else {
        match id_index(es.drop_last(), id) {
            Some(i) => Some(i),
            None => if es.last().0 == id {
                Some(es.len() - 1)
            } else {
                None
            },
        }
    }
}

/// The entries after loading plugins in order onto `kept`: a plugin whose id is already
/// loaded is skipped.
pub open spec fn load_into<P>(kept: Seq<(Seq<char>, P)>, ps: Seq<(Seq<char>, P)>) -> Seq<(Seq<char>, P)>
    decreases ps.len(),
{
    if ps.len() == 0 {
        kept
    } else {
        let before = load_into(kept, ps.drop_last());
        if id_index(before, ps.last().0) is Some {
            before
        } else {
            before.push(ps.last())
        }
    }
}

/// The entries kept when loading plugins in order into an empty manager: the first plugin of
/// each id.
pub open spec fn first_of_each<P>(ps: Seq<(Seq<char>, P)>) -> Seq<(Seq<char>, P)> {
    load_into(Seq::empty(), ps)
}

/// The entries after storing `p` under `id`: in place of the entry with that id, else appended.
pub open spec fn put_id<P>(es: Seq<(Seq<char>, P)>, id: Seq<char>, p: P) -> Seq<(Seq<char>, P)> {
    match id_index(es, id) {
        Some(i) => es.update(i, (id, p)),
        None => es.push((id, p)),
    }
}

pub open spec fn ids_unique<P>(es: Seq<(Seq<char>, P)>) -> bool {
    forall|i: int, j: int| 0 <= i < j < es.len() ==> (#[trigger] es[i]).0 != (#[trigger] es[j]).0
}

proof fn lemma_id_index<P>(es: Seq<(Seq<char>, P)>, id: Seq<char>)
    ensures
        id_index(es, id) is None <==> forall|j: int| 0 <= j < es.len() ==> (#[trigger] es[j]).0 != id,
        id_index(es, id) matches Some(i) ==> 0 <= i < es.len() && es[i].0 == id,
    decreases es.len(),
{
    if es.len() > 0 {
        lemma_id_index(es.drop_last(), id);
        assert forall|j: int| 0 <= j < es.len() - 1 implies es.drop_last()[j] == es[j] by {}
    }
}

/// Loading keeps one plugin per id: loading plugins onto a manager in which no id occurs
/// twice leaves none occurring twice, and adds at most one entry per plugin.
pub proof fn lemma_load_keeps_ids_unique<P>(kept: Seq<(Seq<char>, P)>, ps: Seq<(Seq<char>, P)>)
    requires
        ids_unique(kept),
    ensures
        ids_unique(load_into(kept, ps)),
        load_into(kept, ps).len() <= kept.len() + ps.len(),
    decreases ps.len(),
{
    if ps.len() > 0 {
        lemma_load_keeps_ids_unique(kept, ps.drop_last());
        let before = load_into(kept, ps.drop_last());
        lemma_id_index(before, ps.last().0);
        if id_index(before, ps.last().0) is None {
            let k2 = before.push(ps.last());
            assert forall|i: int, j: int| 0 <= i < j < k2.len() implies (#[trigger] k2[i]).0 != (#[trigger] k2[j]).0 by {
                assert(k2[i] == before[i]);
                if j < k2.len() - 1 {
                    assert(k2[j] == before[j]);
                }
            }
        }
    }
}

/// Storing under an id keeps the ids unique, and the stored plugin is the one found under it.
pub proof fn lemma_put_id<P>(es: Seq<(Seq<char>, P)>, id: Seq<char>, p: P)
    requires
        ids_unique(es),
    ensures
        ids_unique(put_id(es, id, p)),
        id_index(put_id(es, id, p), id) matches Some(i) && put_id(es, id, p)[i].1 == p,
{
    lemma_id_index(es, id);
    let r = put_id(es, id, p);
    match id_index(es, id) {
        Some(k) => {
            assert forall|i: int, j: int| 0 <= i < j < r.len() implies (#[trigger] r[i]).0 != (#[trigger] r[j]).0 by {
                assert(r[i].0 == es[i].0);
                assert(r[j].0 == es[j].0);
            }
            assert forall|j: int| 0 <= j < k implies (#[trigger] r[j]).0 != id by {
                assert(r[j].0 == es[j].0);
            }
            lemma_first_index(r, id, k);
        },
        None => {
            assert forall|i: int, j: int| 0 <= i < j < r.len() implies (#[trigger] r[i]).0 != (#[trigger] r[j]).0 by {
                assert(r[i] == es[i]);
                if j < r.len() - 1 {
                    assert(r[j] == es[j]);
                }
            }
            assert forall|j: int| 0 <= j < r.len() - 1 implies (#[trigger] r[j]).0 != id by {
                assert(r[j] == es[j]);
            }
            lemma_first_index(r, id, r.len() - 1);
        },
    }
}

/// Loading plugins in order keeps exactly one plugin per id that occurs among them, the first
/// one given with that id, and nothing else; no id is stored twice.
pub proof fn lemma_first_of_each<P>(ps: Seq<(Seq<char>, P)>)
    ensures
        ids_unique(first_of_each(ps)),
        forall|id: Seq<char>|
            match #[trigger] id_index(ps, id) {
                Some(i) => id_index(first_of_each(ps), id) matches Some(k) && first_of_each(ps)[k] == ps[i],
                None => id_index(first_of_each(ps), id) is None,
            },
    decreases ps.len(),
{
    lemma_load_keeps_ids_unique(Seq::<(Seq<char>, P)>::empty(), ps);
    if ps.len() > 0 {
        let init = ps.drop_last();
        let last = ps.last();
        let before = first_of_each(init);
        let r = first_of_each(ps);
        lemma_first_of_each(init);
        assert(r == load_into(Seq::<(Seq<char>, P)>::empty(), ps));
        assert(before == load_into(Seq::<(Seq<char>, P)>::empty(), init));
        assert forall|id: Seq<char>|
            match #[trigger] id_index(ps, id) {
                Some(i) => id_index(r, id) matches Some(k) && r[k] == ps[i],
                None => id_index(r, id) is None,
            } by {
            let _ = id_index(init, id);
            lemma_id_index(before, id);
            lemma_id_index(init, id);
            if id_index(before, last.0) is None {
                let r2 = before.push(last);
                assert(r == r2);
                assert(r2.drop_last() =~= before);
                if let Some(k) = id_index(before, id) {
                    assert(r2[k] == before[k]);
                }
            }
            if let Some(i) = id_index(init, id) {
                assert(init[i] == ps[i]);
            }
        }
    }
}

/// The loaded plugins, each under its id, in loading order.
pub struct PluginManager<P> {
    plugins: Vec<(String, P)>,
}

pub open spec fn ids_view<P>(v: Seq<(String, P)>) -> Seq<(Seq<char>, P)> {
    v.map_values(|e: (String, P)| (e.0@, e.1))
}

impl<P> View for PluginManager<P> {
    type V = Seq<(Seq<char>, P)>;

    closed spec fn view(&self) -> Seq<(Seq<char>, P)> {
        ids_view(self.plugins@)
    }
}

impl<P> PluginManager<P> {
    pub fn new() -> (r: PluginManager<P>)
        ensures
            r@ == Seq::<(Seq<char>, P)>::empty(),
    {
        let r = PluginManager { plugins: Vec::new() };
        assert(r@ =~= Seq::<(Seq<char>, P)>::empty());
        r
    }

    /// Whether a plugin is loaded under this id.
    pub fn contains_key(&self, id: &str) -> (r: bool)
        ensures
            r == (id_index(self@, id@) is Some),
    {
        proof {
            lemma_id_index(self@, id@);
        }
        let mut i: usize = 0;
        while i < self.plugins.len()
            invariant
                i <= self.plugins.len(),
                self@.len() == self.plugins@.len(),
                forall|j: int| 0 <= j < i ==> (#[trigger] self@[j]).0 != id@,
                id_index(self@, id@) is None <==> forall|j: int| 0 <= j < self@.len() ==> (#[trigger] self@[j]).0 != id@,
            decreases self.plugins.len() - i,
        {
            assert(self@[i as int] == (self.plugins@[i as int].0@, self.plugins@[i as int].1));
            if str_eq(self.plugins[i].0.as_str(), id) {
                return true;
            }
            i += 1;
        }
        false
    }

    /// Loads the plugins in order onto those loaded, each under its id; a plugin whose id is
    /// already loaded is skipped.
    pub fn load_all_plugins(&mut self, plugins: Vec<(String, P)>)
        ensures
            final(self)@ == load_into(old(self)@, ids_view(plugins@)),
    {
        let ghost start = self@;
        let ghost all = ids_view(plugins@);
        for p in it: plugins
            invariant
                all == ids_view(it.seq()),
                self@ == load_into(start, all.take(it.index() as int)),
        {
            proof {
                assert(all.take(it.index() + 1).drop_last() =~= all.take(it.index() as int));
                assert(all.take(it.index() + 1).last() == (p.0@, p.1));
            }
            if !self.contains_key(p.0.as_str()) {
                let ghost before = self.plugins@;
                self.plugins.push(p);
                assert(ids_view(self.plugins@) =~= ids_view(before).push(all[it.index() as int]));
            }
        }
        assert(all.take(all.len() as int) =~= all);
    }

    /// Loads the plugins in order, each under its id; a plugin whose id is already loaded is
    /// skipped.
    pub fn from_plugins(plugins: Vec<(String, P)>) -> (r: PluginManager<P>)
        ensures
            r@ == first_of_each(ids_view(plugins@)),
    {
        let mut m = PluginManager::new();
        m.load_all_plugins(plugins);
        m
    }

    /// Stores a plugin under an id, replacing the one stored there.
    pub fn insert(&mut self, id: String, plugin: P)
        ensures
            final(self)@ == put_id(old(self)@, id@, plugin),
    {
        proof {
            lemma_id_index(self@, id@);
        }
        let mut i: usize = 0;
        while i < self.plugins.len()
            invariant
                i <= self.plugins.len(),
                self@ == old(self)@,
                self@.len() == self.plugins@.len(),
                forall|j: int| 0 <= j < i ==> (#[trigger] self@[j]).0 != id@,
            decreases self.plugins.len() - i,
        {
            assert(self@[i as int] == (self.plugins@[i as int].0@, self.plugins@[i as int].1));
            if str_eq(self.plugins[i].0.as_str(), id.as_str()) {
                proof {
                    lemma_first_index(self@, id@, i as int);
                }
                let ghost before = self.plugins@;
                self.plugins.set(i, (id, plugin));
                assert(ids_view(self.plugins@) =~= ids_view(before).update(i as int, (id@, plugin)));
                return;
            }
            i += 1;
        }
        proof {
            lemma_id_index(self@, id@);
        }
        let ghost before = self.plugins@;
        self.plugins.push((id, plugin));
        assert(ids_view(self.plugins@) =~= ids_view(before).push((id@, plugin)));
    }

    /// The number of loaded plugins.
    pub fn len(&self) -> (r: usize)
        ensures
            r == self@.len(),
    {
        self.plugins.len()
    }

    pub fn is_empty(&self) -> (r: bool)
        ensures
            r == (self@.len() == 0),
    {
        self.plugins.len() == 0
    }

    /// The loaded plugin with this id.
    pub fn get(&self, id: &str) -> (r: Option<&P>)
        ensures
            match r {
                Some(p) => id_index(self@, id@) matches Some(i) && *p == self@[i].1,
                None => id_index(self@, id@) is None,
            },
    {
        proof {
            lemma_id_index(self@, id@);
        }
        let mut i: usize = 0;
        while i < self.plugins.len()
            invariant
                i <= self.plugins.len(),
                self@.len() == self.plugins@.len(),
                forall|j: int| 0 <= j < i ==> (#[trigger] self@[j]).0 != id@,
                id_index(self@, id@) is None <==> forall|j: int| 0 <= j < self@.len() ==> (#[trigger] self@[j]).0 != id@,
                id_index(self@, id@) matches Some(k) ==> 0 <= k < self@.len() && self@[k].0 == id@,
            decreases self.plugins.len() - i,
        {
            assert(self@[i as int] == (self.plugins@[i as int].0@, self.plugins@[i as int].1));
            if str_eq(self.plugins[i].0.as_str(), id) {
                proof {
                    lemma_first_index(self@, id@, i as int);
                }
                return Some(&self.plugins[i].1);
            }
            i += 1;
        }
        None
    }
}

proof fn lemma_first_index<P>(es: Seq<(Seq<char>, P)>, id: Seq<char>, i: int)
    requires
        0 <= i < es.len(),
        es[i].0 == id,
        forall|j: int| 0 <= j < i ==> (#[trigger] es[j]).0 != id,
    ensures
        id_index(es, id) == Some(i),
    decreases es.len(),
{
    if i < es.len() - 1 {
        lemma_first_index(es.drop_last(), id, i);
    } else {
        lemma_id_index(es.drop_last(), id);
        assert forall|j: int| 0 <= j < es.drop_last().len() implies (#[trigger] es.drop_last()[j]).0 != id by {
            assert(es.drop_last()[j] == es[j]);
        }
    }
}

impl<P> Default for PluginManager<P> {
    fn default() -> (r: PluginManager<P>)
        ensures
            r@ == Seq::<(Seq<char>, P)>::empty(),
    {
        PluginManager::new()
    }
}

/// The subscribers of the actor bus: (topic, handler), in subscription order.
pub struct ActorBusHandle<H> {
    subscribers: Vec<(String, H)>,
}

impl<H> View for ActorBusHandle<H> {
    type V = Seq<(Seq<char>, H)>;

    closed spec fn view(&self) -> Seq<(Seq<char>, H)> {
        ids_view(self.subscribers@)
    }
}

/// The positions of the subscribers of a topic, in subscription order.
pub open spec fn topic_positions<H>(es: Seq<(Seq<char>, H)>, topic: Seq<char>) -> Seq<usize>
    decreases es.len(),
{
    if es.len() == 0 {
        Seq::empty()
    } else {
        topic_positions(es.drop_last(), topic) + if es.last().0 == topic {
            seq![(es.len() - 1) as usize]
        } else {
            Seq::empty()
        }
    }
}

/// Subscribing adds the new subscriber last among the subscribers of its topic, and leaves the
/// subscribers of every other topic as they were.
pub proof fn lemma_subscribe_positions<H>(es: Seq<(Seq<char>, H)>, topic: Seq<char>, h: H, other: Seq<char>)
    ensures
        topic_positions(es.push((topic, h)), topic) == topic_positions(es, topic).push(es.len() as usize),
        other != topic ==> topic_positions(es.push((topic, h)), other) == topic_positions(es, other),
{
    let es2 = es.push((topic, h));
    assert(es2.drop_last() =~= es);
    assert(topic_positions(es, topic) + seq![(es2.len() - 1) as usize] =~= topic_positions(es, topic).push(
        es.len() as usize,
    ));
    assert(topic_positions(es, other) + Seq::<usize>::empty() =~= topic_positions(es, other));
}

/// What a publish does next.
#[derive(Debug, Clone, Copy, PartialEq, Eq, Structural)]
pub enum PublishStep {
    /// Hand the message to the subscriber at this position.
    Deliver(usize),
    /// Every subscriber took the message: the publish succeeded.
    Done,
    /// The last subscriber failed: the publish fails with its error.
    Stop,
}

/// The step of a publish to the subscribers at `positions` (a topic's, in subscription
/// order) after `delivered` of them took the message, the last of them with outcome
/// `last_ok` (`true` before the first).
pub open spec fn publish_step_spec(positions: Seq<usize>, delivered: nat, last_ok: bool) -> PublishStep {
    if !last_ok {
        PublishStep::Stop
    } else if delivered < positions.len() {
        PublishStep::Deliver(positions[delivered as int])
    } else {
        PublishStep::Done
    }
}

/// One step of a publish: the next subscriber in subscription order while they succeed,
/// stopping at the first failure.
pub fn publish_step(positions: &[usize], delivered: usize, last_ok: bool) -> (r: PublishStep)
    ensures
        r == publish_step_spec(positions@, delivered as nat, last_ok),
{
    if !last_ok {
        PublishStep::Stop
    } else if delivered < positions.len() {
        PublishStep::Deliver(positions[delivered])
    } else {
        PublishStep::Done
    }
}

/// The subscribers that a publish reaches when the subscribers it reaches report
/// `outcomes` in turn: each in order, up to and including the first that fails.
pub open spec fn published_to(positions: Seq<usize>, outcomes: Seq<bool>) -> Seq<usize>
    decreases positions.len(),
{
    if positions.len() == 0 || outcomes.len() == 0 {
        Seq::empty()
    } else if outcomes[0] {
        seq![positions[0]].add(published_to(positions.drop_first(), outcomes.drop_first()))
    } else {
        seq![positions[0]]
    }
}

/// Driving `publish_step` from the start delivers to exactly the subscribers of
/// `published_to`: with `k` deliveries made, all successful, the next step hands the message
/// to the next subscriber, or finishes once all have it; after a failure it stops.
pub proof fn lemma_publish_steps(positions: Seq<usize>, outcomes: Seq<bool>, k: nat)
    requires
        k <= positions.len(),
        outcomes.len() >= positions.len(),
        forall|i: int| 0 <= i < k ==> #[trigger] outcomes[i],
    ensures
        published_to(positions, outcomes).len() >= k,
        forall|i: int| 0 <= i < k ==> #[trigger] published_to(positions, outcomes)[i] == positions[i],
        k < positions.len() ==> publish_step_spec(positions, k, true) == PublishStep::Deliver(positions[k as int]),
        k == positions.len() ==> publish_step_spec(positions, k, true) == PublishStep::Done,
        publish_step_spec(positions, k, false) == PublishStep::Stop,
    decreases k,
{
    if k > 0 {
        let ps = positions.drop_first();
        let os = outcomes.drop_first();
        assert forall|i: int| 0 <= i < k - 1 implies #[trigger] os[i] by {
            assert(os[i] == outcomes[i + 1]);
        }
        lemma_publish_steps(ps, os, (k - 1) as nat);
        assert(outcomes[0]);
        let r = published_to(positions, outcomes);
        assert(r == seq![positions[0]].add(published_to(ps, os)));
        assert forall|i: int| 0 <= i < k implies #[trigger] r[i] == positions[i] by {
            if i > 0 {
                assert(r[i] == published_to(ps, os)[i - 1]);
                assert(ps[i - 1] == positions[i]);
            }
        }
    }
}

impl<H> ActorBusHandle<H> {
    /// A bus without subscribers.
    pub fn new() -> (r: ActorBusHandle<H>)
        ensures
            r@ == Seq::<(Seq<char>, H)>::empty(),
    {
        let r = ActorBusHandle { subscribers: Vec::new() };
        assert(r@ =~= Seq::<(Seq<char>, H)>::empty());
        r
    }

    /// The bus that the runtime installs where the application provides none: empty.
    pub fn runtime_default() -> (r: ActorBusHandle<H>)
        ensures
            r@ == Seq::<(Seq<char>, H)>::empty(),
    {
        ActorBusHandle::new()
    }

    /// Adds a subscriber of a topic.
    pub fn subscribe(&mut self, topic: String, handler: H)
        ensures
            final(self)@ == old(self)@.push((topic@, handler)),
    {
        self.subscribers.push((topic, handler));
        assert(self@ =~= old(self)@.push((topic@, handler)));
    }

    /// The positions of the subscribers of a topic: a publish calls them in this order.
    pub fn subscribers_of(&self, topic: &str) -> (r: Vec<usize>)
        ensures
            r@ == topic_positions(self@, topic@),
    {
        let mut out: Vec<usize> = Vec::new();
        let mut i: usize = 0;
        assert(self@.take(0) =~= Seq::<(Seq<char>, H)>::empty());
        while i < self.subscribers.len()
            invariant
                i <= self.subscribers.len(),
                self@.len() == self.subscribers@.len(),
                out@ == topic_positions(self@.take(i as int), topic@),
            decreases self.subscribers.len() - i,
        {
            assert(self@.take(i + 1).drop_last() =~= self@.take(i as int));
            assert(self@.take(i + 1).last() == (self.subscribers@[i as int].0@, self.subscribers@[i as int].1));
            if str_eq(self.subscribers[i].0.as_str(), topic) {
                out.push(i);
            }
            i += 1;
        }
        assert(self@.take(self@.len() as int) =~= self@);
        out
    }

    /// The subscriber at a position.
    pub fn handler(&self, i: usize) -> (r: &H)
        requires
            i < self@.len(),
        ensures
            *r == self@[i as int].1,
    {
        assert(self@[i as int] == (self.subscribers@[i as int].0@, self.subscribers@[i as int].1));
        &self.subscribers[i].1
    }
}

} // verus!
