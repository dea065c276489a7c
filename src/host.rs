//! The host side of the contract: the registry of loaded plugins, their
//! lifecycle, and the routing of each event to the plugins that may see it.

use crate::canvas::VirtualCanvas;
use crate::event::Event;
use crate::plugin::ImageEditorPlugin;
use std::sync::mpsc::Sender;
use vstd::prelude::*;

verus! {

/// Where a loaded plugin stands in its lifecycle. A plugin that is not loaded
/// has not been set up yet.
#[derive(PartialEq, Eq, Structural, Clone, Copy, Debug)]
pub enum PluginState {
    /// Set up, never activated.
    SetUp,
    /// The active tool: it receives broadcast events.
    Active,
    /// Deactivated after having been active.
    Inactive,
}

/// Why a plugin could not be loaded.
#[derive(PartialEq, Eq, Structural, Clone, Copy, Debug)]
pub enum RegisterError {
    /// A loaded plugin already answers to the same id.
    DuplicateId,
}

/// What became of one dispatched event.
#[derive(Debug)]
pub enum Delivery {
    /// A `Special` event that names no plugin: the manager handles it itself.
    Manager,
    /// A `Special` event whose target matches no loaded plugin: dropped.
    DeadLetter,
    /// A `Special` event handed to the one plugin that answers to its target.
    Target { index: usize, consumed: bool },
    /// Any other event, offered to the active plugins in order of loading until
    /// one consumed it; `reached` lists those it was offered to.
    Broadcast { reached: Vec<usize>, consumed: bool },
}

/// The active plugins among the first `k`, in order of loading.
pub open spec fn active_before(states: Seq<PluginState>, k: nat) -> Seq<usize>
    decreases k,
{
    if k == 0 {
        Seq::empty()
    } else {
        let rest = active_before(states, (k - 1) as nat);
        if states[k - 1] == PluginState::Active {
            rest.push((k - 1) as usize)
        } else {
            rest
        }
    }
}

/// The states after plugin `i` was asked to activate: it is active whether or
/// not it already was.
pub open spec fn after_activate(states: Seq<PluginState>, i: int) -> Seq<PluginState> {
    states.update(i, PluginState::Active)
}

/// The states after plugin `i` was asked to deactivate: only an active plugin
/// becomes inactive.
pub open spec fn after_deactivate(states: Seq<PluginState>, i: int) -> Seq<PluginState> {
    if states[i] == PluginState::Active {
        states.update(i, PluginState::Inactive)
    } else {
        states
    }
}

/// The addressee of an event: `Some(Some(id))` for a `Special` event naming a
/// plugin, `Some(None)` for one left to the manager, `None` for other kinds.
pub open spec fn target_of(ev: &Event) -> Option<Option<Seq<char>>> {
    match ev {
        Event::Special(d) => Some(d.target_view()),
        _ => None,
    }
}

/// The outcome of a broadcast that offered the event to `reached`, where
/// `consumed` is the answer of the last plugin offered: the event went to the
/// active plugins in order of loading, and it went to all of them unless it
/// ended at a plugin that consumed it.
pub open spec fn broadcast_outcome(states: Seq<PluginState>, reached: Seq<usize>, consumed: bool) -> bool {
    if consumed {
        &&& reached.len() > 0
        &&& reached.last() < states.len()
        &&& reached == active_before(states, reached.last() as nat + 1)
    } else {
        reached == active_before(states, states.len())
    }
}

/// The loaded plugins and where each stands in its lifecycle.
pub struct PluginManager<P: ImageEditorPlugin> {
    plugins: Vec<P>,
    ids: Vec<String>,
    states: Vec<PluginState>,
}

impl<P: ImageEditorPlugin> PluginManager<P> {
    /// The loaded plugins, in order of loading.
    pub closed spec fn plugins_view(&self) -> Seq<P> {
        self.plugins@
    }

    /// The lifecycle state of each loaded plugin.
    pub closed spec fn states_view(&self) -> Seq<PluginState> {
        self.states@
    }

    /// The ids the loaded plugins gave when they were loaded, in order of
    /// loading: events are addressed by these.
    pub closed spec fn ids(&self) -> Seq<Seq<char>> {
        self.ids@.map_values(|s: String| s@)
    }

    /// No two loaded plugins answer to the same id.
    pub open spec fn ids_unique(&self) -> bool {
        forall|i: int, j: int|
            0 <= i < j < self.ids().len() ==> #[trigger] self.ids()[i] != #[trigger] self.ids()[j]
    }

    /// One id and one state per plugin, and unique ids.
    pub open spec fn wf(&self) -> bool {
        &&& self.states_view().len() == self.plugins_view().len()
        &&& self.ids().len() == self.plugins_view().len()
        &&& self.ids_unique()
    }

    /// A manager with no plugin loaded.
    pub fn new() -> (r: Self)
        ensures
            r.wf(),
            r.plugins_view().len() == 0,
    {
        let r = PluginManager { plugins: Vec::new(), ids: Vec::new(), states: Vec::new() };
        proof {
            assert(r.ids() =~= Seq::<Seq<char>>::empty());
        }
        r
    }

    /// Number of loaded plugins.
    pub fn len(&self) -> (r: usize)
        ensures
            r == self.plugins_view().len(),
    {
        self.plugins.len()
    }

    /// The lifecycle state of plugin `i`.
    pub fn state(&self, i: usize) -> (r: PluginState)
        requires
            self.wf(),
            i < self.plugins_view().len(),
        ensures
            r == self.states_view()[i as int],
    {
        self.states[i]
    }

    /// The index of the loaded plugin that answers to `id`, if any.
    pub fn find(&self, id: &String) -> (r: Option<usize>)
        ensures
            r matches Some(i) ==> i < self.ids().len() && self.ids()[i as int] == id@,
            r is None ==> forall|i: int| 0 <= i < self.ids().len() ==> self.ids()[i] != id@,
    {
        let n = self.ids.len();
        let mut i: usize = 0;
        while i < n
            invariant
                n == self.ids().len(),
                i <= n,
                forall|j: int| 0 <= j < i ==> self.ids()[j] != id@,
            decreases n - i,
        {
            if self.ids[i] == *id {
                return Some(i);
            }
            i += 1;
        }
        None
    }

    /// Loads `plugin` under the id it gives: it gets its emitter and becomes
    /// set up, at the end of the loading order. Refused, with nothing changed,
    /// where a loaded plugin already answers to that id; so loading into an
    /// empty manager always succeeds.
    pub fn register(&mut self, plugin: P, emitter: Sender<&Event>) -> (r: Result<usize, RegisterError>)
        requires
            old(self).wf(),
        ensures
            final(self).wf(),
            old(self).ids().len() == 0 ==> r is Ok,
            r is Err ==> r == Err::<usize, RegisterError>(RegisterError::DuplicateId) && *final(self) == *old(self),
            r is Ok ==> {
                &&& r == Ok::<usize, RegisterError>(old(self).plugins_view().len() as usize)
                &&& final(self).ids().drop_last() == old(self).ids()
                &&& !old(self).ids().contains(final(self).ids().last())
                &&& final(self).states_view() == old(self).states_view().push(PluginState::SetUp)
                &&& final(self).plugins_view().drop_last() == old(self).plugins_view()
            },
    {
        let id = plugin.id();
        self.register_as(plugin, id, emitter)
    }

    /// Loads `plugin` under `id`: it gets its emitter and becomes set up, at
    /// the end of the loading order. Refused, with nothing changed, where a
    /// loaded plugin already answers to `id`.
    pub fn register_as(&mut self, plugin: P, id: String, emitter: Sender<&Event>) -> (r: Result<usize, RegisterError>)
        requires
            old(self).wf(),
        ensures
            final(self).wf(),
            r is Err <==> old(self).ids().contains(id@),
            r is Err ==> r == Err::<usize, RegisterError>(RegisterError::DuplicateId) && *final(self) == *old(self),
            r is Ok ==> {
                &&& r == Ok::<usize, RegisterError>(old(self).plugins_view().len() as usize)
                &&& final(self).ids() == old(self).ids().push(id@)
                &&& final(self).states_view() == old(self).states_view().push(PluginState::SetUp)
                &&& final(self).plugins_view().drop_last() == old(self).plugins_view()
            },
    {
        match self.find(&id) {
            Some(_) => Err(RegisterError::DuplicateId),
            None => {
                let mut plugin = plugin;
                plugin.setup(emitter);
                let index = self.plugins.len();
                self.plugins.push(plugin);
                self.ids.push(id);
                self.states.push(PluginState::SetUp);
                proof {
                    assert(self.plugins_view().drop_last() =~= old(self).plugins_view());
                    assert(self.ids() =~= old(self).ids().push(id@));
                }
                Ok(index)
            },
        }
    }

    /// Plugin `i` and no other may have changed, and it kept its id.
    pub open spec fn only_touched(&self, old: &Self, i: int) -> bool {
        &&& self.plugins_view().len() == old.plugins_view().len()
        &&& self.ids() == old.ids()
        &&& forall|j: int|
            0 <= j < self.plugins_view().len() && j != i ==> #[trigger] self.plugins_view()[j]
                == old.plugins_view()[j]
    }

    /// Makes plugin `i` the active tool. Refused, with nothing changed, while
    /// it is already active: activations never come twice in a row.
    pub fn activate(&mut self, i: usize, canvas: &VirtualCanvas) -> (r: bool)
        requires
            old(self).wf(),
            i < old(self).plugins_view().len(),
            canvas.wf(),
        ensures
            final(self).wf(),
            r == (old(self).states_view()[i as int] != PluginState::Active),
            !r ==> *final(self) == *old(self),
            final(self).states_view() == after_activate(old(self).states_view(), i as int),
            r ==> final(self).only_touched(old(self), i as int),
    {
        if self.states[i] == PluginState::Active {
            proof {
                assert(self.states_view() =~= after_activate(self.states_view(), i as int));
            }
            return false;
        }
        self.plugins[i].activate(canvas);
        self.states.set(i, PluginState::Active);
        true
    }

    /// Takes the focus from plugin `i`. Refused, with nothing changed, unless
    /// it is active.
    pub fn deactivate(&mut self, i: usize) -> (r: bool)
        requires
            old(self).wf(),
            i < old(self).plugins_view().len(),
        ensures
            final(self).wf(),
            r == (old(self).states_view()[i as int] == PluginState::Active),
            !r ==> *final(self) == *old(self),
            final(self).states_view() == after_deactivate(old(self).states_view(), i as int),
            r ==> final(self).only_touched(old(self), i as int),
    {
        if self.states[i] != PluginState::Active {
            return false;
        }
        self.plugins[i].deactivate();
        self.states.set(i, PluginState::Inactive);
        true
    }

    /// Every plugin outside `reached` is as it was; all keep their ids and
    /// their states.
    pub open spec fn touched_only(&self, old: &Self, reached: Seq<usize>) -> bool {
        &&& self.plugins_view().len() == old.plugins_view().len()
        &&& self.ids() == old.ids()
        &&& self.states_view() == old.states_view()
        &&& forall|j: int|
            0 <= j < self.plugins_view().len() && !reached.contains(j as usize)
                ==> #[trigger] self.plugins_view()[j] == old.plugins_view()[j]
    }

    /// Routes one event. A `Special` event that names no plugin is left to the
    /// manager; one that names a plugin goes to that plugin alone, or is
    /// dropped where no loaded plugin answers to the name. Any other event is
    /// offered to the active plugins in order of loading, until one consumes it.
    pub fn dispatch(&mut self, ev: &Event, canvas: &mut VirtualCanvas) -> (r: Delivery)
        requires
            old(self).wf(),
            old(canvas).wf(),
        ensures
            final(self).wf(),
            final(canvas).wf(),
            final(canvas).same_shape(old(canvas)),
            final(final(canvas).data)@ == final(old(canvas).data)@,
            final(final(canvas).overlay)@ == final(old(canvas).overlay)@,
            match target_of(ev) {
                Some(None) => {
                    &&& r is Manager
                    &&& *final(self) == *old(self)
                    &&& final(canvas).pixels() == old(canvas).pixels()
                    &&& final(canvas).cells() == old(canvas).cells()
                },
                Some(Some(t)) => if old(self).ids().contains(t) {
                    &&& r is Target
                    &&& r->index < old(self).ids().len()
                    &&& old(self).ids()[r->index as int] == t
                    &&& final(self).touched_only(old(self), seq![r->index])
                } else {
                    &&& r is DeadLetter
                    &&& *final(self) == *old(self)
                    &&& final(canvas).pixels() == old(canvas).pixels()
                    &&& final(canvas).cells() == old(canvas).cells()
                },
                None => {
                    &&& r is Broadcast
                    &&& broadcast_outcome(old(self).states_view(), r->reached@, r->Broadcast_consumed)
                    &&& final(self).touched_only(old(self), r->reached@)
                },
            },
    {
        match ev {
            Event::Special(d) => match &d.target_id {
                None => Delivery::Manager,
                Some(t) => match self.find(t) {
                    None => Delivery::DeadLetter,
                    Some(i) => {
                        let consumed = self.plugins[i].act(ev, canvas);
                        proof {
                            assert(seq![i][0] == i);
                            assert forall|j: int|
                                0 <= j < self.plugins_view().len() && !seq![i].contains(j as usize)
                                implies #[trigger] self.plugins_view()[j] == old(self).plugins_view()[j] by {
                                assert(j != i);
                            }
                        }
                        Delivery::Target { index: i, consumed }
                    },
                },
            },
            _ => self.broadcast(ev, canvas),
        }
    }

    /// Offers `ev` to the active plugins in order of loading, until one
    /// consumes it.
    fn broadcast(&mut self, ev: &Event, canvas: &mut VirtualCanvas) -> (r: Delivery)
        requires
            old(self).wf(),
            old(canvas).wf(),
        ensures
            final(self).wf(),
            final(canvas).wf(),
            final(canvas).same_shape(old(canvas)),
            final(final(canvas).data)@ == final(old(canvas).data)@,
            final(final(canvas).overlay)@ == final(old(canvas).overlay)@,
            r is Broadcast,
            broadcast_outcome(old(self).states_view(), r->reached@, r->Broadcast_consumed),
            final(self).touched_only(old(self), r->reached@),
    {
        let n = self.plugins.len();
        let mut reached: Vec<usize> = Vec::new();
        let mut i: usize = 0;
        while i < n
            invariant
                n == old(self).plugins_view().len(),
                i <= n,
                self.wf(),
                reached@ == active_before(old(self).states_view(), i as nat),
                forall|k: int| 0 <= k < reached@.len() ==> reached@[k] < i,
                self.touched_only(old(self), reached@),
                canvas.wf(),
                canvas.same_shape(old(canvas)),
                final(canvas.data)@ == final(old(canvas).data)@,
                final(canvas.overlay)@ == final(old(canvas).overlay)@,
            decreases n - i,
        {
            if self.states[i] == PluginState::Active {
                let ghost before = *self;
                let ghost prev = reached@;
                let consumed = self.plugins[i].act(ev, canvas);
                reached.push(i);
                proof {
                    assert(reached@[reached@.len() - 1] == i);
                    assert forall|j: int|
                        0 <= j < self.plugins_view().len() && !reached@.contains(j as usize)
                        implies #[trigger] self.plugins_view()[j] == old(self).plugins_view()[j] by {
                        if prev.contains(j as usize) {
                            let k = choose|k: int| 0 <= k < prev.len() && prev[k] == j as usize;
                            assert(reached@[k] == j as usize);
                        }
                        assert(before.plugins_view()[j] == old(self).plugins_view()[j]);
                    }
                }
                if consumed {
                    return Delivery::Broadcast { reached, consumed: true };
                }
            }
            i += 1;
        }
        Delivery::Broadcast { reached, consumed: false }
    }

    /// Lets every active plugin draw its overlay, in order of loading; returns
    /// the plugins that drew.
    pub fn draw(&self, canvas: &mut VirtualCanvas) -> (drawn: Vec<usize>)
        requires
            self.wf(),
            old(canvas).wf(),
        ensures
            drawn@ == active_before(self.states_view(), self.states_view().len()),
            final(canvas).wf(),
            final(canvas).same_shape(old(canvas)),
            final(final(canvas).data)@ == final(old(canvas).data)@,
            final(final(canvas).overlay)@ == final(old(canvas).overlay)@,
    {
        let n = self.plugins.len();
        let mut drawn: Vec<usize> = Vec::new();
        let mut i: usize = 0;
        while i < n
            invariant
                n == self.plugins_view().len(),
                i <= n,
                self.wf(),
                drawn@ == active_before(self.states_view(), i as nat),
                canvas.wf(),
                canvas.same_shape(old(canvas)),
                final(canvas.data)@ == final(old(canvas).data)@,
                final(canvas.overlay)@ == final(old(canvas).overlay)@,
            decreases n - i,
        {
            if self.states[i] == PluginState::Active {
                self.plugins[i].draw(canvas);
                drawn.push(i);
            }
            i += 1;
        }
        drawn
    }
}

/// Ids single out plugins: in a well-formed manager no two loaded plugins
/// answer to the same id, so a targeted event has at most one addressee.
pub proof fn lemma_target_unique<P: ImageEditorPlugin>(m: &PluginManager<P>, i: int, j: int)
    requires
        m.wf(),
        0 <= i < m.ids().len(),
        0 <= j < m.ids().len(),
        m.ids()[i] == m.ids()[j],
    ensures
        i == j,
{
    if i < j {
        assert(m.ids()[i] != m.ids()[j]);
    } else if j < i {
        assert(m.ids()[j] != m.ids()[i]);
    }
}

/// Activations never come twice in a row: once plugin `i` has been asked to
/// activate, a second request is refused until it has been deactivated, and
/// after a deactivation it is accepted again.
pub proof fn lemma_activation_alternates(states: Seq<PluginState>, i: int)
    requires
        0 <= i < states.len(),
    ensures
        after_activate(states, i)[i] == PluginState::Active,
        after_deactivate(after_activate(states, i), i)[i] != PluginState::Active,
{
}

/// A broadcast reaches each plugin at most once, in order of loading, and
/// only active ones: the active plugins among the first `k` are listed in
/// increasing order, each below `k`.
pub proof fn lemma_broadcast_order(states: Seq<PluginState>, k: nat)
    requires
        k <= states.len() <= usize::MAX,
    ensures
        forall|a: int, b: int|
            0 <= a < b < active_before(states, k).len() ==> #[trigger] active_before(states, k)[a]
                < #[trigger] active_before(states, k)[b],
        forall|a: int|
            0 <= a < active_before(states, k).len() ==> #[trigger] active_before(states, k)[a] < k
                && states[active_before(states, k)[a] as int] == PluginState::Active,
    decreases k,
{
    if k > 0 {
        let rest = active_before(states, (k - 1) as nat);
        let all = active_before(states, k);
        lemma_broadcast_order(states, (k - 1) as nat);
        if states[k - 1] == PluginState::Active {
            assert(all == rest.push((k - 1) as usize));
            assert(all[rest.len() as int] == k - 1);
        } else {
            assert(all == rest);
        }
        assert forall|a: int| 0 <= a < rest.len() implies all[a] == rest[a] by {}
        assert forall|a: int, b: int| 0 <= a < b < all.len() implies #[trigger] all[a] < #[trigger] all[b] by {
            if b < rest.len() {
                assert(rest[a] < rest[b]);
            } else {
                assert(rest[a] < k - 1);
            }
        }
        assert forall|a: int| 0 <= a < all.len() implies #[trigger] all[a] < k
            && states[all[a] as int] == PluginState::Active by {
            if a < rest.len() {
                assert(rest[a] < k - 1);
            }
        }
    }
}

} // verus!
