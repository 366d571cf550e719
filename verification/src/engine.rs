use vstd::prelude::*;
use crate::window::KnownWindow;

verus! {

/// One tracked desktop: its window-manager identifier, the label shown for
/// it, and the window currently representing it (`None` when it is empty).
pub struct Desk {
    pub id: u32,
    pub name: String,
    pub window: Option<KnownWindow>,
}

/// One event of the window-manager stream, with every live lookup already
/// performed by the caller: identities are resolved and, where a removal
/// forces a re-query of a desktop's top window, the query's result rides on
/// the event. The engine itself is a pure state machine over these.
pub enum WmEvent {
    /// A window appeared on a desktop; it becomes that desktop's window.
    NodeAdd { desktop: u32, window: KnownWindow },
    /// A window was focused within a desktop; it becomes that desktop's
    /// window, exactly as an addition would.
    NodeFocus { desktop: u32, window: KnownWindow },
    /// A window left a desktop; `top` is the re-queried top window of that
    /// desktop, if any remains.
    NodeRemove { desktop: u32, top: Option<KnownWindow> },
    /// A window moved between desktops: the source side is re-derived from
    /// `src_top` as a removal would be, the destination side takes the moved
    /// window directly.
    NodeTransfer { src: u32, src_top: Option<KnownWindow>, dst: u32, window: KnownWindow },
    /// A desktop took focus.
    DesktopFocus { desktop: u32 },
}

/// Whether some tracked desktop carries this identifier.
pub open spec fn has_id(ds: Seq<Desk>, id: u32) -> bool {
    exists|i: int| 0 <= i < ds.len() && ds[i].id == id
}

/// The position of the desktop with this identifier (meaningful when the
/// identifiers are unique and `has_id` holds).
pub open spec fn idx_of(ds: Seq<Desk>, id: u32) -> int {
    choose|i: int| 0 <= i < ds.len() && ds[i].id == id
}

/// Identifiers strictly ascending: sorted, and in particular unique.
pub open spec fn ids_sorted(ds: Seq<Desk>) -> bool {
    forall|i: int, j: int| 0 <= i < j < ds.len() ==> ds[i].id < ds[j].id
}

/// The state of one desktop replaced, every other left alone; the whole
/// sequence left alone when the desktop is untracked.
pub open spec fn spec_set(ds: Seq<Desk>, id: u32, w: Option<KnownWindow>) -> Seq<Desk> {
    if has_id(ds, id) {
        ds.update(idx_of(ds, id), Desk { window: w, ..ds[idx_of(ds, id)] })
    } else {
        ds
    }
}

/// One reconciliation step: the deterministic update that a single
/// window-manager event makes to the tracked desktops and the focused
/// desktop. Events touching only untracked desktops change nothing, and a
/// focus event for an untracked desktop is dropped outright.
pub open spec fn spec_step(ds: Seq<Desk>, focused: u32, ev: WmEvent) -> (Seq<Desk>, u32) {
    match ev {
        WmEvent::NodeAdd { desktop, window } => (spec_set(ds, desktop, Some(window)), focused),
        WmEvent::NodeFocus { desktop, window } => (spec_set(ds, desktop, Some(window)), focused),
        WmEvent::NodeRemove { desktop, top } => (spec_set(ds, desktop, top), focused),
        WmEvent::NodeTransfer { src, src_top, dst, window } => (
            spec_set(spec_set(ds, src, src_top), dst, Some(window)),
            focused,
        ),
        WmEvent::DesktopFocus { desktop } => (
            ds,
            if has_id(ds, desktop) {
                desktop
            } else {
                focused
            },
        ),
    }
}

/// The state after a whole event sequence, applied in order, one step each.
pub open spec fn spec_replay(ds: Seq<Desk>, focused: u32, evs: Seq<WmEvent>) -> (Seq<Desk>, u32)
    decreases evs.len(),
{
    if evs.len() == 0 {
        (ds, focused)
    } else {
        let stepped = spec_step(ds, focused, evs[0]);
        spec_replay(stepped.0, stepped.1, evs.drop_first())
    }
}

/// The desktop state store and the focused-desktop pointer, owned by the
/// monitor loop: one entry per tracked desktop, kept in ascending identifier
/// order, never gaining or losing entries after startup tracking.
pub struct Monitor {
    desks: Vec<Desk>,
    focused: u32,
}

impl Monitor {
    #[verifier::type_invariant]
    spec fn wf(self) -> bool {
        ids_sorted(self.desks@)
    }

    /// The tracked desktops, in the order the renderer walks them.
    pub closed spec fn desks(self) -> Seq<Desk> {
        self.desks@
    }

    /// The identifier of the desktop that currently has focus.
    pub closed spec fn focused(self) -> u32 {
        self.focused
    }

    pub fn new() -> (m: Self)
        ensures
            m.desks() == Seq::<Desk>::empty(),
            m.focused() == 0u32,
            ids_sorted(m.desks()),
    {
        Monitor { desks: Vec::new(), focused: 0 }
    }

    pub fn is_tracked(&self, id: u32) -> (b: bool)
        ensures
            b == has_id(self.desks(), id),
    {
        let mut i: usize = 0;
        while i < self.desks.len()
            invariant
                i <= self.desks@.len(),
                forall|k: int| 0 <= k < i ==> self.desks@[k].id != id,
            decreases self.desks@.len() - i,
        {
            if self.desks[i].id == id {
                return true;
            }
            i = i + 1;
        }
        false
    }

    pub fn focused_id(&self) -> (id: u32)
        ensures
            id == self.focused(),
    {
        self.focused
    }

    /// Render the current snapshot with the given rule table: the pure
    /// composition the renderer specifies, over this store's desktops in
    /// their ascending-identifier order.
    pub fn render(&self, icons: &crate::icons::Icons) -> (r: Option<String>)
        ensures
            match r {
                Some(s) => crate::window::spec_render(self.desks(), self.focused(), icons@)
                    == Some(s@),
                None => crate::window::spec_render(self.desks(), self.focused(), icons@) is None,
            },
    {
        crate::window::render_icons(&self.desks, self.focused, icons)
    }

    /// How many desktops are tracked.
    pub fn tracked_count(&self) -> (n: usize)
        ensures
            n == self.desks().len(),
    {
        self.desks.len()
    }

    /// The window slot of a tracked desktop: nothing for an untracked
    /// identifier, the slot itself (possibly empty) for a tracked one.
    pub fn window_of(&self, id: u32) -> (r: Option<&Option<KnownWindow>>)
        ensures
            match r {
                Some(w) => has_id(self.desks(), id) && exists|i: int|
                    0 <= i < self.desks().len() && self.desks()[i].id == id && *w
                        == self.desks()[i].window,
                None => !has_id(self.desks(), id),
            },
    {
        match self.find_idx(id) {
            Some(i) => Some(&self.desks[i].window),
            None => None,
        }
    }

    /// Track one desktop at startup with the queried window, replacing the
    /// entry if the identifier is already tracked, inserting in identifier
    /// order otherwise. The first desktop ever tracked becomes the initially
    /// focused one.
    pub fn track(&mut self, id: u32, name: String, window: Option<KnownWindow>)
        ensures
            has_id(old(self).desks(), id) ==> {
                &&& final(self).desks() == old(self).desks().update(
                    idx_of(old(self).desks(), id),
                    Desk { id, name, window },
                )
                &&& final(self).focused() == old(self).focused()
            },
            !has_id(old(self).desks(), id) ==> {
                &&& exists|j: int|
                    0 <= j <= old(self).desks().len() && final(self).desks() == old(
                        self,
                    ).desks().insert(j, Desk { id, name, window })
                &&& final(self).focused() == (if old(self).desks().len() == 0 {
                    id
                } else {
                    old(self).focused()
                })
            },
            final(self).desks().len() <= old(self).desks().len() + 1,
            ids_sorted(final(self).desks()),
    {
        proof {
            use_type_invariant(&*self);
        }
        if self.desks.len() == 0 {
            self.focused = id;
        }
        let mut i: usize = 0;
        while i < self.desks.len() && self.desks[i].id < id
            invariant
                i <= self.desks@.len(),
                forall|k: int| 0 <= k < i ==> self.desks@[k].id < id,
            decreases self.desks@.len() - i,
        {
            i = i + 1;
        }
        let ghost ds0 = self.desks@;
        proof {
            use_type_invariant(&*self);
        }
        if i < self.desks.len() && self.desks[i].id == id {
            proof {
                assert(has_id(ds0, id));
                assert(idx_of(ds0, id) == i as int) by {
                    let w = idx_of(ds0, id);
                    if w != i as int {
                        assert(ds0[w].id == id);
                        assert(false);
                    }
                }
            }
            proof {
                assert(ids_sorted(ds0.update(i as int, Desk { id, name, window }))) by {
                    let nds = ds0.update(i as int, Desk { id, name, window });
                    assert(forall|k: int| 0 <= k < nds.len() ==> nds[k].id == ds0[k].id);
                }
            }
            let mut ds: Vec<Desk> = Vec::new();
            std::mem::swap(&mut ds, &mut self.desks);
            ds[i] = Desk { id, name, window };
            self.desks = ds;
        } else {
            proof {
                assert(!has_id(ds0, id)) by {
                    if has_id(ds0, id) {
                        let w = choose|w: int| 0 <= w < ds0.len() && ds0[w].id == id;
                        assert(ds0[w].id == id);
                        assert(false);
                    }
                }
            }
            let mut ds: Vec<Desk> = Vec::new();
            std::mem::swap(&mut ds, &mut self.desks);
            ds.insert(i, Desk { id, name, window });
            self.desks = ds;
        }
        proof {
            use_type_invariant(&*self);
        }
    }

    /// Apply one window-manager event: exactly the transition of
    /// `spec_step`, and in particular a focus event for an untracked desktop
    /// leaves the focused desktop unchanged.
    pub fn step(&mut self, ev: WmEvent)
        ensures
            final(self).desks() == spec_step(old(self).desks(), old(self).focused(), ev).0,
            final(self).focused() == spec_step(old(self).desks(), old(self).focused(), ev).1,
            ids_sorted(final(self).desks()),
    {
        proof {
            use_type_invariant(&*self);
        }
        match ev {
            WmEvent::NodeAdd { desktop, window } => {
                self.set_window(desktop, Some(window));
            },
            WmEvent::NodeFocus { desktop, window } => {
                self.set_window(desktop, Some(window));
            },
            WmEvent::NodeRemove { desktop, top } => {
                self.set_window(desktop, top);
            },
            WmEvent::NodeTransfer { src, src_top, dst, window } => {
                self.set_window(src, src_top);
                self.set_window(dst, Some(window));
            },
            WmEvent::DesktopFocus { desktop } => {
                if self.is_tracked(desktop) {
                    self.focused = desktop;
                }
            },
        }
        proof {
            use_type_invariant(&*self);
        }
    }

    /// The position of a tracked desktop, if its identifier is tracked.
    fn find_idx(&self, id: u32) -> (r: Option<usize>)
        ensures
            match r {
                Some(i) => i < self.desks().len() && self.desks()[i as int].id == id,
                None => !has_id(self.desks(), id),
            },
    {
        let mut i: usize = 0;
        while i < self.desks.len()
            invariant
                i <= self.desks@.len(),
                forall|k: int| 0 <= k < i ==> self.desks@[k].id != id,
            decreases self.desks@.len() - i,
        {
            if self.desks[i].id == id {
                return Some(i);
            }
            i = i + 1;
        }
        None
    }

    /// Replace one tracked desktop's window; an untracked identifier changes
    /// nothing.
    fn set_window(&mut self, id: u32, w: Option<KnownWindow>)
        ensures
            final(self).desks() == spec_set(old(self).desks(), id, w),
            final(self).focused() == old(self).focused(),
    {
        proof {
            use_type_invariant(&*self);
        }
        let ghost ds0 = self.desks@;
        match self.find_idx(id) {
            Some(i) => {
                proof {
                    assert(has_id(ds0, id));
                    assert(idx_of(ds0, id) == i as int) by {
                        let w2 = idx_of(ds0, id);
                        assert(ds0[w2].id == id);
                        if w2 != i as int {
                            assert(false);
                        }
                    }
                }
                let name = self.desks[i].name.clone();
                proof {
                    let nd = Desk { id, name, window: w };
                    assert(nd == Desk { window: w, ..ds0[i as int] });
                    assert(ids_sorted(ds0.update(i as int, nd))) by {
                        let nds = ds0.update(i as int, nd);
                        assert(forall|k: int| 0 <= k < nds.len() ==> nds[k].id == ds0[k].id);
                    }
                }
                let mut ds: Vec<Desk> = Vec::new();
                std::mem::swap(&mut ds, &mut self.desks);
                ds[i] = Desk { id, name, window: w };
                self.desks = ds;
            },
            None => {},
        }
    }
}

/// A step never adds, removes or reorders tracked desktops: identifiers and
/// labels come through unchanged.
pub proof fn lemma_step_keeps_tracking(ds: Seq<Desk>, focused: u32, ev: WmEvent)
    ensures
        spec_step(ds, focused, ev).0.len() == ds.len(),
        forall|i: int|
            0 <= i < ds.len() ==> spec_step(ds, focused, ev).0[i].id == ds[i].id && spec_step(
                ds,
                focused,
                ev,
            ).0[i].name == ds[i].name,
{
}

/// However long the event sequence and whatever it says of untracked
/// desktops, the replayed state holds exactly the entries it started with:
/// one per tracked desktop, none lost, none added, in the same order.
pub proof fn lemma_replay_keeps_tracking(ds: Seq<Desk>, focused: u32, evs: Seq<WmEvent>)
    ensures
        spec_replay(ds, focused, evs).0.len() == ds.len(),
        forall|i: int|
            0 <= i < ds.len() ==> spec_replay(ds, focused, evs).0[i].id == ds[i].id && spec_replay(
                ds,
                focused,
                evs,
            ).0[i].name == ds[i].name,
    decreases evs.len(),
{
    if evs.len() > 0 {
        let stepped = spec_step(ds, focused, evs[0]);
        lemma_step_keeps_tracking(ds, focused, evs[0]);
        lemma_replay_keeps_tracking(stepped.0, stepped.1, evs.drop_first());
    }
}

/// A removal followed at once by an addition on the same tracked desktop
/// converges to the addition alone: the whole state, focus included, is the
/// one a direct addition yields.
pub proof fn lemma_remove_add_converges(
    ds: Seq<Desk>,
    focused: u32,
    d: u32,
    top: Option<KnownWindow>,
    w: KnownWindow,
)
    requires
        ids_sorted(ds),
        has_id(ds, d),
    ensures
        spec_replay(
            ds,
            focused,
            seq![
                WmEvent::NodeRemove { desktop: d, top },
                WmEvent::NodeAdd { desktop: d, window: w },
            ],
        ).0 == spec_step(ds, focused, WmEvent::NodeAdd { desktop: d, window: w }).0,
        spec_replay(
            ds,
            focused,
            seq![
                WmEvent::NodeRemove { desktop: d, top },
                WmEvent::NodeAdd { desktop: d, window: w },
            ],
        ).1 == spec_step(ds, focused, WmEvent::NodeAdd { desktop: d, window: w }).1,
{
    let e1 = WmEvent::NodeRemove { desktop: d, top };
    let e2 = WmEvent::NodeAdd { desktop: d, window: w };
    let evs = seq![e1, e2];
    let removed = spec_set(ds, d, top);
    assert(has_id(removed, d)) by {
        let i = idx_of(ds, d);
        assert(ds[i].id == d);
        assert(removed[i].id == d);
    }
    assert(idx_of(removed, d) == idx_of(ds, d)) by {
        let i = idx_of(ds, d);
        let j = idx_of(removed, d);
        assert(ds[i].id == d);
        assert(removed[j].id == d);
        if j != i {
            assert(ds[j].id == d);
            assert(false);
        }
    }
    assert(spec_set(removed, d, Some(w)) =~= spec_set(ds, d, Some(w)));
    let s1 = spec_step(ds, focused, e1);
    let s2 = spec_step(s1.0, s1.1, e2);
    assert(evs.drop_first() =~= seq![e2]);
    assert(evs.drop_first().drop_first() =~= Seq::<WmEvent>::empty());
    assert(spec_replay(ds, focused, evs) == spec_replay(s1.0, s1.1, evs.drop_first()));
    assert(spec_replay(s1.0, s1.1, evs.drop_first()) == spec_replay(
        s2.0,
        s2.1,
        evs.drop_first().drop_first(),
    ));
    assert(spec_replay(s2.0, s2.1, evs.drop_first().drop_first()) == s2);
}

/// A focus event for an untracked desktop leaves the focused desktop
/// unchanged, and the rest of the state with it.
pub proof fn lemma_untracked_focus_ignored(ds: Seq<Desk>, focused: u32, d: u32)
    requires
        !has_id(ds, d),
    ensures
        spec_step(ds, focused, WmEvent::DesktopFocus { desktop: d }) == (ds, focused),
{
}

} // verus!
