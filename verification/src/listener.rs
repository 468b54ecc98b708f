use vstd::prelude::*;
use crate::binding_key_mgr::{
    BindError, BindingInfo, BindingKey, BindingKeyMgr, BindingSpec, down_fired, down_state,
    EngineSpec, has_uid, uid_index, up_state,
};
use crate::virtual_key::{InputKey, KeyCode, KeyOpt};

verus! {

/// Which callback shape a registration carries: run once and forget, or run
/// on every completion.  The callback itself lives with the host, keyed by
/// the binding id; the engine side only needs the shape.
#[derive(PartialEq, Eq, Structural, Clone, Copy, Debug)]
pub enum BindingCallback {
    Once,
    Multi,
}

/// A control message for the capture thread that owns the engine.
pub enum ListenerOpt {
    /// Register this binding.
    Bind(BindingInfo),
    /// Remove the binding with this id.
    Unbind(u32),
    /// Leave the capture loop and release the event source.
    StopListen,
}

/// What the host must do for one delivered completion id.
#[derive(PartialEq, Eq, Structural, Clone, Copy, Debug)]
pub enum TriggerAction {
    /// Run the callback once, then also send an `Unbind` control message:
    /// removing an id twice is safe because an unknown id is a no-op.
    RunOnce,
    /// Run the callback and keep the registration.
    RunMulti,
    /// Nothing to run: the id has no callback (consumed or never bound).
    Nothing,
}

/// Is some entry of the table keyed by `uid`?
spec fn table_has_key(s: Seq<(u32, BindingCallback)>, uid: u32) -> bool {
    exists|i: int| 0 <= i < s.len() && s[i].0 == uid
}

/// The position of the entry keyed by `uid`.
spec fn table_index(s: Seq<(u32, BindingCallback)>, uid: u32) -> int {
    choose|i: int| 0 <= i < s.len() && s[i].0 == uid
}

/// Each key appears at most once.
spec fn table_unique(s: Seq<(u32, BindingCallback)>) -> bool {
    forall|i: int, j: int| 0 <= i < j < s.len() ==> s[i].0 != s[j].0
}

proof fn lemma_table_lookup(s: Seq<(u32, BindingCallback)>, uid: u32, i: int)
    requires
        table_unique(s),
        0 <= i < s.len(),
        s[i].0 == uid,
    ensures
        table_has_key(s, uid),
        table_index(s, uid) == i,
{
    let k = table_index(s, uid);
    if k != i {
        if k < i {
            assert(s[k].0 != s[i].0);
        } else {
            assert(s[i].0 != s[k].0);
        }
    }
}

/// What one delivered completion id makes the host do, given the callback
/// table: a run-once entry is handed out, a repeating entry is handed out,
/// an unknown id yields nothing.
pub open spec fn trigger_action(m: Map<u32, BindingCallback>, uid: u32) -> TriggerAction {
    if m.contains_key(uid) && m[uid] == BindingCallback::Once {
        TriggerAction::RunOnce
    } else if m.contains_key(uid) && m[uid] == BindingCallback::Multi {
        TriggerAction::RunMulti
    } else {
        TriggerAction::Nothing
    }
}

/// The callback table after one delivered completion id: a run-once entry is
/// consumed, everything else stays.
pub open spec fn trigger_update(m: Map<u32, BindingCallback>, uid: u32) -> Map<u32, BindingCallback> {
    if m.contains_key(uid) && m[uid] == BindingCallback::Once {
        m.remove(uid)
    } else {
        m
    }
}

/// An application-side handle: it prepares control messages for the capture
/// thread and decides, for each delivered completion id, what the host must
/// do with the callback it stored under that id.
pub struct ListenerProxy {
    callbacks: Vec<(u32, BindingCallback)>,
}

impl View for ListenerProxy {
    type V = Map<u32, BindingCallback>;

    closed spec fn view(&self) -> Map<u32, BindingCallback> {
        Map::new(
            |uid: u32| table_has_key(self.callbacks@, uid),
            |uid: u32| self.callbacks@[table_index(self.callbacks@, uid)].1,
        )
    }
}

impl ListenerProxy {
    /// Each id holds at most one callback entry.
    #[verifier::type_invariant]
    closed spec fn type_inv(self) -> bool {
        table_unique(self.callbacks@)
    }

    /// A proxy with no callbacks registered.
    pub fn new() -> (r: Self)
        ensures
            r@ == Map::<u32, BindingCallback>::empty(),
    {
        let r = ListenerProxy { callbacks: Vec::new() };
        proof {
            assert(r@ =~= Map::<u32, BindingCallback>::empty());
        }
        r
    }

    /// A second handle onto the same capture thread, with its own empty
    /// callback table and its own notification channel.
    pub fn fork(&self) -> (r: Self)
        ensures
            r@ == Map::<u32, BindingCallback>::empty(),
    {
        let r = ListenerProxy { callbacks: Vec::new() };
        proof {
            assert(r@ =~= Map::<u32, BindingCallback>::empty());
        }
        r
    }

    /// Stores `kind` under `binding_uid`, replacing any earlier entry.
    fn record(&mut self, binding_uid: u32, kind: BindingCallback)
        ensures
            final(self)@ == old(self)@.insert(binding_uid, kind),
    {
        proof {
            use_type_invariant(&*self);
        }
        let ghost s0 = self.callbacks@;
        let mut cbs: Vec<(u32, BindingCallback)> = Vec::new();
        core::mem::swap(&mut cbs, &mut self.callbacks);
        let mut i: usize = 0;
        while i < cbs.len()
            invariant
                i <= cbs@.len(),
                forall|j: int| 0 <= j < i ==> cbs@[j].0 != binding_uid,
                s0 == cbs@,
                s0 == old(self).callbacks@,
                self.callbacks@.len() == 0,
                table_unique(s0),
            decreases cbs@.len() - i,
        {
            if cbs[i].0 == binding_uid {
                cbs[i] = (binding_uid, kind);
                core::mem::swap(&mut cbs, &mut self.callbacks);
                proof {
                    let s1 = self.callbacks@;
                    assert(s1 == s0.update(i as int, (binding_uid, kind)));
                    assert(table_unique(s1));
                    assert forall|x: u32| true implies
                        (table_has_key(s1, x) == old(self)@.insert(binding_uid, kind).contains_key(x))
                        && (table_has_key(s1, x) ==> s1[table_index(s1, x)].1
                            == old(self)@.insert(binding_uid, kind)[x]) by {
                        if x == binding_uid {
                            lemma_table_lookup(s1, x, i as int);
                            lemma_table_lookup(s0, x, i as int);
                        } else {
                            if table_has_key(s1, x) {
                                let k = table_index(s1, x);
                                lemma_table_lookup(s1, x, k);
                                assert(s0[k].0 == x);
                                lemma_table_lookup(s0, x, k);
                            }
                            if table_has_key(s0, x) {
                                let k = table_index(s0, x);
                                lemma_table_lookup(s0, x, k);
                                assert(s1[k].0 == x);
                                lemma_table_lookup(s1, x, k);
                            }
                        }
                    }
                    assert(self@ =~= old(self)@.insert(binding_uid, kind));
                }
                return ;
            }
            i += 1;
        }
        cbs.push((binding_uid, kind));
        core::mem::swap(&mut cbs, &mut self.callbacks);
        proof {
            let s1 = self.callbacks@;
            assert(s1 == s0.push((binding_uid, kind)));
            assert(forall|j: int| 0 <= j < s0.len() ==> (#[trigger] s0[j]).0 != binding_uid);
            assert forall|a: int, b: int| 0 <= a < b < s1.len() implies s1[a].0 != s1[b].0 by {
                if b < s0.len() {
                    assert(s0[a].0 != s0[b].0);
                } else {
                    assert(s1[b].0 == binding_uid);
                    assert(s1[a] == s0[a]);
                }
            }
            assert(table_unique(s1));
            assert forall|x: u32| true implies
                (table_has_key(s1, x) == old(self)@.insert(binding_uid, kind).contains_key(x))
                && (table_has_key(s1, x) ==> s1[table_index(s1, x)].1
                    == old(self)@.insert(binding_uid, kind)[x]) by {
                if x == binding_uid {
                    lemma_table_lookup(s1, x, s0.len() as int);
                } else {
                    if table_has_key(s1, x) {
                        let k = table_index(s1, x);
                        lemma_table_lookup(s1, x, k);
                        assert(k < s0.len());
                        assert(s0[k].0 == x);
                        lemma_table_lookup(s0, x, k);
                    }
                    if table_has_key(s0, x) {
                        let k = table_index(s0, x);
                        lemma_table_lookup(s0, x, k);
                        assert(s1[k].0 == x);
                        lemma_table_lookup(s1, x, k);
                    }
                }
            }
            assert(self@ =~= old(self)@.insert(binding_uid, kind));
        }
    }

    /// Prepares the registration of a run-once callback: the host stores the
    /// callback under `binding_uid` and sends the returned message to the
    /// capture thread.
    pub fn bind_once(&mut self, binding_keys: Vec<BindingKey>, binding_uid: u32) -> (msg: ListenerOpt)
        ensures
            final(self)@ == old(self)@.insert(binding_uid, BindingCallback::Once),
            (msg matches ListenerOpt::Bind(info) && info@.uid == binding_uid
                && info@.chord == binding_keys@.map_values(|k: BindingKey| k@)
                && info@.progress == 0),
    {
        self.record(binding_uid, BindingCallback::Once);
        ListenerOpt::Bind(BindingInfo::new(binding_keys, binding_uid))
    }

    /// Prepares the registration of a repeating callback, as `bind_once`.
    pub fn bind_multi(&mut self, binding_keys: Vec<BindingKey>, binding_uid: u32) -> (msg: ListenerOpt)
        ensures
            final(self)@ == old(self)@.insert(binding_uid, BindingCallback::Multi),
            (msg matches ListenerOpt::Bind(info) && info@.uid == binding_uid
                && info@.chord == binding_keys@.map_values(|k: BindingKey| k@)
                && info@.progress == 0),
    {
        self.record(binding_uid, BindingCallback::Multi);
        ListenerOpt::Bind(BindingInfo::new(binding_keys, binding_uid))
    }

    /// Drops the callback stored under `binding_uid` and prepares the message
    /// that removes the binding from the engine.
    pub fn unbind(&mut self, binding_uid: u32) -> (msg: ListenerOpt)
        ensures
            final(self)@ == old(self)@.remove(binding_uid),
            (msg matches ListenerOpt::Unbind(u) && u == binding_uid),
    {
        proof {
            use_type_invariant(&*self);
        }
        let ghost s0 = self.callbacks@;
        let mut cbs: Vec<(u32, BindingCallback)> = Vec::new();
        core::mem::swap(&mut cbs, &mut self.callbacks);
        let mut i: usize = 0;
        while i < cbs.len()
            invariant
                i <= cbs@.len(),
                forall|j: int| 0 <= j < i ==> cbs@[j].0 != binding_uid,
                s0 == cbs@,
                s0 == old(self).callbacks@,
                self.callbacks@.len() == 0,
                table_unique(s0),
            decreases cbs@.len() - i,
        {
            if cbs[i].0 == binding_uid {
                cbs.remove(i);
                core::mem::swap(&mut cbs, &mut self.callbacks);
                proof {
                    let s1 = self.callbacks@;
                    assert(s1 == s0.remove(i as int));
                    assert forall|a: int, b: int| 0 <= a < b < s1.len()
                        implies s1[a].0 != s1[b].0 by {
                        assert(s1[a] == (if a < i { s0[a] } else { s0[a + 1] }));
                        assert(s1[b] == (if b < i { s0[b] } else { s0[b + 1] }));
                    }
                    assert(table_unique(s1));
                    assert forall|x: u32| true implies
                        (table_has_key(s1, x) == old(self)@.remove(binding_uid).contains_key(x))
                        && (table_has_key(s1, x) ==> s1[table_index(s1, x)].1
                            == old(self)@.remove(binding_uid)[x]) by {
                        if x != binding_uid {
                            if table_has_key(s1, x) {
                                let k = table_index(s1, x);
                                lemma_table_lookup(s1, x, k);
                                let k0: int = if k < i { k } else { k + 1 };
                                assert(s0[k0].0 == x);
                                lemma_table_lookup(s0, x, k0);
                            }
                            if table_has_key(s0, x) {
                                let k = table_index(s0, x);
                                lemma_table_lookup(s0, x, k);
                                assert(k != i);
                                let k1: int = if k < i { k } else { k - 1 };
                                assert(s1[k1].0 == x);
                                lemma_table_lookup(s1, x, k1);
                            }
                        } else {
                            if table_has_key(s1, x) {
                                let k = table_index(s1, x);
                                lemma_table_lookup(s1, x, k);
                                let k0: int = if k < i { k } else { k + 1 };
                                assert(s0[k0].0 == x && k0 != i);
                                assert(s0[i as int].0 == x);
                                assert(false);
                            }
                        }
                    }
                    assert(self@ =~= old(self)@.remove(binding_uid));
                }
                return ListenerOpt::Unbind(binding_uid);
            }
            i += 1;
        }
        core::mem::swap(&mut cbs, &mut self.callbacks);
        proof {
            assert(!table_has_key(s0, binding_uid));
            assert(self@ =~= old(self)@.remove(binding_uid));
        }
        ListenerOpt::Unbind(binding_uid)
    }

    /// Decides what to do with one delivered completion id: a run-once
    /// callback is handed out exactly once and its entry dropped, a repeating
    /// callback is handed out and kept, an unknown id yields nothing.
    pub fn trigger_callback(&mut self, binding_uid: u32) -> (act: TriggerAction)
        ensures
            act == trigger_action(old(self)@, binding_uid),
            final(self)@ == trigger_update(old(self)@, binding_uid),
    {
        proof {
            use_type_invariant(&*self);
        }
        let ghost s0 = self.callbacks@;
        let mut i: usize = 0;
        while i < self.callbacks.len()
            invariant
                i <= self.callbacks@.len(),
                forall|j: int| 0 <= j < i ==> self.callbacks@[j].0 != binding_uid,
                self == old(self),
                s0 == self.callbacks@,
                table_unique(s0),
            decreases self.callbacks@.len() - i,
        {
            if self.callbacks[i].0 == binding_uid {
                proof {
                    lemma_table_lookup(s0, binding_uid, i as int);
                }
                match self.callbacks[i].1 {
                    BindingCallback::Once => {
                        let _msg = self.unbind(binding_uid);
                        return TriggerAction::RunOnce;
                    },
                    BindingCallback::Multi => {
                        return TriggerAction::RunMulti;
                    },
                }
            }
            i += 1;
        }
        proof {
            assert(!table_has_key(s0, binding_uid));
        }
        TriggerAction::Nothing
    }
}

/// The capture thread's state: one matching engine, fed by the control
/// messages and the classified events the host hands it.
pub struct Listener {
    binding_key_mgr: BindingKeyMgr,
}

impl View for Listener {
    type V = EngineSpec;

    closed spec fn view(&self) -> EngineSpec {
        self.binding_key_mgr@
    }
}

impl Listener {
    /// The engine it carries is well formed.
    pub closed spec fn wf(&self) -> bool {
        self.binding_key_mgr.wf()
    }

    /// A listener around an empty engine.
    pub fn new() -> (r: Self)
        ensures
            r@.bindings == Seq::<BindingSpec>::empty(),
            r@.holding == Set::<KeyCode>::empty(),
            r.wf(),
    {
        Listener { binding_key_mgr: BindingKeyMgr::new() }
    }

    /// Applies one control message to the engine and reports whether the
    /// capture loop should keep running.  A failed registration (empty chord
    /// or taken id) leaves the engine unchanged; the result names it so the
    /// host can log it.
    pub fn handle_event_opt(&mut self, opt: ListenerOpt) -> (r: (bool, Option<BindError>))
        requires
            old(self).wf(),
        ensures
            final(self).wf(),
            (match opt {
                ListenerOpt::Bind(info) => {
                    r.0 && final(self)@.holding == old(self)@.holding
                    && (if has_uid(old(self)@.bindings, info@.uid) {
                        final(self)@ == old(self)@
                            && r.1 matches Option::Some(BindError::DuplicateId)
                    } else if info@.chord.len() == 0 {
                        final(self)@ == old(self)@
                            && r.1 matches Option::Some(BindError::InvalidChord)
                    } else {
                        final(self)@.bindings == old(self)@.bindings.push(info@)
                            && r.1 matches Option::None
                    })
                },
                ListenerOpt::Unbind(uid) => {
                    r.0 && final(self)@.holding == old(self)@.holding
                    && !has_uid(final(self)@.bindings, uid)
                    && (if has_uid(old(self)@.bindings, uid) {
                        final(self)@.bindings == old(self)@.bindings.remove(
                            uid_index(old(self)@.bindings, uid),
                        )
                    } else {
                        final(self)@ == old(self)@
                    })
                },
                ListenerOpt::StopListen => !r.0 && final(self)@ == old(self)@,
            }),
    {
        match opt {
            ListenerOpt::Bind(info) => {
                match self.binding_key_mgr.bind(info) {
                    Result::Ok(()) => (true, Option::None),
                    Result::Err(e) => (true, Option::Some(e)),
                }
            },
            ListenerOpt::Unbind(uid) => {
                self.binding_key_mgr.unbind(uid);
                (true, Option::None)
            },
            ListenerOpt::StopListen => (false, Option::None),
        }
    }

    /// Feeds one classified event to the engine; returns the ids of the
    /// bindings it completed, for the host to deliver to their notification
    /// channels.
    pub fn on_input_key(&mut self, input_key: InputKey) -> (fired: Vec<u32>)
        requires
            old(self).wf(),
        ensures
            final(self).wf(),
            (input_key.opt == KeyOpt::Up ==> final(self)@ == up_state(old(self)@, input_key.key)
                && final(self)@.bindings == old(self)@.bindings
                && fired@ == Seq::<u32>::empty()),
            (input_key.opt == KeyOpt::Down ==> final(self)@ == down_state(old(self)@, input_key.key)
                && fired@ == down_fired(old(self)@, input_key.key)),
            (input_key.opt != KeyOpt::Up && input_key.opt != KeyOpt::Down ==> final(self)@ == old(
                self,
            )@ && fired@ == Seq::<u32>::empty()),
    {
        self.binding_key_mgr.on_input_key(input_key)
    }
}

} // verus!

verus! {

/// A run-once callback runs at most once, even when its chord completes
/// twice before the host drains its notifications: the first delivery hands
/// the callback out and consumes the entry, the second delivery of the same
/// id yields nothing, and the entry is absent afterward.
pub proof fn lemma_once_runs_at_most_once(m: Map<u32, BindingCallback>, uid: u32)
    requires
        m.contains_key(uid),
        m[uid] == BindingCallback::Once,
    ensures
        trigger_action(m, uid) == TriggerAction::RunOnce,
        !trigger_update(m, uid).contains_key(uid),
        trigger_action(trigger_update(m, uid), uid) == TriggerAction::Nothing,
        trigger_update(trigger_update(m, uid), uid) == trigger_update(m, uid),
{
}

/// A repeating callback runs on every completion until it is unbound:
/// delivery hands it out and leaves the table unchanged, however many
/// completions arrive.
pub proof fn lemma_multi_runs_every_time(m: Map<u32, BindingCallback>, uid: u32)
    requires
        m.contains_key(uid),
        m[uid] == BindingCallback::Multi,
    ensures
        trigger_action(m, uid) == TriggerAction::RunMulti,
        trigger_update(m, uid) == m,
{
}

/// Once an id is unbound from the table, a stale completion of that id
/// yields nothing.
pub proof fn lemma_unbound_id_yields_nothing(m: Map<u32, BindingCallback>, uid: u32)
    ensures
        trigger_action(m.remove(uid), uid) == TriggerAction::Nothing,
        trigger_update(m.remove(uid), uid) == m.remove(uid),
{
}

} // verus!
