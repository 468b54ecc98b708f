use vstd::prelude::*;
use crate::virtual_key::{InputKey, KeyCode, KeyOpt};

verus! {

/// One step of a chord: a primary key plus the modifier keys that must be
/// held at the moment the primary key goes down.
pub struct BindingKey {
    pub key: KeyCode,
    pub modifer_keys: Vec<KeyCode>,
}

/// Mathematical shape of one chord step.
#[verifier::ext_equal]
pub ghost struct StepSpec {
    pub key: KeyCode,
    pub mods: Set<KeyCode>,
}

impl StepSpec {
    /// The exact set of keys that must be held for this step to match.
    pub open spec fn required_keys(self) -> Set<KeyCode> {
        self.mods.insert(self.key)
    }
}

impl View for BindingKey {
    type V = StepSpec;

    open spec fn view(&self) -> StepSpec {
        StepSpec { key: self.key, mods: self.modifer_keys@.to_set() }
    }
}

/// A step matches when its own key is the one pressed and the held keys are
/// exactly the step's required set: nothing missing, nothing extra.
pub open spec fn step_matches(step: StepSpec, key: KeyCode, holding: Set<KeyCode>) -> bool {
    key == step.key && holding == step.required_keys()
}

/// Outcome of offering one pressed key to a binding.
#[derive(PartialEq, Eq, Structural, Clone, Copy, Debug)]
pub enum MatchKeyResult {
    /// The current step did not match; the binding's progress was reset.
    Failed,
    /// The current step matched and the named key is expected next.
    Matching(KeyCode),
    /// The current step matched and was the last one: the chord completed.
    Success,
}

/// Why a registration was rejected.
#[derive(PartialEq, Eq, Structural, Clone, Copy, Debug)]
pub enum BindError {
    /// The chord was empty.
    InvalidChord,
    /// A binding with the same id is already registered.
    DuplicateId,
}

/// Mathematical shape of one registered binding.
#[verifier::ext_equal]
pub ghost struct BindingSpec {
    pub uid: u32,
    pub chord: Seq<StepSpec>,
    /// How many steps of the chord have already been matched.
    pub progress: nat,
}

impl BindingSpec {
    /// Progress never runs past the chord: it is either at the start or
    /// strictly inside.
    pub open spec fn wf(self) -> bool {
        self.progress == 0 || self.progress < self.chord.len()
    }

    /// The step the binding expects next.
    pub open spec fn current_step(self) -> StepSpec {
        self.chord[self.progress as int]
    }
}

/// Replaces a binding's progress, keeping its identity and chord.
pub open spec fn with_progress(b: BindingSpec, p: nat) -> BindingSpec {
    BindingSpec { uid: b.uid, chord: b.chord, progress: p }
}

/// A registered chord with its identity and current match progress.
pub struct BindingInfo {
    binding_uid: u32,
    keys: Vec<BindingKey>,
    matching_index: usize,
}

impl View for BindingInfo {
    type V = BindingSpec;

    closed spec fn view(&self) -> BindingSpec {
        BindingSpec {
            uid: self.binding_uid,
            chord: self.keys@.map_values(|k: BindingKey| k@),
            progress: self.matching_index as nat,
        }
    }
}

impl BindingInfo {
    /// Every binding value is inside its chord; nothing outside this module
    /// can build one that is not.
    #[verifier::type_invariant]
    closed spec fn type_inv(self) -> bool {
        self.matching_index == 0 || self.matching_index < self.keys.len()
    }
}

/// Does `keys` hold `key`?
fn keys_contain(keys: &Vec<KeyCode>, key: KeyCode) -> (r: bool)
    ensures
        r == keys@.contains(key),
{
    let mut i: usize = 0;
    while i < keys.len()
        invariant
            i <= keys@.len(),
            forall|j: int| 0 <= j < i ==> keys@[j] != key,
        decreases keys@.len() - i,
    {
        if keys[i] == key {
            return true;
        }
        i += 1;
    }
    false
}

impl BindingInfo {
    /// A fresh binding for `binding_keys`, identified by `binding_uid`, with
    /// no steps matched yet.
    pub fn new(binding_keys: Vec<BindingKey>, binding_uid: u32) -> (r: Self)
        ensures
            r@.uid == binding_uid,
            r@.chord == binding_keys@.map_values(|k: BindingKey| k@),
            r@.progress == 0,
    {
        BindingInfo { binding_uid, keys: binding_keys, matching_index: 0 }
    }

    /// The primary key of the chord's first step, if the chord is non-empty.
    pub fn get_first_key(&self) -> (r: Option<KeyCode>)
        ensures
            (match r {
                Option::None => self@.chord.len() == 0,
                Option::Some(k) => self@.chord.len() > 0 && k == self@.chord[0].key,
            }),
    {
        if self.keys.is_empty() {
            return Option::None;
        }
        Option::Some(self.keys[0].key)
    }

    /// The binding's identity.
    pub fn get_uid(&self) -> (r: u32)
        ensures
            r == self@.uid,
    {
        self.binding_uid
    }

    /// Does the pressed key match the binding's current step, with the held
    /// keys exactly the step's required set?
    pub fn if_key_matched(&self, key: KeyCode, holding_keys: &Vec<KeyCode>) -> (r: bool)
        ensures
            r == (self@.progress < self@.chord.len() && step_matches(
                self@.current_step(),
                key,
                holding_keys@.to_set(),
            )),
    {
        if self.matching_index >= self.keys.len() {
            return false;
        }
        let step = &self.keys[self.matching_index];
        let ghost required = self@.current_step().required_keys();
        proof {
            assert(self@.chord.len() == self.keys@.len());
            assert(self@.current_step() == self.keys@[self.matching_index as int]@);
            assert(required == step@.mods.insert(step@.key));
        }
        if step.key != key {
            return false;
        }
        // every required modifier must be held
        let mut i: usize = 0;
        while i < step.modifer_keys.len()
            invariant
                i <= step.modifer_keys@.len(),
                forall|j: int| 0 <= j < i ==> holding_keys@.contains(#[trigger] step.modifer_keys@[j]),
                required == step@.mods.insert(step@.key),
                self@.progress < self@.chord.len(),
                self@.current_step() == step@,
                key == step.key,
            decreases step.modifer_keys@.len() - i,
        {
            if !keys_contain(holding_keys, step.modifer_keys[i]) {
                proof {
                    assert(step.modifer_keys@.contains(step.modifer_keys@[i as int]));
                    assert(required.contains(step.modifer_keys@[i as int]));
                    assert(!holding_keys@.to_set().contains(step.modifer_keys@[i as int]));
                }
                return false;
            }
            i += 1;
        }
        // the primary key must be held
        if !keys_contain(holding_keys, step.key) {
            proof {
                assert(required.contains(step@.key));
            }
            return false;
        }
        // nothing beyond the required set may be held
        let mut j: usize = 0;
        while j < holding_keys.len()
            invariant
                j <= holding_keys@.len(),
                forall|l: int| 0 <= l < j ==> required.contains(#[trigger] holding_keys@[l]),
                required == self@.current_step().required_keys(),
                self@.progress < self@.chord.len(),
                self@.current_step() == self.keys@[self.matching_index as int]@,
                step == &self.keys[self.matching_index as int],
        decreases holding_keys@.len() - j,
        {
            let h = holding_keys[j];
            if h != step.key && !keys_contain(&step.modifer_keys, h) {
                proof {
                    assert(!required.contains(holding_keys@[j as int]));
                    assert(holding_keys@.to_set().contains(holding_keys@[j as int]));
                }
                return false;
            }
            proof {
                assert(required.contains(holding_keys@[j as int]));
            }
            j += 1;
        }
        proof {
            assert(holding_keys@.to_set() =~= required);
        }
        true
    }

    /// Offers one pressed key to the binding: on a match the progress moves
    /// forward (or the chord completes and the progress restarts), on a
    /// mismatch the progress restarts.
    pub fn try_match(&mut self, input_key: KeyCode, holding_keys: &Vec<KeyCode>) -> (r: MatchKeyResult)
        ensures
            final(self)@.uid == old(self)@.uid,
            final(self)@.chord == old(self)@.chord,
            ({
                let matched = old(self)@.progress < old(self)@.chord.len() && step_matches(
                    old(self)@.current_step(),
                    input_key,
                    holding_keys@.to_set(),
                );
                if !matched {
                    r == MatchKeyResult::Failed && final(self)@.progress == 0
                } else if old(self)@.progress + 1 == old(self)@.chord.len() {
                    r == MatchKeyResult::Success && final(self)@.progress == 0
                } else {
                    r == MatchKeyResult::Matching(old(self)@.chord[old(self)@.progress as int + 1].key)
                        && final(self)@.progress == old(self)@.progress + 1
                }
            }),
    {
        if !self.if_key_matched(input_key, holding_keys) {
            self.matching_index = 0;
            return MatchKeyResult::Failed;
        }
        let n = self.keys.len();
        proof {
            assert(self@.chord.len() == self.keys@.len());
            assert(self.matching_index < n);
        }
        let next = self.matching_index + 1;
        if next < n {
            self.matching_index = next;
            return MatchKeyResult::Matching(self.keys[next].key);
        }
        self.matching_index = 0;
        MatchKeyResult::Success
    }

    /// How many steps of the chord have already been matched.
    pub fn get_progress(&self) -> (r: usize)
        ensures
            r == self@.progress,
    {
        self.matching_index
    }

    /// Puts the binding back at the start of its chord.
    fn reset_progress(&mut self)
        ensures
            final(self)@ == with_progress(old(self)@, 0),
    {
        self.matching_index = 0;
    }
}

} // verus!

verus! {

/// Mathematical shape of the whole matching engine: the registered bindings
/// in registration order, and the set of keys currently held.
#[verifier::ext_equal]
pub ghost struct EngineSpec {
    pub bindings: Seq<BindingSpec>,
    pub holding: Set<KeyCode>,
}

impl EngineSpec {
    /// Every binding is inside its chord, and no two bindings share an id.
    pub open spec fn wf(self) -> bool {
        (forall|i: int| 0 <= i < self.bindings.len() ==> (#[trigger] self.bindings[i]).wf())
        && (forall|i: int, j: int|
            0 <= i < j < self.bindings.len() ==> self.bindings[i].uid != self.bindings[j].uid)
    }
}

/// Is some id registered?
pub open spec fn has_uid(bs: Seq<BindingSpec>, uid: u32) -> bool {
    exists|i: int| 0 <= i < bs.len() && bs[i].uid == uid
}

/// The position of the binding with the given id.
pub open spec fn uid_index(bs: Seq<BindingSpec>, uid: u32) -> int {
    choose|i: int| 0 <= i < bs.len() && bs[i].uid == uid
}

/// Is any chord mid-progress?  While one is, only mid-progress bindings are
/// candidates; otherwise every binding waits for its first step.
pub open spec fn pending_active(bs: Seq<BindingSpec>) -> bool {
    exists|i: int| 0 <= i < bs.len() && bs[i].progress > 0
}

/// Is `b` looked up under the pressed key in the working index?
pub open spec fn is_candidate(b: BindingSpec, key: KeyCode, pending: bool) -> bool {
    b.progress < b.chord.len() && (pending ==> b.progress > 0) && b.current_step().key == key
}

/// Does `b`'s current step match this key press?
pub open spec fn advances(b: BindingSpec, key: KeyCode, holding: Set<KeyCode>, pending: bool) -> bool {
    is_candidate(b, key, pending) && step_matches(b.current_step(), key, holding)
}

/// Does this key press complete `b`'s chord?
pub open spec fn fires(b: BindingSpec, key: KeyCode, holding: Set<KeyCode>, pending: bool) -> bool {
    advances(b, key, holding, pending) && b.progress + 1 == b.chord.len()
}

/// `b`'s progress after this key press, before the tie-break rule: a matched
/// step moves forward, everything else restarts.  A binding that was not a
/// candidate loses any progress it had: it leaves the working index and so
/// returns to first-step eligibility.
pub open spec fn stepped_progress(b: BindingSpec, key: KeyCode, holding: Set<KeyCode>, pending: bool) -> nat {
    if advances(b, key, holding, pending) && b.progress + 1 < b.chord.len() {
        (b.progress + 1) as nat
    } else {
        0
    }
}

/// The ids of the bindings this key press completes, in registration order.
pub open spec fn fired_uids(bs: Seq<BindingSpec>, key: KeyCode, holding: Set<KeyCode>, pending: bool) -> Seq<u32>
    decreases bs.len(),
{
    if bs.len() == 0 {
        Seq::empty()
    } else {
        let pre = fired_uids(bs.drop_last(), key, holding, pending);
        if fires(bs.last(), key, holding, pending) {
            pre.push(bs.last().uid)
        } else {
            pre
        }
    }
}

/// All bindings after this key press.  If any chord completed, every binding
/// restarts (the tie-break rule); otherwise each binding steps on its own.
pub open spec fn advanced_bindings(bs: Seq<BindingSpec>, key: KeyCode, holding: Set<KeyCode>, pending: bool) -> Seq<BindingSpec> {
    if fired_uids(bs, key, holding, pending).len() > 0 {
        bs.map_values(|b: BindingSpec| with_progress(b, 0))
    } else {
        bs.map_values(|b: BindingSpec| with_progress(b, stepped_progress(b, key, holding, pending)))
    }
}

/// The advance algorithm, run after the pressed key has joined `s.holding`.
pub open spec fn advance_state(s: EngineSpec, key: KeyCode) -> EngineSpec {
    EngineSpec {
        bindings: advanced_bindings(s.bindings, key, s.holding, pending_active(s.bindings)),
        holding: s.holding,
    }
}

/// What the advance algorithm completes, under the same conditions.
pub open spec fn advance_fired(s: EngineSpec, key: KeyCode) -> Seq<u32> {
    fired_uids(s.bindings, key, s.holding, pending_active(s.bindings))
}

/// A Down event: the key joins the held set, then the advance algorithm runs.
pub open spec fn down_state(s: EngineSpec, key: KeyCode) -> EngineSpec {
    advance_state(EngineSpec { bindings: s.bindings, holding: s.holding.insert(key) }, key)
}

/// What a Down event completes.
pub open spec fn down_fired(s: EngineSpec, key: KeyCode) -> Seq<u32> {
    advance_fired(EngineSpec { bindings: s.bindings, holding: s.holding.insert(key) }, key)
}

/// An Up event: the key leaves the held set; bindings are untouched.
pub open spec fn up_state(s: EngineSpec, key: KeyCode) -> EngineSpec {
    EngineSpec { bindings: s.bindings, holding: s.holding.remove(key) }
}

/// The matching engine: registered bindings and the currently held keys.
pub struct BindingKeyMgr {
    bindings_info: Vec<BindingInfo>,
    holding_keys: Vec<KeyCode>,
}

impl View for BindingKeyMgr {
    type V = EngineSpec;

    closed spec fn view(&self) -> EngineSpec {
        EngineSpec {
            bindings: self.bindings_info@.map_values(|b: BindingInfo| b@),
            holding: self.holding_keys@.to_set(),
        }
    }
}

impl BindingKeyMgr {
    /// The engine is well formed: its mathematical shape is, and its held-key
    /// list holds each key once.
    pub closed spec fn wf(&self) -> bool {
        self@.wf() && self.holding_keys@.no_duplicates()
    }

    /// A well-formed engine has a well-formed shape.
    pub proof fn lemma_wf(&self)
        requires
            self.wf(),
        ensures
            self@.wf(),
    {
    }

    /// An engine with no bindings and no held keys.
    pub fn new() -> (r: Self)
        ensures
            r@.bindings == Seq::<BindingSpec>::empty(),
            r@.holding == Set::<KeyCode>::empty(),
            r.wf(),
    {
        let r = BindingKeyMgr { bindings_info: Vec::new(), holding_keys: Vec::new() };
        proof {
            assert(r@.bindings =~= Seq::<BindingSpec>::empty());
            assert(r@.holding =~= Set::<KeyCode>::empty());
        }
        r
    }
}

} // verus!

verus! {

impl BindingKeyMgr {
    /// Registers a binding.  An empty chord is rejected; so is an id that is
    /// already taken.  Otherwise the binding joins the registry, waiting for
    /// its first step.
    pub fn bind(&mut self, binding_info: BindingInfo) -> (r: Result<(), BindError>)
        requires
            old(self).wf(),
        ensures
            final(self).wf(),
            final(self)@.holding == old(self)@.holding,
            (match r {
                Result::Err(BindError::DuplicateId) => {
                    has_uid(old(self)@.bindings, binding_info@.uid) && final(self)@ == old(self)@
                },
                Result::Err(BindError::InvalidChord) => {
                    !has_uid(old(self)@.bindings, binding_info@.uid)
                        && binding_info@.chord.len() == 0
                        && final(self)@ == old(self)@
                },
                Result::Ok(()) => {
                    !has_uid(old(self)@.bindings, binding_info@.uid)
                        && binding_info@.chord.len() > 0
                        && final(self)@.bindings == old(self)@.bindings.push(binding_info@)
                },
            }),
    {
        proof {
            use_type_invariant(&binding_info);
            assert(binding_info@.wf());
        }
        let uid = binding_info.get_uid();
        let mut i: usize = 0;
        while i < self.bindings_info.len()
            invariant
                i <= self.bindings_info@.len(),
                forall|j: int| 0 <= j < i ==> (#[trigger] self.bindings_info@[j])@.uid != uid,
                uid == binding_info@.uid,
                binding_info@.wf(),
                self == old(self),
                old(self).wf(),
            decreases self.bindings_info@.len() - i,
        {
            if self.bindings_info[i].get_uid() == uid {
                proof {
                    assert(self@.bindings[i as int].uid == uid);
                }
                return Result::Err(BindError::DuplicateId);
            }
            i += 1;
        }
        proof {
            assert(forall|j: int|
                0 <= j < self@.bindings.len() ==> (#[trigger] self@.bindings[j]).uid != uid);
        }
        if binding_info.get_first_key().is_none() {
            return Result::Err(BindError::InvalidChord);
        }
        let ghost old_bindings = self@.bindings;
        self.bindings_info.push(binding_info);
        proof {
            assert(self@.bindings =~= old_bindings.push(binding_info@));
        }
        Result::Ok(())
    }

    /// Removes the binding with this id from the registry and its index; an
    /// unknown id is a no-op, not an error.
    pub fn unbind(&mut self, uid: u32)
        requires
            old(self).wf(),
        ensures
            final(self).wf(),
            final(self)@.holding == old(self)@.holding,
            !has_uid(final(self)@.bindings, uid),
            (if has_uid(old(self)@.bindings, uid) {
                final(self)@.bindings == old(self)@.bindings.remove(
                    uid_index(old(self)@.bindings, uid),
                )
            } else {
                final(self)@ == old(self)@
            }),
    {
        let ghost s0 = self@;
        let mut i: usize = 0;
        while i < self.bindings_info.len()
            invariant
                i <= self.bindings_info@.len(),
                forall|j: int| 0 <= j < i ==> (#[trigger] self.bindings_info@[j])@.uid != uid,
                self == old(self),
                s0 == self@,
                old(self).wf(),
            decreases self.bindings_info@.len() - i,
        {
            if self.bindings_info[i].get_uid() == uid {
                let ghost k = uid_index(s0.bindings, uid);
                proof {
                    assert(s0.bindings[i as int].uid == uid);
                    assert(0 <= k < s0.bindings.len() && s0.bindings[k].uid == uid);
                    assert(k == i as int) by {
                        if k != i as int {
                            assert(s0.bindings[k].uid != s0.bindings[i as int].uid);
                        }
                    }
                }
                self.bindings_info.remove(i);
                proof {
                    assert(self@.bindings =~= s0.bindings.remove(i as int));
                    assert(forall|j: int|
                        0 <= j < self@.bindings.len()
                            ==> (#[trigger] self@.bindings[j]).uid != uid);
                }
                return ;
            }
            i += 1;
        }
        proof {
            assert(!has_uid(self@.bindings, uid));
        }
    }

    /// Is any chord mid-progress?
    fn any_pending(&self) -> (r: bool)
        ensures
            r == pending_active(self@.bindings),
    {
        let mut i: usize = 0;
        while i < self.bindings_info.len()
            invariant
                i <= self.bindings_info@.len(),
                forall|j: int| 0 <= j < i ==> (#[trigger] self.bindings_info@[j])@.progress == 0,
            decreases self.bindings_info@.len() - i,
        {
            if self.bindings_info[i].get_progress() > 0 {
                proof {
                    assert(self@.bindings[i as int].progress > 0);
                }
                return true;
            }
            i += 1;
        }
        false
    }
}

} // verus!

verus! {

impl BindingKeyMgr {
    /// Adds a pressed key to the held set.
    fn insert_holding(&mut self, key: KeyCode)
        requires
            old(self).wf(),
        ensures
            final(self).wf(),
            final(self)@.bindings == old(self)@.bindings,
            final(self)@.holding == old(self)@.holding.insert(key),
    {
        if !keys_contain(&self.holding_keys, key) {
            let ghost s_old = self.holding_keys@;
            self.holding_keys.push(key);
            proof {
                let s_new = self.holding_keys@;
                assert forall|x: KeyCode| s_new.to_set().contains(x)
                    implies s_old.to_set().insert(key).contains(x) by {
                    let idx = choose|idx: int| 0 <= idx < s_new.len() && s_new[idx] == x;
                    if idx < s_old.len() {
                        assert(s_old[idx] == x);
                    }
                }
                assert forall|x: KeyCode| s_old.to_set().insert(key).contains(x)
                    implies s_new.to_set().contains(x) by {
                    if x == key {
                        assert(s_new[s_old.len() as int] == x);
                    } else {
                        let idx = choose|idx: int| 0 <= idx < s_old.len() && s_old[idx] == x;
                        assert(s_new[idx] == x);
                    }
                }
                assert(self@.holding =~= old(self)@.holding.insert(key));
                assert(!s_old.contains(key));
                assert forall|a: int, b: int|
                    0 <= a < s_new.len() && 0 <= b < s_new.len() && a != b
                    implies s_new[a] != s_new[b] by {
                    assert(s_old.no_duplicates());
                    if a == s_old.len() as int {
                        if s_new[b] == key {
                            assert(s_old[b] == key);
                        }
                    } else if b == s_old.len() as int {
                        if s_new[a] == key {
                            assert(s_old[a] == key);
                        }
                    }
                }
                assert(s_new.no_duplicates());
                assert(self.holding_keys@.no_duplicates());
                assert(self.bindings_info@ == old(self).bindings_info@);
                assert(self@.bindings == old(self)@.bindings);
                assert(old(self)@.wf());
                assert(self@.wf());
                assert(self.wf());
            }
        } else {
            proof {
                assert(self@.holding =~= self@.holding.insert(key));
            }
        }
    }

    /// Drops a released key from the held set.
    fn remove_holding(&mut self, key: KeyCode)
        requires
            old(self).wf(),
        ensures
            final(self).wf(),
            final(self)@.bindings == old(self)@.bindings,
            final(self)@.holding == old(self)@.holding.remove(key),
    {
        let ghost s_old = self.holding_keys@;
        let mut i: usize = 0;
        while i < self.holding_keys.len()
            invariant
                i <= self.holding_keys@.len(),
                forall|j: int| 0 <= j < i ==> self.holding_keys@[j] != key,
                self == old(self),
                s_old == self.holding_keys@,
                old(self).wf(),
            decreases self.holding_keys@.len() - i,
        {
            if self.holding_keys[i] == key {
                self.holding_keys.remove(i);
                proof {
                    let s_new = self.holding_keys@;
                    assert(s_new == s_old.remove(i as int));
                    assert forall|x: KeyCode| s_new.to_set().contains(x)
                        implies s_old.to_set().remove(key).contains(x) by {
                        let idx = choose|idx: int| 0 <= idx < s_new.len() && s_new[idx] == x;
                        if idx < i {
                            assert(s_old[idx] == x);
                            assert(s_old.no_duplicates());
                            assert(x != key);
                        } else {
                            assert(s_old[idx + 1] == x);
                            assert(s_old.no_duplicates());
                            assert(x != key);
                        }
                    }
                    assert forall|x: KeyCode| s_old.to_set().remove(key).contains(x)
                        implies s_new.to_set().contains(x) by {
                        let idx = choose|idx: int| 0 <= idx < s_old.len() && s_old[idx] == x;
                        if idx < i {
                            assert(s_new[idx] == x);
                        } else {
                            assert(idx != i);
                            assert(s_new[idx - 1] == x);
                        }
                    }
                    assert(self@.holding =~= old(self)@.holding.remove(key));
                    assert forall|a: int, b: int|
                        0 <= a < s_new.len() && 0 <= b < s_new.len() && a != b
                        implies s_new[a] != s_new[b] by {
                        assert(s_old.no_duplicates());
                        assert(s_new[a] == (if a < i { s_old[a] } else { s_old[a + 1] }));
                        assert(s_new[b] == (if b < i { s_old[b] } else { s_old[b + 1] }));
                    }
                    assert(s_new.no_duplicates());
                    assert(self.bindings_info@ == old(self).bindings_info@);
                    assert(self@.bindings == old(self)@.bindings);
                    assert(old(self)@.wf());
                    assert(self@.wf());
                }
                return ;
            }
            i += 1;
        }
        proof {
            assert(!old(self)@.holding.contains(key));
            assert(old(self)@.holding.remove(key) =~= old(self)@.holding);
        }
    }
}

} // verus!

verus! {

impl BindingKeyMgr {
    /// Runs the advance algorithm for one pressed key, already part of the
    /// held set: looks the key up in the working index (the pending bindings
    /// while any chord is mid-progress, otherwise the first-step index), lets
    /// each candidate step forward, restarts every other binding, and — if any
    /// chord completed — restarts every binding (the tie-break rule).  Returns
    /// the ids of the completed bindings in registration order.
    pub fn update_next_match_keys(&mut self, input_key: KeyCode) -> (fired: Vec<u32>)
        requires
            old(self).wf(),
        ensures
            final(self).wf(),
            final(self)@ == advance_state(old(self)@, input_key),
            fired@ == advance_fired(old(self)@, input_key),
    {
        let ghost s0 = self@;
        let pending = self.any_pending();
        let mut fired: Vec<u32> = Vec::new();
        let n = self.bindings_info.len();
        let mut i: usize = 0;
        while i < n
            invariant
                i <= n,
                n == self.bindings_info@.len(),
                n == s0.bindings.len(),
                pending == pending_active(s0.bindings),
                old(self).wf(),
                s0 == old(self)@,
                self.holding_keys == old(self).holding_keys,
                forall|j: int| i <= j < n ==> self.bindings_info@[j] == old(self).bindings_info@[j],
                forall|j: int|
                    0 <= j < i ==> (#[trigger] self.bindings_info@[j])@ == with_progress(
                        s0.bindings[j],
                        stepped_progress(s0.bindings[j], input_key, s0.holding, pending),
                    ),
                fired@ == fired_uids(s0.bindings.take(i as int), input_key, s0.holding, pending),
            decreases n - i,
        {
            let ghost bi = s0.bindings[i as int];
            proof {
                assert(self.bindings_info@[i as int] == old(self).bindings_info@[i as int]);
                assert(self.bindings_info@[i as int]@ == bi);
                assert(self.holding_keys@.to_set() == s0.holding);
            }
            let uid = self.bindings_info[i].get_uid();
            let is_cand = {
                let b = &self.bindings_info[i];
                proof {
                    assert(b@ == bi);
                    assert(bi.chord.len() == b.keys@.len());
                    if b.matching_index < b.keys.len() {
                        assert(bi.current_step() == b.keys@[b.matching_index as int]@);
                    }
                }
                b.matching_index < b.keys.len() && (!pending || b.matching_index > 0)
                    && b.keys[b.matching_index].key == input_key
            };
            proof {
                assert(is_cand == is_candidate(bi, input_key, pending));
            }
            if is_cand {
                let r = self.bindings_info[i].try_match(input_key, &self.holding_keys);
                match r {
                    MatchKeyResult::Success => {
                        fired.push(uid);
                        proof {
                            assert(fires(bi, input_key, s0.holding, pending));
                            assert(stepped_progress(bi, input_key, s0.holding, pending) == 0);
                        }
                    },
                    MatchKeyResult::Matching(_) => {
                        proof {
                            assert(advances(bi, input_key, s0.holding, pending));
                            assert(!fires(bi, input_key, s0.holding, pending));
                            assert(stepped_progress(bi, input_key, s0.holding, pending)
                                == bi.progress + 1);
                        }
                    },
                    MatchKeyResult::Failed => {
                        proof {
                            assert(!advances(bi, input_key, s0.holding, pending));
                            assert(!fires(bi, input_key, s0.holding, pending));
                        }
                    },
                }
            } else {
                self.bindings_info[i].reset_progress();
                proof {
                    assert(!advances(bi, input_key, s0.holding, pending));
                    assert(!fires(bi, input_key, s0.holding, pending));
                    assert(stepped_progress(bi, input_key, s0.holding, pending) == 0);
                }
            }
            proof {
                assert(s0.bindings.take(i as int + 1).drop_last() =~= s0.bindings.take(i as int));
                assert(s0.bindings.take(i as int + 1).last() == bi);
                assert(self.bindings_info@[i as int]@ == with_progress(
                    bi,
                    stepped_progress(bi, input_key, s0.holding, pending),
                ));
            }
            i += 1;
        }
        proof {
            assert(s0.bindings.take(n as int) =~= s0.bindings);
            assert(fired@ == fired_uids(s0.bindings, input_key, s0.holding, pending));
        }
        if fired.len() > 0 {
            let mut k: usize = 0;
            while k < n
                invariant
                    k <= n,
                    n == self.bindings_info@.len(),
                    n == s0.bindings.len(),
                    self.holding_keys == old(self).holding_keys,
                    forall|j: int|
                        0 <= j < k ==> (#[trigger] self.bindings_info@[j])@ == with_progress(
                            s0.bindings[j],
                            0,
                        ),
                    forall|j: int|
                        k <= j < n ==> (#[trigger] self.bindings_info@[j])@ == with_progress(
                            s0.bindings[j],
                            stepped_progress(s0.bindings[j], input_key, s0.holding, pending),
                        ),
                decreases n - k,
            {
                self.bindings_info[k].reset_progress();
                k += 1;
            }
            proof {
                assert(self@.bindings =~= s0.bindings.map_values(
                    |b: BindingSpec| with_progress(b, 0),
                ));
            }
        } else {
            proof {
                assert(self@.bindings =~= s0.bindings.map_values(
                    |b: BindingSpec| with_progress(
                        b,
                        stepped_progress(b, input_key, s0.holding, pending),
                    ),
                ));
            }
        }
        proof {
            assert(self.holding_keys@.to_set() == s0.holding);
            assert(self@ =~= advance_state(s0, input_key));
            assert(old(self).wf());
            assert(self.holding_keys@.no_duplicates());
            assert forall|j: int| 0 <= j < self@.bindings.len()
                implies (#[trigger] self@.bindings[j]).wf() by {
                assert(s0.bindings[j].wf());
            }
            assert forall|a: int, b: int| 0 <= a < b < self@.bindings.len()
                implies self@.bindings[a].uid != self@.bindings[b].uid by {
                assert(s0.bindings[a].uid != s0.bindings[b].uid);
                assert(self@.bindings[a].uid == s0.bindings[a].uid);
                assert(self@.bindings[b].uid == s0.bindings[b].uid);
            }
            assert(self@.wf());
        }
        fired
    }

    /// Feeds one classified event to the engine.  An Up event only drops the
    /// key from the held set — it never touches any chord's progress.  A Down
    /// event adds the key to the held set and runs the advance algorithm.
    /// Any other event is ignored.  Returns the ids of the bindings this
    /// event completed, in registration order.
    pub fn on_input_key(&mut self, input_key: InputKey) -> (fired: Vec<u32>)
        requires
            old(self).wf(),
        ensures
            final(self).wf(),
            (input_key.opt == KeyOpt::Up ==> final(self)@ == up_state(old(self)@, input_key.key)
                && final(self)@.bindings == old(self)@.bindings
                && fired@ == Seq::<u32>::empty()),
            (input_key.opt == KeyOpt::Down ==> final(self)@ == down_state(old(self)@, input_key.key)
                && fired@ == down_fired(old(self)@, input_key.key)),
            (input_key.opt != KeyOpt::Up && input_key.opt != KeyOpt::Down ==> final(self)@ == old(
                self,
            )@ && fired@ == Seq::<u32>::empty()),
    {
        if input_key.opt == KeyOpt::Up {
            self.remove_holding(input_key.key);
            proof {
                assert(self@ =~= up_state(old(self)@, input_key.key));
            }
            Vec::new()
        } else if input_key.opt == KeyOpt::Down {
            self.insert_holding(input_key.key);
            let fired = self.update_next_match_keys(input_key.key);
            fired
        } else {
            Vec::new()
        }
    }
}

} // verus!

verus! {

/// One classified event applied to the engine's shape: Down presses, Up
/// releases, anything else is ignored.
pub open spec fn step_state(s: EngineSpec, e: InputKey) -> EngineSpec {
    if e.opt == KeyOpt::Down {
        down_state(s, e.key)
    } else if e.opt == KeyOpt::Up {
        up_state(s, e.key)
    } else {
        s
    }
}

/// What one classified event completes.
pub open spec fn step_fired(s: EngineSpec, e: InputKey) -> Seq<u32> {
    if e.opt == KeyOpt::Down {
        down_fired(s, e.key)
    } else {
        Seq::empty()
    }
}

/// The engine's shape after a whole sequence of events.
pub open spec fn run_state(s: EngineSpec, events: Seq<InputKey>) -> EngineSpec
    decreases events.len(),
{
    if events.len() == 0 {
        s
    } else {
        run_state(step_state(s, events.first()), events.drop_first())
    }
}

/// Everything a whole sequence of events completes, in delivery order.
pub open spec fn run_fired(s: EngineSpec, events: Seq<InputKey>) -> Seq<u32>
    decreases events.len(),
{
    if events.len() == 0 {
        Seq::empty()
    } else {
        step_fired(s, events.first()) + run_fired(step_state(s, events.first()), events.drop_first())
    }
}

proof fn lemma_fired_uids_empty(bs: Seq<BindingSpec>, key: KeyCode, holding: Set<KeyCode>, pending: bool)
    requires
        forall|i: int| 0 <= i < bs.len() ==> !fires(#[trigger] bs[i], key, holding, pending),
    ensures
        fired_uids(bs, key, holding, pending) == Seq::<u32>::empty(),
    decreases bs.len(),
{
    if bs.len() > 0 {
        assert(forall|i: int|
            0 <= i < bs.drop_last().len() ==> !fires(#[trigger] bs.drop_last()[i], key, holding, pending));
        lemma_fired_uids_empty(bs.drop_last(), key, holding, pending);
        assert(!fires(bs[bs.len() - 1], key, holding, pending));
    }
}

/// A completion id always names a registered binding whose chord this key
/// press completed.
pub proof fn lemma_fired_uids_exact(bs: Seq<BindingSpec>, key: KeyCode, holding: Set<KeyCode>, pending: bool, uid: u32)
    ensures
        fired_uids(bs, key, holding, pending).contains(uid) <==> exists|i: int|
            0 <= i < bs.len() && fires(#[trigger] bs[i], key, holding, pending) && bs[i].uid == uid,
    decreases bs.len(),
{
    if bs.len() > 0 {
        lemma_fired_uids_exact(bs.drop_last(), key, holding, pending, uid);
        let pre = fired_uids(bs.drop_last(), key, holding, pending);
        if fires(bs[bs.len() - 1], key, holding, pending) && bs[bs.len() - 1].uid == uid {
            assert(fired_uids(bs, key, holding, pending).contains(uid)) by {
                assert(fired_uids(bs, key, holding, pending) == pre.push(uid));
                assert(pre.push(uid)[pre.len() as int] == uid);
            }
        }
        if fired_uids(bs, key, holding, pending).contains(uid) {
            if fires(bs.last(), key, holding, pending) {
                assert(fired_uids(bs, key, holding, pending) == pre.push(bs.last().uid));
                let k = choose|k: int|
                    0 <= k < pre.push(bs.last().uid).len() && pre.push(bs.last().uid)[k] == uid;
                if k < pre.len() {
                    assert(pre.contains(uid));
                    let w = choose|w: int|
                        0 <= w < bs.drop_last().len()
                            && fires(#[trigger] bs.drop_last()[w], key, holding, pending)
                            && bs.drop_last()[w].uid == uid;
                    assert(fires(bs[w], key, holding, pending) && bs[w].uid == uid);
                } else {
                    assert(bs.last().uid == uid);
                    assert(fires(bs[bs.len() - 1], key, holding, pending) && bs[bs.len() - 1].uid == uid);
                }
            } else {
                assert(pre.contains(uid));
                let w = choose|w: int|
                    0 <= w < bs.drop_last().len()
                        && fires(#[trigger] bs.drop_last()[w], key, holding, pending)
                        && bs.drop_last()[w].uid == uid;
                assert(fires(bs[w], key, holding, pending) && bs[w].uid == uid);
            }
        } else {
            if exists|i: int|
                0 <= i < bs.len() && fires(#[trigger] bs[i], key, holding, pending) && bs[i].uid == uid {
                let w = choose|w: int|
                    0 <= w < bs.len() && fires(#[trigger] bs[w], key, holding, pending) && bs[w].uid == uid;
                if w < bs.len() - 1 {
                    assert(bs.drop_last()[w] == bs[w]);
                    assert(pre.contains(uid));
                    if fires(bs.last(), key, holding, pending) {
                        let k = choose|k: int| 0 <= k < pre.len() && pre[k] == uid;
                        assert(pre.push(bs.last().uid)[k] == uid);
                        assert(fired_uids(bs, key, holding, pending).contains(uid));
                    }
                    assert(false);
                } else {
                    assert(fires(bs.last(), key, holding, pending) && bs.last().uid == uid);
                    assert(fired_uids(bs, key, holding, pending) == pre.push(uid));
                    assert(pre.push(uid)[pre.len() as int] == uid);
                    assert(false);
                }
            }
        }
    }
}

/// A Down event whose key no candidate in the working index expects clears
/// every binding's progress and completes nothing: whatever chord was
/// forming must restart from its first step.
pub proof fn lemma_unmatched_key_clears(s: EngineSpec, key: KeyCode)
    requires
        forall|i: int|
            0 <= i < s.bindings.len() ==> !is_candidate(
                #[trigger] s.bindings[i],
                key,
                pending_active(s.bindings),
            ),
    ensures
        forall|i: int|
            0 <= i < down_state(s, key).bindings.len() ==> down_state(s, key).bindings[i].progress
                == 0,
        down_fired(s, key) == Seq::<u32>::empty(),
{
    let h = s.holding.insert(key);
    let pending = pending_active(s.bindings);
    assert(forall|i: int| 0 <= i < s.bindings.len() ==> !fires(#[trigger] s.bindings[i], key, h, pending));
    lemma_fired_uids_empty(s.bindings, key, h, pending);
    assert(forall|i: int|
        0 <= i < s.bindings.len() ==> stepped_progress(#[trigger] s.bindings[i], key, h, pending) == 0);
}

/// Holding any key beyond a step's exact required set prevents that step
/// from matching: the binding neither advances nor completes, and its
/// progress is cleared.
pub proof fn lemma_extra_held_key_blocks(s: EngineSpec, key: KeyCode, i: int, extra: KeyCode)
    requires
        s.wf(),
        0 <= i < s.bindings.len(),
        s.bindings[i].progress < s.bindings[i].chord.len(),
        s.holding.insert(key).contains(extra),
        !s.bindings[i].current_step().required_keys().contains(extra),
    ensures
        !advances(s.bindings[i], key, s.holding.insert(key), pending_active(s.bindings)),
        !down_fired(s, key).contains(s.bindings[i].uid),
        down_state(s, key).bindings[i].progress == 0,
{
    let h = s.holding.insert(key);
    let pending = pending_active(s.bindings);
    let b = s.bindings[i];
    assert(h != b.current_step().required_keys());
    assert(!advances(b, key, h, pending));
    lemma_fired_uids_exact(s.bindings, key, h, pending, b.uid);
    if down_fired(s, key).contains(b.uid) {
        let w = choose|w: int|
            0 <= w < s.bindings.len() && fires(#[trigger] s.bindings[w], key, h, pending)
                && s.bindings[w].uid == b.uid;
        if w != i {
            assert(s.bindings[w].uid != s.bindings[i].uid);
        }
        assert(false);
    }
    assert(stepped_progress(b, key, h, pending) == 0);
}

/// While no chord completes, every candidate whose step matched moves one
/// step forward: chords sharing a prefix all stay viable through it.
pub proof fn lemma_shared_prefix_stays_viable(s: EngineSpec, key: KeyCode, i: int)
    requires
        0 <= i < s.bindings.len(),
        advances(s.bindings[i], key, s.holding.insert(key), pending_active(s.bindings)),
        s.bindings[i].progress + 1 < s.bindings[i].chord.len(),
        down_fired(s, key) == Seq::<u32>::empty(),
    ensures
        down_state(s, key).bindings[i].progress == s.bindings[i].progress + 1,
{
}

/// The tie-break rule: the moment any chord completes, every binding
/// restarts from its first step — even one that advanced without completing
/// in the same key press.
pub proof fn lemma_tie_break_clears_all(s: EngineSpec, key: KeyCode)
    requires
        down_fired(s, key).len() > 0,
    ensures
        forall|i: int|
            0 <= i < down_state(s, key).bindings.len() ==> down_state(s, key).bindings[i].progress
                == 0,
{
}

/// Up events change only the held-key set: every binding, and in particular
/// its progress, stays exactly as it was.
pub proof fn lemma_up_touches_only_holding(s: EngineSpec, key: KeyCode)
    ensures
        up_state(s, key).bindings == s.bindings,
        up_state(s, key).holding == s.holding.remove(key),
{
}

proof fn lemma_step_keeps_uids(s: EngineSpec, e: InputKey)
    ensures
        step_state(s, e).bindings.len() == s.bindings.len(),
        forall|i: int|
            0 <= i < s.bindings.len() ==> step_state(s, e).bindings[i].uid == s.bindings[i].uid,
{
}

/// Once an id is not registered, no later event sequence can complete it:
/// only registered bindings fire, and events never register anything.
pub proof fn lemma_unbound_never_fires(s: EngineSpec, uid: u32, events: Seq<InputKey>)
    requires
        !has_uid(s.bindings, uid),
    ensures
        !run_fired(s, events).contains(uid),
    decreases events.len(),
{
    if events.len() > 0 {
        let e = events.first();
        let s1 = step_state(s, e);
        lemma_step_keeps_uids(s, e);
        assert(!has_uid(s1.bindings, uid)) by {
            if has_uid(s1.bindings, uid) {
                let w = choose|w: int| 0 <= w < s1.bindings.len() && s1.bindings[w].uid == uid;
                assert(s.bindings[w].uid == uid);
            }
        }
        lemma_unbound_never_fires(s1, uid, events.drop_first());
        assert(!step_fired(s, e).contains(uid)) by {
            if e.opt == KeyOpt::Down {
                let h = s.holding.insert(e.key);
                let pending = pending_active(s.bindings);
                lemma_fired_uids_exact(s.bindings, e.key, h, pending, uid);
                if down_fired(s, e.key).contains(uid) {
                    let w = choose|w: int|
                        0 <= w < s.bindings.len() && fires(#[trigger] s.bindings[w], e.key, h, pending)
                            && s.bindings[w].uid == uid;
                    assert(s.bindings[w].uid == uid);
                }
            }
        }
        assert forall|k: int| 0 <= k < run_fired(s, events).len()
            implies run_fired(s, events)[k] != uid by {
            if k < step_fired(s, e).len() {
                assert(step_fired(s, e).contains(step_fired(s, e)[k]));
            } else {
                let rest = run_fired(s1, events.drop_first());
                assert(rest.contains(rest[k - step_fired(s, e).len()]));
            }
        }
        if run_fired(s, events).contains(uid) {
            let k = choose|k: int|
                0 <= k < run_fired(s, events).len() && run_fired(s, events)[k] == uid;
        }
    }
}

} // verus!

verus! {

/// The engine's shape after delivering a chord's own Down-event sequence
/// from step `i` on, with each step's exact required held-key set present at
/// its key press (the keys held are exactly the step's modifiers just before
/// its primary key goes down).
pub open spec fn chord_run_state(s: EngineSpec, chord: Seq<StepSpec>, i: int) -> EngineSpec
    decreases chord.len() - i,
{
    if i < 0 || i >= chord.len() {
        s
    } else {
        chord_run_state(
            down_state(EngineSpec { bindings: s.bindings, holding: chord[i].mods }, chord[i].key),
            chord,
            i + 1,
        )
    }
}

/// What that delivery completes, in order.
pub open spec fn chord_run_fired(s: EngineSpec, chord: Seq<StepSpec>, i: int) -> Seq<u32>
    decreases chord.len() - i,
{
    if i < 0 || i >= chord.len() {
        Seq::empty()
    } else {
        down_fired(EngineSpec { bindings: s.bindings, holding: chord[i].mods }, chord[i].key)
            + chord_run_fired(
            down_state(EngineSpec { bindings: s.bindings, holding: chord[i].mods }, chord[i].key),
            chord,
            i + 1,
        )
    }
}

proof fn lemma_chord_runs_through(uid: u32, chord: Seq<StepSpec>, i: int, h0: Set<KeyCode>)
    requires
        0 <= i < chord.len(),
    ensures
        ({
            let s = EngineSpec {
                bindings: seq![BindingSpec { uid, chord, progress: i as nat }],
                holding: h0,
            };
            chord_run_fired(s, chord, i) == seq![uid]
        }),
    decreases chord.len() - i,
{
    let s = EngineSpec {
        bindings: seq![BindingSpec { uid, chord, progress: i as nat }],
        holding: h0,
    };
    let b = s.bindings[0];
    let key = chord[i].key;
    let s_h = EngineSpec { bindings: s.bindings, holding: chord[i].mods };
    let h1 = chord[i].mods.insert(key);
    let pending = pending_active(s.bindings);
    if i > 0 {
        assert(pending) by {
            assert(s.bindings[0].progress > 0);
        }
    } else {
        assert(!pending) by {
            if pending {
                let w = choose|w: int| 0 <= w < s.bindings.len() && s.bindings[w].progress > 0;
                assert(w == 0);
            }
        }
    }
    assert(is_candidate(b, key, pending));
    assert(b.current_step() == chord[i]);
    assert(h1 == b.current_step().required_keys());
    assert(advances(b, key, h1, pending));
    let fired = fired_uids(s.bindings, key, h1, pending);
    assert(s.bindings.drop_last() =~= Seq::<BindingSpec>::empty());
    assert(s.bindings.drop_last() == Seq::<BindingSpec>::empty());
    assert(fired_uids(Seq::<BindingSpec>::empty(), key, h1, pending) == Seq::<u32>::empty());
    assert(fired_uids(s.bindings.drop_last(), key, h1, pending) == Seq::<u32>::empty());
    assert(s.bindings.last() == b);
    if i + 1 == chord.len() {
        assert(fires(b, key, h1, pending));
        assert(fired == Seq::<u32>::empty().push(uid));
        assert(down_fired(s_h, key) =~= seq![uid]);
        assert(chord_run_fired(s, chord, i) =~= down_fired(s_h, key) + chord_run_fired(
            down_state(s_h, key),
            chord,
            i + 1,
        ));
        assert(chord_run_fired(down_state(s_h, key), chord, i + 1) == Seq::<u32>::empty());
        assert(chord_run_fired(s, chord, i) =~= seq![uid]);
    } else {
        assert(!fires(b, key, h1, pending));
        assert(fired =~= Seq::<u32>::empty());
        assert(down_fired(s_h, key) =~= Seq::<u32>::empty());
        let s1 = down_state(s_h, key);
        assert(stepped_progress(b, key, h1, pending) == i + 1);
        assert(s1.bindings =~= seq![BindingSpec { uid, chord, progress: (i + 1) as nat }]);
        assert(s1.holding == h1);
        assert(s1 =~= EngineSpec {
            bindings: seq![BindingSpec { uid, chord, progress: (i + 1) as nat }],
            holding: h1,
        });
        lemma_chord_runs_through(uid, chord, i + 1, h1);
        assert(chord_run_fired(s1, chord, i + 1) == seq![uid]);
        assert(chord_run_fired(s, chord, i) == down_fired(s_h, key) + chord_run_fired(s1, chord, i + 1));
        assert(chord_run_fired(s, chord, i) =~= seq![uid]);
    }
}

/// Binding any non-empty chord on a fresh engine and then delivering exactly
/// its Down-event sequence — each step's exact required held-key set present
/// — completes that binding exactly once.
pub proof fn lemma_chord_fires_exactly_once(uid: u32, chord: Seq<StepSpec>, h0: Set<KeyCode>)
    requires
        chord.len() > 0,
    ensures
        chord_run_fired(
            EngineSpec { bindings: seq![BindingSpec { uid, chord, progress: 0 }], holding: h0 },
            chord,
            0,
        ) == seq![uid],
{
    lemma_chord_runs_through(uid, chord, 0, h0);
}

} // verus!
