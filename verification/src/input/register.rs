//! The register of key bindings.
//!
//! A binding maps a mode and a sequence of keys to an action. Keys arrive one
//! at a time; the register keeps those received since the last sequence was
//! resolved or given up, and resolves a sequence once no other binding of the
//! mode begins with it.
use crate::actions::Action;
use crate::input::key::Key;
use crate::state::mode::EditorMode;
use vstd::prelude::*;
use vstd::std_specs::convert::IntoSpec;

verus! {

/// The mode and the key sequence of a binding.
#[derive(Clone, Debug, PartialEq, Eq, Hash)]
pub struct RegisterKey {
    pub keys: Vec<Key>,
    pub mode: EditorMode,
}

impl View for RegisterKey {
    type V = (EditorMode, Seq<Key>);

    open spec fn view(&self) -> (EditorMode, Seq<Key>) {
        (self.mode, self.keys@)
    }
}

impl RegisterKey {
    /// The key of a binding in `mode`.
    pub fn new(keys: Vec<Key>, mode: EditorMode) -> (key: RegisterKey)
        ensures
            key@ == (mode, keys@),
    {
        RegisterKey { keys, mode }
    }

    /// The key of a binding in normal mode.
    pub fn n(keys: Vec<Key>) -> (key: RegisterKey)
        ensures
            key@ == (EditorMode::Normal, keys@),
    {
        RegisterKey { keys, mode: EditorMode::Normal }
    }

    /// The key of a binding in visual mode.
    pub fn v(keys: Vec<Key>) -> (key: RegisterKey)
        ensures
            key@ == (EditorMode::Visual, keys@),
    {
        RegisterKey { keys, mode: EditorMode::Visual }
    }

    /// The key of a binding in insert mode.
    pub fn i(keys: Vec<Key>) -> (key: RegisterKey)
        ensures
            key@ == (EditorMode::Insert, keys@),
    {
        RegisterKey { keys, mode: EditorMode::Insert }
    }

    /// The key of a binding in search mode.
    pub fn s(keys: Vec<Key>) -> (key: RegisterKey)
        ensures
            key@ == (EditorMode::Search, keys@),
    {
        RegisterKey { keys, mode: EditorMode::Search }
    }

    /// The key of a binding in command mode.
    pub fn c(keys: Vec<Key>) -> (key: RegisterKey)
        ensures
            key@ == (EditorMode::Command, keys@),
    {
        RegisterKey { keys, mode: EditorMode::Command }
    }
}

/// Whether `keys` begins with `prefix`.
fn starts_with(keys: &Vec<Key>, prefix: &Vec<Key>) -> (b: bool)
    ensures
        b == prefix@.is_prefix_of(keys@),
{
    if prefix.len() > keys.len() {
        return false;
    }
    let mut i: usize = 0;
    while i < prefix.len()
        invariant
            i <= prefix.len() <= keys.len(),
            forall|j: int| 0 <= j < i ==> prefix@[j] == keys@[j],
        decreases prefix.len() - i,
    {
        if prefix[i] != keys[i] {
            return false;
        }
        i += 1;
    }
    assert(prefix@ =~= keys@.subrange(0, prefix@.len() as int));
    true
}

/// One binding: its key and its action.
pub struct Binding<I> {
    pub key: RegisterKey,
    pub action: Action<I>,
}

/// What the register makes of a key sequence.
pub enum Resolution<I> {
    /// No binding of the mode begins with the sequence.
    Unknown,
    /// Bindings of the mode begin with the sequence, and it is not the one
    /// binding that does.
    Pending,
    /// The sequence is a binding of the mode, and no other binding of the mode
    /// begins with it.
    Resolved(Action<I>),
}

/// Whether a binding of `mode` begins with `keys`.
pub open spec fn is_begun<I>(
    bindings: Map<(EditorMode, Seq<Key>), Action<I>>,
    mode: EditorMode,
    keys: Seq<Key>,
) -> bool {
    exists|k: (EditorMode, Seq<Key>)| #[trigger]
        bindings.dom().contains(k) && k.0 == mode && keys.is_prefix_of(k.1)
}

/// Whether `keys` is a binding of `mode` and the only one that begins with
/// `keys`.
pub open spec fn is_settled<I>(
    bindings: Map<(EditorMode, Seq<Key>), Action<I>>,
    mode: EditorMode,
    keys: Seq<Key>,
) -> bool {
    &&& bindings.dom().contains((mode, keys))
    &&& forall|k: (EditorMode, Seq<Key>)| #[trigger]
        bindings.dom().contains(k) && k.0 == mode && keys.is_prefix_of(k.1) ==> k.1 == keys
}

/// What the bindings make of `keys` in `mode`.
pub open spec fn resolve<I>(
    bindings: Map<(EditorMode, Seq<Key>), Action<I>>,
    mode: EditorMode,
    keys: Seq<Key>,
) -> Resolution<I> {
    if !is_begun(bindings, mode, keys) {
        Resolution::Unknown
    } else if is_settled(bindings, mode, keys) {
        Resolution::Resolved(bindings[(mode, keys)])
    } else {
        Resolution::Pending
    }
}

/// The keys that the register keeps after it has seen `keys`: none once the
/// sequence is resolved or unknown, all of them while it is pending.
pub open spec fn kept<I>(
    bindings: Map<(EditorMode, Seq<Key>), Action<I>>,
    mode: EditorMode,
    keys: Seq<Key>,
) -> Seq<Key> {
    if resolve(bindings, mode, keys) is Pending {
        keys
    } else {
        Seq::empty()
    }
}

/// The register of key bindings and the keys received so far.
pub struct Register<I> {
    pub lookup: Vec<Key>,
    pub register: Vec<Binding<I>>,
}

impl<I> Register<I> {
    /// No two bindings have the same mode and key sequence.
    pub open spec fn wf(&self) -> bool {
        forall|i: int, j: int|
            0 <= i < j < self.register@.len() ==> (#[trigger] self.register@[i]).key@
                != (#[trigger] self.register@[j]).key@
    }

    /// The bindings: the action for each mode and key sequence that has one.
    pub open spec fn bindings(&self) -> Map<(EditorMode, Seq<Key>), Action<I>> {
        Map::new(
            |k: (EditorMode, Seq<Key>)|
                exists|i: int| 0 <= i < self.register@.len() && (#[trigger] self.register@[i]).key@ == k,
            |k: (EditorMode, Seq<Key>)|
                self.register@[choose|i: int|
                    0 <= i < self.register@.len() && (#[trigger] self.register@[i]).key@ == k].action,
        )
    }

    /// Constructs a new Register
    #[must_use]
    pub fn new() -> (register: Register<I>)
        ensures
            register.wf(),
            register.lookup@ == Seq::<Key>::empty(),
            register.bindings() == Map::<(EditorMode, Seq<Key>), Action<I>>::empty(),
    {
        let register = Register { lookup: Vec::new(), register: Vec::new() };
        assert(register.bindings() =~= Map::<(EditorMode, Seq<Key>), Action<I>>::empty());
        register
    }

    /// Finds the binding with the given mode and key sequence.
    fn position(&self, key: &RegisterKey) -> (found: Option<usize>)
        ensures
            found is Some ==> found->0 < self.register@.len() && self.register@[found->0 as int].key@
                == key@,
            found is None ==> forall|i: int|
                0 <= i < self.register@.len() ==> (#[trigger] self.register@[i]).key@ != key@,
    {
        let mut i: usize = 0;
        while i < self.register.len()
            invariant
                i <= self.register.len(),
                forall|j: int| 0 <= j < i ==> (#[trigger] self.register@[j]).key@ != key@,
            decreases self.register.len() - i,
        {
            let entry = &self.register[i];
            if entry.key.mode == key.mode && entry.key.keys.len() == key.keys.len() && starts_with(
                &entry.key.keys,
                &key.keys,
            ) {
                assert(entry.key.keys@ =~= key.keys@);
                return Some(i);
            }
            i += 1;
        }
        None
    }

    /// Insert a new callback to the registry
    ///
    /// A binding with the same mode and key sequence is replaced.
    pub fn insert<T: Into<Action<I>>>(&mut self, k: RegisterKey, v: T)
        requires
            old(self).wf(),
        ensures
            final(self).wf(),
            final(self).lookup@ == old(self).lookup@,
            exists|action: Action<I>|
                final(self).bindings() == old(self).bindings().insert(k@, action),
            <T as IntoSpec<Action<I>>>::obeys_into_spec() ==> final(self).bindings() == old(
                self,
            ).bindings().insert(k@, v.into_spec()),
    {
        let action: Action<I> = v.into();
        self.bind(k, action);
    }

    /// Binds a mode and key sequence to an action. A binding with the same
    /// mode and key sequence is replaced.
    pub fn bind(&mut self, k: RegisterKey, v: Action<I>)
        requires
            old(self).wf(),
        ensures
            final(self).wf(),
            final(self).lookup@ == old(self).lookup@,
            final(self).bindings() == old(self).bindings().insert(k@, v),
    {
        let ghost key = k@;
        match self.position(&k) {
            Some(i) => {
                self.register.set(i, Binding { key: k, action: v });
                assert forall|q: (EditorMode, Seq<Key>)|
                    self.bindings().dom().contains(q) == old(self).bindings().insert(
                        key,
                        v,
                    ).dom().contains(q) by {
                    if self.bindings().dom().contains(q) {
                        let j = choose|j: int|
                            0 <= j < self.register@.len() && (#[trigger] self.register@[j]).key@
                                == q;
                        assert(old(self).register@[j].key@ == q);
                    }
                    if old(self).bindings().insert(key, v).dom().contains(q) {
                        if q == key {
                            assert(self.register@[i as int].key@ == q);
                        } else {
                            let j = choose|j: int|
                                0 <= j < old(self).register@.len() && (#[trigger] old(self).register@[j]).key@ == q;
                            assert(self.register@[j].key@ == q);
                        }
                    }
                }
                assert forall|q: (EditorMode, Seq<Key>)| #[trigger]
                    self.bindings().dom().contains(q) implies self.bindings()[q] == old(self).bindings().insert(key, v)[q] by {
                    let j = choose|j: int|
                        0 <= j < self.register@.len() && (#[trigger] self.register@[j]).key@ == q;
                    if q != key {
                        let l = choose|l: int|
                            0 <= l < old(self).register@.len() && (#[trigger] old(self).register@[l]).key@ == q;
                        assert(old(self).register@[j].key@ == q);
                        assert(j == l);
                    } else {
                        assert(j == i);
                    }
                }
                assert(self.bindings() =~= old(self).bindings().insert(key, v));
            },
            None => {
                self.register.push(Binding { key: k, action: v });
                let ghost last = self.register@.len() - 1;
                assert forall|q: (EditorMode, Seq<Key>)|
                    self.bindings().dom().contains(q) == old(self).bindings().insert(
                        key,
                        v,
                    ).dom().contains(q) by {
                    if self.bindings().dom().contains(q) {
                        let j = choose|j: int|
                            0 <= j < self.register@.len() && (#[trigger] self.register@[j]).key@
                                == q;
                        if j < last {
                            assert(old(self).register@[j].key@ == q);
                        }
                    }
                    if old(self).bindings().insert(key, v).dom().contains(q) {
                        if q == key {
                            assert(self.register@[last].key@ == q);
                        } else {
                            let j = choose|j: int|
                                0 <= j < old(self).register@.len() && (#[trigger] old(self).register@[j]).key@ == q;
                            assert(self.register@[j].key@ == q);
                        }
                    }
                }
                assert forall|q: (EditorMode, Seq<Key>)| #[trigger]
                    self.bindings().dom().contains(q) implies self.bindings()[q] == old(self).bindings().insert(key, v)[q] by {
                    let j = choose|j: int|
                        0 <= j < self.register@.len() && (#[trigger] self.register@[j]).key@ == q;
                    if q != key {
                        let l = choose|l: int|
                            0 <= l < old(self).register@.len() && (#[trigger] old(self).register@[l]).key@ == q;
                        assert(self.register@[l].key@ == q);
                        assert(j == l);
                    } else {
                        assert(j == last);
                    }
                }
                assert(self.bindings() =~= old(self).bindings().insert(key, v));
            },
        }
    }

    /// Takes one more key and says what the keys received so far resolve to.
    ///
    /// Returns the index of the binding only if there is an exact match and no
    /// other binding of the mode begins with the keys. If there are several
    /// matches or an inexact match, the key is kept for the next call. If
    /// there is an exact match or if no binding of the mode begins with the
    /// keys, the keys kept are dropped.
    pub fn resolve_key(&mut self, c: Key, mode: EditorMode) -> (found: Option<usize>)
        requires
            old(self).wf(),
        ensures
            final(self).wf(),
            final(self).register == old(self).register,
            final(self).lookup@ == kept(old(self).bindings(), mode, old(self).lookup@.push(c)),
            match resolve(old(self).bindings(), mode, old(self).lookup@.push(c)) {
                Resolution::Resolved(action) => found is Some && found->0 < final(self).register@.len() && final(self).register@[found->0 as int].action == action,
                _ => found is None,
            },
    {
        self.lookup.push(c);
        let ghost keys = self.lookup@;
        let ghost bindings = self.bindings();
        let mut begun: usize = 0;
        let mut exact: Option<usize> = None;
        let mut other: bool = false;
        let ghost mut first: int = 0;
        let ghost mut second: int = 0;
        let mut i: usize = 0;
        while i < self.register.len()
            invariant
                i <= self.register.len(),
                self.wf(),
                self.lookup@ == keys,
                self.register == old(self).register,
                begun <= i,
                begun == 0 ==> forall|j: int|
                    0 <= j < i ==> !((#[trigger] self.register@[j]).key.mode == mode
                        && keys.is_prefix_of(self.register@[j].key.keys@)),
                begun > 0 ==> 0 <= first < i && self.register@[first].key.mode == mode
                    && keys.is_prefix_of(self.register@[first].key.keys@),
                exact is Some ==> exact->0 < i && self.register@[exact->0 as int].key@ == (
                    mode,
                    keys,
                ),
                exact is None ==> forall|j: int|
                    0 <= j < i ==> (#[trigger] self.register@[j]).key@ != (mode, keys),
                other ==> 0 <= second < i && self.register@[second].key.mode == mode
                    && keys.is_prefix_of(self.register@[second].key.keys@)
                    && self.register@[second].key.keys@ != keys,
                !other ==> forall|j: int|
                    0 <= j < i && (#[trigger] self.register@[j]).key.mode == mode
                        && keys.is_prefix_of(self.register@[j].key.keys@)
                        ==> self.register@[j].key.keys@ == keys,
            decreases self.register.len() - i,
        {
            let entry = &self.register[i];
            if entry.key.mode == mode && starts_with(&entry.key.keys, &self.lookup) {
                begun += 1;
                proof {
                    first = i as int;
                }
                if entry.key.keys.len() == self.lookup.len() {
                    assert(entry.key.keys@ =~= keys);
                    exact = Some(i);
                } else {
                    other = true;
                    proof {
                        second = i as int;
                    }
                }
            }
            i += 1;
        }
        proof {
            if begun > 0 {
                assert(bindings.dom().contains(self.register@[first].key@));
            } else {
                assert forall|k: (EditorMode, Seq<Key>)| #[trigger]
                    bindings.dom().contains(k) implies !(k.0 == mode && keys.is_prefix_of(
                    k.1,
                )) by {
                    let j = choose|j: int|
                        0 <= j < self.register@.len() && (#[trigger] self.register@[j]).key@ == k;
                }
            }
            if other {
                assert(bindings.dom().contains(self.register@[second].key@));
            }
            if exact is Some {
                assert(bindings.dom().contains(self.register@[exact->0 as int].key@));
                let j = choose|j: int|
                    0 <= j < self.register@.len() && (#[trigger] self.register@[j]).key@ == (
                        mode,
                        keys,
                    );
                assert(j == exact->0);
            }
            if exact is Some && !other {
                assert forall|k: (EditorMode, Seq<Key>)| #[trigger]
                    bindings.dom().contains(k) && k.0 == mode && keys.is_prefix_of(
                        k.1,
                    ) implies k.1 == keys by {
                    let j = choose|j: int|
                        0 <= j < self.register@.len() && (#[trigger] self.register@[j]).key@ == k;
                }
            }
            if exact is None {
                assert(!bindings.dom().contains((mode, keys)));
            }
        }
        if begun == 0 {
            self.lookup.clear();
            None
        } else if exact.is_some() && !other {
            self.lookup.clear();
            exact
        } else {
            None
        }
    }

    /// The action of the binding at `index`.
    pub fn action(&self, index: usize) -> (action: &Action<I>)
        requires
            index < self.register@.len(),
        ensures
            *action == self.register@[index as int].action,
    {
        &self.register[index].action
    }

    /// Returns an action for a specific register key, if present.
    /// Returns an action only if there is an exact match. If there
    /// are multiple matches or an inexact match, the specified key
    /// is appended to the lookup vector.
    /// If there is an exact match or if none of the keys in the registry
    /// starts with the current sequence, the lookup sequence is reset.
    #[must_use]
    pub fn get(&mut self, c: Key, mode: EditorMode) -> (found: Option<&Action<I>>)
        requires
            old(self).wf(),
        ensures
            final(self).wf(),
            final(self).register == old(self).register,
            final(self).lookup@ == kept(old(self).bindings(), mode, old(self).lookup@.push(c)),
            match resolve(old(self).bindings(), mode, old(self).lookup@.push(c)) {
                Resolution::Resolved(action) => found == Some(&action),
                _ => found is None,
            },
    {
        match self.resolve_key(c, mode) {
            Some(index) => Some(&self.register[index].action),
            None => None,
        }
    }
}

/// The keys that the register keeps after it has received `keys` one after
/// the other in `mode`, having kept `lookup` before.
pub open spec fn kept_after<I>(
    bindings: Map<(EditorMode, Seq<Key>), Action<I>>,
    mode: EditorMode,
    lookup: Seq<Key>,
    keys: Seq<Key>,
) -> Seq<Key>
    decreases keys.len(),
{
    if keys.len() == 0 {
        lookup
    } else {
        kept(
            bindings,
            mode,
            kept_after(bindings, mode, lookup, keys.drop_last()).push(keys.last()),
        )
    }
}

/// What the register answers to the last of `keys`, which it has received
/// one after the other in `mode`, having kept `lookup` before.
pub open spec fn answer_after<I>(
    bindings: Map<(EditorMode, Seq<Key>), Action<I>>,
    mode: EditorMode,
    lookup: Seq<Key>,
    keys: Seq<Key>,
) -> Resolution<I>
    recommends
        keys.len() > 0,
{
    resolve(
        bindings,
        mode,
        kept_after(bindings, mode, lookup, keys.drop_last()).push(keys.last()),
    )
}

/// Receiving two runs of keys one after the other is receiving the second
/// run with the keys kept after the first.
pub proof fn lemma_kept_after_both<I>(
    bindings: Map<(EditorMode, Seq<Key>), Action<I>>,
    mode: EditorMode,
    lookup: Seq<Key>,
    first: Seq<Key>,
    second: Seq<Key>,
)
    ensures
        kept_after(bindings, mode, lookup, first + second) == kept_after(
            bindings,
            mode,
            kept_after(bindings, mode, lookup, first),
            second,
        ),
    decreases second.len(),
{
    if second.len() == 0 {
        assert(first + second =~= first);
    } else {
        lemma_kept_after_both(bindings, mode, lookup, first, second.drop_last());
        assert((first + second).drop_last() =~= first + second.drop_last());
        assert((first + second).last() == second.last());
    }
}

/// Dispatch depends on the bindings, the mode and the keys alone. Once the
/// keys received have ended in an action or in a sequence that no binding
/// begins with, the register keeps no keys; and when the same keys are
/// received once more, each of them gets the answer that it got the first
/// time.
pub proof fn lemma_same_keys_same_answers<I>(
    bindings: Map<(EditorMode, Seq<Key>), Action<I>>,
    mode: EditorMode,
    keys: Seq<Key>,
    n: int,
)
    requires
        keys.len() > 0,
        !(answer_after(bindings, mode, Seq::empty(), keys) is Pending),
        0 < n <= keys.len(),
    ensures
        kept_after(bindings, mode, Seq::empty(), keys) == Seq::<Key>::empty(),
        answer_after(bindings, mode, Seq::empty(), keys + keys.take(n)) == answer_after(
            bindings,
            mode,
            Seq::empty(),
            keys.take(n),
        ),
        kept_after(bindings, mode, Seq::empty(), keys + keys.take(n)) == kept_after(
            bindings,
            mode,
            Seq::empty(),
            keys.take(n),
        ),
{
    let again = keys.take(n);
    lemma_kept_after_both(bindings, mode, Seq::empty(), keys, again);
    lemma_kept_after_both(bindings, mode, Seq::empty(), keys, again.drop_last());
    assert((keys + again).drop_last() =~= keys + again.drop_last());
    assert((keys + again).last() == again.last());
}

/// While a bound key sequence is being typed it is pending: after each of its
/// keys but the last, the register has kept exactly the keys typed so far.
pub proof fn lemma_prefix_is_pending<I>(
    bindings: Map<(EditorMode, Seq<Key>), Action<I>>,
    mode: EditorMode,
    keys: Seq<Key>,
    n: int,
)
    requires
        bindings.dom().contains((mode, keys)),
        0 <= n < keys.len(),
    ensures
        resolve(bindings, mode, keys.take(n)) is Pending,
        kept_after(bindings, mode, Seq::empty(), keys.take(n)) == keys.take(n),
    decreases n,
{
    let typed = keys.take(n);
    assert(typed.is_prefix_of(keys)) by {
        assert(typed =~= keys.subrange(0, typed.len() as int));
    }
    assert(is_begun(bindings, mode, typed));
    assert(!is_settled(bindings, mode, typed)) by {
        assert(keys.len() != typed.len());
    }
    if n > 0 {
        lemma_prefix_is_pending(bindings, mode, keys, n - 1);
        assert(typed.drop_last() =~= keys.take(n - 1));
        assert(keys.take(n - 1).push(typed.last()) =~= typed);
    } else {
        assert(typed =~= Seq::<Key>::empty());
    }
}

/// Dispatch does not depend on what was resolved before: once the register
/// keeps no keys, typing a bound key sequence that no other binding of the
/// mode continues resolves to the action bound to it, and leaves the register
/// without kept keys again.
pub proof fn lemma_bound_sequence_resolves<I>(
    bindings: Map<(EditorMode, Seq<Key>), Action<I>>,
    mode: EditorMode,
    keys: Seq<Key>,
)
    requires
        keys.len() > 0,
        is_settled(bindings, mode, keys),
    ensures
        resolve(
            bindings,
            mode,
            kept_after(bindings, mode, Seq::empty(), keys.drop_last()).push(keys.last()),
        ) == Resolution::Resolved(bindings[(mode, keys)]),
        kept_after(bindings, mode, Seq::empty(), keys) == Seq::<Key>::empty(),
{
    lemma_prefix_is_pending(bindings, mode, keys, keys.len() - 1);
    assert(keys.take(keys.len() - 1) =~= keys.drop_last());
    assert(keys.drop_last().push(keys.last()) =~= keys);
    assert(keys.is_prefix_of(keys)) by {
        assert(keys =~= keys.subrange(0, keys.len() as int));
    }
    assert(is_begun(bindings, mode, keys));
}

} // verus!
