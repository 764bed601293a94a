//! Virtual controllers and their key mappings.
//!
//! A `KeyMapping` is an association table from source key codes to
//! controller buttons with unique keys; a `VirtualController` is a
//! named controller together with its mapping. The synthetic output
//! device a controller emits on is owned by the unverified device
//! layer; this module holds the mapping logic and the decision of what
//! a controller emits for a routed key event.

use vstd::prelude::*;
use vstd::pervasive::VecAdditionalExecFns;

use crate::keys::{ButtonCode, RawEvent, EV_KEY};
use crate::keys::{
    KEY_A, KEY_D, KEY_DOWN, KEY_E, KEY_ENTER, KEY_I, KEY_J, KEY_K, KEY_L, KEY_LEFT, KEY_Q,
    KEY_RIGHT, KEY_S, KEY_SPACE, KEY_TAB, KEY_UP, KEY_W,
};
use crate::keys::spec_button_code;

verus! {

/// No source key occurs twice among the entries.
pub open spec fn unique_keys(s: Seq<(u16, ButtonCode)>) -> bool {
    forall|i: int, j: int| 0 <= i < j < s.len() ==> s[i].0 != s[j].0
}

/// The association a list of entries denotes: the first entry with the
/// key decides (with unique keys, the only one).
pub open spec fn lookup(s: Seq<(u16, ButtonCode)>, key: u16) -> Option<ButtonCode>
    decreases s.len(),
{
    if s.len() == 0 {
        None
    } else if s[0].0 == key {
        Some(s[0].1)
    } else {
        lookup(s.drop_first(), key)
    }
}

proof fn lemma_unique_drop_first(s: Seq<(u16, ButtonCode)>)
    requires
        unique_keys(s),
        s.len() > 0,
    ensures
        unique_keys(s.drop_first()),
{
    assert forall|i: int, j: int|
        0 <= i < j < s.drop_first().len() implies s.drop_first()[i].0 != s.drop_first()[j].0 by {
        assert(s.drop_first()[i] == s[i + 1]);
        assert(s.drop_first()[j] == s[j + 1]);
    }
}

/// A lookup misses exactly when no entry carries the key.
proof fn lemma_lookup_none(s: Seq<(u16, ButtonCode)>, key: u16)
    ensures
        (lookup(s, key) is None) <==> (forall|i: int| 0 <= i < s.len() ==> s[i].0 != key),
    decreases s.len(),
{
    if s.len() > 0 {
        lemma_lookup_none(s.drop_first(), key);
        if s[0].0 != key {
            assert forall|i: int| 0 <= i < s.drop_first().len() implies s.drop_first()[i] == s[i + 1] by {}
            if lookup(s, key) is None {
                assert forall|i: int| 0 <= i < s.len() implies s[i].0 != key by {
                    if i > 0 {
                        assert(s.drop_first()[i - 1] == s[i]);
                    }
                }
            } else {
                let i = choose|i: int| 0 <= i < s.drop_first().len() && s.drop_first()[i].0 == key;
                assert(s[i + 1].0 == key);
            }
        }
    }
}

/// With unique keys, an entry at any index decides the lookup.
proof fn lemma_lookup_at_index(s: Seq<(u16, ButtonCode)>, key: u16, i: int)
    requires
        unique_keys(s),
        0 <= i < s.len(),
        s[i].0 == key,
    ensures
        lookup(s, key) == Some(s[i].1),
    decreases i,
{
    if i == 0 {
    } else {
        assert(s[0].0 != s[i].0);
        lemma_unique_drop_first(s);
        assert(s.drop_first()[i - 1] == s[i]);
        lemma_lookup_at_index(s.drop_first(), key, i - 1);
    }
}

/// Replacing the entry that carries `key` rebinds `key` and nothing else.
proof fn lemma_lookup_update(s: Seq<(u16, ButtonCode)>, i: int, key: u16, b: ButtonCode, k2: u16)
    requires
        unique_keys(s),
        0 <= i < s.len(),
        s[i].0 == key,
    ensures
        lookup(s.update(i, (key, b)), k2) == (if k2 == key {
            Some(b)
        } else {
            lookup(s, k2)
        }),
    decreases i,
{
    let t = s.update(i, (key, b));
    if i == 0 {
        if k2 != key {
            assert(t.drop_first() =~= s.drop_first());
        }
    } else {
        assert(t[0] == s[0]);
        if s[0].0 == k2 {
        } else {
            assert(s[0].0 != s[i].0);
            lemma_unique_drop_first(s);
            assert(s.drop_first()[i - 1] == s[i]);
            lemma_lookup_update(s.drop_first(), i - 1, key, b, k2);
            assert(t.drop_first() =~= s.drop_first().update(i - 1, (key, b)));
        }
    }
}

/// Appending an entry binds its key only where the list did not.
proof fn lemma_lookup_push(s: Seq<(u16, ButtonCode)>, e: (u16, ButtonCode), k2: u16)
    ensures
        lookup(s.push(e), k2) == (if lookup(s, k2) is Some {
            lookup(s, k2)
        } else if e.0 == k2 {
            Some(e.1)
        } else {
            None::<ButtonCode>
        }),
    decreases s.len(),
{
    reveal_with_fuel(lookup, 3);
    if s.len() == 0 {
        assert(s.push(e)[0] == e);
        assert(s.push(e).drop_first() =~= Seq::<(u16, ButtonCode)>::empty());
        assert(lookup(s, k2) is None);
    } else {
        assert(s.push(e)[0] == s[0]);
        if s[0].0 == k2 {
        } else {
            lemma_lookup_push(s.drop_first(), e, k2);
            assert(s.push(e).drop_first() =~= s.drop_first().push(e));
        }
    }
}

/// A mapping from source key codes to controller buttons; each source
/// key is bound at most once.
pub struct KeyMapping {
    entries: Vec<(u16, ButtonCode)>,
}

impl View for KeyMapping {
    type V = Seq<(u16, ButtonCode)>;

    closed spec fn view(&self) -> Seq<(u16, ButtonCode)> {
        self.entries@
    }
}

impl KeyMapping {
    /// Well-formedness: no source key is bound twice.
    pub open spec fn wf(self) -> bool {
        unique_keys(self@)
    }

    /// The button a source key is bound to, if any.
    pub open spec fn spec_get(self, key: u16) -> Option<ButtonCode> {
        lookup(self@, key)
    }

    /// How many source keys are bound.
    pub open spec fn key_count(self) -> nat {
        self@.len()
    }

    /// An empty mapping.
    pub fn new() -> (r: KeyMapping)
        ensures
            r.wf(),
            r.key_count() == 0,
            forall|k: u16| (#[trigger] r.spec_get(k)) is None,
    {
        let r = KeyMapping { entries: Vec::new() };
        proof {
            assert forall|k: u16| r.spec_get(k) is None by {
                lemma_lookup_none(r@, k);
            }
        }
        r
    }

    /// The number of bound source keys.
    pub fn len(&self) -> (r: usize)
        ensures
            r == self.key_count(),
    {
        self.entries.len()
    }

    /// Looks a source key up.
    pub fn get(&self, key: u16) -> (r: Option<ButtonCode>)
        requires
            self.wf(),
        ensures
            r == self.spec_get(key),
    {
        let n = self.entries.len();
        let mut i: usize = 0;
        while i < n
            invariant
                self.wf(),
                n == self@.len(),
                i <= n,
                forall|j: int| 0 <= j < i ==> self@[j].0 != key,
            decreases n - i,
        {
            let (k, b) = self.entries[i];
            if k == key {
                proof {
                    lemma_lookup_at_index(self@, key, i as int);
                }
                return Some(b);
            }
            i += 1;
        }
        proof {
            lemma_lookup_none(self@, key);
        }
        None
    }

    /// Whether a source key is bound.
    pub fn contains_key(&self, key: u16) -> (r: bool)
        requires
            self.wf(),
        ensures
            r == (self.spec_get(key) is Some),
    {
        self.get(key).is_some()
    }

    /// Binds a source key to a button, replacing any earlier binding of
    /// the same key and leaving every other key unchanged.
    pub fn insert(&mut self, key: u16, button: ButtonCode)
        requires
            old(self).wf(),
        ensures
            final(self).wf(),
            final(self).spec_get(key) == Some(button),
            forall|k2: u16| k2 != key ==> #[trigger] final(self).spec_get(k2) == old(self).spec_get(k2),
            final(self).key_count() == (if old(self).spec_get(key) is Some {
                old(self).key_count()
            } else {
                old(self).key_count() + 1
            }),
    {
        let ghost s0 = self@;
        let n = self.entries.len();
        let mut i: usize = 0;
        while i < n
            invariant
                self@ == s0,
                old(self)@ == s0,
                unique_keys(s0),
                n == s0.len(),
                i <= n,
                forall|j: int| 0 <= j < i ==> s0[j].0 != key,
            decreases n - i,
        {
            let (k, _) = self.entries[i];
            if k == key {
                self.entries.set(i, (key, button));
                proof {
                    lemma_lookup_at_index(s0, key, i as int);
                    assert forall|k2: u16|
                        self.spec_get(k2) == (if k2 == key {
                            Some(button)
                        } else {
                            lookup(s0, k2)
                        }) by {
                        lemma_lookup_update(s0, i as int, key, button, k2);
                    }
                    assert forall|a: int, b: int|
                        0 <= a < b < self@.len() implies self@[a].0 != self@[b].0 by {
                        assert(self@[a].0 == s0[a].0);
                        assert(self@[b].0 == s0[b].0);
                    }
                }
                return ;
            }
            i += 1;
        }
        proof {
            lemma_lookup_none(s0, key);
        }
        self.entries.push((key, button));
        proof {
            assert(self@ == s0.push((key, button)));
            assert forall|k2: u16|
                self.spec_get(k2) == (if k2 == key {
                    Some(button)
                } else {
                    lookup(s0, k2)
                }) by {
                lemma_lookup_push(s0, (key, button), k2);
            }
            assert forall|a: int, b: int|
                0 <= a < b < self@.len() implies self@[a].0 != self@[b].0 by {
                if b < s0.len() {
                    assert(self@[a] == s0[a]);
                    assert(self@[b] == s0[b]);
                } else {
                    assert(self@[b] == (key, button));
                    assert(self@[a] == s0[a]);
                }
            }
        }
    }

    /// Unbinds everything.
    pub fn clear(&mut self)
        ensures
            final(self).wf(),
            final(self).key_count() == 0,
            forall|k: u16| (#[trigger] final(self).spec_get(k)) is None,
    {
        self.entries.clear();
        proof {
            assert forall|k: u16| self.spec_get(k) is None by {
                lemma_lookup_none(self@, k);
            }
        }
    }

    /// An independent copy with exactly the same bindings; what a
    /// session freezes at start.
    pub fn snapshot(&self) -> (r: KeyMapping)
        ensures
            r@ == self@,
    {
        let n = self.entries.len();
        let mut out: Vec<(u16, ButtonCode)> = Vec::new();
        let mut i: usize = 0;
        while i < n
            invariant
                n == self@.len(),
                i <= n,
                out@ == self@.take(i as int),
            decreases n - i,
        {
            out.push(self.entries[i]);
            proof {
                assert(out@ =~= self@.take(i + 1 as int));
            }
            i += 1;
        }
        proof {
            assert(out@ =~= self@);
        }
        KeyMapping { entries: out }
    }

    /// Decides well-formedness at run time, for callers outside the
    /// verified world.
    pub fn check_wf(&self) -> (r: bool)
        ensures
            r == self.wf(),
    {
        let n = self.entries.len();
        let mut i: usize = 0;
        while i < n
            invariant
                n == self@.len(),
                i <= n,
                forall|a: int, b: int| 0 <= a < b < i ==> self@[a].0 != self@[b].0,
            decreases n - i,
        {
            let mut j: usize = 0;
            while j < i
                invariant
                    n == self@.len(),
                    j <= i < n,
                    forall|a: int| 0 <= a < j ==> self@[a].0 != self@[i as int].0,
                decreases i - j,
            {
                if self.entries[j].0 == self.entries[i].0 {
                    return false;
                }
                j += 1;
            }
            i += 1;
        }
        true
    }
}

/// The source key each default-mapped key is bound to: WASD and the
/// arrow keys drive the D-pad, KLIJ the face buttons, Q and E the
/// shoulders, and Tab, Enter and Space the special row.
pub open spec fn spec_default_mapping(key: u16) -> Option<ButtonCode> {
    if key == KEY_W {
        Some(ButtonCode::DpadUp)
    } else if key == KEY_S {
        Some(ButtonCode::DpadDown)
    } else if key == KEY_A {
        Some(ButtonCode::DpadLeft)
    } else if key == KEY_D {
        Some(ButtonCode::DpadRight)
    } else if key == KEY_UP {
        Some(ButtonCode::DpadUp)
    } else if key == KEY_DOWN {
        Some(ButtonCode::DpadDown)
    } else if key == KEY_LEFT {
        Some(ButtonCode::DpadLeft)
    } else if key == KEY_RIGHT {
        Some(ButtonCode::DpadRight)
    } else if key == KEY_K {
        Some(ButtonCode::A)
    } else if key == KEY_L {
        Some(ButtonCode::B)
    } else if key == KEY_I {
        Some(ButtonCode::X)
    } else if key == KEY_J {
        Some(ButtonCode::Y)
    } else if key == KEY_Q {
        Some(ButtonCode::LeftShoulder)
    } else if key == KEY_E {
        Some(ButtonCode::RightShoulder)
    } else if key == KEY_TAB {
        Some(ButtonCode::Select)
    } else if key == KEY_ENTER {
        Some(ButtonCode::Start)
    } else if key == KEY_SPACE {
        Some(ButtonCode::Guide)
    } else {
        None
    }
}

/// A named virtual controller and the key mapping it claims source
/// keys through. The synthetic output device that carries its
/// emissions lives with the unverified device layer.
pub struct VirtualController {
    pub name: String,
    pub key_mapping: KeyMapping,
}

impl VirtualController {
    /// Well-formedness of the controller: its mapping binds each
    /// source key at most once.
    pub open spec fn wf(self) -> bool {
        self.key_mapping.wf()
    }

    /// A controller with no keys claimed yet.
    pub fn new(name: String) -> (r: VirtualController)
        ensures
            r.wf(),
            r.name@ == name@,
            r.key_mapping.key_count() == 0,
            forall|k: u16| (#[trigger] r.key_mapping.spec_get(k)) is None,
    {
        VirtualController { name, key_mapping: KeyMapping::new() }
    }

    /// Replaces the mapping by the fixed default table.
    pub fn apply_default_mapping(&mut self)
        requires
            old(self).wf(),
        ensures
            final(self).wf(),
            final(self).name@ == old(self).name@,
            forall|k: u16| #[trigger] final(self).key_mapping.spec_get(k) == spec_default_mapping(k),
            final(self).key_mapping.key_count() == 17,
    {
        self.key_mapping.clear();
        self.key_mapping.insert(KEY_W, ButtonCode::DpadUp);
        self.key_mapping.insert(KEY_S, ButtonCode::DpadDown);
        self.key_mapping.insert(KEY_A, ButtonCode::DpadLeft);
        self.key_mapping.insert(KEY_D, ButtonCode::DpadRight);
        self.key_mapping.insert(KEY_UP, ButtonCode::DpadUp);
        self.key_mapping.insert(KEY_DOWN, ButtonCode::DpadDown);
        self.key_mapping.insert(KEY_LEFT, ButtonCode::DpadLeft);
        self.key_mapping.insert(KEY_RIGHT, ButtonCode::DpadRight);
        self.key_mapping.insert(KEY_K, ButtonCode::A);
        self.key_mapping.insert(KEY_L, ButtonCode::B);
        self.key_mapping.insert(KEY_I, ButtonCode::X);
        self.key_mapping.insert(KEY_J, ButtonCode::Y);
        self.key_mapping.insert(KEY_Q, ButtonCode::LeftShoulder);
        self.key_mapping.insert(KEY_E, ButtonCode::RightShoulder);
        self.key_mapping.insert(KEY_TAB, ButtonCode::Select);
        self.key_mapping.insert(KEY_ENTER, ButtonCode::Start);
        self.key_mapping.insert(KEY_SPACE, ButtonCode::Guide);
    }

    /// What this controller hands its output device for a routed key
    /// event: the button's platform code with the physical value.
    pub fn handle_key_event(&self, controller_key: ButtonCode, value: i32) -> (r: RawEvent)
        ensures
            r == (RawEvent { etype: EV_KEY, code: spec_button_code(controller_key), value }),
    {
        RawEvent { etype: EV_KEY, code: controller_key.code(), value }
    }

    /// Records a captured binding: the first key pressed in `events`
    /// becomes the source key of `target`. Returns the key it bound,
    /// or `None` when the batch held no press (the caller then polls
    /// the next batch).
    pub fn bind_capture(&mut self, events: &Vec<RawEvent>, target: ButtonCode) -> (r: Option<u16>)
        requires
            old(self).wf(),
        ensures
            final(self).wf(),
            final(self).name@ == old(self).name@,
            r == crate::mapping::spec_first_press(events@),
            match r {
                Some(k) => {
                    &&& final(self).key_mapping.spec_get(k) == Some(target)
                    &&& forall|k2: u16| k2 != k ==> #[trigger] final(self).key_mapping.spec_get(
                        k2,
                    ) == old(self).key_mapping.spec_get(k2)
                },
                None => final(self).key_mapping == old(self).key_mapping,
            },
    {
        let captured = crate::mapping::first_key_press(events);
        match captured {
            Some(k) => {
                self.key_mapping.insert(k, target);
                Some(k)
            },
            None => None,
        }
    }

    /// The fixed catalog a controller offers for binding, with the
    /// prompt label of each button.
    pub fn get_available_button_mappings() -> (r: Vec<(ButtonCode, &'static str)>)
        ensures
            r@.len() == crate::keys::spec_button_catalog().len(),
            forall|i: int|
                0 <= i < r@.len() ==> {
                    &&& (#[trigger] r@[i]).0 == crate::keys::spec_button_catalog()[i]
                    &&& r@[i].1@ == crate::keys::spec_button_label(r@[i].0)
                },
    {
        let catalog = crate::keys::button_catalog();
        let mut out: Vec<(ButtonCode, &'static str)> = Vec::new();
        let mut i: usize = 0;
        let n = catalog.len();
        while i < n
            invariant
                n == catalog@.len(),
                catalog@ == crate::keys::spec_button_catalog(),
                i <= n,
                out@.len() == i,
                forall|j: int|
                    0 <= j < i ==> {
                        &&& (#[trigger] out@[j]).0 == catalog@[j]
                        &&& out@[j].1@ == crate::keys::spec_button_label(out@[j].0)
                    },
            decreases n - i,
        {
            let b = catalog[i];
            out.push((b, b.label()));
            i += 1;
        }
        out
    }
}

} // verus!
