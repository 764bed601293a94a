//! The per-session routing table and the dispatch decision.
//!
//! A `KeyRouter` is the immutable snapshot a session freezes at start:
//! one entry per registered controller, holding the controller's name
//! and a copy of its key mapping. For a raw event the router decides
//! the complete emission list: a claimed key event fans out to every
//! controller that claims it, in controller order and with the
//! physical value; everything else is forwarded verbatim to the
//! passthrough keyboard.

use vstd::prelude::*;

use crate::controller::{KeyMapping, VirtualController};
use crate::keys::{ButtonCode, RawEvent, EV_KEY};

verus! {

/// One registered controller as the session froze it at start.
pub struct ControllerSnapshot {
    pub name: String,
    pub mapping: KeyMapping,
}

/// What the dispatch loop does with one observed physical event.
#[derive(Clone, Copy, Debug, PartialEq, Eq, Structural)]
pub enum Emission {
    /// Emit `button` with the physical value on the controller with
    /// this index in the session's registration order.
    Controller { controller: usize, button: ButtonCode, value: i32 },
    /// Forward the event verbatim to the passthrough keyboard.
    Keyboard { event: RawEvent },
}

/// The (controller index, button) pairs that fire for `key`, among the
/// first `n` snapshots, in controller order.
pub open spec fn spec_targets_upto(
    snaps: Seq<ControllerSnapshot>,
    key: u16,
    n: int,
) -> Seq<(usize, ButtonCode)>
    decreases n,
{
    if n <= 0 {
        Seq::empty()
    } else {
        let pre = spec_targets_upto(snaps, key, n - 1);
        match snaps[n - 1].mapping.spec_get(key) {
            Some(b) => pre.push(((n - 1) as usize, b)),
            None => pre,
        }
    }
}

/// Every target among the first `n` snapshots names a controller below
/// `n` and the button that controller binds the key to.
proof fn lemma_targets_shape(snaps: Seq<ControllerSnapshot>, key: u16, n: int)
    requires
        0 <= n <= snaps.len(),
        n <= usize::MAX,
    ensures
        forall|j: int|
            0 <= j < spec_targets_upto(snaps, key, n).len() ==> {
                let t = #[trigger] spec_targets_upto(snaps, key, n)[j];
                0 <= t.0 < n && snaps[t.0 as int].mapping.spec_get(key) == Some(t.1)
            },
    decreases n,
{
    if n > 0 {
        lemma_targets_shape(snaps, key, n - 1);
        let pre = spec_targets_upto(snaps, key, n - 1);
        let ts = spec_targets_upto(snaps, key, n);
        assert forall|j: int|
            0 <= j < ts.len() implies {
            let t = #[trigger] ts[j];
            0 <= t.0 < n && snaps[t.0 as int].mapping.spec_get(key) == Some(t.1)
        } by {
            if j < pre.len() {
                assert(ts[j] == pre[j]);
            }
        }
    }
}

/// A controller that binds the key appears among the targets.
proof fn lemma_targets_member(
    snaps: Seq<ControllerSnapshot>,
    key: u16,
    n: int,
    i: int,
    b: ButtonCode,
)
    requires
        0 <= i < n <= snaps.len(),
        n <= usize::MAX,
        snaps[i].mapping.spec_get(key) == Some(b),
    ensures
        spec_targets_upto(snaps, key, n).contains((i as usize, b)),
    decreases n,
{
    let ts = spec_targets_upto(snaps, key, n);
    let pre = spec_targets_upto(snaps, key, n - 1);
    if i == n - 1 {
        assert(ts[pre.len() as int] == (i as usize, b));
    } else {
        lemma_targets_member(snaps, key, n - 1, i, b);
        let j = choose|j: int| 0 <= j < pre.len() && pre[j] == (i as usize, b);
        assert(ts[j] == (i as usize, b));
    }
}

/// Where no controller binds the key, there are no targets.
proof fn lemma_targets_empty(snaps: Seq<ControllerSnapshot>, key: u16, n: int)
    requires
        0 <= n <= snaps.len(),
        forall|i: int| 0 <= i < n ==> (#[trigger] snaps[i]).mapping.spec_get(key) is None,
    ensures
        spec_targets_upto(snaps, key, n).len() == 0,
    decreases n,
{
    if n > 0 {
        lemma_targets_empty(snaps, key, n - 1);
    }
}

/// Routers that freeze pointwise-equal mappings produce the same
/// targets.
proof fn lemma_targets_congruence(
    s1: Seq<ControllerSnapshot>,
    s2: Seq<ControllerSnapshot>,
    key: u16,
    n: int,
)
    requires
        forall|i: int, k: u16| 0 <= i < n ==> (#[trigger] s1[i].mapping.spec_get(k))
            == s2[i].mapping.spec_get(k),
    ensures
        spec_targets_upto(s1, key, n) == spec_targets_upto(s2, key, n),
    decreases n,
{
    if n > 0 {
        lemma_targets_congruence(s1, s2, key, n - 1);
    }
}

/// The frozen routing table of one session.
pub struct KeyRouter {
    snaps: Vec<ControllerSnapshot>,
}

impl KeyRouter {
    /// The frozen controller entries, in registration order.
    pub closed spec fn snapshots(self) -> Seq<ControllerSnapshot> {
        self.snaps@
    }

    /// How many controllers the session registered.
    pub open spec fn controller_count(self) -> nat {
        self.snapshots().len()
    }

    /// Well-formedness: every frozen mapping binds each key at most
    /// once.
    pub open spec fn wf(self) -> bool {
        forall|i: int| 0 <= i < self.snapshots().len() ==> (#[trigger] self.snapshots()[i]).mapping.wf()
    }

    /// Whether some registered controller claims the key.
    pub open spec fn spec_claimed(self, key: u16) -> bool {
        exists|i: int|
            0 <= i < self.snapshots().len() && (#[trigger] self.snapshots()[i]).mapping.spec_get(key)
                is Some
    }

    /// The ordered (controller index, button) pairs that fire for the
    /// key.
    pub open spec fn spec_targets(self, key: u16) -> Seq<(usize, ButtonCode)> {
        spec_targets_upto(self.snapshots(), key, self.snapshots().len() as int)
    }

    /// The router freezes exactly the given controllers: their names,
    /// and their mappings entry for entry.
    pub open spec fn is_snapshot_of(self, cs: Seq<VirtualController>) -> bool {
        &&& self.snapshots().len() == cs.len()
        &&& forall|i: int|
            0 <= i < cs.len() ==> {
                &&& self.snapshots()[i].name@ == (#[trigger] cs[i]).name@
                &&& self.snapshots()[i].mapping@ == cs[i].key_mapping@
            }
    }

    /// Freezes the registered controllers into a routing snapshot.
    pub fn build(controllers: &Vec<VirtualController>) -> (r: KeyRouter)
        requires
            forall|i: int| 0 <= i < controllers@.len() ==> (#[trigger] controllers@[i]).wf(),
        ensures
            r.wf(),
            r.is_snapshot_of(controllers@),
    {
        let n = controllers.len();
        let mut snaps: Vec<ControllerSnapshot> = Vec::new();
        let mut i: usize = 0;
        while i < n
            invariant
                n == controllers@.len(),
                forall|j: int| 0 <= j < n ==> (#[trigger] controllers@[j]).wf(),
                i <= n,
                snaps@.len() == i,
                forall|j: int|
                    0 <= j < i ==> {
                        &&& snaps@[j].name@ == (#[trigger] controllers@[j]).name@
                        &&& snaps@[j].mapping@ == controllers@[j].key_mapping@
                    },
            decreases n - i,
        {
            let c = &controllers[i];
            let snap = ControllerSnapshot { name: c.name.clone(), mapping: c.key_mapping.snapshot() };
            snaps.push(snap);
            i += 1;
        }
        proof {
            assert forall|j: int| 0 <= j < snaps@.len() implies (#[trigger] snaps@[j]).mapping.wf() by {
                assert(snaps@[j].mapping@ == controllers@[j].key_mapping@);
                assert(controllers@[j].wf());
            }
        }
        KeyRouter { snaps }
    }

    /// How many controllers the snapshot holds.
    pub fn len(&self) -> (r: usize)
        ensures
            r == self.controller_count(),
    {
        self.snaps.len()
    }

    /// The frozen name of the controller at an index; what the worker
    /// recreates the synthetic device under.
    pub fn name_of(&self, i: usize) -> (r: &String)
        requires
            i < self.controller_count(),
        ensures
            r@ == self.snapshots()[i as int].name@,
    {
        &self.snaps[i].name
    }

    /// Whether any registered controller claims the key.
    pub fn is_claimed(&self, key: u16) -> (r: bool)
        requires
            self.wf(),
        ensures
            r == self.spec_claimed(key),
    {
        let n = self.snaps.len();
        let mut i: usize = 0;
        while i < n
            invariant
                self.wf(),
                n == self.snapshots().len(),
                i <= n,
                forall|j: int| 0 <= j < i ==> (#[trigger] self.snapshots()[j]).mapping.spec_get(key)
                    is None,
            decreases n - i,
        {
            if self.snaps[i].mapping.contains_key(key) {
                return true;
            }
            i += 1;
        }
        false
    }

    /// The ordered (controller index, button) pairs that fire for the
    /// key.
    pub fn targets(&self, key: u16) -> (r: Vec<(usize, ButtonCode)>)
        requires
            self.wf(),
        ensures
            r@ == self.spec_targets(key),
    {
        let n = self.snaps.len();
        let mut out: Vec<(usize, ButtonCode)> = Vec::new();
        let mut i: usize = 0;
        while i < n
            invariant
                self.wf(),
                n == self.snapshots().len(),
                i <= n,
                out@ == spec_targets_upto(self.snapshots(), key, i as int),
            decreases n - i,
        {
            match self.snaps[i].mapping.get(key) {
                Some(b) => {
                    out.push((i, b));
                },
                None => {},
            }
            i += 1;
        }
        out
    }
}

/// The complete emission list for one physical event: fan-out to every
/// claiming controller, or verbatim passthrough.
pub open spec fn spec_route(r: KeyRouter, ev: RawEvent) -> Seq<Emission> {
    if ev.spec_is_key() && r.spec_claimed(ev.code) {
        r.spec_targets(ev.code).map_values(
            |t: (usize, ButtonCode)|
                Emission::Controller { controller: t.0, button: t.1, value: ev.value },
        )
    } else {
        seq![Emission::Keyboard { event: ev }]
    }
}

/// Routes one physical event.
pub fn route_event(router: &KeyRouter, ev: RawEvent) -> (r: Vec<Emission>)
    requires
        router.wf(),
    ensures
        r@ == spec_route(*router, ev),
{
    if ev.is_key() && router.is_claimed(ev.code) {
        let ts = router.targets(ev.code);
        let n = ts.len();
        let mut out: Vec<Emission> = Vec::new();
        let mut j: usize = 0;
        while j < n
            invariant
                n == ts@.len(),
                ts@ == router.spec_targets(ev.code),
                j <= n,
                out@.len() == j,
                forall|q: int|
                    0 <= q < j ==> out@[q] == (Emission::Controller {
                        controller: ts@[q].0,
                        button: ts@[q].1,
                        value: ev.value,
                    }),
            decreases n - j,
        {
            let (idx, b) = ts[j];
            out.push(Emission::Controller { controller: idx, button: b, value: ev.value });
            j += 1;
        }
        proof {
            assert(out@ =~= spec_route(*router, ev));
        }
        out
    } else {
        let mut out: Vec<Emission> = Vec::new();
        out.push(Emission::Keyboard { event: ev });
        proof {
            assert(out@ =~= seq![Emission::Keyboard { event: ev }]);
        }
        out
    }
}

/// The emission lists of a whole observed stream, in stream order.
pub open spec fn spec_route_all(r: KeyRouter, evs: Seq<RawEvent>) -> Seq<Emission>
    decreases evs.len(),
{
    if evs.len() == 0 {
        Seq::empty()
    } else {
        spec_route(r, evs[0]) + spec_route_all(r, evs.drop_first())
    }
}

/// Routes a batch of physical events, preserving their order.
pub fn route_events(router: &KeyRouter, events: &Vec<RawEvent>) -> (r: Vec<Emission>)
    requires
        router.wf(),
    ensures
        r@ == spec_route_all(*router, events@),
{
    let n = events.len();
    let mut out: Vec<Emission> = Vec::new();
    let mut i: usize = 0;
    proof {
        assert(events@.skip(0) =~= events@);
        assert(out@ + spec_route_all(*router, events@.skip(0)) =~= spec_route_all(*router, events@));
    }
    while i < n
        invariant
            router.wf(),
            n == events@.len(),
            i <= n,
            out@ + spec_route_all(*router, events@.skip(i as int)) == spec_route_all(
                *router,
                events@,
            ),
        decreases n - i,
    {
        let ghost pre = out@;
        let ev = events[i];
        let mut ems = route_event(router, ev);
        proof {
            assert(events@.skip(i as int)[0] == events@[i as int]);
            assert(events@.skip(i as int).drop_first() =~= events@.skip(i + 1 as int));
        }
        out.append(&mut ems);
        proof {
            assert(out@ + spec_route_all(*router, events@.skip(i + 1 as int)) =~= pre
                + spec_route_all(*router, events@.skip(i as int)));
        }
        i += 1;
    }
    proof {
        assert(events@.skip(n as int) =~= Seq::<RawEvent>::empty());
        assert(out@ =~= spec_route_all(*router, events@));
    }
    out
}

/// The events an emission list forwards to the passthrough keyboard,
/// in emission order.
pub open spec fn spec_keyboard_out(ems: Seq<Emission>) -> Seq<RawEvent>
    decreases ems.len(),
{
    if ems.len() == 0 {
        Seq::empty()
    } else {
        match ems[0] {
            Emission::Keyboard { event } => seq![event] + spec_keyboard_out(ems.drop_first()),
            Emission::Controller { .. } => spec_keyboard_out(ems.drop_first()),
        }
    }
}

/// The physical events a router does not claim, in stream order: what
/// the passthrough keyboard is owed.
pub open spec fn spec_forwarded(r: KeyRouter, evs: Seq<RawEvent>) -> Seq<RawEvent>
    decreases evs.len(),
{
    if evs.len() == 0 {
        Seq::empty()
    } else {
        let rest = spec_forwarded(r, evs.drop_first());
        if evs[0].spec_is_key() && r.spec_claimed(evs[0].code) {
            rest
        } else {
            seq![evs[0]] + rest
        }
    }
}

proof fn lemma_keyboard_out_concat(a: Seq<Emission>, b: Seq<Emission>)
    ensures
        spec_keyboard_out(a + b) == spec_keyboard_out(a) + spec_keyboard_out(b),
    decreases a.len(),
{
    if a.len() == 0 {
        assert(a + b =~= b);
        assert(spec_keyboard_out(a) + spec_keyboard_out(b) =~= spec_keyboard_out(b));
    } else {
        lemma_keyboard_out_concat(a.drop_first(), b);
        assert((a + b)[0] == a[0]);
        assert((a + b).drop_first() =~= a.drop_first() + b);
        match a[0] {
            Emission::Keyboard { event } => {
                assert(seq![event] + (spec_keyboard_out(a.drop_first()) + spec_keyboard_out(b))
                    =~= (seq![event] + spec_keyboard_out(a.drop_first())) + spec_keyboard_out(b));
            },
            Emission::Controller { .. } => {},
        }
    }
}

proof fn lemma_keyboard_out_all_controllers(ems: Seq<Emission>)
    requires
        forall|j: int| 0 <= j < ems.len() ==> (#[trigger] ems[j]) is Controller,
    ensures
        spec_keyboard_out(ems).len() == 0,
    decreases ems.len(),
{
    if ems.len() > 0 {
        assert forall|j: int| 0 <= j < ems.drop_first().len() implies (#[trigger] ems.drop_first()[j])
            is Controller by {
            assert(ems.drop_first()[j] == ems[j + 1]);
        }
        lemma_keyboard_out_all_controllers(ems.drop_first());
    }
}

/// A key event claimed by the controller at index `i` (mapping the key
/// to `b`) is emitted as `b` with the physical value on that
/// controller, and nothing of it reaches the passthrough keyboard.
pub proof fn lemma_claimed_key_routes_to_controller(
    r: KeyRouter,
    i: int,
    key: u16,
    b: ButtonCode,
    value: i32,
)
    requires
        0 <= i < r.controller_count(),
        r.controller_count() <= usize::MAX,
        r.snapshots()[i].mapping.spec_get(key) == Some(b),
    ensures
        spec_route(r, RawEvent { etype: EV_KEY, code: key, value }).contains(
            Emission::Controller { controller: i as usize, button: b, value },
        ),
        forall|em: Emission|
            spec_route(r, RawEvent { etype: EV_KEY, code: key, value }).contains(em) ==> em
                is Controller,
{
    let ev = RawEvent { etype: EV_KEY, code: key, value };
    let snaps = r.snapshots();
    assert(r.spec_claimed(key));
    lemma_targets_member(snaps, key, snaps.len() as int, i, b);
    let ts = r.spec_targets(key);
    let ems = spec_route(r, ev);
    let j = choose|j: int| 0 <= j < ts.len() && ts[j] == ((i as usize), b);
    assert(ems[j] == (Emission::Controller { controller: i as usize, button: b, value }));
    assert(ems.contains(Emission::Controller { controller: i as usize, button: b, value }));
    assert forall|em: Emission| ems.contains(em) implies em is Controller by {
        let q = choose|q: int| 0 <= q < ems.len() && ems[q] == em;
        assert(ems[q] is Controller);
    }
}

/// A key no controller claims is routed verbatim, and only, to the
/// passthrough keyboard.
pub proof fn lemma_unclaimed_key_passes_through(r: KeyRouter, key: u16, value: i32)
    requires
        forall|i: int| 0 <= i < r.controller_count() ==> (#[trigger] r.snapshots()[i]).mapping.spec_get(
            key,
        ) is None,
    ensures
        spec_route(r, RawEvent { etype: EV_KEY, code: key, value }) == seq![
            Emission::Keyboard { event: RawEvent { etype: EV_KEY, code: key, value } },
        ],
{
    let ev = RawEvent { etype: EV_KEY, code: key, value };
    assert(!r.spec_claimed(key));
}

/// A key claimed by two controllers fans out: both receive their own
/// emission for the same physical event.
pub proof fn lemma_broadcast_fanout(
    r: KeyRouter,
    i1: int,
    i2: int,
    key: u16,
    b1: ButtonCode,
    b2: ButtonCode,
    value: i32,
)
    requires
        0 <= i1 < r.controller_count(),
        0 <= i2 < r.controller_count(),
        r.controller_count() <= usize::MAX,
        r.snapshots()[i1].mapping.spec_get(key) == Some(b1),
        r.snapshots()[i2].mapping.spec_get(key) == Some(b2),
    ensures
        spec_route(r, RawEvent { etype: EV_KEY, code: key, value }).contains(
            Emission::Controller { controller: i1 as usize, button: b1, value },
        ),
        spec_route(r, RawEvent { etype: EV_KEY, code: key, value }).contains(
            Emission::Controller { controller: i2 as usize, button: b2, value },
        ),
{
    lemma_claimed_key_routes_to_controller(r, i1, key, b1, value);
    lemma_claimed_key_routes_to_controller(r, i2, key, b2, value);
}

/// Unclaimed passthrough preserves the stream: over any observed
/// stream, the passthrough keyboard receives exactly the events no
/// controller claims, with their values, in their original relative
/// order.
pub proof fn lemma_passthrough_preserves_stream(r: KeyRouter, evs: Seq<RawEvent>)
    ensures
        spec_keyboard_out(spec_route_all(r, evs)) == spec_forwarded(r, evs),
    decreases evs.len(),
{
    if evs.len() > 0 {
        let ev = evs[0];
        let head = spec_route(r, ev);
        let tail = spec_route_all(r, evs.drop_first());
        lemma_passthrough_preserves_stream(r, evs.drop_first());
        lemma_keyboard_out_concat(head, tail);
        if ev.spec_is_key() && r.spec_claimed(ev.code) {
            assert forall|j: int| 0 <= j < head.len() implies (#[trigger] head[j]) is Controller by {
            }
            lemma_keyboard_out_all_controllers(head);
            assert(spec_keyboard_out(head) + spec_keyboard_out(tail) =~= spec_keyboard_out(tail));
        } else {
            assert(head =~= seq![Emission::Keyboard { event: ev }]);
            assert(head[0] == (Emission::Keyboard { event: ev }));
            assert(head.drop_first() =~= Seq::<Emission>::empty());
            assert(spec_keyboard_out(head.drop_first()) =~= Seq::<RawEvent>::empty());
            assert(seq![ev] + Seq::<RawEvent>::empty() =~= seq![ev]);
            assert(spec_keyboard_out(head) =~= seq![ev]);
        }
    }
}

/// The (button, value) pairs an emission list sends to the controller
/// at index `c`, in emission order.
pub open spec fn spec_controller_out(ems: Seq<Emission>, c: usize) -> Seq<(ButtonCode, i32)>
    decreases ems.len(),
{
    if ems.len() == 0 {
        Seq::empty()
    } else {
        let rest = spec_controller_out(ems.drop_first(), c);
        match ems[0] {
            Emission::Controller { controller, button, value } => if controller == c {
                seq![(button, value)] + rest
            } else {
                rest
            },
            Emission::Keyboard { .. } => rest,
        }
    }
}

/// The (button, value) pairs the controller at index `c` is owed for a
/// physical stream: its bound button with the physical value, for
/// every key event whose code it claims, in stream order.
pub open spec fn spec_claimed_for(r: KeyRouter, evs: Seq<RawEvent>, c: usize) -> Seq<
    (ButtonCode, i32),
>
    decreases evs.len(),
{
    if evs.len() == 0 {
        Seq::empty()
    } else {
        let rest = spec_claimed_for(r, evs.drop_first(), c);
        let ev = evs[0];
        if ev.spec_is_key() && r.snapshots()[c as int].mapping.spec_get(ev.code) is Some {
            seq![(r.snapshots()[c as int].mapping.spec_get(ev.code)->Some_0, ev.value)] + rest
        } else {
            rest
        }
    }
}

proof fn lemma_controller_out_concat(a: Seq<Emission>, b: Seq<Emission>, c: usize)
    ensures
        spec_controller_out(a + b, c) == spec_controller_out(a, c) + spec_controller_out(b, c),
    decreases a.len(),
{
    if a.len() == 0 {
        assert(a + b =~= b);
        assert(spec_controller_out(a, c) + spec_controller_out(b, c) =~= spec_controller_out(b, c));
    } else {
        lemma_controller_out_concat(a.drop_first(), b, c);
        assert((a + b)[0] == a[0]);
        assert((a + b).drop_first() =~= a.drop_first() + b);
        match a[0] {
            Emission::Controller { controller, button, value } => {
                if controller == c {
                    assert(seq![(button, value)] + (spec_controller_out(a.drop_first(), c)
                        + spec_controller_out(b, c)) =~= (seq![(button, value)]
                        + spec_controller_out(a.drop_first(), c)) + spec_controller_out(b, c));
                }
            },
            Emission::Keyboard { .. } => {},
        }
    }
}

proof fn lemma_controller_out_singleton(em: Emission, c: usize)
    ensures
        spec_controller_out(seq![em], c) == (match em {
            Emission::Controller { controller, button, value } => if controller == c {
                seq![(button, value)]
            } else {
                Seq::<(ButtonCode, i32)>::empty()
            },
            Emission::Keyboard { .. } => Seq::<(ButtonCode, i32)>::empty(),
        }),
{
    let s = seq![em];
    assert(s[0] == em);
    assert(s.drop_first() =~= Seq::<Emission>::empty());
    assert(spec_controller_out(s.drop_first(), c) =~= Seq::<(ButtonCode, i32)>::empty());
    match em {
        Emission::Controller { controller, button, value } => {
            if controller == c {
                assert(seq![(button, value)] + Seq::<(ButtonCode, i32)>::empty() =~= seq![
                    (button, value),
                ]);
            }
        },
        Emission::Keyboard { .. } => {},
    }
}

proof fn lemma_targets_projection(
    snaps: Seq<ControllerSnapshot>,
    key: u16,
    n: int,
    ems: Seq<Emission>,
    c: usize,
    value: i32,
)
    requires
        0 <= n <= snaps.len(),
        n <= usize::MAX,
        (c as int) < snaps.len(),
        ems.len() == spec_targets_upto(snaps, key, n).len(),
        forall|j: int|
            0 <= j < ems.len() ==> (#[trigger] ems[j]) == (Emission::Controller {
                controller: spec_targets_upto(snaps, key, n)[j].0,
                button: spec_targets_upto(snaps, key, n)[j].1,
                value,
            }),
    ensures
        spec_controller_out(ems, c) == (if (c as int) < n && snaps[c as int].mapping.spec_get(key)
            is Some {
            seq![(snaps[c as int].mapping.spec_get(key)->Some_0, value)]
        } else {
            Seq::<(ButtonCode, i32)>::empty()
        }),
    decreases n,
{
    let ts = spec_targets_upto(snaps, key, n);
    if n == 0 {
        assert(ems =~= Seq::<Emission>::empty());
    } else {
        let pre_ts = spec_targets_upto(snaps, key, n - 1);
        match snaps[n - 1].mapping.spec_get(key) {
            None => {
                lemma_targets_projection(snaps, key, n - 1, ems, c, value);
            },
            Some(b) => {
                let pre_ems = ems.take(ems.len() - 1);
                let last = ems[ems.len() - 1];
                assert forall|j: int|
                    0 <= j < pre_ems.len() implies (#[trigger] pre_ems[j]) == (Emission::Controller {
                    controller: pre_ts[j].0,
                    button: pre_ts[j].1,
                    value,
                }) by {
                    assert(pre_ems[j] == ems[j]);
                    assert(ts[j] == pre_ts[j]);
                }
                lemma_targets_projection(snaps, key, n - 1, pre_ems, c, value);
                assert(ts[ems.len() - 1] == (((n - 1) as usize), b));
                assert(last == (Emission::Controller {
                    controller: (n - 1) as usize,
                    button: b,
                    value,
                }));
                assert(ems =~= pre_ems + seq![last]);
                lemma_controller_out_concat(pre_ems, seq![last], c);
                lemma_controller_out_singleton(last, c);
                if c as int == n - 1 {
                    assert(spec_controller_out(pre_ems, c) =~= Seq::<(ButtonCode, i32)>::empty());
                    assert(Seq::<(ButtonCode, i32)>::empty() + seq![(b, value)] =~= seq![
                        (b, value),
                    ]);
                } else {
                    assert(spec_controller_out(ems, c) =~= spec_controller_out(pre_ems, c));
                }
            },
        }
    }
}

proof fn lemma_controller_out_route(r: KeyRouter, ev: RawEvent, c: usize)
    requires
        (c as int) < r.controller_count(),
        r.controller_count() <= usize::MAX,
    ensures
        spec_controller_out(spec_route(r, ev), c) == (if ev.spec_is_key()
            && r.snapshots()[c as int].mapping.spec_get(ev.code) is Some {
            seq![(r.snapshots()[c as int].mapping.spec_get(ev.code)->Some_0, ev.value)]
        } else {
            Seq::<(ButtonCode, i32)>::empty()
        }),
{
    let ems = spec_route(r, ev);
    if ev.spec_is_key() && r.spec_claimed(ev.code) {
        let ts = r.spec_targets(ev.code);
        assert forall|j: int|
            0 <= j < ems.len() implies (#[trigger] ems[j]) == (Emission::Controller {
            controller: ts[j].0,
            button: ts[j].1,
            value: ev.value,
        }) by {}
        lemma_targets_projection(
            r.snapshots(),
            ev.code,
            r.snapshots().len() as int,
            ems,
            c,
            ev.value,
        );
    } else {
        if ev.spec_is_key() && r.snapshots()[c as int].mapping.spec_get(ev.code) is Some {
            assert(r.spec_claimed(ev.code));
        }
        lemma_controller_out_singleton(Emission::Keyboard { event: ev }, c);
        assert(ems =~= seq![Emission::Keyboard { event: ev }]);
    }
}

/// Claimed keys reach their controller, in order: over any observed
/// stream, the controller at index `c` receives exactly its bound
/// button for every key event whose code it claims, with the physical
/// value, in the stream's order.
pub proof fn lemma_claimed_stream_reaches_controller(r: KeyRouter, evs: Seq<RawEvent>, c: usize)
    requires
        (c as int) < r.controller_count(),
        r.controller_count() <= usize::MAX,
    ensures
        spec_controller_out(spec_route_all(r, evs), c) == spec_claimed_for(r, evs, c),
    decreases evs.len(),
{
    if evs.len() > 0 {
        let head = spec_route(r, evs[0]);
        let tail = spec_route_all(r, evs.drop_first());
        lemma_claimed_stream_reaches_controller(r, evs.drop_first(), c);
        lemma_controller_out_concat(head, tail, c);
        lemma_controller_out_route(r, evs[0], c);
        if evs[0].spec_is_key() && r.snapshots()[c as int].mapping.spec_get(evs[0].code)
            is Some {
        } else {
            assert(spec_controller_out(head, c) + spec_controller_out(tail, c)
                =~= spec_controller_out(tail, c));
        }
    }
}

/// A key is claimed exactly when it has targets.
pub proof fn lemma_claimed_iff_targets(r: KeyRouter, key: u16)
    requires
        r.controller_count() <= usize::MAX,
    ensures
        r.spec_claimed(key) <==> r.spec_targets(key).len() > 0,
{
    let snaps = r.snapshots();
    let n = snaps.len() as int;
    if r.spec_claimed(key) {
        let i = choose|i: int| 0 <= i < n && snaps[i].mapping.spec_get(key) is Some;
        let b = snaps[i].mapping.spec_get(key)->Some_0;
        lemma_targets_member(snaps, key, n, i, b);
        let j = choose|j: int|
            0 <= j < r.spec_targets(key).len() && r.spec_targets(key)[j] == ((i as usize), b);
    } else {
        assert forall|i: int| 0 <= i < n implies (#[trigger] snaps[i]).mapping.spec_get(key)
            is None by {}
        lemma_targets_empty(snaps, key, n);
    }
}

/// Soundness of the fan-out: a controller emission of a routed event
/// names a controller that claims the key, carries the button that
/// controller binds the key to, and repeats the physical value.
pub proof fn lemma_controller_emission_is_a_binding(
    r: KeyRouter,
    ev: RawEvent,
    i: usize,
    b: ButtonCode,
    v: i32,
)
    requires
        r.controller_count() <= usize::MAX,
        spec_route(r, ev).contains(Emission::Controller { controller: i, button: b, value: v }),
    ensures
        ev.spec_is_key(),
        i < r.controller_count(),
        r.snapshots()[i as int].mapping.spec_get(ev.code) == Some(b),
        v == ev.value,
{
    let em = Emission::Controller { controller: i, button: b, value: v };
    let ems = spec_route(r, ev);
    if ev.spec_is_key() && r.spec_claimed(ev.code) {
        let ts = r.spec_targets(ev.code);
        lemma_targets_shape(r.snapshots(), ev.code, r.snapshots().len() as int);
        let q = choose|q: int| 0 <= q < ems.len() && ems[q] == em;
        assert(ems[q] == (Emission::Controller {
            controller: ts[q].0,
            button: ts[q].1,
            value: ev.value,
        }));
        assert(ts[q] == (i, b));
    } else {
        let q = choose|q: int| 0 <= q < ems.len() && ems[q] == em;
        assert(ems[q] == (Emission::Keyboard { event: ev }));
    }
}

/// Snapshot isolation: routing is a function of the frozen mappings
/// alone. Two routers whose snapshots bind every key alike route every
/// event alike, whatever became of the controllers they were frozen
/// from.
pub proof fn lemma_route_determined_by_snapshot(r1: KeyRouter, r2: KeyRouter, ev: RawEvent)
    requires
        r1.controller_count() == r2.controller_count(),
        forall|i: int, k: u16|
            0 <= i < r1.controller_count() ==> (#[trigger] r1.snapshots()[i].mapping.spec_get(k))
                == r2.snapshots()[i].mapping.spec_get(k),
    ensures
        spec_route(r1, ev) == spec_route(r2, ev),
{
    let n = r1.controller_count() as int;
    if ev.spec_is_key() {
        if r1.spec_claimed(ev.code) {
            let i = choose|i: int|
                0 <= i < n && r1.snapshots()[i].mapping.spec_get(ev.code) is Some;
            assert(r2.snapshots()[i].mapping.spec_get(ev.code) is Some);
            assert(r2.spec_claimed(ev.code));
        }
        if r2.spec_claimed(ev.code) {
            let i = choose|i: int|
                0 <= i < n && r2.snapshots()[i].mapping.spec_get(ev.code) is Some;
            assert(r1.snapshots()[i].mapping.spec_get(ev.code) is Some);
            assert(r1.spec_claimed(ev.code));
        }
        lemma_targets_congruence(r1.snapshots(), r2.snapshots(), ev.code, n);
    }
}

/// Snapshot isolation over a whole stream: routers frozen from
/// pointwise-equal mappings dispatch every observed stream alike.
pub proof fn lemma_route_all_determined_by_snapshot(r1: KeyRouter, r2: KeyRouter, evs: Seq<RawEvent>)
    requires
        r1.controller_count() == r2.controller_count(),
        forall|i: int, k: u16|
            0 <= i < r1.controller_count() ==> (#[trigger] r1.snapshots()[i].mapping.spec_get(k))
                == r2.snapshots()[i].mapping.spec_get(k),
    ensures
        spec_route_all(r1, evs) == spec_route_all(r2, evs),
    decreases evs.len(),
{
    if evs.len() > 0 {
        lemma_route_determined_by_snapshot(r1, r2, evs[0]);
        lemma_route_all_determined_by_snapshot(r1, r2, evs.drop_first());
    }
}

} // verus!
