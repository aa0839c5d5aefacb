//! The event synthesizer and the transform engine: key positions in, HID
//! reports out.
use vstd::prelude::*;

use crate::feature_state::{
    acts_on_report, press_spec, release_spec, render_spec, report, FeatureState, FeatureView,
    REPORT_LEN,
};
use crate::keymap::{
    active_layer, combo_command, expect_combo_key, find_combo, is_combo_key, is_layout,
    is_valid_pos,
    lemma_valid_key_list, map_index, pos_to_map_index, valid_key, valid_key_list, Combo, Command,
    Keymap, Pos, N_COMBOS, N_KEYS,
};
use crate::ring_buffer::{ring_push, RingBuffer, BUFFER_SIZE};

verus! {

/// Longest age, in clock counts, of the first key of a combo that may still
/// pair with a second one (about 200 ms at 72 MHz).
pub const COMBO_THRESHOLD_CNT: u16 = 219;

/// Shortest time, in clock counts, after a key reported outside a combo
/// before a combo may fire; 0 lets a combo follow any key.
pub const COMBO_SEPARATION_CNT: u16 = 0;

/// Number of distinct position values.
pub const N_POS: usize = 256;

/// Whether a switch went down or up.
#[derive(Clone, Copy, Debug, PartialEq, Eq, Structural)]
pub enum Action {
    Down,
    Up,
}

/// A key edge: what happened, where, and the clock count when it was seen.
#[derive(Clone, Copy, Debug, PartialEq, Eq, Structural)]
pub struct Event {
    pub action: Action,
    pub pos: Pos,
    pub cnt: u16,
}

/// Clock count of a 32-bit cycle counter: its high 16 bits.
pub open spec fn cnt_of(clk: u32) -> u16 {
    (clk / 0x10000) as u16
}

/// Clock counts from `from` to `to` on the 16-bit ring, in `0..0x10000`.
pub open spec fn elapsed(from: u16, to: u16) -> int {
    (to - from) % 0x10000
}

/// Whether `p` is among the positions reported by either half.
pub open spec fn is_on_spec(mat: Seq<Pos>, peer: Seq<Pos>, p: Pos) -> bool {
    mat.contains(p) || peer.contains(p)
}

/// Whether a position that was `was_on` and is `now_on` makes an edge of
/// `action`.
pub open spec fn edge_fires(was_on: bool, now_on: bool, action: Action) -> bool {
    (action == Action::Up && was_on && !now_on) || (action == Action::Down && !was_on && now_on)
}

/// The edges of `action` that a scan shows at the positions of `list`, in
/// order: `Up` where a position was on and is no longer, `Down` where it
/// was off and is now on.
pub open spec fn edge_events(
    list: Seq<Pos>,
    on_pos: Seq<bool>,
    mat: Seq<Pos>,
    peer: Seq<Pos>,
    cnt: u16,
    action: Action,
) -> Seq<Event>
    decreases list.len(),
{
    if list.len() == 0 {
        Seq::empty()
    } else {
        let r = edge_events(list.drop_last(), on_pos, mat, peer, cnt, action);
        let p = list.last();
        if edge_fires(on_pos[p as int], is_on_spec(mat, peer, p), action) {
            r.push(Event { action, pos: p, cnt })
        } else {
            r
        }
    }
}

/// The events of one scan: every release first, then every press, each in
/// the order of `valid_key_list`.
pub open spec fn scan_events(
    on_pos: Seq<bool>,
    mat: Seq<Pos>,
    peer: Seq<Pos>,
    cnt: u16,
) -> Seq<Event> {
    let ups = edge_events(valid_key_list(), on_pos, mat, peer, cnt, Action::Up);
    let downs = edge_events(valid_key_list(), on_pos, mat, peer, cnt, Action::Down);
    ups + downs
}

/// The edges of one kind at the positions of a list without duplicates:
/// one event at `p` when `p` is listed and its edge fires, none otherwise.
proof fn lemma_edge_events_at(
    list: Seq<Pos>,
    on_pos: Seq<bool>,
    mat: Seq<Pos>,
    peer: Seq<Pos>,
    cnt: u16,
    action: Action,
    p: Pos,
)
    requires
        list.no_duplicates(),
    ensures
        ({
            let evs = edge_events(list, on_pos, mat, peer, cnt, action);
            let fires = edge_fires(on_pos[p as int], is_on_spec(mat, peer, p), action);
            &&& forall|i: int|
                0 <= i < evs.len() ==> (#[trigger] evs[i]).action == action && list.contains(
                    evs[i].pos,
                )
            &&& forall|i: int|
                0 <= i < evs.len() && (#[trigger] evs[i]).pos == p ==> fires && evs[i].cnt == cnt
            &&& (list.contains(p) && fires) ==> exists|i: int|
                0 <= i < evs.len() && (#[trigger] evs[i]).pos == p
            &&& forall|i: int, j: int|
                0 <= i < evs.len() && 0 <= j < evs.len() && (#[trigger] evs[i]).pos == p && (
                #[trigger] evs[j]).pos == p ==> i == j
        }),
    decreases list.len(),
{
    if list.len() > 0 {
        let init = list.drop_last();
        let q = list.last();
        assert(init.no_duplicates());
        lemma_edge_events_at(init, on_pos, mat, peer, cnt, action, p);
        lemma_edge_events_at(init, on_pos, mat, peer, cnt, action, q);
        let r = edge_events(init, on_pos, mat, peer, cnt, action);
        let evs = edge_events(list, on_pos, mat, peer, cnt, action);
        assert(!init.contains(q)) by {
            if init.contains(q) {
                let k = choose|k: int| 0 <= k < init.len() && init[k] == q;
                assert(list[k] == list[list.len() - 1]);
            }
        }
        assert forall|x: Pos| init.contains(x) implies list.contains(x) by {
            let k = choose|k: int| 0 <= k < init.len() && init[k] == x;
            assert(list[k] == x);
        }
        assert(list.contains(q)) by {
            assert(list[list.len() - 1] == q);
        }
        if list.contains(p) && p != q {
            let k = choose|k: int| 0 <= k < list.len() && list[k] == p;
            assert(init[k] == p);
        }
        if edge_fires(on_pos[q as int], is_on_spec(mat, peer, q), action) {
            assert(evs == r.push(Event { action, pos: q, cnt }));
            assert(evs[r.len() as int].pos == q);
            assert forall|i: int| 0 <= i < evs.len() implies (#[trigger] evs[i]).action == action
                && list.contains(evs[i].pos) by {
                if i < r.len() {
                    assert(evs[i] == r[i]);
                }
            }
            assert forall|i: int| 0 <= i < r.len() implies (#[trigger] r[i]).pos != q by {
                assert(init.contains(r[i].pos));
            }
            assert forall|i: int, j: int|
                0 <= i < evs.len() && 0 <= j < evs.len() && (#[trigger] evs[i]).pos == p && (
                #[trigger] evs[j]).pos == p implies i == j by {
                if i < r.len() {
                    assert(evs[i] == r[i]);
                }
                if j < r.len() {
                    assert(evs[j] == r[j]);
                }
            }
            if list.contains(p) && p != q {
                if edge_fires(on_pos[p as int], is_on_spec(mat, peer, p), action) {
                    let i = choose|i: int| 0 <= i < r.len() && (#[trigger] r[i]).pos == p;
                    assert(evs[i] == r[i]);
                }
            }
        } else {
            assert(evs == r);
        }
    }
}

/// For each valid position, the events of a scan record exactly the change
/// of whether it is on: one `Up` event if it went off, one `Down` event if it
/// went on, and none if it stayed as it was.
pub proof fn law_scan_records_transitions(
    on_pos: Seq<bool>,
    mat: Seq<Pos>,
    peer: Seq<Pos>,
    cnt: u16,
    p: Pos,
)
    requires
        is_valid_pos(p),
    ensures
        ({
            let evs = scan_events(on_pos, mat, peer, cnt);
            let was_on = on_pos[p as int];
            let now_on = scan_on_pos(mat, peer)[p as int];
            &&& (exists|i: int| 0 <= i < evs.len() && (#[trigger] evs[i]).pos == p) == (was_on
                != now_on)
            &&& forall|i: int|
                0 <= i < evs.len() && (#[trigger] evs[i]).pos == p ==> evs[i] == Event {
                    action: if was_on {
                        Action::Up
                    } else {
                        Action::Down
                    },
                    pos: p,
                    cnt,
                }
            &&& forall|i: int, j: int|
                0 <= i < evs.len() && 0 <= j < evs.len() && (#[trigger] evs[i]).pos == p && (
                #[trigger] evs[j]).pos == p ==> i == j
        }),
{
    let list = valid_key_list();
    lemma_valid_key_list();
    assert(list.contains(p));
    lemma_edge_events_at(list, on_pos, mat, peer, cnt, Action::Up, p);
    lemma_edge_events_at(list, on_pos, mat, peer, cnt, Action::Down, p);
    let ups = edge_events(list, on_pos, mat, peer, cnt, Action::Up);
    let downs = edge_events(list, on_pos, mat, peer, cnt, Action::Down);
    let evs = scan_events(on_pos, mat, peer, cnt);
    assert(evs == ups + downs);
    let was_on = on_pos[p as int];
    let now_on = scan_on_pos(mat, peer)[p as int];
    assert(now_on == is_on_spec(mat, peer, p));
    assert forall|i: int| 0 <= i < evs.len() && (#[trigger] evs[i]).pos == p implies evs[i] == Event {
        action: if was_on {
            Action::Up
        } else {
            Action::Down
        },
        pos: p,
        cnt,
    } by {
        if i < ups.len() {
            assert(evs[i] == ups[i]);
        } else {
            assert(evs[i] == downs[i - ups.len()]);
        }
    }
    if was_on != now_on {
        if was_on {
            let i = choose|i: int| 0 <= i < ups.len() && (#[trigger] ups[i]).pos == p;
            assert(evs[i] == ups[i]);
        } else {
            let i = choose|i: int| 0 <= i < downs.len() && (#[trigger] downs[i]).pos == p;
            assert(evs[i + ups.len()] == downs[i]);
        }
    }
    assert forall|i: int, j: int|
        0 <= i < evs.len() && 0 <= j < evs.len() && (#[trigger] evs[i]).pos == p && (
        #[trigger] evs[j]).pos == p implies i == j by {
        if i < ups.len() {
            assert(evs[i] == ups[i]);
        } else {
            assert(evs[i] == downs[i - ups.len()]);
        }
        if j < ups.len() {
            assert(evs[j] == ups[j]);
        } else {
            assert(evs[j] == downs[j - ups.len()]);
        }
    }
}

/// The unread events after pushing `xs` in order.
pub open spec fn ring_push_all(s: Seq<Event>, xs: Seq<Event>) -> Seq<Event>
    decreases xs.len(),
{
    if xs.len() == 0 {
        s
    } else {
        ring_push(ring_push_all(s, xs.drop_last()), xs.last())
    }
}

/// Whether `p` is among the positions of `mat` or `peer`.
pub fn is_on(mat: &[Pos; 8], peer: &[Pos; 8], p: Pos) -> (r: bool)
    ensures
        r == is_on_spec(mat@, peer@, p),
{
    let mut j: usize = 0;
    while j < 8
        invariant
            0 <= j <= 8,
            forall|t: int| 0 <= t < j ==> mat@[t] != p,
        decreases 8 - j,
    {
        if p == mat[j] {
            return true;
        }
        j += 1;
    }
    let mut j: usize = 0;
    while j < 8
        invariant
            0 <= j <= 8,
            !mat@.contains(p),
            forall|t: int| 0 <= t < j ==> peer@[t] != p,
        decreases 8 - j,
    {
        if p == peer[j] {
            return true;
        }
        j += 1;
    }
    false
}

/// Which positions are on after a scan that reported `mat` and `peer`.
pub open spec fn scan_on_pos(mat: Seq<Pos>, peer: Seq<Pos>) -> Seq<bool> {
    Seq::new(N_POS as nat, |p: int| is_valid_pos(p as u8) && is_on_spec(mat, peer, p as u8))
}

/// How the `Down` event at the head of the queue resolves.
#[derive(Clone, Copy, Debug, PartialEq, Eq, Structural)]
pub enum ComboKeyResult {
    /// With the next event it makes the combo that activates `command`.
    ProcessCombo { command: Command },
    /// It may start a combo whose second key has not come yet.
    Wait,
    /// It stands alone.
    NotCombo,
}

/// Resolution of the head event of `s`, a `Down` event, at clock count `now`.
/// No combo fires less than `separation` counts after the last key reported
/// alone, nor once the head event is more than `threshold` counts old; ages
/// are taken on the 16-bit ring, so a wrap of the count does not matter.
pub open spec fn resolve(s: StreamView, now: u16) -> ComboKeyResult {
    let ev = s.events[0];
    if elapsed(s.state.last_action_cnt, now) < s.separation {
        ComboKeyResult::NotCombo
    } else if elapsed(ev.cnt, now) > s.threshold {
        ComboKeyResult::NotCombo
    } else if is_combo_key(s.keymap.combos@, ev.pos) {
        if s.events.len() > 1 {
            match combo_command(s.keymap.combos@, ev.pos, s.events[1].pos) {
                Some(command) => ComboKeyResult::ProcessCombo { command },
                None => ComboKeyResult::NotCombo,
            }
        } else {
            ComboKeyResult::Wait
        }
    } else {
        ComboKeyResult::NotCombo
    }
}

/// Releases, in table order, the commands of the combos that `pos` is part of.
pub open spec fn release_combos(combos: Seq<Combo>, v: FeatureView, pos: Pos) -> FeatureView
    decreases combos.len(),
{
    if combos.len() == 0 {
        v
    } else {
        let w = release_combos(combos.drop_last(), v, pos);
        let c = combos.last();
        if c.p1 == pos || c.p2 == pos {
            release_spec(w, c.command)
        } else {
            w
        }
    }
}

/// Releases every command bound to `pos`: in the MOD1, MOD2, MOD3 and base
/// layers, then in the combos.
pub open spec fn release_related(km: Keymap, v: FeatureView, pos: Pos) -> FeatureView {
    let idx = map_index(pos);
    let v1 = release_spec(v, km.mod1@[idx]);
    let v2 = release_spec(v1, km.mod2@[idx]);
    let v3 = release_spec(v2, km.mod3@[idx]);
    let v4 = release_spec(v3, km.simple@[idx]);
    release_combos(km.combos@, v4, pos)
}

/// Outcome of processing the head event.
pub struct StepResult {
    /// The report builder afterwards.
    pub state: FeatureView,
    /// The report emitted, if any.
    pub report: Option<Seq<u8>>,
    /// How many events were consumed (0: waiting for the next one).
    pub consumed: nat,
}

/// A press of `c` that, if it acts on the report, emits the new report.
pub open spec fn press_and_emit(v: FeatureView, c: Command, consumed: nat) -> StepResult {
    let w = press_spec(v, c);
    if acts_on_report(c) {
        StepResult { state: render_spec(w), report: Some(report(w.keys)), consumed }
    } else {
        StepResult { state: w, report: None, consumed }
    }
}

/// Processing of the head event of `s` at clock count `now`.
/// - position 0: consumed, nothing else;
/// - `Up`: every command bound to the position is released; one consumed;
/// - `Down` in a combo: the combo's command is pressed; two consumed;
/// - `Down` waiting: nothing consumed;
/// - `Down` alone: the command of the active layer is pressed, and when it
///   acts on the report, `now` becomes the last action count; one consumed.
pub open spec fn step(s: StreamView, now: u16) -> StepResult {
    let ev = s.events[0];
    if ev.pos == 0 {
        StepResult { state: s.state, report: None, consumed: 1 }
    } else if ev.action == Action::Up {
        StepResult { state: release_related(s.keymap, s.state, ev.pos), report: None, consumed: 1 }
    } else {
        match resolve(s, now) {
            ComboKeyResult::ProcessCombo { command } => press_and_emit(s.state, command, 2),
            ComboKeyResult::Wait => StepResult { state: s.state, report: None, consumed: 0 },
            ComboKeyResult::NotCombo => {
                let c = s.keymap.command(active_layer(s.state.mods), map_index(ev.pos));
                let v = if acts_on_report(c) {
                    FeatureView { last_action_cnt: now, ..s.state }
                } else {
                    s.state
                };
                press_and_emit(v, c, 1)
            },
        }
    }
}

/// The state after a step.
pub open spec fn after_step(s: StreamView, r: StepResult) -> StreamView {
    StreamView { events: s.events.skip(r.consumed as int), state: r.state, ..s }
}

/// The reports of a step.
pub open spec fn step_reports(r: StepResult) -> Seq<Seq<u8>> {
    match r.report {
        Some(rep) => seq![rep],
        None => Seq::empty(),
    }
}

/// Steps until the queue is empty or a combo waits: the final state, the
/// reports emitted, and whether it stopped on a wait.
pub open spec fn run(s: StreamView, now: u16) -> (StreamView, Seq<Seq<u8>>, bool)
    decreases s.events.len(),
{
    if s.events.len() == 0 {
        (s, Seq::empty(), false)
    } else {
        let r = step(s, now);
        if r.consumed == 0 {
            (s, Seq::empty(), true)
        } else {
            let (f, reps, waited) = run(after_step(s, r), now);
            (f, step_reports(r) + reps, waited)
        }
    }
}

/// What `read` does: a `run`, and when it neither emitted nor waited, one
/// report of the current state.
pub open spec fn read_spec(s: StreamView, now: u16) -> (StreamView, Seq<Seq<u8>>) {
    let (f, reps, waited) = run(s, now);
    if reps.len() == 0 && !waited {
        (StreamView { state: render_spec(f.state), ..f }, seq![report(f.state.keys)])
    } else {
        (f, reps)
    }
}

/// A step consumes two events for a fired combo, none while a combo waits,
/// and one for any other event: a `Down` event standing alone, an `Up`
/// event, or an event at position 0.
pub proof fn law_step_consumption(s: StreamView, now: u16)
    requires
        s.events.len() > 0,
    ensures
        ({
            let ev = s.events[0];
            let r = step(s, now);
            &&& (ev.pos == 0 || ev.action == Action::Up) ==> r.consumed == 1
            &&& (ev.pos != 0 && ev.action == Action::Down) ==> r.consumed == match resolve(
                s,
                now,
            ) {
                ComboKeyResult::ProcessCombo { .. } => 2nat,
                ComboKeyResult::Wait => 0nat,
                ComboKeyResult::NotCombo => 1nat,
            }
            &&& r.consumed <= s.events.len()
        }),
{
}

/// `c` advanced by `k` on the 16-bit ring.
pub open spec fn shift_cnt(c: u16, k: u16) -> u16 {
    ((c + k) % 0x10000) as u16
}

/// `s` with the clock count of every event and the last action count
/// advanced by `k` on the 16-bit ring.
pub open spec fn shift_stream(s: StreamView, k: u16) -> StreamView {
    StreamView {
        events: s.events.map_values(|e: Event| Event { cnt: shift_cnt(e.cnt, k), ..e }),
        state: FeatureView { last_action_cnt: shift_cnt(s.state.last_action_cnt, k), ..s.state },
        ..s
    }
}

/// Ages on the 16-bit ring do not change when both ends are advanced alike.
pub proof fn lemma_elapsed_shift(from: u16, to: u16, k: u16)
    ensures
        elapsed(shift_cnt(from, k), shift_cnt(to, k)) == elapsed(from, to),
{
    let a = from as int + k as int;
    let b = to as int + k as int;
    assert(shift_cnt(from, k) == if a < 0x10000 { a } else { a - 0x10000 });
    assert(shift_cnt(to, k) == if b < 0x10000 { b } else { b - 0x10000 });
}

/// A combo resolves the same way when every clock count, the current one
/// included, is advanced by the same amount: in particular when the 16-bit
/// count wraps inside the combo window.
pub proof fn law_resolution_ignores_wrap(s: StreamView, now: u16, k: u16)
    requires
        s.events.len() > 0,
    ensures
        resolve(shift_stream(s, k), shift_cnt(now, k)) == resolve(s, now),
{
    let t = shift_stream(s, k);
    lemma_elapsed_shift(s.state.last_action_cnt, now, k);
    lemma_elapsed_shift(s.events[0].cnt, now, k);
    assert(t.events[0].pos == s.events[0].pos);
    if s.events.len() > 1 {
        assert(t.events[1].pos == s.events[1].pos);
    }
}

/// Clock counts from `from` to `to` on the 16-bit ring.
fn elapsed_cnt(from: u16, to: u16) -> (r: u16)
    ensures
        r == elapsed(from, to),
{
    to.wrapping_sub(from)
}

/// Abstract state of a `KeyStream`.
pub struct StreamView {
    /// Unread events, oldest first.
    pub events: Seq<Event>,
    /// Which positions were on at the last scan, indexed by position.
    pub on_pos: Seq<bool>,
    /// The report builder.
    pub state: FeatureView,
    /// The layout.
    pub keymap: Keymap,
    /// Longest age of the first key of a combo (`COMBO_THRESHOLD_CNT`).
    pub threshold: u16,
    /// Shortest time after a reported key before a combo (`COMBO_SEPARATION_CNT`).
    pub separation: u16,
}

/// Turns the key positions of each scan into events, and events into HID
/// boot-keyboard reports.
pub struct KeyStream {
    events: RingBuffer<Event>,
    on_pos: [bool; N_POS],
    state: FeatureState,
    keymap: Keymap,
    combo_threshold: u16,
    combo_separation: u16,
}

impl View for KeyStream {
    type V = StreamView;

    closed spec fn view(&self) -> StreamView {
        StreamView {
            events: self.events@,
            on_pos: self.on_pos@,
            state: self.state@,
            keymap: self.keymap,
            threshold: self.combo_threshold,
            separation: self.combo_separation,
        }
    }
}

/// Every position that is on, and every unread event, is at a valid position.
pub open spec fn stream_valid(s: StreamView) -> bool {
    &&& s.on_pos.len() == N_POS
    &&& forall|p: int| 0 <= p < N_POS && #[trigger] s.on_pos[p] ==> is_valid_pos(p as u8)
    &&& forall|j: int| 0 <= j < s.events.len() ==> is_valid_pos(#[trigger] s.events[j].pos)
    &&& s.state.mods.len() == 3
}

/// `ring_push` holds nothing but the old items and the new one.
proof fn lemma_ring_push_items(s: Seq<Event>, x: Event)
    requires
        forall|j: int| 0 <= j < s.len() ==> is_valid_pos(#[trigger] s[j].pos),
        is_valid_pos(x.pos),
    ensures
        forall|j: int|
            0 <= j < ring_push(s, x).len() ==> is_valid_pos(#[trigger] ring_push(s, x)[j].pos),
{
    if s.len() + 1 < BUFFER_SIZE {
        assert forall|j: int| 0 <= j < ring_push(s, x).len() implies is_valid_pos(
            #[trigger] ring_push(s, x)[j].pos,
        ) by {
            if j < s.len() {
                assert(ring_push(s, x)[j] == s[j]);
            }
        }
    }
}

impl KeyStream {
    /// The buffer and the report builder are well formed, and the stream's
    /// view is valid.
    pub closed spec fn wf(&self) -> bool {
        &&& self.events.wf()
        &&& self.state.wf()
        &&& stream_valid(self@)
    }

    /// What `wf` gives to a reader of the view.
    pub proof fn lemma_wf(&self)
        requires
            self.wf(),
        ensures
            stream_valid(self@),
            !self@.on_pos[0],
            self@.events.len() < BUFFER_SIZE,
    {
        self.events.lemma_len();
        assert(!is_valid_pos(0u8));
    }

    /// A stream with the layout of this keyboard and the given combo timing.
    pub fn with_combo_timing(threshold: u16, separation: u16) -> (r: KeyStream)
        ensures
            r.wf(),
            r@.events == Seq::<Event>::empty(),
            r@.on_pos == Seq::new(N_POS as nat, |p: int| false),
            r@.state.keys == Seq::<Command>::empty(),
            r@.state.mods == seq![false, false, false],
            r@.state.last_action_cnt == 0,
            !r@.state.requests_reset,
            is_layout(r@.keymap),
            r@.threshold == threshold,
            r@.separation == separation,
    {
        let r = KeyStream {
            events: RingBuffer::new(Event { action: Action::Up, pos: 0, cnt: 0 }),
            on_pos: [false; N_POS],
            state: FeatureState::new(),
            keymap: Keymap::new(),
            combo_threshold: threshold,
            combo_separation: separation,
        };
        assert(r@.on_pos =~= Seq::new(N_POS as nat, |p: int| false));
        r
    }

    /// A stream with the layout of this keyboard, `COMBO_THRESHOLD_CNT` and
    /// `COMBO_SEPARATION_CNT`.
    pub fn new() -> (r: KeyStream)
        ensures
            r.wf(),
            r@.events == Seq::<Event>::empty(),
            r@.on_pos == Seq::new(N_POS as nat, |p: int| false),
            r@.state.keys == Seq::<Command>::empty(),
            r@.state.mods == seq![false, false, false],
            r@.state.last_action_cnt == 0,
            !r@.state.requests_reset,
            is_layout(r@.keymap),
            r@.threshold == COMBO_THRESHOLD_CNT,
            r@.separation == COMBO_SEPARATION_CNT,
    {
        KeyStream::with_combo_timing(COMBO_THRESHOLD_CNT, COMBO_SEPARATION_CNT)
    }

    /// Whether a reset request has been rendered.
    pub fn requests_reset(&self) -> (r: bool)
        ensures
            r == self@.state.requests_reset,
    {
        self.state.requests_reset()
    }

    /// Takes one scan: `mat` and `peer` list the positions that the two halves
    /// see pressed (0 for none, duplicates allowed), `clk` is the cycle
    /// counter. Queues an `Up` event for each position that went off, then a
    /// `Down` event for each that went on.
    pub fn push(&mut self, mat: &[Pos; 8], peer: &[Pos; 8], clk: u32)
        requires
            old(self).wf(),
        ensures
            final(self).wf(),
            final(self)@ == (StreamView {
                events: ring_push_all(
                    old(self)@.events,
                    scan_events(old(self)@.on_pos, mat@, peer@, cnt_of(clk)),
                ),
                on_pos: scan_on_pos(mat@, peer@),
                ..old(self)@
            }),
    {
        assert(clk >> 16u32 == clk / 0x10000) by (bit_vector);
        let cnt = (clk >> 16) as u16;
        let ghost on0 = self.on_pos@;
        let ghost ev0 = self.events@;
        let ghost list = valid_key_list();
        // Releases first, then presses.
        let mut i: usize = 0;
        assert(list.take(0) =~= Seq::<Pos>::empty());
        while i < N_KEYS
            invariant
                0 <= i <= N_KEYS,
                self.events.wf(),
                self.state == old(self).state,
                self.keymap == old(self).keymap,
                self.combo_threshold == old(self).combo_threshold,
                self.combo_separation == old(self).combo_separation,
                old(self).wf(),
                on0 == old(self)@.on_pos,
                ev0 == old(self)@.events,
                list == valid_key_list(),
                cnt == cnt_of(clk),
                self.events@ == ring_push_all(
                    ev0,
                    edge_events(list.take(i as int), on0, mat@, peer@, cnt, Action::Up),
                ),
                forall|j: int| 0 <= j < self.events@.len() ==> is_valid_pos(#[trigger] self.events@[j].pos),
                forall|p: int|
                    0 <= p < N_POS ==> #[trigger] self.on_pos@[p] == if is_valid_pos(p as u8)
                        && map_index(p as u8) < i {
                        on0[p] && is_on_spec(mat@, peer@, p as u8)
                    } else {
                        on0[p]
                    },
            decreases N_KEYS - i,
        {
            let p = valid_key(i);
            let on = is_on(mat, peer, p);
            let was_on = self.on_pos[p as usize];
            let ghost before = self.events@;
            proof {
                let t = list.take(i + 1);
                assert(t.drop_last() =~= list.take(i as int));
                assert(t.last() == p);
            }
            if was_on && !on {
                let e = Event { action: Action::Up, pos: p, cnt };
                self.events.push(&e);
                self.on_pos[p as usize] = false;
                proof {
                    lemma_ring_push_items(before, e);
                    let xs = edge_events(list.take(i as int), on0, mat@, peer@, cnt, Action::Up);
                    assert(xs.push(e).drop_last() =~= xs);
                }
            }
            proof {
                assert forall|q: int| 0 <= q < N_POS implies #[trigger] self.on_pos@[q] == if is_valid_pos(q as u8)
                    && map_index(q as u8) < i + 1 {
                    on0[q] && is_on_spec(mat@, peer@, q as u8)
                } else {
                    on0[q]
                } by {
                    if q != p as int && is_valid_pos(q as u8) {
                        assert(map_index(q as u8) != i);
                    }
                }
            }
            i += 1;
        }
        let ghost ups = edge_events(list, on0, mat@, peer@, cnt, Action::Up);
        assert(list.take(N_KEYS as int) =~= list);
        let mut i: usize = 0;
        assert(list.take(0) =~= Seq::<Pos>::empty());
        assert(ups + Seq::<Event>::empty() =~= ups);
        while i < N_KEYS
            invariant
                0 <= i <= N_KEYS,
                self.events.wf(),
                self.state == old(self).state,
                self.keymap == old(self).keymap,
                self.combo_threshold == old(self).combo_threshold,
                self.combo_separation == old(self).combo_separation,
                old(self).wf(),
                on0 == old(self)@.on_pos,
                ev0 == old(self)@.events,
                list == valid_key_list(),
                cnt == cnt_of(clk),
                ups == edge_events(list, on0, mat@, peer@, cnt, Action::Up),
                self.events@ == ring_push_all(
                    ev0,
                    ups + edge_events(list.take(i as int), on0, mat@, peer@, cnt, Action::Down),
                ),
                forall|j: int| 0 <= j < self.events@.len() ==> is_valid_pos(#[trigger] self.events@[j].pos),
                forall|p: int|
                    0 <= p < N_POS ==> #[trigger] self.on_pos@[p] == if is_valid_pos(p as u8) {
                        if map_index(p as u8) < i {
                            is_on_spec(mat@, peer@, p as u8)
                        } else {
                            on0[p] && is_on_spec(mat@, peer@, p as u8)
                        }
                    } else {
                        on0[p]
                    },
            decreases N_KEYS - i,
        {
            let p = valid_key(i);
            let on = is_on(mat, peer, p);
            let was_on = self.on_pos[p as usize];
            let ghost before = self.events@;
            proof {
                let t = list.take(i + 1);
                assert(t.drop_last() =~= list.take(i as int));
                assert(t.last() == p);
            }
            if !was_on && on {
                let e = Event { action: Action::Down, pos: p, cnt };
                self.events.push(&e);
                self.on_pos[p as usize] = true;
                proof {
                    lemma_ring_push_items(before, e);
                    let xs = ups + edge_events(list.take(i as int), on0, mat@, peer@, cnt, Action::Down);
                    let ys = ups + edge_events(list.take(i + 1), on0, mat@, peer@, cnt, Action::Down);
                    assert(ys =~= xs.push(e));
                    assert(xs.push(e).drop_last() =~= xs);
                }
            } else {
                proof {
                    let xs = ups + edge_events(list.take(i as int), on0, mat@, peer@, cnt, Action::Down);
                    let ys = ups + edge_events(list.take(i + 1), on0, mat@, peer@, cnt, Action::Down);
                    assert(ys =~= xs);
                }
            }
            proof {
                assert forall|q: int| 0 <= q < N_POS implies #[trigger] self.on_pos@[q] == if is_valid_pos(q as u8) {
                    if map_index(q as u8) < i + 1 {
                        is_on_spec(mat@, peer@, q as u8)
                    } else {
                        on0[q] && is_on_spec(mat@, peer@, q as u8)
                    }
                } else {
                    on0[q]
                } by {
                    if q != p as int && is_valid_pos(q as u8) {
                        assert(map_index(q as u8) != i);
                    }
                }
            }
            i += 1;
        }
        proof {
            assert(list.take(N_KEYS as int) =~= list);
            assert(self.on_pos@ =~= scan_on_pos(mat@, peer@));
        }
    }

    /// The unread event at `offset` from the oldest, if there is one.
    pub fn peek_event(&self, offset: usize) -> (r: Option<Event>)
        requires
            self.wf(),
            offset < BUFFER_SIZE,
        ensures
            r == (if offset < self@.events.len() {
                Some(self@.events[offset as int])
            } else {
                None
            }),
    {
        self.events.peek(offset)
    }

    /// Resolves the head event `event`, a `Down` event, at clock count `now_cnt`.
    pub fn process_combo_keys(&self, now_cnt: u16, event: &Event) -> (r: ComboKeyResult)
        requires
            self.wf(),
            self@.events.len() > 0,
            *event == self@.events[0],
        ensures
            r == resolve(self@, now_cnt),
    {
        proof {
            self.events.lemma_len();
        }
        let pos = event.pos;
        if elapsed_cnt(self.state.last_action_cnt(), now_cnt) < self.combo_separation {
            ComboKeyResult::NotCombo
        } else if elapsed_cnt(event.cnt, now_cnt) > self.combo_threshold {
            ComboKeyResult::NotCombo
        } else if expect_combo_key(&self.keymap.combos, pos) {
            if let Some(next) = self.events.peek(1) {
                if let Some(command) = find_combo(&self.keymap.combos, pos, next.pos) {
                    ComboKeyResult::ProcessCombo { command }
                } else {
                    ComboKeyResult::NotCombo
                }
            } else {
                ComboKeyResult::Wait
            }
        } else {
            ComboKeyResult::NotCombo
        }
    }

    /// Releases every command bound to `pos`, in every layer and combo, so
    /// that no key stays stuck when the layer changed while it was held.
    fn release_related_keys(&mut self, pos: Pos)
        requires
            old(self).wf(),
            is_valid_pos(pos),
        ensures
            final(self).wf(),
            final(self)@ == (StreamView {
                state: release_related(old(self)@.keymap, old(self)@.state, pos),
                ..old(self)@
            }),
    {
        let idx = pos_to_map_index(pos);
        let k = self.keymap.mod1[idx];
        self.state.release(&k);
        let k = self.keymap.mod2[idx];
        self.state.release(&k);
        let k = self.keymap.mod3[idx];
        self.state.release(&k);
        let k = self.keymap.simple[idx];
        self.state.release(&k);
        let ghost v4 = self.state@;
        let ghost combos = self.keymap.combos@;
        let mut i: usize = 0;
        assert(combos.take(0) =~= Seq::<Combo>::empty());
        while i < N_COMBOS
            invariant
                0 <= i <= N_COMBOS,
                self.wf(),
                combos == self.keymap.combos@,
                self.events == old(self).events,
                self.on_pos == old(self).on_pos,
                self.keymap == old(self).keymap,
                self.combo_threshold == old(self).combo_threshold,
                self.combo_separation == old(self).combo_separation,
                self.state@ == release_combos(combos.take(i as int), v4, pos),
            decreases N_COMBOS - i,
        {
            let c = self.keymap.combos[i];
            proof {
                let t = combos.take(i + 1);
                assert(t.drop_last() =~= combos.take(i as int));
                assert(t.last() == c);
            }
            if pos == c.p1 || pos == c.p2 {
                self.state.release(&c.command);
            }
            i += 1;
        }
        assert(combos.take(N_COMBOS as int) =~= combos);
    }

    /// Processes the head event `ev`: returns the report emitted, if any, and
    /// whether the event was consumed. A fired combo consumes two events, a
    /// waiting one none, any other event one.
    pub fn proc_event(&mut self, cnt: u16, ev: Event) -> (r: (Option<[u8; REPORT_LEN]>, bool))
        requires
            old(self).wf(),
            old(self)@.events.len() > 0,
            ev == old(self)@.events[0],
        ensures
            final(self).wf(),
            final(self)@ == after_step(old(self)@, step(old(self)@, cnt)),
            r.1 == (step(old(self)@, cnt).consumed > 0),
            step(old(self)@, cnt).report == (match r.0 {
                Some(a) => Some(a@),
                None => None::<Seq<u8>>,
            }),
            (ev.pos == 0 || ev.action == Action::Up) ==> r.1 && final(self)@.events == old(
                self,
            )@.events.skip(1),
            (ev.pos != 0 && ev.action == Action::Down) ==> match resolve(old(self)@, cnt) {
                ComboKeyResult::ProcessCombo { command } => {
                    &&& r.1
                    &&& old(self)@.events.len() >= 2
                    &&& final(self)@.events == old(self)@.events.skip(2)
                    &&& final(self)@.state == press_and_emit(old(self)@.state, command, 2).state
                    &&& (r.0 is Some) == acts_on_report(command)
                },
                ComboKeyResult::Wait => !r.1 && r.0 is None && final(self)@ == old(self)@,
                ComboKeyResult::NotCombo => r.1 && final(self)@.events == old(self)@.events.skip(
                    1,
                ),
            },
    {
        let ghost s0 = self@;
        proof {
            law_step_consumption(s0, cnt);
            self.events.lemma_len();
            assert(s0.events.skip(0) =~= s0.events);
            assert(s0.events.skip(1) =~= s0.events.drop_first());
        }
        if ev.pos == 0 {
            self.events.consume();
            return (None, true);
        }
        match ev.action {
            Action::Down => {
                match self.process_combo_keys(cnt, &ev) {
                    ComboKeyResult::ProcessCombo { command } => {
                        let mut out = None;
                        if self.state.press(&command) {
                            out = Some(self.state.make_key_report());
                        }
                        // the two keys of the combo
                        self.events.consume();
                        self.events.consume();
                        assert(s0.events.drop_first().drop_first() =~= s0.events.skip(2));
                        (out, true)
                    },
                    ComboKeyResult::Wait => (None, false),
                    ComboKeyResult::NotCombo => {
                        let idx = pos_to_map_index(ev.pos);
                        let mods = self.state.mods();
                        let k = self.keymap.lookup(&mods, idx);
                        let mut out = None;
                        if self.state.press(&k) {
                            self.state.set_last_action_cnt(cnt);
                            out = Some(self.state.make_key_report());
                        }
                        self.events.consume();
                        (out, true)
                    },
                }
            },
            Action::Up => {
                self.release_related_keys(ev.pos);
                self.events.consume();
                (None, true)
            },
        }
    }

    /// Processes queued events at the clock counter `clk` until the queue is
    /// empty or a combo waits for its second key, and returns the reports
    /// emitted in order. When none was emitted and no combo waits, the
    /// current report is emitted once.
    pub fn read(&mut self, clk: u32) -> (reports: Vec<[u8; REPORT_LEN]>)
        requires
            old(self).wf(),
        ensures
            final(self).wf(),
            final(self)@ == read_spec(old(self)@, cnt_of(clk)).0,
            reports@.map_values(|a: [u8; REPORT_LEN]| a@) == read_spec(old(self)@, cnt_of(clk)).1,
    {
        assert(clk >> 16u32 == clk / 0x10000) by (bit_vector);
        let cnt = (clk >> 16) as u16;
        let mut reports: Vec<[u8; REPORT_LEN]> = Vec::new();
        let mut waited = false;
        assert(reports@.map_values(|a: [u8; REPORT_LEN]| a@) + run(self@, cnt).1 =~= run(self@, cnt).1);
        loop
            invariant_except_break
                !waited,
            invariant
                self.wf(),
                cnt == cnt_of(clk),
                run(old(self)@, cnt) == (
                    run(self@, cnt).0,
                    reports@.map_values(|a: [u8; REPORT_LEN]| a@) + run(self@, cnt).1,
                    run(self@, cnt).2,
                ),
            ensures
                self.wf(),
                run(old(self)@, cnt) == (
                    self@,
                    reports@.map_values(|a: [u8; REPORT_LEN]| a@),
                    waited,
                ),
            decreases self@.events.len(),
        {
            let ghost prev = self@;
            let ghost prev_reports = reports@.map_values(|a: [u8; REPORT_LEN]| a@);
            proof {
                self.events.lemma_len();
            }
            match self.peek_event(0) {
                None => {
                    assert(prev_reports + Seq::<Seq<u8>>::empty() =~= prev_reports);
                    break;
                },
                Some(ev) => {
                    let (out, consumed) = self.proc_event(cnt, ev);
                    if !consumed {
                        waited = true;
                        assert(prev.events.skip(0) =~= prev.events);
                        assert(self@ == prev);
                        assert(prev_reports + Seq::<Seq<u8>>::empty() =~= prev_reports);
                        break;
                    }
                    let ghost r = step(prev, cnt);
                    if let Some(a) = out {
                        reports.push(a);
                    }
                    proof {
                        let now_reports = reports@.map_values(|a: [u8; REPORT_LEN]| a@);
                        assert(now_reports =~= prev_reports + step_reports(r));
                        assert(prev_reports + (step_reports(r) + run(self@, cnt).1) =~= now_reports
                            + run(self@, cnt).1);
                    }
                },
            }
        }
        if reports.len() == 0 && !waited {
            let r = self.state.make_key_report();
            reports.push(r);
            proof {
                assert(reports@.map_values(|a: [u8; REPORT_LEN]| a@) =~= seq![r@]);
            }
        }
        reports
    }
}

} // verus!
