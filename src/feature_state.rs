//! The report builder: the active commands, the layer flags, and the HID
//! boot-keyboard report rendered from them.
use vstd::prelude::*;

use crate::keymap::{Command, ModifierKey};

verus! {

/// Number of command slots, as many as a boot-keyboard report has keycodes.
pub const REPORT_SLOTS: usize = 6;

/// Length of a HID boot-keyboard report.
pub const REPORT_LEN: usize = 8;

/// Abstract state of a `FeatureState`.
pub struct FeatureView {
    /// Layer flags of MOD1, MOD2 and MOD3.
    pub mods: Seq<bool>,
    /// Active commands, in order of activation.
    pub keys: Seq<Command>,
    /// Clock count at which the last key outside a combo was reported.
    pub last_action_cnt: u16,
    /// Latched once a reset request has been rendered.
    pub requests_reset: bool,
}

/// The first `n` slots hold commands and the rest are `Nop`.
pub open spec fn packed_at(slots: Seq<Command>, n: int) -> bool {
    &&& 0 <= n <= REPORT_SLOTS
    &&& slots.len() == REPORT_SLOTS
    &&& forall|i: int| 0 <= i < n ==> !(#[trigger] slots[i] is Nop)
    &&& forall|i: int| n <= i < REPORT_SLOTS ==> #[trigger] slots[i] is Nop
}

/// Number of occupied slots of left-packed `slots`.
pub open spec fn n_keys(slots: Seq<Command>) -> int {
    choose|n: int| packed_at(slots, n)
}

/// What may stand in the active command list: at most `REPORT_SLOTS`
/// commands, none of them `Nop` or a layer modifier, none twice.
pub open spec fn keys_valid(keys: Seq<Command>) -> bool {
    &&& keys.len() <= REPORT_SLOTS
    &&& keys.no_duplicates()
    &&& forall|i: int| 0 <= i < keys.len() ==> !(#[trigger] keys[i] is Nop) && !keys[i].is_layer_mod()
}

/// Whether pressing or releasing `c` acts on the active commands (and so on
/// the report), rather than on a layer flag or nothing.
pub open spec fn acts_on_report(c: Command) -> bool {
    !(c is Nop) && !c.is_layer_mod()
}

/// Insertion: nothing when `c` is active already or every slot is taken.
pub open spec fn insert_key(keys: Seq<Command>, c: Command) -> Seq<Command> {
    if keys.contains(c) || keys.len() >= REPORT_SLOTS {
        keys
    } else {
        keys.push(c)
    }
}

/// Removal of `c`, the later commands moving up one place.
pub open spec fn remove_key(keys: Seq<Command>, c: Command) -> Seq<Command> {
    if keys.contains(c) {
        keys.remove(keys.index_of(c))
    } else {
        keys
    }
}

/// The state after `press(c)`.
pub open spec fn press_spec(v: FeatureView, c: Command) -> FeatureView {
    match c.layer() {
        Some(l) => FeatureView { mods: v.mods.update(l, true), ..v },
        None => if c is Nop {
            v
        } else {
            FeatureView { keys: insert_key(v.keys, c), ..v }
        },
    }
}

/// The state after `release(c)`.
pub open spec fn release_spec(v: FeatureView, c: Command) -> FeatureView {
    match c.layer() {
        Some(l) => FeatureView { mods: v.mods.update(l, false), ..v },
        None => if c is Nop {
            v
        } else {
            FeatureView { keys: remove_key(v.keys, c), ..v }
        },
    }
}

/// Modifier bits that a command puts in byte 0 of the report.
pub open spec fn modifier_bits(c: Command) -> u8 {
    match c {
        Command::PressModifier { mk } => mk.spec_code(),
        Command::ModifiedKey { mks, .. } => mks,
        _ => 0,
    }
}

/// Keycode that a command puts in the report.
pub open spec fn keycode_of(c: Command) -> Option<u8> {
    match c {
        Command::KeyPress { kc } => Some(kc),
        Command::ModifiedKey { kc, .. } => Some(kc),
        _ => None,
    }
}

/// Byte 0 of the report: the OR of the modifier bits of `keys`.
pub open spec fn report_modifiers(keys: Seq<Command>) -> u8
    decreases keys.len(),
{
    if keys.len() == 0 {
        0
    } else {
        report_modifiers(keys.drop_last()) | modifier_bits(keys.last())
    }
}

/// The keycodes of `keys`, in order.
pub open spec fn report_keycodes(keys: Seq<Command>) -> Seq<u8>
    decreases keys.len(),
{
    if keys.len() == 0 {
        Seq::empty()
    } else {
        let r = report_keycodes(keys.drop_last());
        match keycode_of(keys.last()) {
            Some(kc) => r.push(kc),
            None => r,
        }
    }
}

/// The 8-byte boot-keyboard report of the active commands `keys`: modifier
/// byte, a reserved 0, then the keycodes, padded with 0.
pub open spec fn report(keys: Seq<Command>) -> Seq<u8> {
    let kcs = report_keycodes(keys);
    Seq::new(
        REPORT_LEN as nat,
        |i: int|
            if i == 0 {
                report_modifiers(keys)
            } else if 2 <= i < 2 + kcs.len() {
                kcs[i - 2]
            } else {
                0u8
            },
    )
}

/// The state after rendering a report: a reset request among the active
/// commands latches `requests_reset`.
pub open spec fn render_spec(v: FeatureView) -> FeatureView {
    FeatureView { requests_reset: v.requests_reset || v.keys.contains(Command::RequestReset), ..v }
}

proof fn lemma_or_zero(x: u8)
    ensures
        x | 0 == x,
{
    assert(x | 0 == x) by (bit_vector);
}

/// State of the report builder.
pub struct FeatureState {
    mods: [bool; 3],
    commands: [Command; REPORT_SLOTS],
    last_action_cnt: u16,
    requests_reset: bool,
}

impl View for FeatureState {
    type V = FeatureView;

    closed spec fn view(&self) -> FeatureView {
        FeatureView {
            mods: self.mods@,
            keys: self.commands@.take(n_keys(self.commands@)),
            last_action_cnt: self.last_action_cnt,
            requests_reset: self.requests_reset,
        }
    }
}

/// The count of occupied slots is the one `n` at which the slots are packed.
proof fn lemma_n_keys(slots: Seq<Command>, n: int)
    requires
        packed_at(slots, n),
    ensures
        n_keys(slots) == n,
{
    let m = n_keys(slots);
    assert(packed_at(slots, m));
    if m < n {
        assert(slots[m] is Nop);
    } else if n < m {
        assert(slots[n] is Nop);
    }
}

impl FeatureState {
    /// The slots are left-packed and hold a valid command list.
    pub closed spec fn wf(&self) -> bool {
        &&& packed_at(self.commands@, n_keys(self.commands@))
        &&& keys_valid(self@.keys)
    }

    /// The six command slots, in order.
    pub closed spec fn slots(&self) -> Seq<Command> {
        self.commands@
    }

    /// In every state that `wf` admits, the slots are left-packed: the active
    /// commands fill the first slots and every later slot is `Nop`. The
    /// active commands hold no `Nop`, no duplicate and no layer modifier.
    pub proof fn lemma_wf(&self)
        requires
            self.wf(),
        ensures
            packed_at(self.slots(), self@.keys.len() as int),
            self.slots().take(self@.keys.len() as int) == self@.keys,
            keys_valid(self@.keys),
            self@.mods.len() == 3,
    {
    }

    /// No active command and no layer flag.
    pub fn new() -> (r: FeatureState)
        ensures
            r.wf(),
            r@.keys == Seq::<Command>::empty(),
            r@.mods == seq![false, false, false],
            r@.last_action_cnt == 0,
            !r@.requests_reset,
    {
        let r = FeatureState {
            mods: [false; 3],
            commands: [Command::Nop; REPORT_SLOTS],
            last_action_cnt: 0,
            requests_reset: false,
        };
        proof {
            lemma_n_keys(r.commands@, 0);
            assert(r@.keys =~= Seq::<Command>::empty());
            assert(r@.mods =~= seq![false, false, false]);
        }
        r
    }

    /// Layer flags of MOD1, MOD2 and MOD3.
    pub fn mods(&self) -> (r: [bool; 3])
        ensures
            r@ == self@.mods,
    {
        self.mods
    }

    /// Clock count at which the last key outside a combo was reported.
    pub fn last_action_cnt(&self) -> (r: u16)
        ensures
            r == self@.last_action_cnt,
    {
        self.last_action_cnt
    }

    /// Whether a reset request has been rendered.
    pub fn requests_reset(&self) -> (r: bool)
        ensures
            r == self@.requests_reset,
    {
        self.requests_reset
    }

    /// Activates `command`. Returns whether it acts on the report (it is
    /// neither `Nop` nor a layer modifier).
    pub fn press(&mut self, command: &Command) -> (r: bool)
        requires
            old(self).wf(),
        ensures
            final(self).wf(),
            final(self)@ == press_spec(old(self)@, *command),
            r == acts_on_report(*command),
    {
        match command {
            Command::Nop => false,
            Command::PressModifier { mk: ModifierKey::MOD1 } => {
                self.mods[0] = true;
                false
            },
            Command::PressModifier { mk: ModifierKey::MOD2 } => {
                self.mods[1] = true;
                false
            },
            Command::PressModifier { mk: ModifierKey::MOD3 } => {
                self.mods[2] = true;
                false
            },
            other => {
                self.push_key_command(other);
                true
            },
        }
    }

    /// Puts `command` in the first free slot, unless it is active already or
    /// no slot is free.
    fn push_key_command(&mut self, command: &Command)
        requires
            old(self).wf(),
            acts_on_report(*command),
        ensures
            final(self).wf(),
            final(self)@ == (FeatureView { keys: insert_key(old(self)@.keys, *command), ..old(self)@ }),
    {
        let ghost n = n_keys(self.commands@);
        let ghost keys = self@.keys;
        let mut i: usize = 0;
        while i < REPORT_SLOTS
            invariant
                0 <= i <= n,
                *self == *old(self),
                self.wf(),
                n == n_keys(self.commands@),
                keys == self@.keys,
                keys_valid(keys),
                acts_on_report(*command),
                forall|j: int| 0 <= j < i ==> self.commands@[j] != *command,
            decreases REPORT_SLOTS - i,
        {
            if self.commands[i] == *command {
                assert(keys[i as int] == *command);
                return;
            }
            if !self.commands[i].is_defined() {
                self.commands[i] = *command;
                proof {
                    lemma_n_keys(self.commands@, n + 1);
                    assert(!keys.contains(*command));
                    assert(self@.keys =~= keys.push(*command));
                }
                return;
            }
            i += 1;
        }
        assert(!keys.contains(*command));
    }

    /// Deactivates `command`. Returns whether it acts on the report (it is
    /// neither `Nop` nor a layer modifier).
    pub fn release(&mut self, command: &Command) -> (r: bool)
        requires
            old(self).wf(),
        ensures
            final(self).wf(),
            final(self)@ == release_spec(old(self)@, *command),
            r == acts_on_report(*command),
    {
        match command {
            Command::Nop => false,
            Command::PressModifier { mk: ModifierKey::MOD1 } => {
                self.mods[0] = false;
                false
            },
            Command::PressModifier { mk: ModifierKey::MOD2 } => {
                self.mods[1] = false;
                false
            },
            Command::PressModifier { mk: ModifierKey::MOD3 } => {
                self.mods[2] = false;
                false
            },
            other => {
                self.pop_key_command(other);
                true
            },
        }
    }

    /// Removes `command` from its slot, moving the later slots up one place.
    fn pop_key_command(&mut self, command: &Command)
        requires
            old(self).wf(),
            acts_on_report(*command),
        ensures
            final(self).wf(),
            final(self)@ == (FeatureView { keys: remove_key(old(self)@.keys, *command), ..old(self)@ }),
    {
        let ghost n = n_keys(self.commands@);
        let ghost keys = self@.keys;
        let ghost slots = self.commands@;
        let mut i: usize = 0;
        while i < REPORT_SLOTS
            invariant
                0 <= i <= n,
                *self == *old(self),
                self.wf(),
                n == n_keys(self.commands@),
                keys == self@.keys,
                slots == self.commands@,
                keys_valid(keys),
                acts_on_report(*command),
                forall|j: int| 0 <= j < i ==> self.commands@[j] != *command,
            decreases REPORT_SLOTS - i,
        {
            if self.commands[i] == *command {
                let mut j: usize = i;
                while j < REPORT_SLOTS - 1
                    invariant
                        i <= j <= REPORT_SLOTS - 1,
                        i < n,
                        packed_at(slots, n),
                        keys == slots.take(n),
                        self.mods == old(self).mods,
                        self.last_action_cnt == old(self).last_action_cnt,
                        self.requests_reset == old(self).requests_reset,
                        forall|t: int| 0 <= t < i ==> self.commands@[t] == slots[t],
                        forall|t: int| i <= t < j ==> self.commands@[t] == slots[t + 1],
                        forall|t: int| j <= t < REPORT_SLOTS ==> self.commands@[t] == slots[t],
                    decreases REPORT_SLOTS - 1 - j,
                {
                    self.commands[j] = self.commands[j + 1];
                    j += 1;
                }
                self.commands[REPORT_SLOTS - 1] = Command::Nop;
                proof {
                    assert(keys[i as int] == *command);
                    assert(keys.contains(*command));
                    assert(keys.index_of(*command) == i);
                    assert forall|t: int| 0 <= t < n - 1 implies !(#[trigger] self.commands@[t] is Nop) by {
                        if t >= i {
                            assert(self.commands@[t] == slots[t + 1]);
                        } else {
                            assert(self.commands@[t] == slots[t]);
                        }
                    }
                    assert forall|t: int| n - 1 <= t < REPORT_SLOTS implies #[trigger] self.commands@[t] is Nop by {
                        if t < REPORT_SLOTS - 1 {
                            assert(self.commands@[t] == slots[t + 1]);
                        }
                    }
                    lemma_n_keys(self.commands@, n - 1);
                    assert(self@.keys =~= keys.remove(i as int));
                }
                return;
            }
            if !self.commands[i].is_defined() {
                assert(!keys.contains(*command));
                return;
            }
            i += 1;
        }
        assert(!keys.contains(*command));
    }

    /// Renders the report of the active commands. A reset request among them
    /// latches `requests_reset`; nothing else changes.
    pub fn make_key_report(&mut self) -> (r: [u8; REPORT_LEN])
        requires
            old(self).wf(),
        ensures
            final(self).wf(),
            final(self)@ == render_spec(old(self)@),
            r@ == report(old(self)@.keys),
    {
        let ghost keys = self@.keys;
        let ghost n = n_keys(self.commands@);
        let ghost mut done = Seq::<Command>::empty();
        let mut key = [0u8; REPORT_LEN];
        let mut ptr: usize = 2;
        let mut i: usize = 0;
        assert(keys.take(0) =~= done);
        while i < REPORT_SLOTS
            invariant
                0 <= i <= REPORT_SLOTS,
                self.commands == old(self).commands,
                self.mods == old(self).mods,
                self.last_action_cnt == old(self).last_action_cnt,
                old(self).wf(),
                n == n_keys(self.commands@),
                keys == old(self)@.keys,
                done == keys.take(if i < n { i as int } else { n }),
                key[0] == report_modifiers(done),
                key[1] == 0,
                ptr == 2 + report_keycodes(done).len(),
                report_keycodes(done).len() <= done.len(),
                forall|j: int| 2 <= j < ptr ==> key[j] == report_keycodes(done)[j - 2],
                forall|j: int| ptr <= j < REPORT_LEN ==> key[j] == 0,
                self.requests_reset == (old(self).requests_reset || done.contains(
                    Command::RequestReset,
                )),
            decreases REPORT_SLOTS - i,
        {
            let c = self.commands[i];
            let ghost prev = done;
            proof {
                if i < n {
                    done = keys.take(i + 1);
                    assert(done =~= prev.push(c));
                    assert(done.drop_last() =~= prev);
                    assert(c == done.last());
                    lemma_or_zero(report_modifiers(prev));
                    assert(done.contains(Command::RequestReset) <==> (prev.contains(
                        Command::RequestReset,
                    ) || c == Command::RequestReset)) by {
                        if c == Command::RequestReset {
                            assert(done[i as int] == c);
                        }
                        if prev.contains(Command::RequestReset) {
                            let w = choose|w: int| 0 <= w < prev.len() && prev[w] == Command::RequestReset;
                            assert(done[w] == Command::RequestReset);
                        }
                    }
                } else {
                    assert(c is Nop);
                }
            }
            match c {
                Command::Nop => {},
                Command::KeyPress { kc } => {
                    key[ptr] = kc;
                    ptr += 1;
                },
                Command::PressModifier { mk } => {
                    key[0] |= mk.code();
                },
                Command::ModifiedKey { mks, kc } => {
                    key[ptr] = kc;
                    ptr += 1;
                    key[0] |= mks;
                },
                Command::RequestReset => {
                    self.requests_reset = true;
                },
            }
            i += 1;
        }
        proof {
            assert(done =~= keys);
            assert(key@ =~= report(keys));
        }
        key
    }

    /// Records the clock count of a key reported outside a combo.
    pub fn set_last_action_cnt(&mut self, cnt: u16)
        requires
            old(self).wf(),
        ensures
            final(self).wf(),
            final(self)@ == (FeatureView { last_action_cnt: cnt, ..old(self)@ }),
    {
        self.last_action_cnt = cnt;
    }
}

/// The state after a sequence of presses (`(true, c)`) and releases
/// (`(false, c)`), applied in order.
pub open spec fn apply_ops(v: FeatureView, ops: Seq<(bool, Command)>) -> FeatureView
    decreases ops.len(),
{
    if ops.len() == 0 {
        v
    } else {
        let w = apply_ops(v, ops.drop_last());
        let (is_press, c) = ops.last();
        if is_press {
            press_spec(w, c)
        } else {
            release_spec(w, c)
        }
    }
}

/// A press keeps the command list valid.
pub proof fn lemma_press_keeps_valid(v: FeatureView, c: Command)
    requires
        keys_valid(v.keys),
    ensures
        keys_valid(press_spec(v, c).keys),
{
    let keys = press_spec(v, c).keys;
    if acts_on_report(c) && !v.keys.contains(c) && v.keys.len() < REPORT_SLOTS {
        assert(keys == v.keys.push(c));
        assert forall|i: int, j: int|
            0 <= i < keys.len() && 0 <= j < keys.len() && i != j implies keys[i] != keys[j] by {
            if i == v.keys.len() as int {
                assert(v.keys[j] == keys[j]);
            } else if j == v.keys.len() as int {
                assert(v.keys[i] == keys[i]);
            }
        }
    }
}

/// A release keeps the command list valid.
pub proof fn lemma_release_keeps_valid(v: FeatureView, c: Command)
    requires
        keys_valid(v.keys),
    ensures
        keys_valid(release_spec(v, c).keys),
{
    let keys = release_spec(v, c).keys;
    if acts_on_report(c) && v.keys.contains(c) {
        let k = v.keys.index_of(c);
        assert(keys == v.keys.remove(k));
        assert forall|i: int| 0 <= i < keys.len() implies keys[i] == v.keys[if i < k {
            i
        } else {
            i + 1
        }] by {}
        assert forall|i: int, j: int|
            0 <= i < keys.len() && 0 <= j < keys.len() && i != j implies keys[i] != keys[j] by {
            assert(keys[i] == v.keys[if i < k { i } else { i + 1 }]);
            assert(keys[j] == v.keys[if j < k { j } else { j + 1 }]);
        }
    }
}

/// From a valid command list, any sequence of presses and releases leaves a
/// command list with no `Nop`, no duplicate and no layer modifier, of at most
/// `REPORT_SLOTS` commands. (The slots themselves stay left-packed: `press`
/// and `release` keep `wf`.)
pub proof fn law_commands_stay_valid(v: FeatureView, ops: Seq<(bool, Command)>)
    requires
        keys_valid(v.keys),
    ensures
        keys_valid(apply_ops(v, ops).keys),
    decreases ops.len(),
{
    if ops.len() > 0 {
        law_commands_stay_valid(v, ops.drop_last());
        let w = apply_ops(v, ops.drop_last());
        lemma_press_keeps_valid(w, ops.last().1);
        lemma_release_keeps_valid(w, ops.last().1);
    }
}

/// Rendering is a function of the active commands alone: it leaves them and
/// the layer flags as they were, so rendering again gives the same report and
/// the same state.
pub proof fn law_render_is_pure(v: FeatureView)
    ensures
        render_spec(v).keys == v.keys,
        render_spec(v).mods == v.mods,
        report(render_spec(v).keys) == report(v.keys),
        render_spec(render_spec(v)) == render_spec(v),
{
}

/// Pressing then releasing a command that is not a layer modifier and is not
/// active already restores the active commands and the layer flags, and so
/// the report.
pub proof fn law_press_release_restores(v: FeatureView, c: Command)
    requires
        keys_valid(v.keys),
        !c.is_layer_mod(),
        !v.keys.contains(c),
    ensures
        release_spec(press_spec(v, c), c) == v,
        report(release_spec(press_spec(v, c), c).keys) == report(v.keys),
{
    if !(c is Nop) && v.keys.len() < REPORT_SLOTS {
        let pushed = v.keys.push(c);
        assert(pushed.contains(c)) by {
            assert(pushed[v.keys.len() as int] == c);
        }
        let k = pushed.index_of(c);
        assert(k == v.keys.len()) by {
            if k < v.keys.len() {
                assert(v.keys[k] == c);
            }
        }
        assert(pushed.remove(k) =~= v.keys);
    }
}

/// Releasing a command that is not active (for a layer modifier: whose flag
/// is clear) changes nothing.
pub proof fn law_release_inactive_is_noop(v: FeatureView, c: Command)
    requires
        v.mods.len() == 3,
        !v.keys.contains(c),
        c.layer() matches Some(l) ==> !v.mods[l],
    ensures
        release_spec(v, c) == v,
{
    if let Some(l) = c.layer() {
        assert(v.mods.update(l, false) =~= v.mods);
    }
}

/// Presses of the commands of `cs`, in order.
pub open spec fn presses(cs: Seq<Command>) -> Seq<(bool, Command)> {
    cs.map_values(|c: Command| (true, c))
}

/// When every command of `keys` has a keycode, the report lists those
/// keycodes in order.
pub proof fn lemma_keycodes_of_keys(keys: Seq<Command>)
    requires
        forall|i: int| 0 <= i < keys.len() ==> (#[trigger] keycode_of(keys[i])) is Some,
    ensures
        report_keycodes(keys).len() == keys.len(),
        forall|i: int|
            0 <= i < keys.len() ==> Some(#[trigger] report_keycodes(keys)[i]) == keycode_of(keys[i]),
    decreases keys.len(),
{
    if keys.len() > 0 {
        let init = keys.drop_last();
        assert forall|i: int| 0 <= i < init.len() implies (#[trigger] keycode_of(init[i])) is Some by {
            assert(init[i] == keys[i]);
        }
        lemma_keycodes_of_keys(init);
        assert(keycode_of(keys[keys.len() - 1]) is Some);
        assert forall|i: int| 0 <= i < keys.len() implies Some(
            #[trigger] report_keycodes(keys)[i],
        ) == keycode_of(keys[i]) by {
            if i < init.len() {
                assert(init[i] == keys[i]);
            }
        }
    }
}

/// Pressing distinct keycode commands one after another, from no active
/// command, keeps the first `REPORT_SLOTS` of them in order and drops the
/// rest; the report lists their keycodes.
pub proof fn law_rollover_keeps_first_six(v: FeatureView, cs: Seq<Command>)
    requires
        v.keys.len() == 0,
        cs.no_duplicates(),
        forall|i: int| 0 <= i < cs.len() ==> (#[trigger] keycode_of(cs[i])) is Some,
    ensures
        ({
            let n = if cs.len() < REPORT_SLOTS {
                cs.len() as int
            } else {
                REPORT_SLOTS as int
            };
            let keys = apply_ops(v, presses(cs)).keys;
            &&& keys == cs.take(n)
            &&& report_keycodes(keys).len() == n
            &&& forall|i: int|
                0 <= i < n ==> Some(#[trigger] report_keycodes(keys)[i]) == keycode_of(cs[i])
        }),
    decreases cs.len(),
{
    let n = if cs.len() < REPORT_SLOTS {
        cs.len() as int
    } else {
        REPORT_SLOTS as int
    };
    if cs.len() == 0 {
        assert(cs.take(0) =~= v.keys);
    } else {
        let init = cs.drop_last();
        let c = cs.last();
        assert(init.no_duplicates());
        assert forall|i: int| 0 <= i < init.len() implies (#[trigger] keycode_of(init[i])) is Some by {
            assert(init[i] == cs[i]);
        }
        law_rollover_keeps_first_six(v, init);
        assert(presses(cs).drop_last() =~= presses(init));
        assert(presses(cs).last() == (true, c));
        let w = apply_ops(v, presses(init));
        assert(keycode_of(c) is Some);
        if init.len() < REPORT_SLOTS {
            assert(w.keys == init.take(init.len() as int));
            assert(!w.keys.contains(c)) by {
                if w.keys.contains(c) {
                    let k = choose|k: int| 0 <= k < w.keys.len() && w.keys[k] == c;
                    assert(cs[k] == cs[cs.len() - 1]);
                }
            }
            assert(apply_ops(v, presses(cs)).keys =~= cs.take(n));
        } else {
            assert(init.take(REPORT_SLOTS as int) =~= cs.take(REPORT_SLOTS as int));
        }
    }
    let keys = apply_ops(v, presses(cs)).keys;
    assert forall|i: int| 0 <= i < keys.len() implies (#[trigger] keycode_of(keys[i])) is Some by {
        assert(keys[i] == cs[i]);
    }
    lemma_keycodes_of_keys(keys);
}

} // verus!
