//! Positions, commands and the layered keymap.
use vstd::prelude::*;

use crate::hid_keycodes::{
    Kc, KBD_0, KBD_1, KBD_2, KBD_3, KBD_4, KBD_5, KBD_6, KBD_7, KBD_8, KBD_9, KBD_A, KBD_B,
    KBD_BACKSPACE, KBD_C, KBD_COMMA, KBD_D, KBD_DOT, KBD_DOWN, KBD_E, KBD_ENTER, KBD_ESCAPE, KBD_F,
    KBD_F1, KBD_F10, KBD_F11, KBD_F12, KBD_F2, KBD_F3, KBD_F4, KBD_F5, KBD_F6, KBD_F7, KBD_F8,
    KBD_F9, KBD_G, KBD_H, KBD_I, KBD_J, KBD_JP_AT, KBD_JP_BACKSLASH, KBD_JP_CLOSE_BRACKET,
    KBD_JP_COLON, KBD_JP_HYPHEN, KBD_JP_OPEN_BRACKET, KBD_JP_SEMICOLON, KBD_JP_UNDERSCORE, KBD_K,
    KBD_KEYPAD_PLUS, KBD_L, KBD_LEFT, KBD_M, KBD_MODIFIER_LEFT_ALT, KBD_MODIFIER_LEFT_CTRL,
    KBD_MODIFIER_LEFT_SHIFT, KBD_MODIFIER_LEFT_UI, KBD_N, KBD_O, KBD_P, KBD_Q, KBD_R, KBD_RIGHT,
    KBD_S, KBD_SLASH, KBD_SPACEBAR, KBD_T, KBD_TAB, KBD_TILDE, KBD_U, KBD_UP, KBD_V, KBD_W, KBD_X,
    KBD_Y, KBD_Z,
};

verus! {

/// Identifier of a physical switch: the high nibble is the row group
/// (1..=4 on the local half, 9..=12 on the peer half), the low nibble the
/// column (1..=6). Position 0 means "none".
pub type Pos = u8;

/// Number of positions of the keyboard, and of entries of each layer map.
pub const N_KEYS: usize = 48;

/// Number of columns of each half.
pub const N_COL: u8 = 6;

/// A modifier key. CTRL1, SHIFT1, ALT1 and UI1 are HID modifiers; MOD1,
/// MOD2 and MOD3 select a layer of the keymap and never reach a report.
#[derive(Clone, Copy, Debug, PartialEq, Eq, Structural)]
pub enum ModifierKey {
    CTRL1,
    SHIFT1,
    MOD1,
    ALT1,
    UI1,
    MOD2,
    MOD3,
}

impl ModifierKey {
    /// Bit of the report's modifier byte; 0 for a layer modifier.
    pub open spec fn spec_code(self) -> u8 {
        match self {
            ModifierKey::CTRL1 => KBD_MODIFIER_LEFT_CTRL,
            ModifierKey::SHIFT1 => KBD_MODIFIER_LEFT_SHIFT,
            ModifierKey::ALT1 => KBD_MODIFIER_LEFT_ALT,
            ModifierKey::UI1 => KBD_MODIFIER_LEFT_UI,
            ModifierKey::MOD1 | ModifierKey::MOD2 | ModifierKey::MOD3 => 0,
        }
    }

    /// The layer (0, 1 or 2) that a layer modifier selects.
    pub open spec fn layer(self) -> Option<int> {
        match self {
            ModifierKey::MOD1 => Some(0),
            ModifierKey::MOD2 => Some(1),
            ModifierKey::MOD3 => Some(2),
            _ => None,
        }
    }

    /// Bit of the report's modifier byte; 0 for a layer modifier.
    pub fn code(&self) -> (r: u8)
        ensures
            r == self.spec_code(),
    {
        match *self {
            ModifierKey::CTRL1 => KBD_MODIFIER_LEFT_CTRL,
            ModifierKey::SHIFT1 => KBD_MODIFIER_LEFT_SHIFT,
            ModifierKey::MOD1 => 0,
            ModifierKey::ALT1 => KBD_MODIFIER_LEFT_ALT,
            ModifierKey::UI1 => KBD_MODIFIER_LEFT_UI,
            ModifierKey::MOD2 => 0,
            ModifierKey::MOD3 => 0,
        }
    }
}

/// The logical effect of a keymap slot.
#[derive(Clone, Copy, Debug, PartialEq, Eq, Structural)]
pub enum Command {
    /// Inert.
    Nop,
    /// A keycode alone.
    KeyPress { kc: Kc },
    /// A modifier held down: a HID modifier or a layer modifier.
    PressModifier { mk: ModifierKey },
    /// A keycode together with HID modifiers; `mks` is the bitwise OR of
    /// their report bits.
    ModifiedKey { mks: u8, kc: Kc },
    /// Asks the host to reset the keyboard.
    RequestReset,
}

impl Command {
    /// The layer that this command selects, if it is a layer modifier.
    pub open spec fn layer(self) -> Option<int> {
        match self {
            Command::PressModifier { mk } => mk.layer(),
            _ => None,
        }
    }

    /// A layer modifier: kept as a flag, never as an active command.
    pub open spec fn is_layer_mod(self) -> bool {
        self.layer() is Some
    }

    /// Whether the slot holds something (is not `Nop`).
    pub fn is_defined(&self) -> (r: bool)
        ensures
            r == !(*self is Nop),
    {
        match self {
            Command::Nop => false,
            Command::KeyPress { .. } => true,
            Command::PressModifier { .. } => true,
            Command::ModifiedKey { .. } => true,
            Command::RequestReset => true,
        }
    }
}

/// Row group of a position.
pub open spec fn pos_row(p: Pos) -> int {
    p as int / 16
}

/// Column of a position.
pub open spec fn pos_col(p: Pos) -> int {
    p as int % 16
}

/// A position of one of the two 4x6 matrices.
pub open spec fn is_valid_pos(p: Pos) -> bool {
    &&& (1 <= pos_row(p) <= 4 || 9 <= pos_row(p) <= 12)
    &&& 1 <= pos_col(p) <= 6
}

/// Compact row-major index of a valid position (0..48).
pub open spec fn map_index(p: Pos) -> int {
    let r = pos_row(p);
    let i = if r >= 9 { r - 9 + 4 } else { r - 1 };
    i * 6 + pos_col(p) - 1
}

/// The position whose compact index is `i`.
pub open spec fn pos_at(i: int) -> Pos {
    let r = i / 6;
    let row = if r < 4 { r + 1 } else { r + 5 };
    (row * 16 + i % 6 + 1) as u8
}

/// All valid positions, in compact index order.
pub open spec fn valid_key_list() -> Seq<Pos> {
    Seq::new(N_KEYS as nat, |i: int| pos_at(i))
}

/// The compact map index is a bijection between the valid positions and
/// `0..N_KEYS`, `pos_at` being its inverse; `valid_key_list` therefore lists
/// every valid position exactly once.
pub proof fn law_map_index_bijection(p: Pos, i: int)
    ensures
        is_valid_pos(p) ==> 0 <= map_index(p) < N_KEYS && pos_at(map_index(p)) == p,
        0 <= i < N_KEYS ==> is_valid_pos(pos_at(i)) && map_index(pos_at(i)) == i,
        map_index(0x11) == 0,
        map_index(0x16) == 5,
        map_index(0x46) == 23,
        map_index(0x91) == 24,
        map_index(0xa1) == 30,
        map_index(0xc6) == 47,
{
}

/// `valid_key_list` has no duplicates and holds exactly the valid positions.
pub proof fn lemma_valid_key_list()
    ensures
        valid_key_list().no_duplicates(),
        forall|p: Pos| #[trigger] valid_key_list().contains(p) <==> is_valid_pos(p),
{
    let l = valid_key_list();
    assert forall|i: int, j: int| 0 <= i < l.len() && 0 <= j < l.len() && i != j implies l[i]
        != l[j] by {
        law_map_index_bijection(0, i);
        law_map_index_bijection(0, j);
    }
    assert forall|p: Pos| #[trigger] l.contains(p) <==> is_valid_pos(p) by {
        if is_valid_pos(p) {
            law_map_index_bijection(p, 0);
            assert(l[map_index(p)] == p);
        }
        if l.contains(p) {
            let i = choose|i: int| 0 <= i < l.len() && l[i] == p;
            law_map_index_bijection(p, i);
        }
    }
}

/// Compact map index of a valid position.
pub fn pos_to_map_index(pos: Pos) -> (r: usize)
    requires
        is_valid_pos(pos),
    ensures
        r == map_index(pos),
        r < N_KEYS,
{
    assert(pos >> 4u8 == pos / 16 && pos & 0x0fu8 == pos % 16) by (bit_vector);
    let row = pos >> 4;
    let col = pos & 0x0f;
    let i = if row >= 9 { row - 9 + 4 } else { row - 1 };
    let j = col - 1;
    (i * N_COL + j) as usize
}

/// The valid position whose compact index is `i`.
pub fn valid_key(i: usize) -> (p: Pos)
    requires
        i < N_KEYS,
    ensures
        p == valid_key_list()[i as int],
        is_valid_pos(p),
        map_index(p) == i,
{
    let r = i / 6;
    let row = if r < 4 { r + 1 } else { r + 5 };
    (row * 16 + i % 6 + 1) as u8
}

/// A two-key combo: `p1` and `p2` pressed together activate `command`
/// (in either order).
#[derive(Clone, Copy, Debug, PartialEq, Eq, Structural)]
pub struct Combo {
    pub p1: Pos,
    pub p2: Pos,
    pub command: Command,
}

/// Number of combos of the keymap.
pub const N_COMBOS: usize = 9;

/// The four layers of the keymap, indexed by compact map index, and the
/// combo table.
pub struct Keymap {
    pub simple: [Command; N_KEYS],
    pub mod1: [Command; N_KEYS],
    pub mod2: [Command; N_KEYS],
    pub mod3: [Command; N_KEYS],
    pub combos: [Combo; N_COMBOS],
}

fn k(kc: Kc) -> (c: Command)
    ensures
        c == (Command::KeyPress { kc }),
{
    Command::KeyPress { kc }
}

fn m(mk: ModifierKey) -> (c: Command)
    ensures
        c == (Command::PressModifier { mk }),
{
    Command::PressModifier { mk }
}

fn nop() -> (c: Command)
    ensures
        c == Command::Nop,
{
    Command::Nop
}

/// `kc` with Shift, as a Japanese layout types the upper symbol of a key.
fn shifted(kc: Kc) -> (c: Command)
    ensures
        c == (Command::ModifiedKey { mks: KBD_MODIFIER_LEFT_SHIFT, kc }),
{
    Command::ModifiedKey { mks: KBD_MODIFIER_LEFT_SHIFT, kc }
}

/// `kc` with UI and Shift.
fn ui_shifted(kc: Kc) -> (c: Command)
    ensures
        c == (Command::ModifiedKey { mks: KBD_MODIFIER_LEFT_UI | KBD_MODIFIER_LEFT_SHIFT, kc }),
{
    Command::ModifiedKey { mks: KBD_MODIFIER_LEFT_UI | KBD_MODIFIER_LEFT_SHIFT, kc }
}

/// `*` of a Japanese layout: Shift and the `:` key.
pub fn asterisk() -> (c: Command)
    ensures
        c == (Command::ModifiedKey { mks: KBD_MODIFIER_LEFT_SHIFT, kc: KBD_JP_COLON }),
{
    shifted(KBD_JP_COLON)
}

/// Whether `c` pairs `a` with `b`, in either order.
pub open spec fn combo_matches(c: Combo, a: Pos, b: Pos) -> bool {
    (c.p1 == a && c.p2 == b) || (c.p1 == b && c.p2 == a)
}

/// Whether `p` takes part in some combo.
pub open spec fn is_combo_key(combos: Seq<Combo>, p: Pos) -> bool {
    exists|i: int| 0 <= i < combos.len() && (combos[i].p1 == p || combos[i].p2 == p)
}

/// The command of the first combo that pairs `a` with `b`.
pub open spec fn combo_command(combos: Seq<Combo>, a: Pos, b: Pos) -> Option<Command>
    decreases combos.len(),
{
    if combos.len() == 0 {
        None
    } else if combo_matches(combos[0], a, b) {
        Some(combos[0].command)
    } else {
        combo_command(combos.drop_first(), a, b)
    }
}

/// The layer that the layer flags select: the first flag set, in the order
/// MOD1, MOD2, MOD3; `None` for the base layer.
pub open spec fn active_layer(mods: Seq<bool>) -> Option<int> {
    if mods[0] {
        Some(0)
    } else if mods[1] {
        Some(1)
    } else if mods[2] {
        Some(2)
    } else {
        None
    }
}

/// Whether `on_key` takes part in some combo.
pub fn expect_combo_key(combos: &[Combo; N_COMBOS], on_key: Pos) -> (r: bool)
    ensures
        r == is_combo_key(combos@, on_key),
{
    let mut i: usize = 0;
    while i < N_COMBOS
        invariant
            0 <= i <= N_COMBOS,
            forall|j: int| 0 <= j < i ==> combos@[j].p1 != on_key && combos@[j].p2 != on_key,
        decreases N_COMBOS - i,
    {
        if on_key == combos[i].p1 {
            return true;
        }
        if on_key == combos[i].p2 {
            return true;
        }
        i += 1;
    }
    false
}

/// The command of the first combo that pairs `on_k1` with `on_k2`.
pub fn find_combo(combos: &[Combo; N_COMBOS], on_k1: Pos, on_k2: Pos) -> (r: Option<Command>)
    ensures
        r == combo_command(combos@, on_k1, on_k2),
{
    let mut i: usize = 0;
    assert(combos@.skip(0) =~= combos@);
    while i < N_COMBOS
        invariant
            0 <= i <= N_COMBOS,
            combo_command(combos@, on_k1, on_k2) == combo_command(
                combos@.skip(i as int),
                on_k1,
                on_k2,
            ),
        decreases N_COMBOS - i,
    {
        let c = combos[i];
        assert(combos@.skip(i as int).drop_first() =~= combos@.skip(i + 1));
        if on_k1 == c.p1 && on_k2 == c.p2 || on_k1 == c.p2 && on_k2 == c.p1 {
            return Some(c.command);
        }
        i += 1;
    }
    None
}

/// `kc` alone.
pub open spec fn key(kc: Kc) -> Command {
    Command::KeyPress { kc }
}

/// Modifier `mk` held.
pub open spec fn modifier(mk: ModifierKey) -> Command {
    Command::PressModifier { mk }
}

/// `kc` with Shift.
pub open spec fn shifted_key(kc: Kc) -> Command {
    Command::ModifiedKey { mks: KBD_MODIFIER_LEFT_SHIFT, kc }
}

/// `kc` with UI and Shift.
pub open spec fn ui_shifted_key(kc: Kc) -> Command {
    Command::ModifiedKey { mks: KBD_MODIFIER_LEFT_UI | KBD_MODIFIER_LEFT_SHIFT, kc }
}

/// The base layer.
pub open spec fn simple_layer() -> Seq<Command> {
    seq![
        // left half
        key(KBD_TAB), key(KBD_Q), key(KBD_W), key(KBD_E), key(KBD_R), key(KBD_T),
        modifier(ModifierKey::CTRL1), key(KBD_A), key(KBD_S), key(KBD_D), key(KBD_F), key(KBD_G),
        modifier(ModifierKey::SHIFT1), key(KBD_Z), key(KBD_X), key(KBD_C), key(KBD_V), key(KBD_B),
        key(KBD_TILDE), modifier(ModifierKey::MOD1), modifier(ModifierKey::ALT1), modifier(ModifierKey::UI1),
        key(KBD_SPACEBAR), modifier(ModifierKey::MOD2),
        // right half
        key(KBD_Y), key(KBD_U), key(KBD_I), key(KBD_O), key(KBD_P), key(KBD_JP_HYPHEN),
        key(KBD_H), key(KBD_J), key(KBD_K), key(KBD_L), key(KBD_JP_SEMICOLON), key(KBD_BACKSPACE),
        key(KBD_N), key(KBD_M), key(KBD_COMMA), key(KBD_DOT), key(KBD_SLASH), key(KBD_JP_BACKSLASH),
        modifier(ModifierKey::SHIFT1), key(KBD_JP_UNDERSCORE), Command::Nop, Command::Nop, key(KBD_JP_AT),
        key(KBD_JP_COLON),
    ]
}

/// The layer of MOD1.
pub open spec fn mod1_layer() -> Seq<Command> {
    seq![
        // left half
        key(KBD_Y), key(KBD_U), key(KBD_I), key(KBD_O), key(KBD_P), key(KBD_JP_HYPHEN),
        modifier(ModifierKey::CTRL1), key(KBD_J), key(KBD_K), key(KBD_L), key(KBD_JP_SEMICOLON),
        key(KBD_BACKSPACE),
        modifier(ModifierKey::SHIFT1), key(KBD_M), key(KBD_COMMA), key(KBD_DOT), key(KBD_SLASH),
        key(KBD_JP_BACKSLASH),
        Command::Nop, modifier(ModifierKey::MOD1), modifier(ModifierKey::ALT1), modifier(ModifierKey::UI1),
        key(KBD_SPACEBAR), modifier(ModifierKey::MOD2),
        // right half
        key(KBD_TAB), key(KBD_Q), key(KBD_W), key(KBD_E), key(KBD_R), key(KBD_T),
        Command::Nop, key(KBD_A), key(KBD_S), key(KBD_D), key(KBD_F), key(KBD_G),
        Command::Nop, key(KBD_Z), key(KBD_X), key(KBD_C), key(KBD_V), key(KBD_B),
        modifier(ModifierKey::SHIFT1), Command::Nop, Command::Nop, Command::Nop, Command::Nop, Command::Nop,
    ]
}

/// The layer of MOD2.
pub open spec fn mod2_layer() -> Seq<Command> {
    seq![
        // left half
        Command::Nop, shifted_key(KBD_1), shifted_key(KBD_2), shifted_key(KBD_3), shifted_key(KBD_4), shifted_key(KBD_5),
        modifier(ModifierKey::CTRL1), Command::Nop, Command::Nop, Command::Nop, Command::Nop, shifted_key(KBD_4),
        modifier(ModifierKey::SHIFT1), Command::Nop, Command::Nop, Command::Nop, Command::Nop, Command::Nop,
        Command::Nop, modifier(ModifierKey::MOD1), modifier(ModifierKey::ALT1), modifier(ModifierKey::UI1), Command::Nop,
        modifier(ModifierKey::MOD2),
        // right half
        shifted_key(KBD_6), shifted_key(KBD_7), shifted_key(KBD_8), shifted_key(KBD_9), Command::Nop,
        shifted_key(KBD_JP_HYPHEN),
        key(KBD_LEFT), key(KBD_DOWN), key(KBD_UP), key(KBD_RIGHT), Command::Nop, Command::Nop,
        Command::Nop, Command::Nop, Command::Nop, Command::Nop, Command::Nop, Command::Nop,
        modifier(ModifierKey::SHIFT1), Command::Nop, Command::Nop, Command::Nop, Command::Nop, Command::Nop,
    ]
}

/// The layer of MOD3.
pub open spec fn mod3_layer() -> Seq<Command> {
    seq![
        // left half
        Command::Nop, key(KBD_F9), key(KBD_F10), key(KBD_F11), key(KBD_F12), Command::Nop,
        modifier(ModifierKey::CTRL1), key(KBD_F5), key(KBD_F6), key(KBD_F7), key(KBD_F8), Command::Nop,
        modifier(ModifierKey::SHIFT1), key(KBD_F1), key(KBD_F2), key(KBD_F3), key(KBD_F4), Command::Nop,
        Command::Nop, modifier(ModifierKey::MOD1), modifier(ModifierKey::ALT1), modifier(ModifierKey::UI1), Command::Nop,
        modifier(ModifierKey::MOD2),
        // right half
        Command::Nop, key(KBD_7), key(KBD_8), key(KBD_9), shifted_key(KBD_JP_COLON), Command::Nop,
        Command::Nop, key(KBD_4), key(KBD_5), key(KBD_6), key(KBD_KEYPAD_PLUS), Command::Nop,
        Command::Nop, key(KBD_1), key(KBD_2), key(KBD_3), key(KBD_0), Command::Nop,
        modifier(ModifierKey::SHIFT1), Command::Nop, Command::Nop, Command::Nop, Command::Nop, Command::Nop,
    ]
}

/// The combos.
pub open spec fn combo_table() -> Seq<Combo> {
    seq![
        Combo { p1: 0xa2, p2: 0xa3, command: key(KBD_ENTER) },
        Combo { p1: 0x24, p2: 0x25, command: key(KBD_ESCAPE) },
        Combo { p1: 0x44, p2: 0x45, command: modifier(ModifierKey::MOD3) },
        Combo { p1: 0xa4, p2: 0xa5, command: key(KBD_JP_OPEN_BRACKET) },
        Combo { p1: 0xa5, p2: 0xa6, command: key(KBD_JP_CLOSE_BRACKET) },
        Combo { p1: 0xb2, p2: 0xb3, command: shifted_key(KBD_JP_OPEN_BRACKET) },
        Combo { p1: 0xb3, p2: 0xb4, command: shifted_key(KBD_JP_CLOSE_BRACKET) },
        Combo { p1: 0x93, p2: 0x95, command: ui_shifted_key(KBD_JP_OPEN_BRACKET) },
        Combo { p1: 0xa3, p2: 0xa5, command: ui_shifted_key(KBD_JP_CLOSE_BRACKET) },
    ]
}

/// Whether `km` is the layout of this keyboard.
pub open spec fn is_layout(km: Keymap) -> bool {
    &&& km.simple@ == simple_layer()
    &&& km.mod1@ == mod1_layer()
    &&& km.mod2@ == mod2_layer()
    &&& km.mod3@ == mod3_layer()
    &&& km.combos@ == combo_table()
}

impl Keymap {
    /// The command of the map of `layer` (`None`: the base layer) at `idx`.
    pub open spec fn command(&self, layer: Option<int>, idx: int) -> Command {
        if layer == Some(0int) {
            self.mod1@[idx]
        } else if layer == Some(1int) {
            self.mod2@[idx]
        } else if layer == Some(2int) {
            self.mod3@[idx]
        } else {
            self.simple@[idx]
        }
    }

    /// The command that a key at `idx` activates under the layer flags `mods`.
    pub fn lookup(&self, mods: &[bool; 3], idx: usize) -> (r: Command)
        requires
            idx < N_KEYS,
        ensures
            r == self.command(active_layer(mods@), idx as int),
    {
        if mods[0] {
            self.mod1[idx]
        } else if mods[1] {
            self.mod2[idx]
        } else if mods[2] {
            self.mod3[idx]
        } else {
            self.simple[idx]
        }
    }

    /// The layout of this keyboard.
    pub fn new() -> (r: Keymap)
        ensures
            is_layout(r),
    {
        let simple = [
            // left half
            k(KBD_TAB), k(KBD_Q), k(KBD_W), k(KBD_E), k(KBD_R), k(KBD_T),
            m(ModifierKey::CTRL1), k(KBD_A), k(KBD_S), k(KBD_D), k(KBD_F), k(KBD_G),
            m(ModifierKey::SHIFT1), k(KBD_Z), k(KBD_X), k(KBD_C), k(KBD_V), k(KBD_B),
            k(KBD_TILDE), m(ModifierKey::MOD1), m(ModifierKey::ALT1), m(ModifierKey::UI1),
            k(KBD_SPACEBAR), m(ModifierKey::MOD2),
            // right half
            k(KBD_Y), k(KBD_U), k(KBD_I), k(KBD_O), k(KBD_P), k(KBD_JP_HYPHEN),
            k(KBD_H), k(KBD_J), k(KBD_K), k(KBD_L), k(KBD_JP_SEMICOLON), k(KBD_BACKSPACE),
            k(KBD_N), k(KBD_M), k(KBD_COMMA), k(KBD_DOT), k(KBD_SLASH), k(KBD_JP_BACKSLASH),
            m(ModifierKey::SHIFT1), k(KBD_JP_UNDERSCORE), nop(), nop(), k(KBD_JP_AT),
            k(KBD_JP_COLON),
        ];
        let mod1 = [
            // left half
            k(KBD_Y), k(KBD_U), k(KBD_I), k(KBD_O), k(KBD_P), k(KBD_JP_HYPHEN),
            m(ModifierKey::CTRL1), k(KBD_J), k(KBD_K), k(KBD_L), k(KBD_JP_SEMICOLON),
            k(KBD_BACKSPACE),
            m(ModifierKey::SHIFT1), k(KBD_M), k(KBD_COMMA), k(KBD_DOT), k(KBD_SLASH),
            k(KBD_JP_BACKSLASH),
            nop(), m(ModifierKey::MOD1), m(ModifierKey::ALT1), m(ModifierKey::UI1),
            k(KBD_SPACEBAR), m(ModifierKey::MOD2),
            // right half
            k(KBD_TAB), k(KBD_Q), k(KBD_W), k(KBD_E), k(KBD_R), k(KBD_T),
            nop(), k(KBD_A), k(KBD_S), k(KBD_D), k(KBD_F), k(KBD_G),
            nop(), k(KBD_Z), k(KBD_X), k(KBD_C), k(KBD_V), k(KBD_B),
            m(ModifierKey::SHIFT1), nop(), nop(), nop(), nop(), nop(),
        ];
        let mod2 = [
            // left half
            nop(), shifted(KBD_1), shifted(KBD_2), shifted(KBD_3), shifted(KBD_4), shifted(KBD_5),
            m(ModifierKey::CTRL1), nop(), nop(), nop(), nop(), shifted(KBD_4),
            m(ModifierKey::SHIFT1), nop(), nop(), nop(), nop(), nop(),
            nop(), m(ModifierKey::MOD1), m(ModifierKey::ALT1), m(ModifierKey::UI1), nop(),
            m(ModifierKey::MOD2),
            // right half
            shifted(KBD_6), shifted(KBD_7), shifted(KBD_8), shifted(KBD_9), nop(),
            shifted(KBD_JP_HYPHEN),
            k(KBD_LEFT), k(KBD_DOWN), k(KBD_UP), k(KBD_RIGHT), nop(), nop(),
            nop(), nop(), nop(), nop(), nop(), nop(),
            m(ModifierKey::SHIFT1), nop(), nop(), nop(), nop(), nop(),
        ];
        let mod3 = [
            // left half
            nop(), k(KBD_F9), k(KBD_F10), k(KBD_F11), k(KBD_F12), nop(),
            m(ModifierKey::CTRL1), k(KBD_F5), k(KBD_F6), k(KBD_F7), k(KBD_F8), nop(),
            m(ModifierKey::SHIFT1), k(KBD_F1), k(KBD_F2), k(KBD_F3), k(KBD_F4), nop(),
            nop(), m(ModifierKey::MOD1), m(ModifierKey::ALT1), m(ModifierKey::UI1), nop(),
            m(ModifierKey::MOD2),
            // right half
            nop(), k(KBD_7), k(KBD_8), k(KBD_9), asterisk(), nop(),
            nop(), k(KBD_4), k(KBD_5), k(KBD_6), k(KBD_KEYPAD_PLUS), nop(),
            nop(), k(KBD_1), k(KBD_2), k(KBD_3), k(KBD_0), nop(),
            m(ModifierKey::SHIFT1), nop(), nop(), nop(), nop(), nop(),
        ];
        let combos = [
            Combo { p1: 0xa2, p2: 0xa3, command: k(KBD_ENTER) },
            Combo { p1: 0x24, p2: 0x25, command: k(KBD_ESCAPE) },
            Combo { p1: 0x44, p2: 0x45, command: m(ModifierKey::MOD3) },
            Combo { p1: 0xa4, p2: 0xa5, command: k(KBD_JP_OPEN_BRACKET) },
            Combo { p1: 0xa5, p2: 0xa6, command: k(KBD_JP_CLOSE_BRACKET) },
            Combo { p1: 0xb2, p2: 0xb3, command: shifted(KBD_JP_OPEN_BRACKET) },
            Combo { p1: 0xb3, p2: 0xb4, command: shifted(KBD_JP_CLOSE_BRACKET) },
            Combo { p1: 0x93, p2: 0x95, command: ui_shifted(KBD_JP_OPEN_BRACKET) },
            Combo { p1: 0xa3, p2: 0xa5, command: ui_shifted(KBD_JP_CLOSE_BRACKET) },
        ];
        let r = Keymap { simple, mod1, mod2, mod3, combos };
        assert(r.simple@ =~= simple_layer());
        assert(r.mod1@ =~= mod1_layer());
        assert(r.mod2@ =~= mod2_layer());
        assert(r.mod3@ =~= mod3_layer());
        assert(r.combos@ =~= combo_table());
        r
    }
}

} // verus!
