//! Per-client input tuning applied on the *sending* side, just before an
//! event leaves for the peer: modifier-key remapping.
//!
//! Applying this on the capturing machine means each machine decides how
//! its own keyboard behaves on the other one: a Mac user can make Command
//! act as Ctrl on the Windows PC without the Windows side knowing anything
//! about it, and the peer only ever sees ordinary key codes.

use crate::ipc::{Modifier, ModifierMap};
use crate::table::{
    at, erased, erased_is_gone, has_key, keys_differ, position_finds, position_is, stored,
    stored_reads_back, Table,
};
use vstd::prelude::*;

verus! {

/// Key codes of the modifier keys, as Linux numbers them.
pub const KEY_LEFT_CTRL: u32 = 29;

pub const KEY_RIGHT_CTRL: u32 = 97;

pub const KEY_LEFT_ALT: u32 = 56;

pub const KEY_RIGHT_ALT: u32 = 100;

pub const KEY_LEFT_META: u32 = 125;

pub const KEY_RIGHT_META: u32 = 126;

/// XKB modifier bits, as they accompany key events.
pub const CONTROL_MASK: u32 = 4;

pub const MOD1_MASK: u32 = 8;

pub const MOD4_MASK: u32 = 64;

/// A captured input event.
#[derive(Debug, PartialEq, Eq, Structural, Clone, Copy)]
pub enum Event {
    /// pointer motion, its deltas as the bits of floating-point numbers
    Motion { time: u32, dx: u64, dy: u64 },
    Button { time: u32, button: u32, state: u32 },
    Axis { time: u32, axis: u8, value: u64 },
    AxisDiscrete120 { axis: u8, value: i32 },
    Key { time: u32, key: u32, state: u8 },
    Modifiers { depressed: u32, latched: u32, locked: u32, group: u32 },
}

/* --------------------------------- keys --------------------------------- */

/// the (left, right) key codes for a modifier role
pub open spec fn role_keys(modifier: Modifier) -> (u32, u32) {
    match modifier {
        Modifier::Ctrl => (KEY_LEFT_CTRL, KEY_RIGHT_CTRL),
        Modifier::Alt => (KEY_LEFT_ALT, KEY_RIGHT_ALT),
        Modifier::Meta => (KEY_LEFT_META, KEY_RIGHT_META),
    }
}

/// The role that a key plays, and whether it is the right-hand one.
pub open spec fn role(key: u32) -> Option<(Modifier, bool)> {
    if key == KEY_LEFT_CTRL {
        Some((Modifier::Ctrl, false))
    } else if key == KEY_RIGHT_CTRL {
        Some((Modifier::Ctrl, true))
    } else if key == KEY_LEFT_ALT {
        Some((Modifier::Alt, false))
    } else if key == KEY_RIGHT_ALT {
        Some((Modifier::Alt, true))
    } else if key == KEY_LEFT_META {
        Some((Modifier::Meta, false))
    } else if key == KEY_RIGHT_META {
        Some((Modifier::Meta, true))
    } else {
        None
    }
}

/// what a local modifier role acts as under `map`
pub open spec fn acts_as(map: ModifierMap, modifier: Modifier) -> Modifier {
    match modifier {
        Modifier::Ctrl => map.ctrl,
        Modifier::Alt => map.alt,
        Modifier::Meta => map.meta,
    }
}

/// The key that a key becomes (left stays left, right stays right).
pub open spec fn mapped(map: ModifierMap, key: u32) -> u32 {
    match role(key) {
        Some((modifier, right)) => {
            let (l, r) = role_keys(acts_as(map, modifier));
            if right {
                r
            } else {
                l
            }
        },
        None => key,
    }
}

fn keys_of(modifier: Modifier) -> (r: (u32, u32))
    ensures
        r == role_keys(modifier),
{
    match modifier {
        Modifier::Ctrl => (KEY_LEFT_CTRL, KEY_RIGHT_CTRL),
        Modifier::Alt => (KEY_LEFT_ALT, KEY_RIGHT_ALT),
        Modifier::Meta => (KEY_LEFT_META, KEY_RIGHT_META),
    }
}

/// which role a raw key code plays, if it is a modifier we remap (`true` =
/// right-hand variant)
pub fn role_of(key: u32) -> (r: Option<(Modifier, bool)>)
    ensures
        r == role(key),
{
    if key == KEY_LEFT_CTRL {
        Some((Modifier::Ctrl, false))
    } else if key == KEY_RIGHT_CTRL {
        Some((Modifier::Ctrl, true))
    } else if key == KEY_LEFT_ALT {
        Some((Modifier::Alt, false))
    } else if key == KEY_RIGHT_ALT {
        Some((Modifier::Alt, true))
    } else if key == KEY_LEFT_META {
        Some((Modifier::Meta, false))
    } else if key == KEY_RIGHT_META {
        Some((Modifier::Meta, true))
    } else {
        None
    }
}

fn target_of(map: &ModifierMap, modifier: Modifier) -> (r: Modifier)
    ensures
        r == acts_as(*map, modifier),
{
    match modifier {
        Modifier::Ctrl => map.ctrl,
        Modifier::Alt => map.alt,
        Modifier::Meta => map.meta,
    }
}

/// remap a single key code (left stays left, right stays right)
pub fn map_key(map: &ModifierMap, key: u32) -> (r: u32)
    ensures
        r == mapped(*map, key),
{
    if map.is_identity() {
        return key;
    }
    match role_of(key) {
        Some((modifier, right)) => {
            let (l, r): (u32, u32) = keys_of(target_of(map, modifier));
            if right {
                r
            } else {
                l
            }
        },
        None => key,
    }
}

/* ------------------------------- modifier bits ------------------------------- */

/// The bit of a modifier role.
pub open spec fn mask(modifier: Modifier) -> u32 {
    match modifier {
        Modifier::Ctrl => CONTROL_MASK,
        Modifier::Alt => MOD1_MASK,
        Modifier::Meta => MOD4_MASK,
    }
}

/// The bit that a set role turns into.
pub open spec fn moved(map: ModifierMap, mods: u32, modifier: Modifier) -> u32 {
    if mods & mask(modifier) != 0 {
        mask(acts_as(map, modifier))
    } else {
        0
    }
}

/// Modifier bits with every role acting as its target and the other bits
/// kept.
pub open spec fn mapped_mods(map: ModifierMap, mods: u32) -> u32 {
    if map == ModifierMap::identity() {
        mods
    } else {
        (mods & !(CONTROL_MASK | MOD1_MASK | MOD4_MASK)) | moved(map, mods, Modifier::Ctrl) | moved(
            map,
            mods,
            Modifier::Alt,
        ) | moved(map, mods, Modifier::Meta)
    }
}

fn mask_of(modifier: Modifier) -> (r: u32)
    ensures
        r == mask(modifier),
{
    match modifier {
        Modifier::Ctrl => CONTROL_MASK,
        Modifier::Alt => MOD1_MASK,
        Modifier::Meta => MOD4_MASK,
    }
}

fn moved_bit(map: &ModifierMap, mods: u32, modifier: Modifier) -> (r: u32)
    ensures
        r == moved(*map, mods, modifier),
{
    if mods & mask_of(modifier) != 0 {
        mask_of(target_of(map, modifier))
    } else {
        0
    }
}

/// remap the modifier bitmask that accompanies key events on some backends
/// (macOS emulation trusts it over the individual key events)
pub fn map_mods(map: &ModifierMap, mods: u32) -> (r: u32)
    ensures
        r == mapped_mods(*map, mods),
{
    if map.is_identity() {
        return mods;
    }
    (mods & !(CONTROL_MASK | MOD1_MASK | MOD4_MASK)) | moved_bit(map, mods, Modifier::Ctrl)
        | moved_bit(map, mods, Modifier::Alt) | moved_bit(map, mods, Modifier::Meta)
}

/* --------------------------------- state --------------------------------- */

/// The code that the peer saw go down.
#[derive(Clone, Copy, Debug)]
pub struct Code {
    pub code: u32,
}

impl View for Code {
    type V = u32;

    open spec fn view(&self) -> u32 {
        self.code
    }
}

/// Mutable per-client state needed to remap modifiers.
pub struct TuningState {
    /// modifier keys currently held, raw key code -> the code the peer saw
    /// go down. A key-up must release exactly that code, even if the map
    /// changed in between; and when two local keys map to the same target,
    /// the target is released only once both are up.
    pub held: Table<Code>,
}

impl View for TuningState {
    type V = Seq<(u64, u32)>;

    open spec fn view(&self) -> Seq<(u64, u32)> {
        self.held@
    }
}

/// Some held key has `code` down at the peer.
pub open spec fn is_down(held: Seq<(u64, u32)>, code: u32) -> bool {
    exists|i: int| 0 <= i < held.len() && (#[trigger] held[i]).1 == code
}

/// The code that `key` has down at the peer, else what it maps to.
pub open spec fn sent_code(held: Seq<(u64, u32)>, map: ModifierMap, key: u32) -> u32 {
    if has_key(held, key as u64) {
        at(held, key as u64)
    } else {
        mapped(map, key)
    }
}

/// What a modifier key event does: what is held then, and the code to send.
/// There is none if the peer should not see it, because the target is held
/// by another local key.
pub open spec fn pressed(held: Seq<(u64, u32)>, map: ModifierMap, key: u32, state: u8) -> (
    Seq<(u64, u32)>,
    Option<u32>,
) {
    let code = sent_code(held, map, key);
    if state == 1 {
        if has_key(held, key as u64) {
            // auto-repeat of a held key: it keeps the code it went down with
            (held, Some(code))
        } else {
            (
                stored(held, key as u64, code),
                if is_down(held, code) {
                    None
                } else {
                    Some(code)
                },
            )
        }
    } else {
        let rest = erased(held, key as u64);
        (
            rest,
            if is_down(rest, code) {
                None
            } else {
                Some(code)
            },
        )
    }
}

impl Default for TuningState {
    fn default() -> (r: TuningState)
        ensures
            r@ == Seq::<(u64, u32)>::empty(),
    {
        TuningState { held: Table::new() }
    }
}

impl TuningState {
    /// forget everything: a new session starts from a clean slate
    pub fn reset(&mut self)
        ensures
            final(self)@ == Seq::<(u64, u32)>::empty(),
    {
        self.held = Table::new();
    }

    fn is_down(&self, code: u32) -> (r: bool)
        ensures
            r == is_down(self@, code),
    {
        let mut i: usize = 0;
        while i < self.held.entries.len()
            invariant
                i <= self.held.entries@.len(),
                forall|k: int| 0 <= k < i ==> self.held@[k].1 != code,
            decreases self.held.entries@.len() - i,
        {
            if self.held.entries[i].1.code == code {
                assert(self@[i as int].1 == code);
                return true;
            }
            i = i + 1;
        }
        false
    }

    fn sent_code(&self, map: &ModifierMap, key: u32) -> (r: u32)
        ensures
            r == sent_code(self@, *map, key),
    {
        let i: usize = self.held.find(key as u64);
        if i < self.held.entries.len() {
            self.held.entries[i].1.code
        } else {
            map_key(map, key)
        }
    }

    /// The code to send for a modifier key event, or `None` if the peer
    /// should not see it (target already held via another local key).
    pub fn modifier_key(&mut self, map: &ModifierMap, key: u32, state: u8) -> (r: Option<u32>)
        ensures
            (final(self)@, r) == pressed(old(self)@, *map, key, state),
    {
        let code: u32 = self.sent_code(map, key);
        if state == 1 {
            if self.held.contains(key as u64) {
                return Some(code);
            }
            let already_down = self.is_down(code);
            self.held.put(key as u64, Code { code });
            if already_down {
                None
            } else {
                Some(code)
            }
        } else {
            let _sent = self.held.take(key as u64);
            if self.is_down(code) {
                None
            } else {
                Some(code)
            }
        }
    }

    /// The code the peer saw for a raw key that is going up as part of a
    /// capture release: the recorded one if the key went down through us,
    /// else the map's current answer.
    pub fn release_code(&mut self, map: &ModifierMap, key: u32) -> (r: u32)
        ensures
            r == sent_code(old(self)@, *map, key),
            final(self)@ == erased(old(self)@, key as u64),
    {
        let code: u32 = self.sent_code(map, key);
        let _sent = self.held.take(key as u64);
        code
    }

    /// codes the peer still holds that no raw key accounted for; drained
    pub fn drain_held(&mut self) -> (r: Vec<u32>)
        ensures
            forall|code: u32| #[trigger] r@.contains(code) <==> is_down(old(self)@, code),
            forall|i: int, j: int| 0 <= i < j < r@.len() ==> r@[i] < r@[j],
            final(self)@ == Seq::<(u64, u32)>::empty(),
    {
        let ghost held = self@;
        let mut codes: Vec<u32> = Vec::new();
        let mut i: usize = 0;
        assert(held.take(0) =~= Seq::<(u64, u32)>::empty());
        while i < self.held.entries.len()
            invariant
                i <= self.held.entries@.len(),
                held == self.held@,
                forall|code: u32| #[trigger]
                    codes@.contains(code) <==> is_down(held.take(i as int), code),
                forall|a: int, b: int| 0 <= a < b < codes@.len() ==> codes@[a] < codes@[b],
            decreases self.held.entries@.len() - i,
        {
            let code: u32 = self.held.entries[i].1.code;
            let ghost before = codes@;
            proof {
                assert(held.len() == self.held.entries@.len());
                assert(held[i as int].1 == code);
            }
            insert_code(&mut codes, code);
            proof {
                assert forall|c: u32| #[trigger] codes@.contains(c) <==> is_down(
                    held.take(i + 1),
                    c,
                ) by {
                    let shorter = held.take(i as int);
                    let longer = held.take(i + 1);
                    if is_down(shorter, c) {
                        let k = choose|k: int| 0 <= k < shorter.len() && (#[trigger] shorter[k]).1
                            == c;
                        assert(longer[k].1 == c);
                    }
                    if c == code {
                        assert(longer[i as int].1 == c);
                    }
                    if is_down(longer, c) {
                        let k = choose|k: int| 0 <= k < longer.len() && (#[trigger] longer[k]).1
                            == c;
                        if k < i {
                            assert(shorter[k].1 == c);
                        }
                    }
                    assert(codes@.contains(c) <==> before.contains(c) || c == code);
                }
            }
            i = i + 1;
        }
        assert(held.take(i as int) =~= held);
        self.held = Table::new();
        codes
    }
}

/// Add a code to an increasing list, unless it is there.
fn insert_code(codes: &mut Vec<u32>, code: u32)
    requires
        forall|a: int, b: int| 0 <= a < b < old(codes)@.len() ==> old(codes)@[a] < old(codes)@[b],
    ensures
        forall|c: u32| #[trigger]
            final(codes)@.contains(c) <==> old(codes)@.contains(c) || c == code,
        forall|a: int, b: int|
            0 <= a < b < final(codes)@.len() ==> final(codes)@[a] < final(codes)@[b],
{
    let ghost before = codes@;
    let mut i: usize = 0;
    while i < codes.len() && codes[i] < code
        invariant
            i <= codes@.len(),
            codes@ == before,
            forall|k: int| 0 <= k < i ==> codes@[k] < code,
        decreases codes@.len() - i,
    {
        i = i + 1;
    }
    if i < codes.len() && codes[i] == code {
        assert(before[i as int] == code);
        return;
    }
    codes.insert(i, code);
    proof {
        assert(codes@ =~= before.take(i as int).push(code) + before.skip(i as int));
        assert forall|c: u32| #[trigger] codes@.contains(c) <==> before.contains(c) || c
            == code by {
            if before.contains(c) {
                let k = choose|k: int| 0 <= k < before.len() && before[k] == c;
                if k < i {
                    assert(codes@[k] == c);
                } else {
                    assert(codes@[k + 1] == c);
                }
            }
            if c == code {
                assert(codes@[i as int] == c);
            }
            if codes@.contains(c) {
                let k = choose|k: int| 0 <= k < codes@.len() && codes@[k] == c;
                if k < i {
                    assert(before[k] == c);
                } else if k > i {
                    assert(before[k - 1] == c);
                }
            }
        }
    }
}

/* --------------------------------- events --------------------------------- */

/// What becomes of an event, and of what is held.
pub open spec fn tuned(held: Seq<(u64, u32)>, map: ModifierMap, event: Event) -> (
    Seq<(u64, u32)>,
    Option<Event>,
) {
    match event {
        Event::Key { time, key, state } => if role(key) is Some {
            let (rest, code) = pressed(held, map, key, state);
            (
                rest,
                match code {
                    Some(key) => Some(Event::Key { time, key, state }),
                    None => None,
                },
            )
        } else {
            (held, Some(event))
        },
        Event::Modifiers { depressed, latched, locked, group } => (
            held,
            Some(
                Event::Modifiers {
                    depressed: mapped_mods(map, depressed),
                    latched: mapped_mods(map, latched),
                    locked: mapped_mods(map, locked),
                    group,
                },
            ),
        ),
        _ => (held, Some(event)),
    }
}

/// Apply the modifier map to one captured event. `None` means the event must
/// not be forwarded (a duplicate modifier press/release under a map where two
/// local keys act as the same target). Pointer events pass unchanged: their
/// motion is scaled elsewhere.
pub fn tune_event(map: &ModifierMap, state: &mut TuningState, event: Event) -> (r: Option<Event>)
    ensures
        (final(state)@, r) == tuned(old(state)@, *map, event),
{
    match event {
        Event::Key { time, key, state: key_state } => {
            if role_of(key).is_some() {
                match state.modifier_key(map, key, key_state) {
                    Some(key) => Some(Event::Key { time, key, state: key_state }),
                    None => None,
                }
            } else {
                Some(event)
            }
        },
        Event::Modifiers { depressed, latched, locked, group } => Some(
            Event::Modifiers {
                depressed: map_mods(map, depressed),
                latched: map_mods(map, latched),
                locked: map_mods(map, locked),
                group,
            },
        ),
        _ => Some(event),
    }
}

/* ---------------------------------- laws ---------------------------------- */

/// The codes that the peer has down.
pub open spec fn down_codes(held: Seq<(u64, u32)>) -> Set<u32> {
    Set::new(|code: u32| is_down(held, code))
}

/// What a peer that had `down` codes down has down after a key event with
/// `state`, or after no event.
pub open spec fn seen_by_peer(down: Set<u32>, sent: Option<u32>, state: u8) -> Set<u32> {
    match sent {
        Some(code) => if state == 1 {
            down.insert(code)
        } else {
            down.remove(code)
        },
        None => down,
    }
}

/// However keys go down and up and maps change in between, the peer has
/// exactly those codes down that held keys account for: every press is
/// released with the code it went down with, and a target that two keys
/// share only once both are up.
pub proof fn the_peer_sees_what_is_held(
    held: Seq<(u64, u32)>,
    map: ModifierMap,
    key: u32,
    state: u8,
)
    requires
        keys_differ(held),
    ensures
        down_codes(pressed(held, map, key, state).0) == seen_by_peer(
            down_codes(held),
            pressed(held, map, key, state).1,
            state,
        ),
        keys_differ(pressed(held, map, key, state).0),
{
    let k = key as u64;
    let code = sent_code(held, map, key);
    let (rest, sent) = pressed(held, map, key, state);
    position_finds(held, k);
    stored_reads_back(held, k, code, k);
    erased_is_gone(held, k, k);
    if state == 1 {
        if has_key(held, k) {
            assert(held[crate::table::position(held, k)].1 == code);
            assert(is_down(held, code));
        } else {
            assert(rest =~= held.push((k, code)));
            assert forall|c: u32| is_down(rest, c) <==> is_down(held, c) || c == code by {
                if is_down(held, c) {
                    let i = choose|i: int| 0 <= i < held.len() && (#[trigger] held[i]).1 == c;
                    assert(rest[i].1 == c);
                }
                if c == code {
                    assert(rest[held.len() as int].1 == c);
                }
                if is_down(rest, c) {
                    let i = choose|i: int| 0 <= i < rest.len() && (#[trigger] rest[i]).1 == c;
                    if i < held.len() {
                        assert(held[i].1 == c);
                    }
                }
            }
        }
    } else {
        let p = crate::table::position(held, k);
        assert forall|c: u32| is_down(held, c) <==> is_down(rest, c) || (has_key(held, k) && c
            == code) by {
            if is_down(rest, c) {
                let i = choose|i: int| 0 <= i < rest.len() && (#[trigger] rest[i]).1 == c;
                if has_key(held, k) && i >= p {
                    assert(held[i + 1].1 == c);
                } else {
                    assert(held[i].1 == c);
                }
            }
            if has_key(held, k) && c == code {
                assert(held[p].1 == c);
            }
            if is_down(held, c) {
                let i = choose|i: int| 0 <= i < held.len() && (#[trigger] held[i]).1 == c;
                if has_key(held, k) {
                    if i < p {
                        assert(rest[i].1 == c);
                    } else if i > p {
                        assert(rest[i - 1].1 == c);
                    }
                }
            }
        }
    }
    assert(down_codes(rest) =~= seen_by_peer(down_codes(held), sent, state));
}

/// A press that the peer saw is released with the same code, whatever the
/// map says by then.
pub proof fn releases_match_presses(
    held: Seq<(u64, u32)>,
    before: ModifierMap,
    after: ModifierMap,
    key: u32,
)
    requires
        keys_differ(held),
        !has_key(held, key as u64),
        pressed(held, before, key, 1).1 is Some,
    ensures
        pressed(pressed(held, before, key, 1).0, after, key, 0) == (
            held,
            pressed(held, before, key, 1).1,
        ),
{
    let k = key as u64;
    let code = mapped(before, key);
    let down = pressed(held, before, key, 1).0;
    stored_reads_back(held, k, code, k);
    position_finds(held, k);
    assert(down =~= held.push((k, code)));
    position_is(down, k, held.len() as int);
    assert(erased(down, k) =~= held);
}

/// Under the identity map keys and modifier bits are what they were.
pub proof fn identity_changes_nothing(key: u32, mods: u32)
    ensures
        mapped(ModifierMap::identity(), key) == key,
        mapped_mods(ModifierMap::identity(), mods) == mods,
{
}

/// A remapped key stays on its side of the keyboard, and in the role that
/// the map gives it.
pub proof fn sides_are_kept(map: ModifierMap, key: u32)
    requires
        role(key) is Some,
    ensures
        role(mapped(map, key)) == Some((acts_as(map, (role(key)->0).0), (role(key)->0).1)),
{
}

/// Remapping modifier bits moves no other bit, and sets a role's bit just
/// where a set role acts as it.
pub proof fn other_bits_are_kept(map: ModifierMap, mods: u32, target: Modifier)
    ensures
        mapped_mods(map, mods) & !(CONTROL_MASK | MOD1_MASK | MOD4_MASK) == mods & !(CONTROL_MASK
            | MOD1_MASK | MOD4_MASK),
        (mapped_mods(map, mods) & mask(target) != 0) <==> {
            ||| mods & mask(Modifier::Ctrl) != 0 && acts_as(map, Modifier::Ctrl) == target
            ||| mods & mask(Modifier::Alt) != 0 && acts_as(map, Modifier::Alt) == target
            ||| mods & mask(Modifier::Meta) != 0 && acts_as(map, Modifier::Meta) == target
        },
{
    if map != ModifierMap::identity() {
        let a = moved(map, mods, Modifier::Ctrl);
        let b = moved(map, mods, Modifier::Alt);
        let c = moved(map, mods, Modifier::Meta);
        let t = mask(target);
        assert(((mods & !(4u32 | 8u32 | 64u32)) | a | b | c) & !(4u32 | 8u32 | 64u32) == mods & !(
        4u32 | 8u32 | 64u32)) by (bit_vector)
            requires
                a == 0 || a == 4 || a == 8 || a == 64,
                b == 0 || b == 4 || b == 8 || b == 64,
                c == 0 || c == 4 || c == 8 || c == 64,
        ;
        assert((((mods & !(4u32 | 8u32 | 64u32)) | a | b | c) & t != 0) == (a == t || b == t || c
            == t)) by (bit_vector)
            requires
                a == 0 || a == 4 || a == 8 || a == 64,
                b == 0 || b == 4 || b == 8 || b == 64,
                c == 0 || c == 4 || c == 8 || c == 64,
                t == 4 || t == 8 || t == 64,
        ;
    }
}

/// The keys that are remapped: control, alt and meta, on either side.
pub open spec fn is_modifier_key(key: u32) -> bool {
    key == 29 || key == 97 || key == 56 || key == 100 || key == 125 || key == 126
}

/// Everything but the events of a modifier key and the modifier bits goes to
/// the peer as it is, and leaves what is held alone, whatever the map. Only
/// of a modifier key may nothing be sent.
pub proof fn other_events_pass(held: Seq<(u64, u32)>, map: ModifierMap, event: Event)
    ensures
        !(event is Modifiers) && !(event is Key && is_modifier_key(event->key)) ==> tuned(
            held,
            map,
            event,
        ) == (held, Some(event)),
        tuned(held, map, event).1 is None ==> event is Key && is_modifier_key(event->key),
        event is Modifiers ==> tuned(held, map, event).0 == held,
{
}

/// A key event stays one, at its time and in its direction; only the key may
/// be another.
pub proof fn key_events_stay_key_events(
    held: Seq<(u64, u32)>,
    map: ModifierMap,
    time: u32,
    key: u32,
    state: u8,
)
    ensures
        ({
            let sent = tuned(held, map, Event::Key { time, key, state }).1;
            sent is Some ==> sent->0 == (Event::Key { time, key: sent->0->key, state })
        }),
{
}

/// What a modifier key acts as: the key on its own side of what the map says
/// for its role.
pub proof fn modifier_keys_act_as_the_map_says(map: ModifierMap)
    ensures
        mapped(map, 29) == (match map.ctrl {
            Modifier::Ctrl => 29u32,
            Modifier::Alt => 56u32,
            Modifier::Meta => 125u32,
        }),
        mapped(map, 97) == (match map.ctrl {
            Modifier::Ctrl => 97u32,
            Modifier::Alt => 100u32,
            Modifier::Meta => 126u32,
        }),
        mapped(map, 56) == (match map.alt {
            Modifier::Ctrl => 29u32,
            Modifier::Alt => 56u32,
            Modifier::Meta => 125u32,
        }),
        mapped(map, 100) == (match map.alt {
            Modifier::Ctrl => 97u32,
            Modifier::Alt => 100u32,
            Modifier::Meta => 126u32,
        }),
        mapped(map, 125) == (match map.meta {
            Modifier::Ctrl => 29u32,
            Modifier::Alt => 56u32,
            Modifier::Meta => 125u32,
        }),
        mapped(map, 126) == (match map.meta {
            Modifier::Ctrl => 97u32,
            Modifier::Alt => 100u32,
            Modifier::Meta => 126u32,
        }),
        forall|key: u32| !is_modifier_key(key) ==> #[trigger] mapped(map, key) == key,
{
}

/// A modifier key that goes down is sent as what it acts as, unless another
/// key has that down at the peer already; either way it is held as that.
pub proof fn first_presses_are_sent(
    held: Seq<(u64, u32)>,
    map: ModifierMap,
    time: u32,
    key: u32,
    other: u32,
)
    requires
        keys_differ(held),
        is_modifier_key(key),
        !has_key(held, key as u64),
    ensures
        ({
            let (after, sent) = tuned(held, map, Event::Key { time, key, state: 1 });
            let code = mapped(map, key);
            let shared = exists|i: int| 0 <= i < held.len() && (#[trigger] held[i]).1 == code;
            &&& has_key(after, key as u64) && at(after, key as u64) == code
            &&& other != key ==> has_key(after, other as u64) == has_key(held, other as u64)
            &&& other != key && has_key(held, other as u64) ==> at(after, other as u64) == at(
                held,
                other as u64,
            )
            &&& !shared ==> sent == Some(Event::Key { time, key: code, state: 1 })
            &&& shared ==> sent is None
        }),
{
    stored_reads_back(held, key as u64, mapped(map, key), other as u64);
}

/// A held modifier key that repeats is sent again as what it went down as,
/// whatever the map says by then.
pub proof fn repeats_are_sent(held: Seq<(u64, u32)>, map: ModifierMap, time: u32, key: u32)
    requires
        is_modifier_key(key),
        has_key(held, key as u64),
    ensures
        tuned(held, map, Event::Key { time, key, state: 1 }) == (
            held,
            Some(Event::Key { time, key: at(held, key as u64), state: 1 }),
        ),
{
}

/// A modifier key that goes up is sent as what it went down as, unless
/// another key still has that down; either way it is held no longer.
pub proof fn releases_are_sent(
    held: Seq<(u64, u32)>,
    map: ModifierMap,
    time: u32,
    key: u32,
    state: u8,
    other: u32,
)
    requires
        keys_differ(held),
        is_modifier_key(key),
        state != 1,
    ensures
        ({
            let (after, sent) = tuned(held, map, Event::Key { time, key, state });
            let code = if has_key(held, key as u64) {
                at(held, key as u64)
            } else {
                mapped(map, key)
            };
            let shared = exists|i: int|
                0 <= i < held.len() && (#[trigger] held[i]).1 == code && held[i].0 != key;
            &&& !has_key(after, key as u64)
            &&& other != key ==> has_key(after, other as u64) == has_key(held, other as u64)
            &&& other != key && has_key(held, other as u64) ==> at(after, other as u64) == at(
                held,
                other as u64,
            )
            &&& !shared ==> sent == Some(Event::Key { time, key: code, state })
            &&& shared ==> sent is None
        }),
{
    let k = key as u64;
    let code = sent_code(held, map, key);
    let rest = erased(held, k);
    let p = crate::table::position(held, k);
    erased_is_gone(held, k, other as u64);
    position_finds(held, k);
    if is_down(rest, code) {
        let i = choose|i: int| 0 <= i < rest.len() && (#[trigger] rest[i]).1 == code;
        let j = if has_key(held, k) && i >= p {
            i + 1
        } else {
            i
        };
        assert(held[j] == rest[i]);
        assert(held[j].1 == code && held[j].0 != key);
    }
    if exists|i: int| 0 <= i < held.len() && (#[trigger] held[i]).1 == code && held[i].0 != key {
        let i = choose|i: int|
            0 <= i < held.len() && (#[trigger] held[i]).1 == code && held[i].0 != key;
        if has_key(held, k) && i > p {
            assert(rest[i - 1].1 == code);
        } else {
            assert(rest[i].1 == code);
        }
    }
}

/// Whether a role that acts as `target` is among the modifier bits: bit 2 is
/// control, bit 3 alt, bit 6 meta.
pub open spec fn some_role_acts_as(map: ModifierMap, mods: u32, target: Modifier) -> bool {
    ||| mods & 4 != 0 && map.ctrl == target
    ||| mods & 8 != 0 && map.alt == target
    ||| mods & 64 != 0 && map.meta == target
}

/// What modifier bits become: the bit of a role is set just where a set role
/// acts as it, and the other bits are what they were.
pub open spec fn bits_follow(map: ModifierMap, before: u32, after: u32) -> bool {
    &&& after & 4 != 0 <==> some_role_acts_as(map, before, Modifier::Ctrl)
    &&& after & 8 != 0 <==> some_role_acts_as(map, before, Modifier::Alt)
    &&& after & 64 != 0 <==> some_role_acts_as(map, before, Modifier::Meta)
    &&& after & !76u32 == before & !76u32
}

/// The modifier bits that accompany key events are remapped each in its
/// place, and the group is kept.
pub proof fn modifier_bits_follow_the_map(
    held: Seq<(u64, u32)>,
    map: ModifierMap,
    depressed: u32,
    latched: u32,
    locked: u32,
    group: u32,
)
    ensures
        ({
            let sent = tuned(held, map, Event::Modifiers { depressed, latched, locked, group }).1;
            &&& sent is Some && sent->0 is Modifiers
            &&& bits_follow(map, depressed, sent->0->depressed)
            &&& bits_follow(map, latched, sent->0->latched)
            &&& bits_follow(map, locked, sent->0->locked)
            &&& sent->0->group == group
        }),
{
    bits_follow_the_map(map, depressed);
    bits_follow_the_map(map, latched);
    bits_follow_the_map(map, locked);
}

proof fn bits_follow_the_map(map: ModifierMap, mods: u32)
    ensures
        bits_follow(map, mods, mapped_mods(map, mods)),
{
    other_bits_are_kept(map, mods, Modifier::Ctrl);
    other_bits_are_kept(map, mods, Modifier::Alt);
    other_bits_are_kept(map, mods, Modifier::Meta);
    assert(4u32 | 8u32 | 64u32 == 76u32) by (bit_vector);
}

/// The role of each modifier key, and its side; no other key has one.
pub proof fn keys_have_their_role(key: u32, held: TuningState, c: Code)
    ensures
        role(29) == Some((Modifier::Ctrl, false)),
        role(97) == Some((Modifier::Ctrl, true)),
        role(56) == Some((Modifier::Alt, false)),
        role(100) == Some((Modifier::Alt, true)),
        role(125) == Some((Modifier::Meta, false)),
        role(126) == Some((Modifier::Meta, true)),
        role(key) is Some <==> is_modifier_key(key),
        held@ == held.held@,
        c@ == c.code,
{
}

/// A key is released as what it went down as; one that is not held, as what
/// it acts as now.
pub proof fn keys_are_released_as_they_went_down(
    held: Seq<(u64, u32)>,
    map: ModifierMap,
    key: u32,
)
    ensures
        has_key(held, key as u64) ==> sent_code(held, map, key) == at(held, key as u64),
        !has_key(held, key as u64) ==> sent_code(held, map, key) == mapped(map, key),
{
}

} // verus!
