use vylo_share::ipc::{Modifier, ModifierMap};
use vylo_share::tuning::{
    map_key, map_mods, role_of, tune_event, Event, TuningState, CONTROL_MASK, KEY_LEFT_ALT,
    KEY_LEFT_CTRL, KEY_LEFT_META, KEY_RIGHT_ALT, KEY_RIGHT_CTRL, KEY_RIGHT_META, MOD1_MASK,
    MOD4_MASK,
};

const SHIFT_MASK: u32 = 1 << 0;
const LOCK_MASK: u32 = 1 << 1;

const KEY_A: u32 = 30;
const KEY_C: u32 = 46;
const KEY_S: u32 = 31;
const KEY_LEFT_SHIFT: u32 = 42;

fn swap_ctrl_meta() -> ModifierMap {
    ModifierMap { ctrl: Modifier::Meta, alt: Modifier::Alt, meta: Modifier::Ctrl }
}

fn both_ctrl() -> ModifierMap {
    ModifierMap { ctrl: Modifier::Ctrl, alt: Modifier::Alt, meta: Modifier::Ctrl }
}

fn key(key: u32, state: u8) -> Event {
    Event::Key { time: 0, key, state }
}

fn motion(dx: f64, dy: f64) -> Event {
    Event::Motion { time: 0, dx: dx.to_bits(), dy: dy.to_bits() }
}

/// run a key sequence through one client's tuning, collecting what
/// actually goes on the wire as (key, state)
fn wire(map: ModifierMap, seq: &[(u32, u8)]) -> Vec<(u32, u8)> {
    let mut st = TuningState::default();
    seq.iter()
        .filter_map(|&(k, s)| tune_event(&map, &mut st, key(k, s)))
        .map(|e| match e {
            Event::Key { key, state, .. } => (key, state),
            other => panic!("unexpected {other:?}"),
        })
        .collect()
}

#[test]
fn identity_leaves_everything_alone() {
    let t = ModifierMap::default();
    let mut st = TuningState::default();
    for k in [KEY_LEFT_CTRL, KEY_RIGHT_META, KEY_A, KEY_LEFT_SHIFT] {
        assert_eq!(tune_event(&t, &mut st, key(k, 1)), Some(key(k, 1)));
        assert_eq!(tune_event(&t, &mut st, key(k, 0)), Some(key(k, 0)));
    }
    assert_eq!(tune_event(&t, &mut st, motion(3.0, -2.0)), Some(motion(3.0, -2.0)));
    assert!(st.held.entries.is_empty());
}

#[test]
fn swaps_ctrl_and_meta_preserving_side() {
    let map = swap_ctrl_meta();
    assert_eq!(map_key(&map, KEY_LEFT_CTRL), KEY_LEFT_META);
    assert_eq!(map_key(&map, KEY_RIGHT_CTRL), KEY_RIGHT_META);
    assert_eq!(map_key(&map, KEY_LEFT_META), KEY_LEFT_CTRL);
    assert_eq!(map_key(&map, KEY_RIGHT_META), KEY_RIGHT_CTRL);
    // alt untouched, ordinary keys untouched
    assert_eq!(map_key(&map, KEY_LEFT_ALT), KEY_LEFT_ALT);
    assert_eq!(map_key(&map, KEY_C), KEY_C);

    // and the same through the stateful path, with an ordinary key in between
    assert_eq!(
        wire(map, &[(KEY_LEFT_CTRL, 1), (KEY_C, 1), (KEY_C, 0), (KEY_LEFT_CTRL, 0)]),
        vec![(KEY_LEFT_META, 1), (KEY_C, 1), (KEY_C, 0), (KEY_LEFT_META, 0)]
    );
}

#[test]
fn collapsed_target_is_released_only_when_both_keys_are_up() {
    // "both Ctrl and Cmd act as Ctrl": hold Cmd, tap Ctrl, keep
    // holding Cmd — the peer must keep Ctrl down throughout
    let out = wire(
        both_ctrl(),
        &[
            (KEY_LEFT_META, 1),
            (KEY_LEFT_CTRL, 1),
            (KEY_LEFT_CTRL, 0),
            (KEY_S, 1),
            (KEY_S, 0),
            (KEY_LEFT_META, 0),
        ],
    );
    assert_eq!(out, vec![(KEY_LEFT_CTRL, 1), (KEY_S, 1), (KEY_S, 0), (KEY_LEFT_CTRL, 0)]);
    assert_eq!(map_mods(&both_ctrl(), MOD4_MASK), CONTROL_MASK);
    assert_eq!(map_mods(&both_ctrl(), MOD4_MASK | CONTROL_MASK), CONTROL_MASK);
}

#[test]
fn auto_repeat_of_a_held_modifier_keeps_its_code() {
    // Windows capture repeats WM_KEYDOWN for held modifiers
    let out = wire(
        swap_ctrl_meta(),
        &[(KEY_LEFT_CTRL, 1), (KEY_LEFT_CTRL, 1), (KEY_LEFT_CTRL, 1), (KEY_LEFT_CTRL, 0)],
    );
    assert_eq!(
        out,
        vec![(KEY_LEFT_META, 1), (KEY_LEFT_META, 1), (KEY_LEFT_META, 1), (KEY_LEFT_META, 0)]
    );
}

#[test]
fn map_change_while_held_releases_what_the_peer_saw() {
    let mut st = TuningState::default();
    let before = both_ctrl();
    // Cmd goes down as Ctrl
    assert_eq!(
        tune_event(&before, &mut st, key(KEY_LEFT_META, 1)),
        Some(key(KEY_LEFT_CTRL, 1))
    );
    // user flips the map back to identity mid-hold
    let after = ModifierMap::default();
    // the release still targets the code that went down
    assert_eq!(
        tune_event(&after, &mut st, key(KEY_LEFT_META, 0)),
        Some(key(KEY_LEFT_CTRL, 0))
    );
    assert!(st.held.entries.is_empty());

    // same guarantee for the capture-release path
    let mut st = TuningState::default();
    tune_event(&before, &mut st, key(KEY_LEFT_META, 1));
    assert_eq!(st.release_code(&after, KEY_LEFT_META), KEY_LEFT_CTRL);
    // a key we never saw go down falls back to the current map
    assert_eq!(st.release_code(&after, KEY_LEFT_ALT), KEY_LEFT_ALT);
}

#[test]
fn drain_held_reports_each_peer_code_once() {
    let mut st = TuningState::default();
    let t = both_ctrl();
    tune_event(&t, &mut st, key(KEY_LEFT_META, 1));
    tune_event(&t, &mut st, key(KEY_LEFT_CTRL, 1));
    tune_event(&t, &mut st, key(KEY_LEFT_ALT, 1));
    let mut codes = st.drain_held();
    codes.sort_unstable();
    assert_eq!(codes, vec![KEY_LEFT_CTRL, KEY_LEFT_ALT]);
    assert!(st.held.entries.is_empty());
}

#[test]
fn remaps_modifier_bitmask_and_keeps_other_bits() {
    let map = swap_ctrl_meta();
    let mods = CONTROL_MASK | SHIFT_MASK | LOCK_MASK;
    assert_eq!(map_mods(&map, mods), MOD4_MASK | SHIFT_MASK | LOCK_MASK);
    assert_eq!(map_mods(&map, MOD1_MASK), MOD1_MASK);
    assert_eq!(map_mods(&map, 0), 0);

    let mut st = TuningState::default();
    let ev =
        Event::Modifiers { depressed: CONTROL_MASK, latched: 0, locked: LOCK_MASK, group: 3 };
    assert_eq!(
        tune_event(&map, &mut st, ev),
        Some(Event::Modifiers { depressed: MOD4_MASK, latched: 0, locked: LOCK_MASK, group: 3 })
    );
}

#[test]
fn missing_modifiers_fall_back_to_themselves() {
    let partial = ModifierMap {
        ctrl: ModifierMap::default_ctrl(),
        alt: ModifierMap::default_alt(),
        meta: Modifier::Ctrl,
    };
    assert_eq!(partial.ctrl, Modifier::Ctrl);
    assert_eq!(partial.alt, Modifier::Alt);
    assert_eq!(partial.meta, Modifier::Ctrl);
    assert_eq!(ModifierMap::default_meta(), Modifier::Meta);
    assert!(!partial.is_identity());
    assert!(ModifierMap::default().is_identity());
}

#[test]
fn roles_of_keys() {
    assert_eq!(role_of(KEY_LEFT_CTRL), Some((Modifier::Ctrl, false)));
    assert_eq!(role_of(KEY_RIGHT_CTRL), Some((Modifier::Ctrl, true)));
    assert_eq!(role_of(KEY_LEFT_ALT), Some((Modifier::Alt, false)));
    assert_eq!(role_of(KEY_RIGHT_ALT), Some((Modifier::Alt, true)));
    assert_eq!(role_of(KEY_LEFT_META), Some((Modifier::Meta, false)));
    assert_eq!(role_of(KEY_RIGHT_META), Some((Modifier::Meta, true)));
    assert_eq!(role_of(KEY_A), None);
}

#[test]
fn pointer_events_pass() {
    let mut st = TuningState::default();
    let map = swap_ctrl_meta();
    for ev in [
        motion(1.5, 0.0),
        Event::Button { time: 1, button: 272, state: 1 },
        Event::Axis { time: 1, axis: 0, value: 3.0f64.to_bits() },
        Event::AxisDiscrete120 { axis: 1, value: -120 },
    ] {
        assert_eq!(tune_event(&map, &mut st, ev), Some(ev));
    }
    tune_event(&map, &mut st, key(KEY_LEFT_ALT, 1));
    st.reset();
    assert!(st.drain_held().is_empty());
}
