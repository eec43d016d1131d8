use invoke::game_states::play_state::MainState;
use invoke::orbs::Symbol::{E, Q, W};
use invoke::settings::{Key, Settings, UserSettings};
use invoke::spells::{combo_for, Position, Spell, SpellType};
use invoke::state_machine::{ButtonHits, MouseButton, Transition};

const SECOND: u64 = 1_000_000_000;
const QUAS: Key = Key::Letter('Q');
const WEX: Key = Key::Letter('W');
const EXORT: Key = Key::Letter('E');
const INVOKE: Key = Key::Letter('R');

fn settings() -> Settings {
    Settings::new(&UserSettings::default()).unwrap()
}

fn spell(kind: SpellType, column: u32, y: u64, speed: u64) -> Spell {
    Spell::of_kind(kind, Position { x: column as u64 * 10, y }, speed)
}

#[test]
fn play_starts_with_an_empty_field() {
    let state = MainState::new(settings());
    assert!(!state.game_over());
    assert!(state.objects().is_empty());
    assert_eq!(state.input_buffer().len(), 0);
    assert_eq!(state.score(), 0);
    assert_eq!(state.speed(), 0);
    assert_eq!(state.last_spell_time(), 0);
    assert!(state.has_headroom());
}

#[test]
fn first_tick_spawns_on_the_empty_field() {
    let mut state = MainState::new(settings());
    assert!(state.spawn_due(0));
    assert_eq!(state.tick(0, SpellType::Alacrity, 100), Transition::Stay);
    assert_eq!(state.speed(), 5);
    assert_eq!(state.objects(), &vec![spell(SpellType::Alacrity, 100, 5, 5)]);
    assert_eq!(state.last_spell_time(), 0);
}

#[test]
fn spawns_come_when_the_interval_is_exceeded() {
    let mut state = MainState::new(settings());
    state.tick(0, SpellType::Alacrity, 100);
    // Exactly one second is not more than one second.
    assert!(!state.spawn_due(SECOND));
    assert_eq!(state.tick(SECOND, SpellType::Emp, 200), Transition::Stay);
    assert_eq!(state.last_spell_time(), SECOND);
    assert_eq!(state.speed(), 5);
    assert_eq!(state.objects(), &vec![spell(SpellType::Alacrity, 100, 10, 5)]);
    assert!(state.spawn_due(1));
    assert_eq!(state.tick(1, SpellType::Emp, 200), Transition::Stay);
    assert_eq!(state.last_spell_time(), 0);
    assert_eq!(state.speed(), 10);
    assert_eq!(
        state.objects(),
        &vec![spell(SpellType::Alacrity, 100, 15, 5), spell(SpellType::Emp, 200, 10, 10)]
    );
    assert_eq!(state.tick(SECOND / 2, SpellType::Tornado, 300), Transition::Stay);
    assert_eq!(state.last_spell_time(), SECOND / 2);
    assert_eq!(
        state.objects(),
        &vec![spell(SpellType::Alacrity, 100, 20, 5), spell(SpellType::Emp, 200, 20, 10)]
    );
}

#[test]
fn speed_rises_with_every_spawn_and_never_falls() {
    let mut state = MainState::new(settings());
    let mut last = state.speed();
    for round in 0..40u64 {
        let due = state.spawn_due(SECOND / 3);
        state.tick(SECOND / 3, SpellType::Emp, 100);
        if due {
            assert_eq!(state.speed(), last + 5);
        } else {
            assert_eq!(state.speed(), last);
        }
        assert!(!state.objects().is_empty());
        last = state.speed();
        // Clear the field now and then, so that the next tick must spawn.
        if round % 7 == 0 {
            for key in [WEX, WEX, WEX, INVOKE] {
                state.key_down_event(key);
            }
        }
    }
    assert!(last >= 5 * 10);
}

#[test]
fn random_update_keeps_a_spell_on_the_field() {
    let mut state = MainState::new(settings());
    assert_eq!(state.update(0), Transition::Stay);
    assert_eq!(state.objects().len(), 1);
    let first = state.objects()[0];
    assert_eq!(first.speed, 5);
    assert_eq!(first.position.y, 5);
    assert_eq!(first.cast, combo_for(first.spell_type));
    assert!(720 <= first.position.x && first.position.x < 9520);
    assert_eq!(state.update(SECOND + 1), Transition::Stay);
    assert_eq!(state.objects().len(), 2);
    assert_eq!(state.objects()[1].speed, 10);
    assert_eq!(state.speed(), 10);
}

#[test]
fn run_ends_when_a_spell_crosses_the_bottom() {
    let mut state = MainState::new(settings());
    // The field is 10240 tenths high, and the spell falls 5 tenths a tick.
    for _ in 0..2048 {
        assert_eq!(state.tick(0, SpellType::Emp, 100), Transition::Stay);
    }
    assert_eq!(state.objects()[0].position.y, 10240);
    assert!(!state.game_over());
    assert_eq!(state.tick(0, SpellType::Emp, 100), Transition::GameOver { score: 0 });
    assert!(state.game_over());
    assert_eq!(state.objects()[0].position.y, 10245);
    // A run that is over no longer moves its spells.
    assert_eq!(state.tick(0, SpellType::Emp, 100), Transition::GameOver { score: 0 });
    assert_eq!(state.objects()[0].position.y, 10245);
    assert_eq!(state.key_down_event(QUAS), Transition::GameOver { score: 0 });
    assert_eq!(state.input_buffer().len(), 0);
}

#[test]
fn wrong_combo_ends_the_run() {
    let mut state = MainState::new(settings());
    state.tick(0, SpellType::Alacrity, 100);
    assert_eq!(state.key_down_event(QUAS), Transition::Stay);
    assert_eq!(state.key_down_event(WEX), Transition::Stay);
    assert_eq!(state.key_down_event(EXORT), Transition::Stay);
    assert_eq!(state.input_buffer().symbols(), vec![Q, W, E]);
    assert_eq!(state.key_down_event(INVOKE), Transition::GameOver { score: 0 });
    assert!(state.game_over());
    assert_eq!(state.objects().len(), 1);
    assert_eq!(state.objects()[0].spell_type, SpellType::Alacrity);
    assert_eq!(state.score(), 0);
}

#[test]
fn right_combo_clears_the_spell_in_any_order() {
    let mut state = MainState::new(settings());
    state.tick(0, SpellType::Alacrity, 100);
    for key in [WEX, EXORT, WEX] {
        assert_eq!(state.key_down_event(key), Transition::Stay);
    }
    assert_eq!(state.key_down_event(INVOKE), Transition::Stay);
    assert!(!state.game_over());
    assert!(state.objects().is_empty());
    assert_eq!(state.score(), 1);
    assert_eq!(state.input_buffer().symbols(), vec![W, E, W]);
}

#[test]
fn commit_clears_the_first_spell_that_matches() {
    let mut state = MainState::new(settings());
    state.tick(0, SpellType::Emp, 100);
    state.tick(SECOND + 1, SpellType::Tornado, 200);
    state.tick(SECOND + 1, SpellType::Emp, 300);
    state.tick(SECOND + 1, SpellType::Tornado, 400);
    assert_eq!(state.objects().len(), 4);
    for key in [QUAS, WEX, WEX, INVOKE] {
        assert_eq!(state.key_down_event(key), Transition::Stay);
    }
    let left: Vec<u64> = state.objects().iter().map(|s| s.position.x).collect();
    assert_eq!(left, vec![1000, 3000, 4000]);
    assert_eq!(state.score(), 1);
    // The buffer still holds Q W W: the same combo clears the other tornado.
    assert_eq!(state.key_down_event(INVOKE), Transition::Stay);
    let left: Vec<u64> = state.objects().iter().map(|s| s.position.x).collect();
    assert_eq!(left, vec![1000, 3000]);
    assert_eq!(state.score(), 2);
    // And a third commit finds no tornado.
    assert_eq!(state.key_down_event(INVOKE), Transition::GameOver { score: 2 });
}

#[test]
fn commit_of_a_short_buffer_ends_the_run() {
    let mut state = MainState::new(settings());
    state.tick(0, SpellType::Emp, 100);
    state.key_down_event(WEX);
    state.key_down_event(WEX);
    assert_eq!(state.key_down_event(INVOKE), Transition::GameOver { score: 0 });
}

#[test]
fn commit_on_an_empty_field_ends_the_run() {
    let mut state = MainState::new(settings());
    for key in [WEX, WEX, WEX] {
        state.key_down_event(key);
    }
    assert_eq!(state.key_down_event(INVOKE), Transition::GameOver { score: 0 });
}

#[test]
fn escape_leaves_for_the_menu_and_other_keys_do_nothing() {
    let mut state = MainState::new(settings());
    state.tick(0, SpellType::Emp, 100);
    assert_eq!(state.key_down_event(Key::Escape), Transition::Menu);
    assert!(!state.game_over());
    for key in [Key::Return, Key::Other, Key::Letter('P'), Key::Letter('q')] {
        assert_eq!(state.key_down_event(key), Transition::Stay);
    }
    assert_eq!(state.input_buffer().len(), 0);
    assert_eq!(state.score(), 0);
    assert_eq!(state.objects().len(), 1);
    let hits = ButtonHits { first: true, second: true, third: true };
    assert_eq!(state.mouse_button_up_event(MouseButton::Left, hits), Transition::Stay);
    assert_eq!(state.objects().len(), 1);
}

#[test]
fn update_buffer_types_into_the_window() {
    let mut state = MainState::new(settings());
    state.update_buffer(Q);
    state.update_buffer(W);
    state.update_buffer(E);
    state.update_buffer(E);
    assert_eq!(state.input_buffer().symbols(), vec![W, E, E]);
}
