use invoke::game_states::pro_mode_state::{fault_message, ProMode};
use invoke::input_buffer::CastPhase;
use invoke::orbs::Symbol::{Q, W};
use invoke::settings::{Key, Settings, UserSettings};
use invoke::spells::{combo_for, Position, Spell, SpellType};
use invoke::state_machine::{ButtonHits, MouseButton, Transition};

const SECOND: u64 = 1_000_000_000;
const QUAS: Key = Key::Letter('Q');
const WEX: Key = Key::Letter('W');
const EXORT: Key = Key::Letter('E');
const INVOKE: Key = Key::Letter('R');

fn settings() -> Settings {
    Settings::new(&UserSettings::default()).unwrap()
}

fn spell(kind: SpellType, column: u32, y: u64, speed: u64) -> Spell {
    Spell::of_kind(kind, Position { x: column as u64 * 10, y }, speed)
}

fn started() -> ProMode {
    ProMode::start(settings(), SpellType::Emp, 100, SpellType::Tornado, 200)
}

#[test]
fn pro_mode_starts_with_one_spell_and_the_next() {
    let state = started();
    assert!(!state.game_over());
    assert_eq!(state.objects(), &vec![spell(SpellType::Emp, 100, 0, 3)]);
    assert_eq!(state.next_spell(), spell(SpellType::Tornado, 200, 0, 0));
    assert_eq!(state.score(), 0);
    assert_eq!(state.speed(), 3);
    assert_eq!(state.last_spell_time(), 0);
    assert_eq!(state.required_key_presses(), 4);
    assert_eq!(state.input_buffer().len(), 0);
    assert_eq!(state.input_buffer().phase(), CastPhase::FirstCast);
    assert!(state.has_headroom());
}

#[test]
fn random_start_draws_both_spells() {
    let state = ProMode::new(settings());
    assert_eq!(state.objects().len(), 1);
    let first = state.objects()[0];
    assert_eq!(first.speed, 3);
    assert_eq!(first.position.y, 0);
    assert_eq!(first.cast, combo_for(first.spell_type));
    assert!(720 <= first.position.x && first.position.x < 9520);
    let next = state.next_spell();
    assert_eq!(next.speed, 0);
    assert_eq!(next.position.y, 0);
    assert_eq!(next.cast, combo_for(next.spell_type));
    assert_eq!(state.required_key_presses(), 4);
    assert_eq!(state.speed(), 3);
}

#[test]
fn spells_fall_at_the_speed_of_the_mode() {
    let mut state = started();
    assert_eq!(state.tick(SECOND, SpellType::IceWall, 300), Transition::Stay);
    assert_eq!(state.objects(), &vec![spell(SpellType::Emp, 100, 3, 3)]);
    assert_eq!(state.tick(SECOND, SpellType::IceWall, 300), Transition::Stay);
    assert_eq!(state.last_spell_time(), 2 * SECOND);
    assert_eq!(state.speed(), 3);
    assert_eq!(state.next_spell(), spell(SpellType::Tornado, 200, 0, 0));
    // More than two seconds: the speed goes up and the next spell is drawn anew.
    assert_eq!(state.tick(1, SpellType::IceWall, 300), Transition::Stay);
    assert_eq!(state.last_spell_time(), 0);
    assert_eq!(state.speed(), 6);
    assert_eq!(state.next_spell(), spell(SpellType::IceWall, 300, 0, 6));
    // The spell on the field keeps its own speed on record and falls at the mode's.
    assert_eq!(state.objects(), &vec![spell(SpellType::Emp, 100, 12, 3)]);
}

#[test]
fn pro_speed_rises_with_every_spawn() {
    let mut state = started();
    let mut last = state.speed();
    for _ in 0..30 {
        let due = state.spawn_due(SECOND);
        state.tick(SECOND, SpellType::Emp, 100);
        assert_eq!(state.speed(), if due { last + 3 } else { last });
        assert_eq!(state.objects().len(), 1);
        last = state.speed();
    }
    assert_eq!(last, 3 + 3 * 10);
}

#[test]
fn pro_random_update_draws_the_next_spell() {
    let mut state = started();
    assert_eq!(state.update(2 * SECOND + 5), Transition::Stay);
    assert_eq!(state.speed(), 6);
    let next = state.next_spell();
    assert_eq!(next.speed, 6);
    assert_eq!(next.position.y, 0);
    assert!(720 <= next.position.x && next.position.x < 9520);
    assert_eq!(state.objects(), &vec![spell(SpellType::Emp, 100, 6, 3)]);
}

#[test]
fn pro_run_ends_when_the_spell_crosses_the_bottom() {
    let mut state = started();
    // 10240 tenths at 3 tenths a tick: the line is crossed on tick 3414.
    for _ in 0..3413 {
        assert_eq!(state.tick(0, SpellType::Emp, 100), Transition::Stay);
    }
    assert_eq!(state.objects()[0].position.y, 10239);
    assert_eq!(
        state.tick(0, SpellType::Emp, 100),
        Transition::GameOverPro { score: 0, info: None }
    );
    assert!(state.game_over());
    assert_eq!(state.tick(0, SpellType::Emp, 100), Transition::GameOverPro { score: 0, info: None });
    assert_eq!(state.key_down_event(WEX), Transition::GameOverPro { score: 0, info: None });
    assert_eq!(state.objects()[0].position.y, 10242);
}

#[test]
fn first_cast_is_accepted_whatever_the_count() {
    let mut state = started();
    for key in [QUAS, EXORT, QUAS, WEX, WEX, WEX] {
        assert_eq!(state.key_down_event(key), Transition::Stay);
    }
    assert_eq!(state.input_buffer().keypress_count(), 6);
    assert_eq!(state.key_down_event(INVOKE), Transition::Stay);
    assert_eq!(state.score(), 1);
    assert_eq!(state.input_buffer().phase(), CastPhase::Counted);
    assert_eq!(state.input_buffer().keypress_count(), 0);
    // The next spell is on the field; the buffer W W W is one press from Q W W.
    assert_eq!(state.objects(), &vec![spell(SpellType::Tornado, 200, 0, 0)]);
    assert_eq!(state.required_key_presses(), 2);
}

#[test]
fn later_casts_need_the_required_count() {
    let mut state = started();
    for key in [WEX, WEX, WEX, INVOKE] {
        state.key_down_event(key);
    }
    assert_eq!(state.required_key_presses(), 2);
    assert_eq!(state.key_down_event(QUAS), Transition::Stay);
    assert_eq!(state.input_buffer().symbols(), vec![W, W, Q]);
    assert_eq!(state.key_down_event(INVOKE), Transition::Stay);
    assert_eq!(state.score(), 2);
    // The spell that follows is the same tornado again: the buffer holds it already.
    assert_eq!(state.objects(), &vec![spell(SpellType::Tornado, 200, 0, 0)]);
    assert_eq!(state.required_key_presses(), 1);
    assert_eq!(state.key_down_event(INVOKE), Transition::Stay);
    assert_eq!(state.score(), 3);
}

#[test]
fn too_many_presses_end_the_run_with_both_counts() {
    let mut state = started();
    for key in [WEX, WEX, WEX, INVOKE] {
        state.key_down_event(key);
    }
    for key in [WEX, WEX, QUAS] {
        assert_eq!(state.key_down_event(key), Transition::Stay);
    }
    assert_eq!(
        state.key_down_event(INVOKE),
        Transition::GameOverPro { score: 1, info: Some("pressed: 4; Required: 2".to_string()) }
    );
    assert_eq!(state.score(), 1);
    assert_eq!(state.objects().len(), 1);
}

#[test]
fn too_few_presses_end_the_run_even_on_a_match() {
    let mut state = ProMode::start(settings(), SpellType::Emp, 100, SpellType::Emp, 200);
    for key in [WEX, WEX, WEX, INVOKE] {
        state.key_down_event(key);
    }
    assert_eq!(state.required_key_presses(), 1);
    assert_eq!(state.key_down_event(WEX), Transition::Stay);
    // W W W is the combo of the spell on the field, but one press too many was made.
    assert_eq!(
        state.key_down_event(INVOKE),
        Transition::GameOverPro { score: 1, info: Some("pressed: 2; Required: 1".to_string()) }
    );
}

#[test]
fn wrong_combo_ends_the_pro_run_without_a_text() {
    let mut state = started();
    for key in [QUAS, QUAS, QUAS] {
        state.key_down_event(key);
    }
    assert_eq!(state.key_down_event(INVOKE), Transition::GameOverPro { score: 0, info: None });
    assert!(state.game_over());
    assert_eq!(state.objects(), &vec![spell(SpellType::Emp, 100, 0, 3)]);
}

#[test]
fn keys_without_a_binding_are_not_counted() {
    let mut state = started();
    for key in [WEX, WEX, WEX, INVOKE] {
        state.key_down_event(key);
    }
    for key in [Key::Return, Key::Other, Key::Letter('P')] {
        assert_eq!(state.key_down_event(key), Transition::Stay);
    }
    assert_eq!(state.input_buffer().keypress_count(), 0);
    assert_eq!(state.key_down_event(QUAS), Transition::Stay);
    assert_eq!(state.key_down_event(INVOKE), Transition::Stay);
    assert_eq!(state.score(), 2);
}

#[test]
fn escape_leaves_the_pro_run_for_the_menu() {
    let mut state = started();
    assert_eq!(state.key_down_event(Key::Escape), Transition::Menu);
    assert!(!state.game_over());
    let hits = ButtonHits { first: true, second: false, third: false };
    assert_eq!(state.mouse_button_up_event(MouseButton::Left, hits), Transition::Stay);
    assert_eq!(state.input_buffer().symbols(), vec![]);
    let _ = Q;
}

#[test]
fn fault_message_names_both_counts() {
    assert_eq!(fault_message(5, 4), "pressed: 5; Required: 4");
    assert_eq!(fault_message(0, 10), "pressed: 0; Required: 10");
    assert_eq!(fault_message(1234567890, 1), "pressed: 1234567890; Required: 1");
    assert_eq!(
        fault_message(usize::MAX, 0),
        format!("pressed: {}; Required: 0", usize::MAX)
    );
}
