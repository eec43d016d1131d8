use invoke::game_states::game_over_state::{GameOverProState, GameOverState};
use invoke::game_states::menu_state::MenuState;
use invoke::game_states::play_state::MainState;
use invoke::game_states::pro_mode_state::ProMode;
use invoke::game_states::settings_state::SettingsState;
use invoke::settings::{Key, Settings, UserSettings};
use invoke::spells::SpellType;
use invoke::state_machine::{ButtonHits, GameMode, MouseButton, StateMachine, Transition};

const QUAS: Key = Key::Letter('Q');
const WEX: Key = Key::Letter('W');
const EXORT: Key = Key::Letter('E');
const INVOKE: Key = Key::Letter('R');
const NOWHERE: ButtonHits = ButtonHits { first: false, second: false, third: false };
const FIRST: ButtonHits = ButtonHits { first: true, second: false, third: false };
const SECOND: ButtonHits = ButtonHits { first: false, second: true, third: false };
const THIRD: ButtonHits = ButtonHits { first: false, second: false, third: true };
const ALL: ButtonHits = ButtonHits { first: true, second: true, third: true };

fn settings() -> Settings {
    Settings::new(&UserSettings::default()).unwrap()
}

fn machine(mode: GameMode) -> StateMachine {
    StateMachine::new(mode, settings())
}

fn menu() -> StateMachine {
    machine(GameMode::Menu(MenuState::new()))
}

fn play() -> StateMachine {
    machine(GameMode::Play(MainState::new(settings())))
}

fn pro_mode() -> StateMachine {
    machine(GameMode::ProMode(ProMode::start(
        settings(),
        SpellType::Emp,
        100,
        SpellType::Tornado,
        200,
    )))
}

fn is_menu(machine: &StateMachine) -> bool {
    matches!(machine.current_state(), GameMode::Menu(_))
}

fn is_fresh_play(machine: &StateMachine) -> bool {
    match machine.current_state() {
        GameMode::Play(run) => {
            run.objects().is_empty()
                && run.score() == 0
                && run.speed() == 0
                && run.input_buffer().len() == 0
                && !run.game_over()
        }
        _ => false,
    }
}

fn is_fresh_pro_mode(machine: &StateMachine) -> bool {
    match machine.current_state() {
        GameMode::ProMode(run) => {
            run.objects().len() == 1
                && run.objects()[0].speed == 3
                && run.objects()[0].position.y == 0
                && run.score() == 0
                && run.speed() == 3
                && run.required_key_presses() == 4
                && run.input_buffer().len() == 0
                && !run.game_over()
        }
        _ => false,
    }
}

#[test]
fn machine_keeps_its_mode_and_settings() {
    let machine = menu();
    assert!(is_menu(&machine));
    assert_eq!(machine.settings(), settings());
    assert!(machine.has_headroom());
}

#[test]
fn menu_keys() {
    let mut machine = menu();
    assert_eq!(machine.key_down_event(Key::Return), Transition::Game);
    assert!(is_fresh_play(&machine));
    let mut machine = menu();
    assert_eq!(machine.key_down_event(Key::Letter('P')), Transition::ProMode);
    assert!(is_fresh_pro_mode(&machine));
    let mut machine = menu();
    assert_eq!(machine.key_down_event(Key::Escape), Transition::Quit);
    assert!(is_menu(&machine));
}

#[test]
fn menu_ignores_other_keys() {
    let mut machine = menu();
    for key in [QUAS, WEX, EXORT, INVOKE, Key::Other, Key::Letter('p'), Key::Letter('A')] {
        assert_eq!(machine.key_down_event(key), Transition::Stay);
        assert!(is_menu(&machine));
    }
}

#[test]
fn menu_clicks() {
    let mut machine = menu();
    assert_eq!(machine.mouse_button_up_event(MouseButton::Left, FIRST), Transition::Game);
    assert!(is_fresh_play(&machine));
    let mut machine = menu();
    assert_eq!(machine.mouse_button_up_event(MouseButton::Left, SECOND), Transition::ProMode);
    assert!(is_fresh_pro_mode(&machine));
    let mut machine = menu();
    assert_eq!(machine.mouse_button_up_event(MouseButton::Left, THIRD), Transition::Quit);
    assert!(is_menu(&machine));
    // Where buttons overlap, the first one listed is taken.
    let mut machine = menu();
    assert_eq!(machine.mouse_button_up_event(MouseButton::Left, ALL), Transition::Game);
    let mut machine = menu();
    let two = ButtonHits { first: false, second: true, third: true };
    assert_eq!(machine.mouse_button_up_event(MouseButton::Left, two), Transition::ProMode);
}

#[test]
fn menu_ignores_other_clicks() {
    let mut machine = menu();
    assert_eq!(machine.mouse_button_up_event(MouseButton::Left, NOWHERE), Transition::Stay);
    for button in [MouseButton::Right, MouseButton::Middle, MouseButton::Other] {
        assert_eq!(machine.mouse_button_up_event(button, ALL), Transition::Stay);
    }
    assert!(is_menu(&machine));
    assert_eq!(machine.tick(1_000_000, SpellType::Emp, 100), Transition::Stay);
    assert_eq!(machine.update(1_000_000), Transition::Stay);
    assert!(is_menu(&machine));
}

#[test]
fn game_over_keys() {
    let over = || machine(GameMode::GameOver(GameOverState::new(7)));
    let mut machine = over();
    assert_eq!(machine.key_down_event(Key::Return), Transition::Game);
    assert!(is_fresh_play(&machine));
    let mut machine = over();
    assert_eq!(machine.key_down_event(Key::Escape), Transition::Menu);
    assert!(is_menu(&machine));
    let mut machine = over();
    for key in [QUAS, INVOKE, Key::Other, Key::Letter('P')] {
        assert_eq!(machine.key_down_event(key), Transition::Stay);
    }
    assert_eq!(machine.update(5), Transition::Stay);
    match machine.current_state() {
        GameMode::GameOver(state) => assert_eq!(state.score, 7),
        _ => panic!("the screen was left"),
    }
}

#[test]
fn game_over_clicks() {
    let over = || machine(GameMode::GameOver(GameOverState::new(7)));
    let mut machine = over();
    // The first entry of the screen is the score, which is no button.
    assert_eq!(machine.mouse_button_up_event(MouseButton::Left, FIRST), Transition::Stay);
    assert_eq!(machine.mouse_button_up_event(MouseButton::Right, ALL), Transition::Stay);
    assert_eq!(machine.mouse_button_up_event(MouseButton::Left, SECOND), Transition::Menu);
    assert!(is_menu(&machine));
    let mut machine = over();
    assert_eq!(machine.mouse_button_up_event(MouseButton::Left, THIRD), Transition::Game);
    assert!(is_fresh_play(&machine));
    let mut machine = over();
    assert_eq!(machine.mouse_button_up_event(MouseButton::Left, ALL), Transition::Menu);
}

#[test]
fn game_over_pro_keys_and_clicks() {
    let over = || {
        machine(GameMode::GameOverPro(GameOverProState::new(
            3,
            Some("pressed: 5; Required: 4".to_string()),
        )))
    };
    let mut machine = over();
    assert_eq!(machine.key_down_event(Key::Return), Transition::ProMode);
    assert!(is_fresh_pro_mode(&machine));
    let mut machine = over();
    assert_eq!(machine.key_down_event(Key::Escape), Transition::Menu);
    assert!(is_menu(&machine));
    let mut machine = over();
    assert_eq!(machine.key_down_event(WEX), Transition::Stay);
    assert_eq!(machine.mouse_button_up_event(MouseButton::Left, FIRST), Transition::Stay);
    match machine.current_state() {
        GameMode::GameOverPro(state) => {
            assert_eq!(state.score, 3);
            assert_eq!(state.info, Some("pressed: 5; Required: 4".to_string()));
        }
        _ => panic!("the screen was left"),
    }
    assert_eq!(machine.mouse_button_up_event(MouseButton::Left, THIRD), Transition::ProMode);
    assert!(is_fresh_pro_mode(&machine));
    let mut machine = over();
    assert_eq!(machine.mouse_button_up_event(MouseButton::Left, SECOND), Transition::Menu);
    assert!(is_menu(&machine));
}

#[test]
fn settings_screen_takes_no_input() {
    let mut machine = machine(GameMode::Settings(SettingsState::new()));
    for key in [Key::Return, Key::Escape, QUAS, Key::Other] {
        assert_eq!(machine.key_down_event(key), Transition::Stay);
    }
    assert_eq!(machine.mouse_button_up_event(MouseButton::Left, ALL), Transition::Stay);
    assert_eq!(machine.update(1), Transition::Stay);
    assert!(matches!(machine.current_state(), GameMode::Settings(_)));
}

#[test]
fn play_keeps_its_state_while_it_stays() {
    let mut machine = play();
    assert_eq!(machine.tick(0, SpellType::Alacrity, 100), Transition::Stay);
    assert_eq!(machine.key_down_event(WEX), Transition::Stay);
    assert_eq!(machine.key_down_event(Key::Other), Transition::Stay);
    assert_eq!(machine.mouse_button_up_event(MouseButton::Left, ALL), Transition::Stay);
    match machine.current_state() {
        GameMode::Play(run) => {
            assert_eq!(run.objects().len(), 1);
            assert_eq!(run.objects()[0].position.y, 5);
            assert_eq!(run.input_buffer().len(), 1);
            assert_eq!(run.speed(), 5);
        }
        _ => panic!("the run was left"),
    }
}

#[test]
fn play_scenario_wrong_combo_is_game_over() {
    let mut machine = play();
    assert_eq!(machine.tick(0, SpellType::Alacrity, 100), Transition::Stay);
    assert_eq!(machine.key_down_event(QUAS), Transition::Stay);
    assert_eq!(machine.key_down_event(WEX), Transition::Stay);
    assert_eq!(machine.key_down_event(EXORT), Transition::Stay);
    assert_eq!(machine.key_down_event(INVOKE), Transition::GameOver { score: 0 });
    match machine.current_state() {
        GameMode::GameOver(state) => assert_eq!(state.score, 0),
        _ => panic!("the run is not over"),
    }
}

#[test]
fn play_leaves_for_game_over_with_its_score() {
    let mut machine = play();
    machine.tick(0, SpellType::Emp, 100);
    for key in [WEX, WEX, WEX, INVOKE] {
        assert_eq!(machine.key_down_event(key), Transition::Stay);
    }
    assert_eq!(machine.tick(0, SpellType::Emp, 100), Transition::Stay);
    assert_eq!(machine.key_down_event(INVOKE), Transition::Stay);
    assert_eq!(machine.key_down_event(INVOKE), Transition::GameOver { score: 2 });
    match machine.current_state() {
        GameMode::GameOver(state) => assert_eq!(state.score, 2),
        _ => panic!("the run is not over"),
    }
}

#[test]
fn play_leaves_for_game_over_at_the_bottom() {
    let mut machine = play();
    for _ in 0..2048 {
        assert_eq!(machine.tick(0, SpellType::Emp, 100), Transition::Stay);
    }
    assert_eq!(machine.tick(0, SpellType::Emp, 100), Transition::GameOver { score: 0 });
    assert!(matches!(machine.current_state(), GameMode::GameOver(_)));
    assert_eq!(machine.tick(0, SpellType::Emp, 100), Transition::Stay);
}

#[test]
fn play_escape_goes_to_the_menu() {
    let mut machine = play();
    machine.update(0);
    assert_eq!(machine.key_down_event(Key::Escape), Transition::Menu);
    assert!(is_menu(&machine));
}

#[test]
fn pro_mode_leaves_for_its_own_game_over() {
    let mut machine = pro_mode();
    for key in [WEX, WEX, WEX, INVOKE] {
        assert_eq!(machine.key_down_event(key), Transition::Stay);
    }
    for key in [QUAS, QUAS] {
        assert_eq!(machine.key_down_event(key), Transition::Stay);
    }
    let said = Some("pressed: 3; Required: 2".to_string());
    assert_eq!(
        machine.key_down_event(INVOKE),
        Transition::GameOverPro { score: 1, info: said.clone() }
    );
    match machine.current_state() {
        GameMode::GameOverPro(state) => {
            assert_eq!(state.score, 1);
            assert_eq!(state.info, said);
        }
        _ => panic!("the run is not over"),
    }
}

#[test]
fn pro_mode_wrong_combo_and_escape() {
    let mut machine = pro_mode();
    for key in [QUAS, QUAS, QUAS] {
        machine.key_down_event(key);
    }
    assert_eq!(machine.key_down_event(INVOKE), Transition::GameOverPro { score: 0, info: None });
    match machine.current_state() {
        GameMode::GameOverPro(state) => assert_eq!(state.info, None),
        _ => panic!("the run is not over"),
    }
    let mut machine = pro_mode();
    assert_eq!(machine.key_down_event(Key::Escape), Transition::Menu);
    assert!(is_menu(&machine));
}

#[test]
fn apply_transition_replaces_the_mode() {
    let mut machine = menu();
    machine.apply_transition(&Transition::GameOver { score: 9 });
    assert!(matches!(machine.current_state(), GameMode::GameOver(state) if state.score == 9));
    machine.apply_transition(&Transition::Stay);
    assert!(matches!(machine.current_state(), GameMode::GameOver(state) if state.score == 9));
    machine.apply_transition(&Transition::Quit);
    assert!(matches!(machine.current_state(), GameMode::GameOver(state) if state.score == 9));
    machine.apply_transition(&Transition::Game);
    assert!(is_fresh_play(&machine));
    machine.apply_transition(&Transition::ProMode);
    assert!(is_fresh_pro_mode(&machine));
    machine.apply_transition(&Transition::GameOverPro { score: 4, info: None });
    assert!(matches!(machine.current_state(), GameMode::GameOverPro(state) if state.score == 4));
    machine.apply_transition(&Transition::Menu);
    assert!(is_menu(&machine));
}

#[test]
fn a_long_game_through_every_mode() {
    let mut machine = menu();
    assert_eq!(machine.key_down_event(Key::Return), Transition::Game);
    assert_eq!(machine.update(0), Transition::Stay);
    assert_eq!(machine.key_down_event(Key::Escape), Transition::Menu);
    assert_eq!(machine.key_down_event(Key::Letter('P')), Transition::ProMode);
    assert_eq!(machine.update(16_000_000), Transition::Stay);
    assert_eq!(machine.key_down_event(Key::Escape), Transition::Menu);
    assert_eq!(machine.key_down_event(Key::Return), Transition::Game);
    assert_eq!(machine.key_down_event(INVOKE), Transition::GameOver { score: 0 });
    assert_eq!(machine.key_down_event(Key::Return), Transition::Game);
    assert!(is_fresh_play(&machine));
    assert_eq!(machine.key_down_event(Key::Escape), Transition::Menu);
    assert_eq!(machine.key_down_event(Key::Escape), Transition::Quit);
    assert!(is_menu(&machine));
}
