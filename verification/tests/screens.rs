use game_screens::element::ButtonRole;
use game_screens::element::ElementKind;
use game_screens::element::InteractionStatus;
use game_screens::element::Palette;
use game_screens::game::Game;
use game_screens::reducer::reduce_interaction;
use game_screens::reducer::target_of;
use game_screens::screen::build_screen;
use game_screens::screen::ElementStore;
use game_screens::state::AppState;
use game_screens::state::StateMachine;

fn find_button(game: &Game, owner: AppState, role: ButtonRole) -> usize {
    let store = game.store();
    let n = store.len();
    let mut i = 0;
    while i < n {
        let e = store.get(i);
        if e.owner == owner && e.role == Some(role) {
            return i;
        }
        i += 1;
    }
    panic!("no such button");
}

#[test]
fn machine_starts_in_main_menu() {
    let m = StateMachine::new();
    assert_eq!(m.current(), AppState::MainMenu);
    assert_eq!(m.pending(), None);
}

#[test]
fn last_request_wins() {
    let mut m = StateMachine::new();
    m.request_transition(AppState::InGame);
    m.request_transition(AppState::GameOver);
    m.request_transition(AppState::InGame);
    m.request_transition(AppState::GameOver);
    assert_eq!(m.pending(), Some(AppState::GameOver));
    let r = m.commit();
    assert_eq!(r, Some((AppState::MainMenu, AppState::GameOver)));
    assert_eq!(m.current(), AppState::GameOver);
    assert_eq!(m.pending(), None);
}

#[test]
fn commit_without_request_changes_nothing() {
    let mut m = StateMachine::new();
    assert_eq!(m.commit(), None);
    assert_eq!(m.current(), AppState::MainMenu);
}

#[test]
fn self_transition_is_committed_like_any_other() {
    let mut m = StateMachine::new();
    m.request_transition(AppState::MainMenu);
    let r = m.commit();
    assert_eq!(r, Some((AppState::MainMenu, AppState::MainMenu)));
    assert_eq!(m.current(), AppState::MainMenu);
}

#[test]
fn build_counts_are_deterministic() {
    let a = build_screen(AppState::GameOver, 0);
    let b = build_screen(AppState::GameOver, 1000);
    let count = |v: &Vec<game_screens::element::ScreenElement>| {
        v.iter().filter(|e| e.owner == AppState::GameOver).count()
    };
    assert_eq!(count(&a), 11);
    assert_eq!(count(&a), count(&b));
    assert_eq!(build_screen(AppState::MainMenu, 0).len(), 8);
    assert_eq!(build_screen(AppState::InGame, 0).len(), 5);
}

#[test]
fn build_tags_every_element_with_its_mode() {
    for mode in [AppState::MainMenu, AppState::InGame, AppState::GameOver] {
        let v = build_screen(mode, 7);
        assert!(!v.is_empty());
        for e in &v {
            assert_eq!(e.owner, mode);
            assert_eq!(e.style, Palette::Normal);
        }
    }
}

#[test]
fn build_links_children_to_earlier_elements_of_same_batch() {
    for mode in [AppState::MainMenu, AppState::InGame, AppState::GameOver] {
        let v = build_screen(mode, 40);
        for (k, e) in v.iter().enumerate() {
            assert_eq!(e.id, 40 + k as u64);
            if let Some(p) = e.parent {
                let parent = v.iter().find(|c| c.id == p).expect("parent in batch");
                assert!(p < e.id);
                assert_eq!(parent.owner, e.owner);
            }
        }
    }
}

#[test]
fn game_over_screen_offers_both_navigation_buttons() {
    let v = build_screen(AppState::GameOver, 0);
    let buttons: Vec<ButtonRole> = v.iter().filter_map(|e| e.role).collect();
    assert_eq!(buttons, vec![ButtonRole::ToMainMenu, ButtonRole::ToInGame]);
    let kinds: Vec<ElementKind> = v.iter().map(|e| e.kind).collect();
    assert_eq!(kinds[0], ElementKind::Background);
    assert_eq!(kinds[1], ElementKind::Container);
}

#[test]
fn teardown_removes_exactly_the_tagged_elements() {
    let mut store = ElementStore::new();
    store.spawn_screen(AppState::MainMenu);
    store.spawn_screen(AppState::GameOver);
    assert_eq!(store.count_tagged(AppState::MainMenu), 8);
    assert_eq!(store.count_tagged(AppState::GameOver), 11);
    let before: Vec<u64> = (0..store.len())
        .map(|i| store.get(i))
        .filter(|e| e.owner == AppState::GameOver)
        .map(|e| e.id)
        .collect();
    store.teardown(AppState::MainMenu);
    assert_eq!(store.count_tagged(AppState::MainMenu), 0);
    assert_eq!(store.count_tagged(AppState::GameOver), 11);
    let after: Vec<u64> = (0..store.len()).map(|i| store.get(i).id).collect();
    assert_eq!(before, after);
}

#[test]
fn teardown_with_nothing_tagged_is_a_no_op() {
    let mut store = ElementStore::new();
    store.teardown(AppState::GameOver);
    assert_eq!(store.len(), 0);
    store.spawn_screen(AppState::MainMenu);
    let before: Vec<u64> = (0..store.len()).map(|i| store.get(i).id).collect();
    store.teardown(AppState::GameOver);
    let after: Vec<u64> = (0..store.len()).map(|i| store.get(i).id).collect();
    assert_eq!(before, after);
    store.teardown(AppState::MainMenu);
    store.teardown(AppState::MainMenu);
    assert_eq!(store.len(), 0);
}

#[test]
fn reducer_maps_each_status() {
    let pressed = reduce_interaction(InteractionStatus::Pressed, ButtonRole::ToMainMenu);
    assert_eq!(pressed.style, None);
    assert_eq!(pressed.transition, Some(AppState::MainMenu));
    assert!(!pressed.sound);

    let hovered = reduce_interaction(InteractionStatus::Hovered, ButtonRole::ToInGame);
    assert_eq!(hovered.style, Some(Palette::Hovered));
    assert_eq!(hovered.transition, None);
    assert!(hovered.sound);

    let idle = reduce_interaction(InteractionStatus::Idle, ButtonRole::ToInGame);
    assert_eq!(idle.style, Some(Palette::Normal));
    assert_eq!(idle.transition, None);
    assert!(!idle.sound);
}

#[test]
fn button_roles_name_their_targets() {
    assert_eq!(target_of(ButtonRole::ToMainMenu), AppState::MainMenu);
    assert_eq!(target_of(ButtonRole::ToInGame), AppState::InGame);
}

#[test]
fn pressing_start_enters_the_game_and_clears_the_menu() {
    let mut game = Game::new();
    assert_eq!(game.current_mode(), AppState::MainMenu);
    let start = find_button(&game, AppState::MainMenu, ButtonRole::ToInGame);
    let sound = game.handle_interaction(start, InteractionStatus::Pressed);
    assert!(!sound);
    assert_eq!(game.current_mode(), AppState::MainMenu);
    let r = game.commit_frame();
    assert_eq!(r, Some((AppState::MainMenu, AppState::InGame)));
    assert_eq!(game.current_mode(), AppState::InGame);
    assert_eq!(game.store().count_tagged(AppState::MainMenu), 0);
    assert_eq!(game.store().count_tagged(AppState::InGame), 5);
}

#[test]
fn hovering_restart_styles_it_and_never_transitions() {
    let mut game = Game::new();
    game.request_transition(AppState::GameOver);
    game.commit_frame();
    assert_eq!(game.current_mode(), AppState::GameOver);

    let restart = find_button(&game, AppState::GameOver, ButtonRole::ToInGame);
    assert_eq!(game.store().get(restart).style, Palette::Normal);

    let sound = game.handle_interaction(restart, InteractionStatus::Hovered);
    assert!(sound);
    assert_eq!(game.store().get(restart).style, Palette::Hovered);
    assert_eq!(game.machine().pending(), None);

    let sound = game.handle_interaction(restart, InteractionStatus::Idle);
    assert!(!sound);
    assert_eq!(game.store().get(restart).style, Palette::Normal);

    assert_eq!(game.commit_frame(), None);
    assert_eq!(game.current_mode(), AppState::GameOver);
}

#[test]
fn pressing_main_menu_leaves_game_over_with_nothing_behind() {
    let mut game = Game::new();
    game.request_transition(AppState::InGame);
    game.commit_frame();
    game.request_transition(AppState::GameOver);
    game.commit_frame();
    assert_eq!(game.current_mode(), AppState::GameOver);
    assert_eq!(game.store().count_tagged(AppState::MainMenu), 0);

    let home = find_button(&game, AppState::GameOver, ButtonRole::ToMainMenu);
    game.handle_interaction(home, InteractionStatus::Pressed);
    let r = game.commit_frame();
    assert_eq!(r, Some((AppState::GameOver, AppState::MainMenu)));
    assert_eq!(game.current_mode(), AppState::MainMenu);
    assert_eq!(game.store().count_tagged(AppState::GameOver), 0);
    assert_eq!(game.store().count_tagged(AppState::InGame), 0);
    assert_eq!(game.store().count_tagged(AppState::MainMenu), 8);
    assert_eq!(game.store().len(), 8);
}

#[test]
fn last_press_in_a_frame_decides_the_transition() {
    let mut game = Game::new();
    game.request_transition(AppState::GameOver);
    game.commit_frame();
    let home = find_button(&game, AppState::GameOver, ButtonRole::ToMainMenu);
    let restart = find_button(&game, AppState::GameOver, ButtonRole::ToInGame);
    game.handle_interaction(home, InteractionStatus::Pressed);
    game.handle_interaction(restart, InteractionStatus::Pressed);
    let r = game.commit_frame();
    assert_eq!(r, Some((AppState::GameOver, AppState::InGame)));
    assert_eq!(game.current_mode(), AppState::InGame);
}

#[test]
fn non_buttons_ignore_interaction() {
    let mut game = Game::new();
    let sound = game.handle_interaction(0, InteractionStatus::Pressed);
    assert!(!sound);
    assert_eq!(game.machine().pending(), None);
    assert_eq!(game.commit_frame(), None);
    assert_eq!(game.current_mode(), AppState::MainMenu);
}
