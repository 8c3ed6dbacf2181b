use carer::app_state::AppState;
use carer::game::{
    get_message, random_track, track_of, Carousel, Entity, GameSession, GoodThing, Kind, Nail, Situation,
    Track,
};
use carer::generic_ui::{ButtonActionType, ButtonColour, Interaction};

fn start_round() -> GameSession {
    let mut g = GameSession::new();
    g.next_state = Some(AppState::Game);
    g.apply_state_transition();
    g
}

fn count(g: &GameSession, pred: fn(&Kind) -> bool) -> usize {
    g.entities.iter().filter(|e| pred(&e.kind)).count()
}

fn is_mallet(k: &Kind) -> bool {
    matches!(k, Kind::Mallet)
}

fn is_down(k: &Kind) -> bool {
    matches!(k, Kind::MalletDown)
}

fn is_sloth(k: &Kind) -> bool {
    matches!(k, Kind::Good(GoodThing { situation: Situation::Sloth }))
}

fn is_carousel(k: &Kind) -> bool {
    matches!(k, Kind::Carousel(_))
}

fn entity(kind: Kind, x: i64, y: i64, radius: i64) -> Entity {
    Entity { kind, x, y, rot: 0, radius }
}

fn frame(g: &mut GameSession, dt: u32, t: Track) {
    g.update_good_thing(dt);
    g.swing_mallet(0);
    g.spin_carousel(dt);
    g.good_thing_does_not_touch_bad_thing(0, 0);
    g.score_ticker_with(dt, t);
}

#[test]
fn new_session_shows_the_menu() {
    let g = GameSession::new();
    assert_eq!(g.state, AppState::MainMenu);
    assert_eq!(AppState::default(), AppState::MainMenu);
    assert_eq!(g.buttons.len(), 1);
    assert_eq!(g.buttons[0].label, "Play");
    assert!(matches!(g.buttons[0].action.action_type, ButtonActionType::ChangeAppState(AppState::Game)));
    assert!(g.entities.is_empty());
}

#[test]
fn entering_the_game_spawns_baby_and_fire() {
    let g = start_round();
    assert_eq!(g.state, AppState::Game);
    assert_eq!(g.next_state, None);
    assert_eq!(g.score.0, 0);
    assert_eq!(g.score.1, "");
    assert_eq!((g.difficulty.baby, g.difficulty.sloth, g.difficulty.kitten), (10, 0, 0));
    assert_eq!(g.entities.len(), 2);
    assert_eq!(g.entities[0], entity(Kind::Good(GoodThing { situation: Situation::Baby }), -450_000, 220_000, 100_000));
    assert_eq!(g.entities[1], entity(Kind::Fire, 350_000, 220_000, 100_000));
    assert_eq!(g.buttons[0].label, "end baby");
    assert_eq!(g.buttons[1].label, "pull baby");
}

#[test]
fn five_seconds_of_baby_ticks() {
    let mut g = start_round();
    for _ in 0..50 {
        frame(&mut g, 100, Track::Baby);
    }
    assert_eq!(g.score.0, 5);
    assert_eq!(g.difficulty.baby, 15);
    assert_eq!(g.difficulty.sloth, 0);
    assert_eq!(g.difficulty.kitten, 0);
    assert_eq!(g.entities.len(), 2);
    assert_eq!(g.buttons.len(), 2);
    assert_eq!(g.state, AppState::Game);
    assert_eq!(g.next_state, None);
}

#[test]
fn baby_drifts_by_its_level() {
    let mut g = start_round();
    g.update_good_thing(1000);
    assert_eq!(g.entities[0].x, -440_000);
    g.difficulty.baby = 15;
    g.update_good_thing(200);
    assert_eq!(g.entities[0].x, -437_000);
    assert_eq!(g.entities[1].x, 350_000);
}

#[test]
fn sloth_wraps_to_the_top() {
    let mut g = start_round();
    g.entities.push(entity(Kind::Good(GoodThing { situation: Situation::Sloth }), -370_000, -419_990, 50_000));
    g.entities.push(entity(Kind::Good(GoodThing { situation: Situation::Sloth }), -370_000, -419_930, 50_000));
    g.update_good_thing(10);
    assert_eq!(g.entities[2].y, 420_000);
    assert_eq!(g.entities[3].y, -420_000);
    g.update_good_thing(1000);
    assert_eq!(g.entities[2].y, 413_000);
    assert_eq!(g.entities[3].y, 420_000);
}

#[test]
fn sloth_thresholds_spawn_once() {
    let mut g = start_round();
    for _ in 0..4 {
        g.score_tick(Track::Sloth);
    }
    assert_eq!(g.entities.len(), 2);
    g.score_tick(Track::Sloth);
    assert_eq!(g.difficulty.sloth, 5);
    assert_eq!(g.entities.len(), 5);
    assert_eq!(count(&g, is_sloth), 1);
    assert_eq!(count(&g, is_mallet), 1);
    assert_eq!(g.buttons.len(), 4);
    assert_eq!(g.buttons[2].label, "strangle sloth");
    assert_eq!(g.buttons[3].label, "push sloth");
    for _ in 0..9 {
        g.score_tick(Track::Sloth);
    }
    assert_eq!(count(&g, is_sloth), 1);
    g.score_tick(Track::Sloth);
    assert_eq!(g.difficulty.sloth, 15);
    assert_eq!(count(&g, is_sloth), 2);
    for _ in 0..30 {
        g.score_tick(Track::Sloth);
    }
    assert_eq!(count(&g, is_sloth), 2);
    assert_eq!(count(&g, is_mallet), 1);
    assert_eq!(g.buttons.len(), 4);
    assert_eq!(g.score.0, 45);
}

#[test]
fn kitten_threshold_spawns_carousel_once() {
    let mut g = start_round();
    for _ in 0..19 {
        g.score_tick(Track::Kitten);
    }
    assert_eq!(g.entities.len(), 2);
    g.score_tick(Track::Kitten);
    assert_eq!(g.entities.len(), 7);
    assert_eq!(count(&g, is_carousel), 1);
    assert_eq!(g.entities[5], Entity { kind: Kind::Nail(Nail), x: 88_402, y: -88_402, rot: 4_186_667, radius: 50_000 });
    assert_eq!(g.buttons.len(), 3);
    assert_eq!(g.buttons[2].label, "reverse world");
    for _ in 0..20 {
        g.score_tick(Track::Kitten);
    }
    assert_eq!(g.entities.len(), 7);
}

#[test]
fn touching_ends_the_round_with_the_situation_message() {
    let mut g = start_round();
    g.entities[0].x = 150_000;
    g.good_thing_does_not_touch_bad_thing(0, 0);
    assert_eq!(g.next_state, Some(AppState::GameOver));
    assert_eq!(g.score.1, "your negligent inaction led to withered death");
    g.apply_state_transition();
    assert_eq!(g.state, AppState::GameOver);
    assert_eq!(g.buttons.len(), 1);
    assert_eq!(g.buttons[0].label, "try again");
    assert!(g.entities.is_empty());
}

#[test]
fn touching_is_inclusive_at_the_sum_of_radii() {
    let mut g = start_round();
    g.entities[0].x = 149_999;
    g.good_thing_does_not_touch_bad_thing(0, 0);
    assert_eq!(g.next_state, None);
    assert_eq!(g.score.1, "");
    g.entities[0].x = 350_000 - 120_000;
    g.entities[0].y = 220_000 + 160_000;
    g.good_thing_does_not_touch_bad_thing(0, 0);
    assert_eq!(g.next_state, Some(AppState::GameOver));
    g.next_state = None;
    g.entities[0].y = 220_000 + 160_001;
    g.good_thing_does_not_touch_bad_thing(0, 0);
    assert_eq!(g.next_state, None);
    g.entities[0].y = 220_000 - 160_000;
    g.good_thing_does_not_touch_bad_thing(0, 0);
    assert_eq!(g.next_state, Some(AppState::GameOver));
}

#[test]
fn the_nail_collides_where_the_carousel_carries_it() {
    let mut g = start_round();
    g.entities.push(Entity { kind: Kind::Nail(Nail), x: 88_402, y: -88_402, rot: 0, radius: 50_000 });
    g.entities.push(entity(Kind::Good(GoodThing { situation: Situation::Kitten }), 316_000, 30_000, 50_000));
    g.good_thing_does_not_touch_bad_thing(88_402, -88_402);
    assert_eq!(g.next_state, None);
    g.good_thing_does_not_touch_bad_thing(0, 125_000);
    assert_eq!(g.next_state, Some(AppState::GameOver));
    assert_eq!(
        g.score.1,
        "their soft paws were torn to shreds by rusty nails. weeping, they wondered why their protector had abandoned them"
    );
}

#[test]
fn the_last_touching_good_thing_gives_the_message() {
    let mut g = start_round();
    g.entities[0].x = 350_000;
    g.entities.push(entity(Kind::Good(GoodThing { situation: Situation::Sloth }), 350_000, 220_000, 50_000));
    g.good_thing_does_not_touch_bad_thing(0, 0);
    assert_eq!(
        g.score.1,
        "the baby sloth just wanted to eat some leaves - it did not choose to be put in the hands of an incompetent carer"
    );
}

#[test]
fn mallet_down_follows_the_angle() {
    let mut g = start_round();
    g.swing_mallet(1_300_000);
    assert_eq!(count(&g, is_down), 0);
    for _ in 0..5 {
        g.score_tick(Track::Sloth);
    }
    g.swing_mallet(1_300_000);
    assert_eq!(count(&g, is_down), 1);
    let down = g.entities.last().unwrap();
    assert_eq!((down.x, down.y, down.radius), (-387_200, -283_500, 50_000));
    g.swing_mallet(1_250_000);
    assert_eq!(count(&g, is_down), 1);
    let mallet = g.entities.iter().find(|e| is_mallet(&e.kind)).unwrap();
    assert_eq!(mallet.rot, 1_250_000);
    g.swing_mallet(1_200_000);
    assert_eq!(count(&g, is_down), 0);
    g.swing_mallet(1_200_001);
    assert_eq!(count(&g, is_down), 1);
}

#[test]
fn the_carousel_spins_with_the_kitten_level() {
    let mut g = start_round();
    for _ in 0..20 {
        g.score_tick(Track::Kitten);
    }
    g.spin_carousel(1000);
    assert_eq!(g.entities[2].rot, 200_000);
    g.press(&ButtonActionType::ProlongInevitable(Situation::Kitten));
    assert_eq!(g.entities[2].kind, Kind::Carousel(Carousel(-1)));
    g.spin_carousel(500);
    assert_eq!(g.entities[2].rot, 100_000);
}

#[test]
fn prolong_nudges_each_situation() {
    let mut g = start_round();
    g.entities[0].x = 100_000;
    g.entities.push(entity(Kind::Good(GoodThing { situation: Situation::Sloth }), -370_000, 300_000, 50_000));
    g.entities.push(entity(Kind::Good(GoodThing { situation: Situation::Sloth }), -370_000, 0, 50_000));
    g.press(&ButtonActionType::ProlongInevitable(Situation::Baby));
    assert_eq!(g.entities[0].x, -450_000);
    assert_eq!(g.entities[2].y, 300_000);
    g.press(&ButtonActionType::ProlongInevitable(Situation::Sloth));
    assert_eq!(g.entities[2].y, 100_000);
    assert_eq!(g.entities[3].y, -200_000);
    assert_eq!(g.entities[0].y, 220_000);
    assert_eq!(g.next_state, None);
}

#[test]
fn buttons_show_the_pointer_and_act_when_pressed() {
    let mut g = start_round();
    g.button_interaction_system(0, Interaction::Hovered);
    assert_eq!(g.buttons[0].colour, ButtonColour::Hovered);
    assert_eq!(g.next_state, None);
    g.button_interaction_system(0, Interaction::Idle);
    assert_eq!(g.buttons[0].colour, ButtonColour::Normal);
    g.button_interaction_system(0, Interaction::Pressed);
    assert_eq!(g.buttons[0].colour, ButtonColour::Pressed);
    assert_eq!(g.buttons[0].label, "end baby");
    assert_eq!(g.next_state, Some(AppState::GameOver));
    assert_eq!(
        g.score.1,
        "the baby explored, naive and innocent, its newfound territory. you actively steered creation to its death"
    );
    g.apply_state_transition();
    g.button_interaction_system(0, Interaction::Pressed);
    assert_eq!(g.next_state, Some(AppState::Game));
    g.apply_state_transition();
    assert_eq!(g.state, AppState::Game);
    assert_eq!(g.score.1, "");
    assert_eq!(g.entities.len(), 2);
}

#[test]
fn try_again_resets_score_and_difficulty() {
    let mut g = start_round();
    for _ in 0..7 {
        g.score_tick(Track::Sloth);
    }
    g.press(&ButtonActionType::EndGame("done".to_string()));
    g.apply_state_transition();
    assert_eq!(g.score.0, 7);
    assert_eq!(g.score.1, "done");
    g.press(&ButtonActionType::ChangeAppState(AppState::Game));
    g.apply_state_transition();
    assert_eq!(g.score.0, 0);
    assert_eq!(g.difficulty.sloth, 0);
    assert_eq!(g.difficulty.baby, 10);
    assert_eq!(g.entities.len(), 2);
}

#[test]
fn messages_name_the_situation() {
    assert_eq!(get_message(&Situation::Baby), "your negligent inaction led to withered death");
    assert!(get_message(&Situation::Kitten).starts_with("their soft paws"));
    assert!(get_message(&Situation::Sloth).starts_with("the baby sloth just wanted"));
}

#[test]
fn the_timer_ticks_once_per_second() {
    let mut g = start_round();
    g.score_ticker_with(999, Track::Kitten);
    assert_eq!(g.score.0, 0);
    assert_eq!(g.timer_ms, 999);
    g.score_ticker_with(1, Track::Kitten);
    assert_eq!(g.score.0, 1);
    assert_eq!(g.difficulty.kitten, 1);
    assert_eq!(g.timer_ms, 0);
    g.score_ticker_with(2500, Track::Baby);
    assert_eq!(g.score.0, 2);
    assert_eq!(g.timer_ms, 500);
}

#[test]
fn the_random_ticker_raises_one_track() {
    let mut g = start_round();
    for _ in 0..30 {
        let _ = random_track();
    }
    g.score_ticker(1000);
    assert_eq!(g.score.0, 1);
    let d = g.difficulty;
    assert_eq!(d.baby + d.sloth + d.kitten, 11);
    let mut seen = [false; 3];
    for _ in 0..200 {
        match random_track() {
            Track::Baby => seen[0] = true,
            Track::Sloth => seen[1] = true,
            Track::Kitten => seen[2] = true,
        }
    }
    assert_eq!(seen, [true, true, true]);
}

#[test]
fn draws_stand_for_tracks() {
    assert_eq!(track_of(0), Track::Baby);
    assert_eq!(track_of(1), Track::Sloth);
    assert_eq!(track_of(2), Track::Kitten);
}

#[test]
fn five_seconds_of_baby_ticks_in_uneven_frames() {
    let mut g = start_round();
    let dts = [1000, 16, 984, 700, 300, 999, 1, 250, 250, 500];
    assert_eq!(dts.iter().sum::<u32>(), 5000);
    for dt in dts {
        frame(&mut g, dt, Track::Baby);
    }
    assert_eq!(g.score.0, 5);
    assert_eq!((g.difficulty.baby, g.difficulty.sloth, g.difficulty.kitten), (15, 0, 0));
    assert_eq!(g.entities.len(), 2);
    assert_eq!(g.timer_ms, 0);
    assert_eq!(g.state, AppState::Game);
    assert_eq!(g.next_state, None);
}
