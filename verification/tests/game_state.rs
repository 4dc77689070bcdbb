use rocket_tycoon::game_state::{default_next_contract_id, GameSpeed, SpeedControl};

#[test]
fn test_speed_tick_ms() {
    assert!(GameSpeed::Normal.tick_ms() > GameSpeed::Fast.tick_ms());
    assert!(GameSpeed::Fast.tick_ms() > GameSpeed::VeryFast.tick_ms());
}

#[test]
fn test_toggle_pause() {
    let mut gs = SpeedControl::new();
    assert_eq!(gs.speed, GameSpeed::Paused);

    gs.toggle_pause();
    assert_eq!(gs.speed, GameSpeed::Normal);

    gs.toggle_pause();
    assert_eq!(gs.speed, GameSpeed::Paused);

    gs.toggle_pause();
    assert_eq!(gs.speed, GameSpeed::Normal);
}

#[test]
fn test_toggle_pause_remembers_speed() {
    let mut gs = SpeedControl::new();
    gs.set_speed(GameSpeed::VeryFast);
    assert_eq!(gs.speed, GameSpeed::VeryFast);

    gs.toggle_pause();
    assert_eq!(gs.speed, GameSpeed::Paused);

    gs.toggle_pause();
    assert_eq!(gs.speed, GameSpeed::VeryFast);
}

#[test]
fn test_set_speed() {
    let mut gs = SpeedControl::new();
    gs.set_speed(GameSpeed::Fast);
    assert_eq!(gs.speed, GameSpeed::Fast);
    gs.set_speed(GameSpeed::VeryFast);
    assert_eq!(gs.speed, GameSpeed::VeryFast);
}

#[test]
fn test_set_paused_keeps_previous() {
    let mut gs = SpeedControl::new();
    gs.set_speed(GameSpeed::Fast);
    gs.set_speed(GameSpeed::Paused);
    assert_eq!(gs.previous_speed, GameSpeed::Fast);
    gs.toggle_pause();
    assert_eq!(gs.speed, GameSpeed::Fast);
}

#[test]
fn test_speed_names_and_ticks() {
    assert_eq!(GameSpeed::Paused.tick_ms(), u64::MAX);
    assert_eq!(GameSpeed::Normal.tick_ms(), 250);
    assert_eq!(GameSpeed::VeryFast.display_name(), "Very Fast");
    assert_eq!(GameSpeed::Fast.display_symbol(), "▶▶");
    assert_eq!(default_next_contract_id(), 1);
}
