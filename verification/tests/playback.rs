use audio_friend::playback::{clear, Player, PlayerAction, PlayerEvent};

fn woken() -> PlayerEvent {
    PlayerEvent::Woken { run_out: false }
}

fn expect_load(action: PlayerAction, first: bool, name: &str) {
    match action {
        PlayerAction::Load { stop_first, key, path } => {
            assert_eq!(stop_first, first);
            assert_eq!(key, name);
            assert_eq!(path, format!("/tmp/{name}"));
        }
        other => panic!("{other:?}"),
    }
}

fn play(player: &mut Player, name: &str) {
    player.play(name.to_string(), format!("/tmp/{name}"));
}

#[test]
fn a_player_starts_silent() {
    let mut player = Player::default();
    assert_eq!(player.now_playing(), None);
    assert!(!player.has_command());
    assert!(matches!(player.run_player(woken()), PlayerAction::Wait));
    assert!(matches!(
        player.run_player(PlayerEvent::Woken { run_out: true }),
        PlayerAction::Wait
    ));
}

#[test]
fn a_clip_plays_until_it_runs_out() {
    let mut player = Player::new();
    play(&mut player, "a");
    assert_eq!(player.now_playing(), Some("a".to_string()));
    assert!(player.has_command());
    expect_load(player.run_player(woken()), false, "a");
    assert!(!player.has_command());
    assert!(matches!(
        player.run_player(PlayerEvent::Loaded { ok: true }),
        PlayerAction::Wait
    ));
    assert!(matches!(player.run_player(woken()), PlayerAction::Wait));
    assert_eq!(player.now_playing(), Some("a".to_string()));
    assert!(matches!(
        player.run_player(PlayerEvent::Woken { run_out: true }),
        PlayerAction::Discard
    ));
    assert_eq!(player.now_playing(), None);
}

#[test]
fn a_clip_replaces_another() {
    let mut player = Player::new();
    play(&mut player, "a");
    expect_load(player.run_player(woken()), false, "a");
    player.run_player(PlayerEvent::Loaded { ok: true });
    play(&mut player, "b");
    assert_eq!(player.now_playing(), Some("b".to_string()));
    expect_load(player.run_player(woken()), true, "b");
    player.run_player(PlayerEvent::Loaded { ok: true });
    assert_eq!(player.now_playing(), Some("b".to_string()));
}

#[test]
fn stopping_stops_what_plays() {
    let mut player = Player::new();
    play(&mut player, "a");
    expect_load(player.run_player(woken()), false, "a");
    player.run_player(PlayerEvent::Loaded { ok: true });
    player.stop();
    assert_eq!(player.now_playing(), None);
    assert!(matches!(
        player.run_player(woken()),
        PlayerAction::Halt { stop_first: true }
    ));
    player.stop();
    assert!(matches!(
        player.run_player(woken()),
        PlayerAction::Halt { stop_first: false }
    ));
}

#[test]
fn a_clip_that_cannot_be_loaded_does_not_play() {
    let mut player = Player::new();
    play(&mut player, "a");
    expect_load(player.run_player(woken()), false, "a");
    player.run_player(PlayerEvent::Loaded { ok: false });
    assert_eq!(player.now_playing(), None);
    assert!(matches!(
        player.run_player(PlayerEvent::Woken { run_out: true }),
        PlayerAction::Wait
    ));
}

#[test]
fn commands_come_in_the_order_in_which_they_were_sent() {
    let mut player = Player::new();
    play(&mut player, "a");
    player.stop();
    play(&mut player, "b");
    expect_load(player.run_player(woken()), false, "a");
    player.run_player(PlayerEvent::Loaded { ok: true });
    assert!(matches!(
        player.run_player(woken()),
        PlayerAction::Halt { stop_first: true }
    ));
    assert_eq!(player.now_playing(), None);
    expect_load(player.run_player(woken()), false, "b");
    player.run_player(PlayerEvent::Loaded { ok: true });
    assert_eq!(player.now_playing(), Some("b".to_string()));
}

#[test]
fn a_clip_is_shown_after_stop_and_play_in_a_row() {
    let mut player = Player::new();
    play(&mut player, "a");
    expect_load(player.run_player(woken()), false, "a");
    player.run_player(PlayerEvent::Loaded { ok: true });
    player.stop();
    play(&mut player, "b");
    assert!(matches!(
        player.run_player(woken()),
        PlayerAction::Halt { stop_first: true }
    ));
    expect_load(player.run_player(woken()), false, "b");
    player.run_player(PlayerEvent::Loaded { ok: true });
    assert_eq!(player.now_playing(), Some("b".to_string()));
    assert!(matches!(player.run_player(woken()), PlayerAction::Wait));
    assert_eq!(player.now_playing(), Some("b".to_string()));
    assert!(matches!(
        player.run_player(PlayerEvent::Woken { run_out: true }),
        PlayerAction::Discard
    ));
    assert_eq!(player.now_playing(), None);
}

#[test]
fn a_clip_that_was_given_up_while_loading_is_not_shown() {
    let mut player = Player::new();
    play(&mut player, "a");
    expect_load(player.run_player(woken()), false, "a");
    player.stop();
    player.run_player(PlayerEvent::Loaded { ok: true });
    assert_eq!(player.now_playing(), None);
    assert!(matches!(
        player.run_player(woken()),
        PlayerAction::Halt { stop_first: true }
    ));
    assert_eq!(player.now_playing(), None);
}

#[test]
fn commands_are_taken_before_the_worker_ends() {
    let mut player = Player::new();
    play(&mut player, "a");
    player.stop();
    play(&mut player, "b");
    expect_load(player.run_player(PlayerEvent::Disconnected), false, "a");
    player.run_player(PlayerEvent::Loaded { ok: true });
    assert!(matches!(
        player.run_player(PlayerEvent::Disconnected),
        PlayerAction::Halt { stop_first: true }
    ));
    expect_load(player.run_player(PlayerEvent::Disconnected), false, "b");
    player.run_player(PlayerEvent::Loaded { ok: true });
    assert_eq!(player.now_playing(), Some("b".to_string()));
    assert!(matches!(
        player.run_player(PlayerEvent::Disconnected),
        PlayerAction::Exit
    ));
    assert_eq!(player.now_playing(), None);
}

#[test]
fn without_an_output_nothing_plays() {
    let mut player = Player::new();
    play(&mut player, "a");
    assert!(matches!(
        player.run_player(PlayerEvent::OutputFailed),
        PlayerAction::Exit
    ));
    assert!(!player.has_command());
    assert_eq!(player.now_playing(), None);
    play(&mut player, "b");
    assert!(!player.has_command());
    assert_eq!(player.now_playing(), None);
    player.stop();
    assert!(!player.has_command());
    assert_eq!(player.now_playing(), None);
}

#[test]
fn clearing_shows_nothing() {
    let mut current = Some("a".to_string());
    clear(&mut current);
    assert_eq!(current, None);
    clear(&mut current);
    assert_eq!(current, None);
}
