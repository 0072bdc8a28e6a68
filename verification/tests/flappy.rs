use corekit::flappy::{
    menu_choice, Game, GameMode, Key, MenuChoice, Obstacle, Player, GAP_BELOW, GAP_FROM,
    SCREEN_HEIGHT, SCREEN_WIDTH,
};

#[test]
fn obstacles_are_drawn_within_their_rows() {
    let mut seen = std::collections::BTreeSet::new();
    for _ in 0..300 {
        let o = Obstacle::new(SCREEN_WIDTH, 0);
        assert_eq!(o.x, 80);
        assert_eq!(o.size, 20);
        assert!(GAP_FROM <= o.gap_y && o.gap_y < GAP_BELOW);
        seen.insert(o.gap_y);
    }
    assert!(seen.len() > 1);
}

#[test]
fn gap_is_kept_on_screen_and_shrinks_with_the_score() {
    assert_eq!(Obstacle::with_gap(7, 0, 25), Obstacle { x: 7, gap_y: 25, size: 20 });
    assert_eq!(Obstacle::with_gap(7, 0, -5).gap_y, 0);
    assert_eq!(Obstacle::with_gap(7, 0, 60).gap_y, SCREEN_HEIGHT);
    assert_eq!(Obstacle::with_gap(7, 0, 50).gap_y, 50);
    assert_eq!(Obstacle::with_gap(7, 17, 25).size, 3);
    assert_eq!(Obstacle::with_gap(7, 18, 25).size, 2);
    assert_eq!(Obstacle::with_gap(7, 19, 25).size, 2);
    assert_eq!(Obstacle::with_gap(7, i32::MAX, 25).size, 2);
    assert_eq!(Obstacle::with_gap(7, -5, 25).size, 25);
    assert_eq!(Obstacle::new(3, 100).size, 2);
}

#[test]
fn hitting_the_wall() {
    let o = Obstacle { x: 10, gap_y: 20, size: 7 };
    assert_eq!(o.top(), 17);
    assert_eq!(o.bottom(), 23);
    assert!(o.hit_obstacle(&Player::new(10, 16)));
    assert!(!o.hit_obstacle(&Player::new(10, 17)));
    assert!(!o.hit_obstacle(&Player::new(10, 23)));
    assert!(o.hit_obstacle(&Player::new(10, 24)));
    assert!(!o.hit_obstacle(&Player::new(9, 0)));
    assert!(!o.hit_obstacle(&Player::new(11, 49)));
    assert!(o.is_wall(0));
    assert!(o.is_wall(16));
    assert!(!o.is_wall(17));
    assert!(!o.is_wall(22));
    assert!(o.is_wall(23));
    assert!(o.is_wall(49));
    assert!(!o.is_wall(50));
    assert!(!o.is_wall(-1));
    assert_eq!(o.screen_x(4), Some(6));
    assert_eq!(Obstacle { x: i32::MIN, gap_y: 0, size: 2 }.screen_x(1), None);
    let odd = Obstacle { x: 0, gap_y: 0, size: -3 };
    assert_eq!(odd.top(), 1);
    assert_eq!(odd.bottom(), -1);
    let wide = Obstacle { x: 0, gap_y: i32::MAX, size: i32::MAX };
    assert_eq!(wide.bottom(), i32::MAX as i64 + (i32::MAX / 2) as i64);
    assert!(!wide.hit_obstacle(&Player::new(0, i32::MAX)));
}

#[test]
fn player_falls_and_stays_below_the_top() {
    let mut p = Player::new(5, 25);
    p.fall(2);
    assert_eq!(p, Player { x: 6, y: 27 });
    p.fall(-30);
    assert_eq!(p, Player { x: 7, y: 0 });
    p.fall(0);
    assert_eq!(p, Player { x: 8, y: 0 });
}

#[test]
fn menu_keys() {
    assert_eq!(menu_choice(Some(Key::P)), MenuChoice::Play);
    assert_eq!(menu_choice(Some(Key::Q)), MenuChoice::Quit);
    assert_eq!(menu_choice(Some(Key::Space)), MenuChoice::Stay);
    assert_eq!(menu_choice(Some(Key::Other)), MenuChoice::Stay);
    assert_eq!(menu_choice(None), MenuChoice::Stay);
}

#[test]
fn a_game_begins_in_the_menu_and_restarts_playing() {
    let mut g = Game::new();
    assert_eq!(g.mode, GameMode::Menu);
    assert_eq!(g.player, Player { x: 5, y: 25 });
    assert_eq!(g.score, 0);
    assert_eq!(g.obstacle.x, SCREEN_WIDTH);
    assert_eq!(g.obstacle.size, 20);
    g.score = 9;
    g.player = Player::new(400, 3);
    g.mode = GameMode::End;
    g.restart();
    assert_eq!(g.mode, GameMode::Playing);
    assert_eq!(g.player, Player { x: 5, y: 25 });
    assert_eq!(g.score, 0);
    assert_eq!(g.obstacle.x, SCREEN_WIDTH);
    assert!(GAP_FROM <= g.obstacle.gap_y && g.obstacle.gap_y < GAP_BELOW);
}

#[test]
fn passing_an_obstacle_scores() {
    let mut g = Game {
        player: Player::new(81, 25),
        mode: GameMode::Playing,
        obstacle: Obstacle { x: 80, gap_y: 25, size: 20 },
        score: 3,
    };
    g.settle();
    assert_eq!(g.score, 4);
    assert_eq!(g.obstacle.x, 161);
    assert_eq!(g.obstacle.size, 16);
    assert!(GAP_FROM <= g.obstacle.gap_y && g.obstacle.gap_y < GAP_BELOW);
    assert_eq!(g.mode, GameMode::Playing);
    assert_eq!(g.player, Player { x: 81, y: 25 });
    let before = g;
    g.settle();
    assert_eq!(g, before);
    g.score_with_gap(-4);
    assert_eq!(g.score, 5);
    assert_eq!(g.obstacle, Obstacle { x: 161, gap_y: 0, size: 15 });
}

#[test]
fn the_game_ends_when_it_is_lost() {
    let playing = Game {
        player: Player::new(80, 25),
        mode: GameMode::Playing,
        obstacle: Obstacle { x: 80, gap_y: 25, size: 20 },
        score: 0,
    };
    let mut g = playing;
    g.settle();
    assert_eq!(g, playing);
    g.player.y = 14;
    g.settle();
    assert_eq!(g.mode, GameMode::End);
    let mut g = playing;
    g.player = Player::new(3, 51);
    g.judge();
    assert_eq!(g.mode, GameMode::End);
    let mut g = playing;
    g.player = Player::new(3, 50);
    g.judge();
    assert_eq!(g.mode, GameMode::Playing);
}
