use vara_arkanoid::collision::check_circle_rectangle_collision;
use vara_arkanoid::entities::{Ball, Block, Paddle};
use vara_arkanoid::game::{Events, Game, WallAxis};
use vara_arkanoid::service::{ServiceError, VaraArkanoidProgram, VaraArkanoidService};

fn parts(e: Events) -> (Ball, Paddle, Option<WallAxis>, bool, Option<(i16, i16)>) {
    match e {
        Events::GameStep { ball, paddle, wall_collision, paddle_collision, block_hit } => {
            (ball, paddle, wall_collision, paddle_collision, block_hit)
        }
    }
}

#[test]
fn ball_starts_at_fixed_values() {
    let b = Ball::new();
    assert_eq!((b.x, b.y, b.radius, b.velocity_x, b.velocity_y), (400, 300, 15, 3, 3));
}

#[test]
fn block_has_fixed_size() {
    let b = Block::new(70, 35);
    assert_eq!((b.rect_x1, b.rect_y1, b.rect_x2, b.rect_y2), (70, 35, 100, 65));
}

#[test]
fn paddle_starts_at_fixed_values() {
    let p = Paddle::new();
    assert_eq!((p.x, p.y, p.width, p.speed, p.direction), (375, 550, 400, 5, 1));
}

#[test]
fn paddle_moves_without_flip_inside_arena() {
    let mut p = Paddle::new();
    p.update_position();
    assert_eq!((p.x, p.direction), (380, 1));
}

#[test]
fn paddle_flips_at_right_edge() {
    let mut p = Paddle { x: 395, y: 550, width: 400, speed: 5, direction: 1 };
    p.update_position();
    assert_eq!((p.x, p.direction), (400, -1));
    p.update_position();
    assert_eq!((p.x, p.direction), (395, -1));
}

#[test]
fn paddle_flips_at_left_edge() {
    let mut p = Paddle { x: 5, y: 550, width: 400, speed: 5, direction: -1 };
    p.update_position();
    assert_eq!((p.x, p.direction), (0, 1));
    p.update_position();
    assert_eq!((p.x, p.direction), (5, 1));
}

#[test]
fn paddle_flips_past_the_edge() {
    let mut p = Paddle { x: 2, y: 550, width: 400, speed: 5, direction: -1 };
    p.update_position();
    assert_eq!((p.x, p.direction), (-3, 1));
}

#[test]
fn new_game_has_full_grid() {
    let g = Game::new();
    assert_eq!(g.blocks.len(), 210);
    let first = g.blocks[0];
    assert_eq!((first.rect_x1, first.rect_y1, first.rect_x2, first.rect_y2), (0, 0, 30, 30));
    let second = g.blocks[1];
    assert_eq!((second.rect_x1, second.rect_y1), (35, 0));
    let next_row = g.blocks[30];
    assert_eq!((next_row.rect_x1, next_row.rect_y1), (0, 35));
    let last = g.blocks[209];
    assert_eq!((last.rect_x1, last.rect_y1, last.rect_x2, last.rect_y2), (1015, 210, 1045, 240));
}

#[test]
fn collision_miss() {
    assert_eq!(check_circle_rectangle_collision(100, 100, 15, 0, 0, 30, 30), None);
}

#[test]
fn collision_on_vertical_face() {
    assert_eq!(check_circle_rectangle_collision(40, 15, 15, 0, 0, 30, 30), Some((true, false)));
}

#[test]
fn collision_on_horizontal_face() {
    assert_eq!(check_circle_rectangle_collision(15, 44, 15, 0, 0, 30, 30), Some((false, true)));
}

#[test]
fn collision_at_corner() {
    // distance squared 9 + 16 = 25 <= 25
    assert_eq!(check_circle_rectangle_collision(33, 34, 5, 0, 0, 30, 30), Some((true, true)));
    // distance squared 9 + 25 = 34 > 25
    assert_eq!(check_circle_rectangle_collision(33, 35, 5, 0, 0, 30, 30), None);
}

#[test]
fn collision_centre_inside_rectangle() {
    assert_eq!(check_circle_rectangle_collision(10, 12, 5, 0, 0, 30, 30), Some((false, false)));
}

#[test]
fn collision_unchanged_by_translation() {
    let cases = [(33, 34, 5), (33, 35, 5), (40, 15, 15), (15, 44, 15), (10, 12, 5), (100, 100, 15)];
    for (cx, cy, r) in cases {
        let base = check_circle_rectangle_collision(cx, cy, r, 0, 0, 30, 30);
        let moved = check_circle_rectangle_collision(cx + 217, cy - 91, r, 217, -91, 247, -61);
        assert_eq!(base, moved);
    }
}

#[test]
fn first_tick_from_new_game() {
    let mut g = Game::new();
    let (ball, paddle, wall, hit_paddle, block) = parts(g.update_game());
    assert_eq!((ball.x, ball.y), (403, 303));
    assert_eq!((ball.velocity_x, ball.velocity_y), (3, 3));
    assert_eq!(paddle.x, 380);
    assert_eq!(wall, None);
    assert!(!hit_paddle);
    assert_eq!(block, None);
    assert_eq!(g.blocks.len(), 210);
}

#[test]
fn left_wall_reverses_horizontal_velocity() {
    let mut g = Game::new();
    g.ball = Ball { x: 5, y: 300, radius: 15, velocity_x: -3, velocity_y: 0 };
    let (ball, _, wall, hit_paddle, block) = parts(g.update_game());
    assert_eq!((ball.x, ball.y), (2, 300));
    assert_eq!(ball.velocity_x, 3);
    assert_eq!(wall, Some(WallAxis::Vertical));
    assert!(!hit_paddle);
    assert_eq!(block, None);
}

#[test]
fn corner_reports_horizontal_wall() {
    let mut g = Game::new();
    g.ball = Ball { x: 790, y: 590, radius: 15, velocity_x: 3, velocity_y: 3 };
    let (ball, _, wall, _, _) = parts(g.update_game());
    assert_eq!((ball.x, ball.y), (793, 593));
    assert_eq!(ball.velocity_x, -3);
    assert_eq!(wall, Some(WallAxis::Horizontal));
}

#[test]
fn ball_bounces_off_paddle() {
    let mut g = Game::new();
    g.ball = Ball { x: 500, y: 535, radius: 15, velocity_x: 3, velocity_y: 3 };
    let (ball, paddle, wall, hit_paddle, _) = parts(g.update_game());
    assert_eq!((ball.x, ball.y), (503, 538));
    assert_eq!(paddle.x, 380);
    assert_eq!(ball.velocity_y, -3);
    assert_eq!(wall, None);
    assert!(hit_paddle);
}

#[test]
fn first_touched_block_is_removed() {
    let mut g = Game::new();
    // After the move the ball touches the bottom faces of the blocks at
    // (35, 210) and (70, 210); only the first of them goes.
    g.ball = Ball { x: 67, y: 257, radius: 15, velocity_x: 0, velocity_y: -3 };
    let (ball, _, wall, _, block) = parts(g.update_game());
    assert_eq!((ball.x, ball.y), (67, 254));
    assert_eq!(block, Some((35, 210)));
    assert_eq!(ball.velocity_y, 3);
    assert_eq!(ball.velocity_x, 0);
    assert_eq!(wall, None);
    assert_eq!(g.blocks.len(), 209);
    assert!(!g.blocks.iter().any(|b| b.rect_x1 == 35 && b.rect_y1 == 210));
    assert!(g.blocks.iter().any(|b| b.rect_x1 == 70 && b.rect_y1 == 210));
}

#[test]
fn block_side_reverses_horizontal_velocity() {
    let mut g = Game::new();
    // Right of the block at (0, 210), level with its middle.
    g.ball = Ball { x: 48, y: 225, radius: 15, velocity_x: -3, velocity_y: 0 };
    let (ball, _, _, _, block) = parts(g.update_game());
    assert_eq!(ball.x, 45);
    assert_eq!(block, Some((0, 210)));
    assert_eq!(ball.velocity_x, 3);
    assert_eq!(ball.velocity_y, 0);
}

#[test]
fn thousand_ticks_from_new_game() {
    let mut service = VaraArkanoidService::init();
    assert!(service.ready_for(1000));
    let mut watcher = Game::new();
    let mut count = watcher.blocks.len();
    let events = service.simulate_game(1000).unwrap();
    assert_eq!(events.len(), 1000);
    let mut removed = 0;
    for e in &events {
        let expected = watcher.update_game();
        assert_eq!(*e, expected);
        assert!(watcher.blocks.len() <= count);
        assert!(watcher.blocks.len() <= 210);
        count = watcher.blocks.len();
        if let Events::GameStep { block_hit: Some(_), .. } = e {
            removed += 1;
        }
    }
    let game = service.get().unwrap();
    assert_eq!(game.blocks.len(), 210 - removed);
    assert_eq!(game.blocks.len(), watcher.blocks.len());
}

#[test]
fn destroyed_block_never_returns() {
    let mut g = Game::new();
    let mut gone: Vec<(i16, i16)> = Vec::new();
    for _ in 0..1000 {
        let (_, _, _, _, block) = parts(g.update_game());
        if let Some(key) = block {
            gone.push(key);
        }
        for key in &gone {
            assert!(!g.blocks.iter().any(|b| (b.rect_x1, b.rect_y1) == *key));
        }
    }
}

#[test]
fn zero_steps_is_no_op() {
    let mut service = VaraArkanoidService::init();
    let events = service.simulate_game(0).unwrap();
    assert!(events.is_empty());
    let game = service.get().unwrap();
    assert_eq!((game.ball.x, game.ball.y), (400, 300));
}

#[test]
fn uninitialised_service_reports_error() {
    let mut service = VaraArkanoidService::new();
    assert!(service.ready_for(5));
    assert_eq!(service.simulate_game(5).unwrap_err(), ServiceError::NotInitialized);
    assert_eq!(service.get().err(), Some(ServiceError::NotInitialized));
    assert_eq!(service.get_mut().err(), Some(ServiceError::NotInitialized));
}

#[test]
fn get_mut_changes_the_held_game() {
    let mut service = VaraArkanoidService::init();
    service.get_mut().unwrap().ball.velocity_x = -3;
    assert_eq!(service.get().unwrap().ball.velocity_x, -3);
}

#[test]
fn too_many_steps_are_not_ready() {
    let service = VaraArkanoidService::init();
    assert!(service.ready_for(9000));
    assert!(!service.ready_for(20000));
}

#[test]
fn program_hands_out_initialised_service() {
    let mut program = VaraArkanoidProgram::new();
    let service = program.vara_arkanoid();
    let events = service.simulate_game(3).unwrap();
    assert_eq!(events.len(), 3);
    let (ball, paddle, _, _, _) = parts(events[2]);
    assert_eq!((ball.x, ball.y, paddle.x), (409, 309, 390));
}
