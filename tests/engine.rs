use tetris::board::Board;
use tetris::game::GameEvent;
use tetris::keys::{Key, KeyState};
use tetris::pieces::{block_set_content, template_block_set, BlockColor, BlockSet};
use tetris::playing::GameSystem;

fn cells(g: &GameSystem) -> Vec<(usize, usize, BlockColor)> {
    let ctx = g.context();
    let mut out = vec![];
    for y in 0..ctx.blocks.height() {
        for x in 0..ctx.blocks.width() {
            if let Some(c) = ctx.blocks.get(x, y) {
                out.push((x, y, c));
            }
        }
    }
    out
}

fn piece(g: &GameSystem) -> Option<(i32, i32, Vec<(i32, i32, BlockColor)>)> {
    g.context().block_set.as_ref().map(|b| (b.x, b.y, b.content.clone()))
}

fn vertical_i(x: i32, y: i32) -> BlockSet {
    let c = BlockColor::Cyan;
    BlockSet { x, y, content: vec![(0, 1, c), (0, 0, c), (0, -1, c), (0, -2, c)] }
}

#[test]
fn valid_placement_inside_empty_board() {
    let g = GameSystem::new();
    assert!(g.is_valid_placement(&template_block_set(0, 5, 20)));
    assert!(g.is_valid_placement(&template_block_set(1, 0, 0)));
    assert!(g.is_valid_placement(&template_block_set(0, 1, 24)));
}

#[test]
fn valid_placement_rejects_each_edge() {
    let g = GameSystem::new();
    // the I piece spans columns x-1 ..= x+2
    assert!(!g.is_valid_placement(&template_block_set(0, 0, 5)));
    assert!(!g.is_valid_placement(&template_block_set(0, 8, 5)));
    assert!(g.is_valid_placement(&template_block_set(0, 7, 5)));
    // the O piece spans rows y ..= y+1
    assert!(!g.is_valid_placement(&template_block_set(1, 3, -1)));
    assert!(!g.is_valid_placement(&template_block_set(1, 3, 24)));
    assert!(g.is_valid_placement(&template_block_set(1, 3, 23)));
}

#[test]
fn valid_placement_rejects_occupied_cell() {
    let mut g = GameSystem::new();
    assert!(g.set_block(7, 5, BlockColor::Red));
    assert!(!g.is_valid_placement(&template_block_set(0, 5, 5)));
    assert!(g.is_valid_placement(&template_block_set(0, 5, 6)));
    assert!(g.is_valid_placement(&template_block_set(0, 4, 4)));
}

#[test]
fn set_block_out_of_range_is_refused() {
    let mut g = GameSystem::new();
    assert!(!g.set_block(10, 0, BlockColor::Red));
    assert!(!g.set_block(0, 25, BlockColor::Red));
    assert!(cells(&g).is_empty());
}

#[test]
fn set_block_set_refuses_malformed_piece() {
    let mut g = GameSystem::new();
    let c = BlockColor::Red;
    let three = BlockSet { x: 5, y: 5, content: vec![(0, 0, c), (1, 0, c), (2, 0, c)] };
    assert!(!g.set_block_set(three));
    let far = BlockSet { x: 5, y: 5, content: vec![(0, 0, c), (1, 0, c), (2, 0, c), (3, 0, c)] };
    assert!(!g.set_block_set(far));
    let mixed = BlockSet { x: 5, y: 5, content: vec![(0, 0, c), (1, 0, c), (2, 0, c), (0, 1, BlockColor::Blue)] };
    assert!(!g.set_block_set(mixed));
    assert!(piece(&g).is_none());
    assert!(g.set_block_set(template_block_set(6, 5, 5)));
    assert_eq!(piece(&g).unwrap().0, 5);
}

#[test]
fn moves_shift_the_piece() {
    let mut g = GameSystem::new();
    assert!(g.set_block_set(template_block_set(1, 4, 10)));
    g.left_block_set();
    assert_eq!(piece(&g).unwrap().0, 3);
    g.right_block_set();
    g.right_block_set();
    assert_eq!(piece(&g).unwrap().0, 5);
    g.down_block_set();
    assert_eq!(piece(&g).unwrap().1, 9);
}

#[test]
fn moves_stop_at_walls_and_floor() {
    let mut g = GameSystem::new();
    assert!(g.set_block_set(template_block_set(1, 0, 0)));
    g.left_block_set();
    g.down_block_set();
    assert_eq!(piece(&g).unwrap().0, 0);
    assert_eq!(piece(&g).unwrap().1, 0);
    for _ in 0..20 {
        g.right_block_set();
    }
    assert_eq!(piece(&g).unwrap().0, 8);
}

#[test]
fn moves_stop_at_stack() {
    let mut g = GameSystem::new();
    assert!(g.set_block(5, 8, BlockColor::Green));
    assert!(g.set_block_set(template_block_set(1, 4, 10)));
    g.down_block_set();
    assert_eq!(piece(&g).unwrap().1, 9);
    g.down_block_set();
    assert_eq!(piece(&g).unwrap().1, 9);
}

#[test]
fn rotation_turns_offsets() {
    let mut g = GameSystem::new();
    assert!(g.set_block_set(template_block_set(0, 5, 10)));
    g.rotate_block_set();
    let c = BlockColor::Cyan;
    assert_eq!(piece(&g).unwrap(), (5, 10, vec![(0, 1, c), (0, 0, c), (0, -1, c), (0, -2, c)]));
    g.rotate_block_set();
    assert_eq!(piece(&g).unwrap(), (5, 10, vec![(1, 0, c), (0, 0, c), (-1, 0, c), (-2, 0, c)]));
}

fn rotation_blocked_at_wall(shape: usize, to_right: bool, wall_x: i32) {
    let mut g = GameSystem::new();
    assert!(g.set_block_set(template_block_set(shape, 5, 10)));
    g.rotate_block_set();
    for _ in 0..12 {
        if to_right {
            g.right_block_set();
        } else {
            g.left_block_set();
        }
    }
    let before = piece(&g).unwrap();
    assert_eq!(before.0, wall_x);
    g.rotate_block_set();
    assert_eq!(piece(&g).unwrap(), before);
}

#[test]
fn rotation_blocked_at_wall_i() {
    rotation_blocked_at_wall(0, false, 0);
}

#[test]
fn rotation_blocked_at_wall_o() {
    rotation_blocked_at_wall(1, false, 0);
}

#[test]
fn rotation_blocked_at_wall_s() {
    rotation_blocked_at_wall(2, true, 9);
}

#[test]
fn rotation_blocked_at_wall_z() {
    rotation_blocked_at_wall(3, true, 9);
}

#[test]
fn rotation_blocked_at_wall_j() {
    rotation_blocked_at_wall(4, true, 9);
}

#[test]
fn rotation_blocked_at_wall_l() {
    rotation_blocked_at_wall(5, true, 9);
}

#[test]
fn rotation_blocked_at_wall_t() {
    rotation_blocked_at_wall(6, true, 9);
}

#[test]
fn rotation_without_piece_does_nothing() {
    let mut g = GameSystem::new();
    g.rotate_block_set();
    g.left_block_set();
    g.place_block_set();
    assert!(piece(&g).is_none());
    assert!(cells(&g).is_empty());
}

#[test]
fn lock_writes_the_four_cells() {
    let mut g = GameSystem::new();
    assert!(g.set_block_set(template_block_set(1, 3, 0)));
    g.place_block_set();
    assert!(piece(&g).is_none());
    let y = BlockColor::Yellow;
    assert_eq!(cells(&g), vec![(3, 0, y), (4, 0, y), (3, 1, y), (4, 1, y)]);
    assert_eq!(g.context().score, 0);
}

#[test]
fn lock_waits_while_piece_can_fall() {
    let mut g = GameSystem::new();
    assert!(g.set_block_set(template_block_set(1, 3, 5)));
    g.place_block_set();
    assert!(piece(&g).is_some());
    assert!(cells(&g).is_empty());
}

#[test]
fn full_row_cleared_on_lock() {
    let mut g = GameSystem::new();
    for x in 0..9 {
        assert!(g.set_block(x, 5, BlockColor::Red));
    }
    assert!(g.set_block(9, 4, BlockColor::Blue));
    assert!(g.set_block(0, 10, BlockColor::Green));
    // a vertical I whose lowest cell lands in the last column of row 5
    assert!(g.set_block_set(vertical_i(9, 7)));
    g.place_block_set();
    assert!(piece(&g).is_none());
    assert_eq!(g.context().score, 1);
    let c = BlockColor::Cyan;
    assert_eq!(
        cells(&g),
        vec![(9, 4, BlockColor::Blue), (9, 5, c), (9, 6, c), (9, 7, c), (0, 9, BlockColor::Green)]
    );
    for x in 0..10 {
        assert_eq!(g.context().blocks.get(x, 24), None);
    }
}

#[test]
fn four_rows_cleared_at_once() {
    let mut g = GameSystem::new();
    for y in 0..4 {
        for x in 0..9 {
            assert!(g.set_block(x, y, BlockColor::Red));
        }
    }
    assert!(g.set_block(3, 4, BlockColor::Green));
    assert!(g.set_block_set(vertical_i(9, 2)));
    g.place_block_set();
    assert_eq!(g.context().score, 4);
    assert_eq!(cells(&g), vec![(3, 0, BlockColor::Green)]);
}

#[test]
fn two_separate_rows_cleared() {
    let mut g = GameSystem::new();
    for x in 0..9 {
        assert!(g.set_block(x, 0, BlockColor::Red));
        assert!(g.set_block(x, 2, BlockColor::Red));
    }
    assert!(g.set_block(0, 1, BlockColor::Green));
    assert!(g.set_block(0, 3, BlockColor::Blue));
    assert!(g.set_block_set(vertical_i(9, 2)));
    g.place_block_set();
    assert_eq!(g.context().score, 2);
    let c = BlockColor::Cyan;
    assert_eq!(
        cells(&g),
        vec![(0, 0, BlockColor::Green), (9, 0, c), (0, 1, BlockColor::Blue), (9, 1, c)]
    );
}

#[test]
fn erase_without_full_rows_keeps_board() {
    let mut g = GameSystem::new();
    assert!(g.set_block(2, 3, BlockColor::Orange));
    g.erase_block_line();
    assert_eq!(cells(&g), vec![(2, 3, BlockColor::Orange)]);
    assert_eq!(g.context().score, 0);
}

#[test]
fn spawn_places_template_at_spawn_point() {
    let mut g = GameSystem::new();
    g.spawn_block_set(4);
    assert_eq!(piece(&g).unwrap(), (5, 20, block_set_content(4)));
}

#[test]
fn first_tick_spawns_piece() {
    let mut g = GameSystem::new();
    assert_eq!(g.update_with(1000, 2), None);
    assert_eq!(piece(&g).unwrap(), (5, 20, block_set_content(2)));
}

#[test]
fn tick_before_interval_changes_nothing() {
    let mut g = GameSystem::new();
    assert_eq!(g.update_with(1000, 0), None);
    let before = piece(&g);
    assert_eq!(g.update_with(1000, 3), None);
    assert_eq!(g.update_with(1400, 3), None);
    assert_eq!(g.update_with(999, 3), None);
    assert_eq!(piece(&g), before);
    assert_eq!(g.update_with(1401, 3), None);
    assert_eq!(piece(&g).unwrap().1, 19);
    assert_eq!(g.update_with(1801, 3), None);
    assert_eq!(piece(&g).unwrap().1, 19);
    assert_eq!(g.update_with(1802, 3), None);
    assert_eq!(piece(&g).unwrap().1, 18);
}

#[test]
fn tick_locks_resting_piece_and_spawns_next() {
    let mut g = GameSystem::new();
    assert!(g.set_block_set(template_block_set(1, 0, 0)));
    assert_eq!(g.update_with(500, 6), None);
    assert_eq!(cells(&g).len(), 4);
    assert_eq!(piece(&g).unwrap(), (5, 20, block_set_content(6)));
}

#[test]
fn tick_reports_game_over_with_score() {
    let mut g = GameSystem::new();
    for x in 0..9 {
        assert!(g.set_block(x, 0, BlockColor::Red));
    }
    for y in 19..23 {
        for x in 3..8 {
            assert!(g.set_block(x, y, BlockColor::Purple));
        }
    }
    assert!(g.set_block_set(vertical_i(9, 2)));
    assert_eq!(g.update_with(0, 1), Some(GameEvent::End(1)));
}

#[test]
fn random_tick_spawns_a_template() {
    for _ in 0..50 {
        let mut g = GameSystem::new();
        assert_eq!(g.update(0), None);
        let (x, y, content) = piece(&g).unwrap();
        assert_eq!((x, y), (5, 20));
        assert!((0..7).any(|s| block_set_content(s) == content));
    }
}

#[test]
fn key_acts_once_per_press() {
    let mut g = GameSystem::new();
    assert!(g.set_block_set(template_block_set(1, 4, 10)));
    g.input(Key::Left, KeyState::Pressed);
    g.input(Key::Left, KeyState::Pressed);
    assert_eq!(piece(&g).unwrap().0, 3);
    g.input(Key::Left, KeyState::Released);
    g.input(Key::Left, KeyState::Pressed);
    assert_eq!(piece(&g).unwrap().0, 2);
    g.input(Key::Right, KeyState::Pressed);
    assert_eq!(piece(&g).unwrap().0, 3);
    g.input(Key::Down, KeyState::Pressed);
    assert_eq!(piece(&g).unwrap().1, 9);
    g.input(Key::Confirm, KeyState::Pressed);
    assert_eq!(piece(&g).unwrap(), (3, 9, block_set_content(1)));
}

#[test]
fn rotate_key_turns_piece() {
    let mut g = GameSystem::new();
    assert!(g.set_block_set(template_block_set(0, 5, 10)));
    g.input(Key::Rotate, KeyState::Pressed);
    let c = BlockColor::Cyan;
    assert_eq!(piece(&g).unwrap(), (5, 10, vec![(0, 1, c), (0, 0, c), (0, -1, c), (0, -2, c)]));
}

#[test]
fn board_reports_out_of_range_as_occupied() {
    let mut b = Board::new(3, 2);
    assert_eq!((b.width(), b.height()), (3, 2));
    assert!(b.is_occupied(-1, 0));
    assert!(b.is_occupied(3, 0));
    assert!(b.is_occupied(0, 2));
    assert!(!b.is_occupied(2, 1));
    b.set(2, 1, BlockColor::Blue);
    assert!(b.is_occupied(2, 1));
    assert_eq!(b.get(2, 1), Some(BlockColor::Blue));
}

#[test]
fn board_clear_moves_rows_down() {
    let mut b = Board::new(2, 4);
    b.set(0, 0, BlockColor::Red);
    b.set(1, 0, BlockColor::Red);
    b.set(0, 1, BlockColor::Green);
    b.set(0, 2, BlockColor::Blue);
    b.set(1, 2, BlockColor::Blue);
    b.set(1, 3, BlockColor::Cyan);
    assert_eq!(b.clear_full_rows(), 2);
    assert_eq!(b.get(0, 0), Some(BlockColor::Green));
    assert_eq!(b.get(1, 0), None);
    assert_eq!(b.get(0, 1), None);
    assert_eq!(b.get(1, 1), Some(BlockColor::Cyan));
    for y in 2..4 {
        for x in 0..2 {
            assert_eq!(b.get(x, y), None);
        }
    }
}

#[test]
fn board_stamp_writes_piece() {
    let mut b = Board::new(10, 25);
    let p = template_block_set(6, 5, 1);
    assert!(b.fits(&p));
    b.stamp(&p);
    let t = Some(BlockColor::Purple);
    assert_eq!(b.get(4, 0), t);
    assert_eq!(b.get(5, 0), t);
    assert_eq!(b.get(6, 0), t);
    assert_eq!(b.get(5, 1), t);
    assert_eq!(b.get(4, 1), None);
    assert!(!b.fits(&p));
}
