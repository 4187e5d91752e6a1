use rtetris::patterns::mask_at;
use rtetris::tetromino::type_to_patterns;
use rtetris::tetromino::Tetromino;
use rtetris::tetromino::Type;

const ALL_TYPES: [Type; 7] = [
    Type::I_BLOCK,
    Type::O_BLOCK,
    Type::L_BLOCK,
    Type::J_BLOCK,
    Type::T_BLOCK,
    Type::S_BLOCK,
    Type::Z_BLOCK,
];

fn decode(p: u16) -> Vec<Vec<bool>> {
    (0..4).map(|i| (0..4).map(|j| mask_at(p, i, j)).collect()).collect()
}

fn grid_of(rows: [&str; 4]) -> Vec<Vec<bool>> {
    rows.iter().map(|r| r.chars().map(|c| c == 'X').collect()).collect()
}

#[test]
fn catalog_i_block() {
    let pats = type_to_patterns(Type::I_BLOCK);
    assert_eq!(pats.len(), 2);
    assert_eq!(decode(pats[0]), grid_of(["_X__", "_X__", "_X__", "_X__"]));
    assert_eq!(decode(pats[1]), grid_of(["____", "____", "____", "XXXX"]));
}

#[test]
fn catalog_o_block() {
    let pats = type_to_patterns(Type::O_BLOCK);
    assert_eq!(pats.len(), 1);
    assert_eq!(decode(pats[0]), grid_of(["____", "____", "_XX_", "_XX_"]));
}

#[test]
fn catalog_l_block() {
    let pats = type_to_patterns(Type::L_BLOCK);
    assert_eq!(pats.len(), 4);
    assert_eq!(decode(pats[0]), grid_of(["____", "_X__", "_X__", "_XX_"]));
    assert_eq!(decode(pats[1]), grid_of(["____", "____", "_XXX", "_X__"]));
    assert_eq!(decode(pats[2]), grid_of(["____", "_XX_", "__X_", "__X_"]));
    assert_eq!(decode(pats[3]), grid_of(["____", "____", "___X", "_XXX"]));
}

#[test]
fn catalog_j_block() {
    let pats = type_to_patterns(Type::J_BLOCK);
    assert_eq!(pats.len(), 4);
    assert_eq!(decode(pats[0]), grid_of(["____", "__X_", "__X_", "_XX_"]));
    assert_eq!(decode(pats[1]), grid_of(["____", "____", "XXX_", "__X_"]));
    assert_eq!(decode(pats[2]), grid_of(["____", "_XX_", "_X__", "_X__"]));
    assert_eq!(decode(pats[3]), grid_of(["____", "____", "X___", "XXX_"]));
}

#[test]
fn catalog_t_block() {
    let pats = type_to_patterns(Type::T_BLOCK);
    assert_eq!(pats.len(), 4);
    assert_eq!(decode(pats[0]), grid_of(["____", "____", "__X_", "_XXX"]));
    assert_eq!(decode(pats[1]), grid_of(["____", "__X_", "_XX_", "__X_"]));
    assert_eq!(decode(pats[2]), grid_of(["____", "_XXX", "__X_", "____"]));
    assert_eq!(decode(pats[3]), grid_of(["____", "_X__", "_XX_", "_X__"]));
}

#[test]
fn catalog_s_block() {
    let pats = type_to_patterns(Type::S_BLOCK);
    assert_eq!(pats.len(), 2);
    assert_eq!(decode(pats[0]), grid_of(["____", "____", "_XX_", "XX__"]));
    assert_eq!(decode(pats[1]), grid_of(["____", "_X__", "_XX_", "__X_"]));
}

#[test]
fn catalog_z_block() {
    let pats = type_to_patterns(Type::Z_BLOCK);
    assert_eq!(pats.len(), 2);
    assert_eq!(decode(pats[0]), grid_of(["____", "____", "XX__", "_XX_"]));
    assert_eq!(decode(pats[1]), grid_of(["____", "__X_", "_XX_", "_X__"]));
}

#[test]
fn movement_transforms() {
    let mut t = Tetromino::new(Type::T_BLOCK, 5, 3);
    t.move_down();
    assert_eq!((t.i, t.j), (6, 3));
    t.move_right();
    assert_eq!((t.i, t.j), (6, 4));
    t.move_left();
    assert_eq!((t.i, t.j), (6, 3));
}

#[test]
fn left_clamp_at_wall() {
    let mut t = Tetromino::new(Type::L_BLOCK, 2, 1);
    t.move_left();
    assert_eq!(t.j, 0);
    t.move_left();
    assert_eq!(t.j, 0);
    t.move_left();
    assert_eq!(t.j, 0);
}

#[test]
fn rotation_cycles_each_type() {
    for t_type in ALL_TYPES {
        let n = type_to_patterns(t_type).len();
        let mut t = Tetromino::new(t_type, 0, 0);
        for step in 0..n {
            assert_eq!(t.selected_pattern == 0, step == 0);
            t.rotate_left();
        }
        assert_eq!(t.selected_pattern, 0);
    }
}

#[test]
fn rotation_steps_and_wraps() {
    let mut t = Tetromino::new(Type::L_BLOCK, 0, 0);
    t.rotate_right();
    assert_eq!(t.selected_pattern, 1);
    t.rotate_left();
    assert_eq!(t.selected_pattern, 0);
    t.rotate_left();
    assert_eq!(t.selected_pattern, 3);
    t.rotate_right();
    assert_eq!(t.selected_pattern, 0);
}

#[test]
fn actual_rotation_follows_index() {
    let mut t = Tetromino::new(Type::S_BLOCK, 0, 0);
    let pats = type_to_patterns(Type::S_BLOCK);
    assert_eq!(t.actual_rotation(), pats[0]);
    t.rotate_right();
    assert_eq!(t.actual_rotation(), pats[1]);
}

#[test]
fn random_piece_spawns_at_fixed_anchor() {
    for _ in 0..20 {
        let t = Tetromino::random();
        assert_eq!((t.i, t.j), (2, 2));
        assert_eq!(t.selected_pattern, 0);
        assert!(type_to_patterns(t.t_type).len() >= 1);
    }
}

#[test]
fn null_piece_is_parked_off_grid() {
    let t = Tetromino::null();
    assert_eq!((t.i, t.j), (-100, -100));
    assert_eq!(t.selected_pattern, 0);
}
