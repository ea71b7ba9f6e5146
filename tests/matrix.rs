use game_of_life::creature::Creature;
use game_of_life::matrix::{GridError, Matrix};

#[test]
fn test_update_matrix() {
    let mut matrix = Matrix {
        size: 2,
        grid: vec![
            vec![Creature::new(0, 0, 2), Creature::new(0, 1, 2)],
            vec![Creature::new(1, 0, 2), Creature::new(1, 1, 1)],
        ],
    };
    let ref_mat: Matrix = matrix.clone();
    assert_eq!(matrix.update_matrix(&ref_mat), true);
    assert_eq!(
        matrix.grid,
        vec![
            vec![Creature::new(0, 0, 2), Creature::new(0, 1, 2)],
            vec![Creature::new(1, 0, 2), Creature::new(1, 1, 2)],
        ]
    );
}

fn states(m: &Matrix) -> Vec<Vec<bool>> {
    m.grid.iter().map(|r| r.iter().map(|c| c.is_alive()).collect()).collect()
}

#[test]
fn two_by_two_fills_in() {
    let mut m = Matrix::from_seeds(&vec![vec![0, 2], vec![0, 3]]).unwrap();
    assert_eq!(states(&m), vec![vec![true, true], vec![true, false]]);
    let snapshot = m.clone();
    assert!(m.update_matrix(&snapshot));
    assert_eq!(states(&m), vec![vec![true, true], vec![true, true]]);
    assert_eq!(m.render(), vec!["[1][1]".to_string(), "[1][1]".to_string()]);
}

#[test]
fn dead_board_reports_extinction() {
    let mut m = Matrix::from_seeds(&vec![vec![1, 3, 4], vec![1, 1, 1], vec![4, 4, 3]]).unwrap();
    let snapshot = m.clone();
    assert!(!m.update_matrix(&snapshot));
    assert_eq!(states(&m), vec![vec![false; 3]; 3]);
}

#[test]
fn lone_cell_dies_out() {
    let mut m = Matrix::from_seeds(&vec![vec![1, 1, 1], vec![1, 0, 1], vec![1, 1, 1]]).unwrap();
    let snapshot = m.clone();
    assert!(!m.update_matrix(&snapshot));
}

#[test]
fn blinker_flips() {
    let mut m = Matrix::from_seeds(&vec![vec![1, 0, 1], vec![1, 0, 1], vec![1, 0, 1]]).unwrap();
    let snapshot = m.clone();
    assert!(m.update_matrix(&snapshot));
    assert_eq!(
        states(&m),
        vec![vec![false, false, false], vec![true, true, true], vec![false, false, false]]
    );
    let snapshot = m.clone();
    assert!(m.update_matrix(&snapshot));
    assert_eq!(
        states(&m),
        vec![vec![false, true, false], vec![false, true, false], vec![false, true, false]]
    );
}

#[test]
fn update_reads_only_the_snapshot() {
    let mut m = Matrix::from_seeds(&vec![vec![1, 1], vec![1, 1]]).unwrap();
    let snapshot = Matrix::from_seeds(&vec![vec![0, 0], vec![0, 1]]).unwrap();
    assert!(m.update_matrix(&snapshot));
    assert_eq!(states(&m), vec![vec![false, false], vec![false, true]]);
    assert_eq!(m.grid[1][0], Creature::new(1, 0, 1));
}

#[test]
fn dead_board_renders_zeros() {
    for n in 1..5usize {
        let m = Matrix::from_seeds(&vec![vec![1i8; n]; n]).unwrap();
        let lines = m.render();
        assert_eq!(lines.len(), n);
        for line in lines {
            assert_eq!(line, "[0]".repeat(n));
        }
    }
}

#[test]
fn render_rows_in_order() {
    let m = Matrix::from_seeds(&vec![vec![0, 1], vec![3, 2]]).unwrap();
    assert_eq!(m.render(), vec!["[1][0]".to_string(), "[0][1]".to_string()]);
}

#[test]
fn from_seeds_rejects_bad_shapes() {
    assert_eq!(Matrix::from_seeds(&vec![]), Err(GridError::ZeroSize));
    assert_eq!(Matrix::from_seeds(&vec![vec![0, 1]]), Err(GridError::NotSquare));
    assert_eq!(Matrix::from_seeds(&vec![vec![0, 1], vec![2]]), Err(GridError::NotSquare));
}

#[test]
fn from_seeds_places_cells() {
    let m = Matrix::from_seeds(&vec![vec![2]]).unwrap();
    assert_eq!(m.size, 1);
    assert_eq!(m.grid, vec![vec![Creature::new(0, 0, 0)]]);
}

#[test]
fn new_rejects_zero_size() {
    assert_eq!(Matrix::new(0), Err(GridError::ZeroSize));
}

#[test]
fn new_builds_square_board() {
    let m = Matrix::new(6).unwrap();
    assert_eq!(m.size, 6);
    assert_eq!(m.grid.len(), 6);
    for (x, row) in m.grid.iter().enumerate() {
        assert_eq!(row.len(), 6);
        for (y, c) in row.iter().enumerate() {
            assert_eq!((c.x, c.y), (x, y));
        }
    }
    for line in m.render() {
        assert_eq!(line.len(), 18);
        assert!(line.split(']').filter(|s| !s.is_empty()).all(|s| s == "[0" || s == "[1"));
    }
}
