use libd2d::{split_mission_area, Grid};
use ndarray::Array2;

fn grid(array: Array2<u32>) -> Grid {
    let (rows, cols) = array.dim();
    Grid::from_shape_vec(rows, cols, array.iter().cloned().collect()).unwrap()
}

fn array(grid: &Grid) -> Array2<u32> {
    let cells: Vec<u32> = grid.indexed_cells().into_iter().map(|(_, cell)| cell).collect();
    Array2::from_shape_vec((grid.nrows(), grid.ncols()), cells).unwrap()
}

fn numbered(rows: usize, cols: usize) -> Array2<u32> {
    Array2::from_shape_fn((rows, cols), |(i, j)| (i * cols + j + 1) as u32)
}

/// Puts every part back at its offset, and checks that no cell is written
/// twice and none is left out.
fn reassembled(parts: &[([i32; 2], Grid)], rows: usize, cols: usize) -> Array2<u32> {
    let mut area = Array2::<u32>::zeros((rows, cols));
    let mut written = Array2::<u32>::zeros((rows, cols));
    for (origin, part) in parts {
        for ((i, j), cell) in part.indexed_cells() {
            let at = [origin[0] as usize + i, origin[1] as usize + j];
            area[at] = cell;
            written[at] += 1;
        }
    }
    assert!(written.iter().all(|&times| times == 1));
    area
}

#[test]
fn split_mission_area_test() {
    let arr = Array2::<u32>::zeros((12, 4));
    let arr_res = Array2::<u32>::zeros((3, 4));
    let results = vec![
        ([0i32, 0], grid(arr_res.clone())),
        ([3, 0], grid(arr_res.clone())),
        ([6, 0], grid(arr_res.clone())),
        ([9, 0], grid(arr_res.clone())),
    ];
    let splits = split_mission_area(grid(arr), 4);
    assert_eq!(results, splits);

    let arr = Array2::<u32>::zeros((7, 18));
    let arr_res = Array2::<u32>::zeros((7, 4));
    let arr_res_2 = Array2::<u32>::zeros((7, 6));
    let results = vec![
        ([0i32, 0], grid(arr_res.clone())),
        ([0, 4], grid(arr_res.clone())),
        ([0, 8], grid(arr_res.clone())),
        ([0, 12], grid(arr_res_2.clone())),
    ];
    let splits = split_mission_area(grid(arr), 4);
    assert_eq!(results, splits);
}

#[test]
fn split_keeps_the_cells_of_each_chunk() {
    let area = numbered(5, 3);
    let parts = split_mission_area(grid(area.clone()), 2);
    assert_eq!(parts.len(), 2);
    assert_eq!(parts[0].0, [0, 0]);
    assert_eq!(parts[1].0, [2, 0]);
    assert_eq!(
        array(&parts[0].1),
        Array2::from_shape_vec((2, 3), vec![1, 2, 3, 4, 5, 6]).unwrap()
    );
    assert_eq!(
        array(&parts[1].1),
        Array2::from_shape_vec((3, 3), vec![7, 8, 9, 10, 11, 12, 13, 14, 15]).unwrap()
    );
}

#[test]
fn split_along_columns_keeps_the_cells_of_each_chunk() {
    let area = numbered(2, 5);
    let parts = split_mission_area(grid(area), 2);
    assert_eq!(parts.len(), 2);
    assert_eq!(parts[0].0, [0, 0]);
    assert_eq!(parts[1].0, [0, 2]);
    assert_eq!(array(&parts[0].1), Array2::from_shape_vec((2, 2), vec![1, 2, 6, 7]).unwrap());
    assert_eq!(
        array(&parts[1].1),
        Array2::from_shape_vec((2, 3), vec![3, 4, 5, 8, 9, 10]).unwrap()
    );
}

#[test]
fn split_for_no_minion_or_one_returns_the_whole_area() {
    for count in [0usize, 1] {
        let area = numbered(4, 6);
        let parts = split_mission_area(grid(area.clone()), count);
        assert_eq!(parts.len(), 1);
        assert_eq!(parts[0].0, [0, 0]);
        assert_eq!(array(&parts[0].1), area);
    }
}

#[test]
fn split_count_is_the_number_of_minions() {
    for count in 1usize..=9 {
        let parts = split_mission_area(grid(numbered(7, 5)), count);
        assert_eq!(parts.len(), count);
    }
}

#[test]
fn split_covers_the_area_exactly_once() {
    for (rows, cols) in [(12usize, 12usize), (7, 18), (18, 7), (1, 1), (3, 10), (10, 3), (5, 5)] {
        for count in 0usize..=13 {
            let area = numbered(rows, cols);
            let parts = split_mission_area(grid(area.clone()), count);
            assert_eq!(reassembled(&parts, rows, cols), area);
        }
    }
}

#[test]
fn split_sizes_differ_only_in_the_last_chunk() {
    let parts = split_mission_area(grid(numbered(23, 4)), 5);
    let lengths: Vec<usize> = parts.iter().map(|(_, part)| part.nrows()).collect();
    assert_eq!(lengths, vec![4, 4, 4, 4, 7]);
    assert!(parts.iter().all(|(_, part)| part.ncols() == 4));
    let origins: Vec<[i32; 2]> = parts.iter().map(|(origin, _)| *origin).collect();
    assert_eq!(origins, vec![[0, 0], [4, 0], [8, 0], [12, 0], [16, 0]]);
}

#[test]
fn split_with_a_remainder_larger_than_a_chunk() {
    // 11 = 4 * 2 + 3: the last chunk is longer than two of the others.
    let parts = split_mission_area(grid(numbered(3, 11)), 4);
    let widths: Vec<usize> = parts.iter().map(|(_, part)| part.ncols()).collect();
    assert_eq!(widths, vec![2, 2, 2, 5]);
    assert!(parts.iter().all(|(_, part)| part.nrows() == 3));
    let origins: Vec<[i32; 2]> = parts.iter().map(|(origin, _)| *origin).collect();
    assert_eq!(origins, vec![[0, 0], [0, 2], [0, 4], [0, 6]]);
}

#[test]
fn split_of_a_square_area_cuts_the_rows() {
    let parts = split_mission_area(grid(numbered(6, 6)), 3);
    let origins: Vec<[i32; 2]> = parts.iter().map(|(origin, _)| *origin).collect();
    assert_eq!(origins, vec![[0, 0], [2, 0], [4, 0]]);
    assert!(parts.iter().all(|(_, part)| part.nrows() == 2 && part.ncols() == 6));
}

#[test]
fn split_among_more_minions_than_rows() {
    let area = numbered(3, 2);
    let parts = split_mission_area(grid(area.clone()), 5);
    assert_eq!(parts.len(), 5);
    for (origin, part) in &parts[..4] {
        assert_eq!(*origin, [0, 0]);
        assert_eq!(part.nrows(), 0);
        assert_eq!(part.ncols(), 2);
    }
    assert_eq!(parts[4].0, [0, 0]);
    assert_eq!(array(&parts[4].1), area);
}
