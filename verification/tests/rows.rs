use tilemap_codegen::rows::split_rows;

fn cut(count: u32, width: Option<u32>) -> Vec<Vec<u32>> {
    let items: Vec<u32> = (0..count).collect();
    split_rows(&items, width).into_iter().map(|row| row.to_vec()).collect()
}

#[test]
fn rows_of_two() {
    assert_eq!(cut(5, Some(2)), vec![vec![0, 1], vec![2, 3], vec![4]]);
}

#[test]
fn rows_that_divide_evenly() {
    assert_eq!(cut(6, Some(3)), vec![vec![0, 1, 2], vec![3, 4, 5]]);
}

#[test]
fn width_larger_than_the_items() {
    assert_eq!(cut(3, Some(8)), vec![vec![0, 1, 2]]);
    assert_eq!(cut(3, Some(u32::MAX)), vec![vec![0, 1, 2]]);
}

#[test]
fn width_of_one() {
    assert_eq!(cut(3, Some(1)), vec![vec![0], vec![1], vec![2]]);
}

#[test]
fn no_items_give_no_rows() {
    assert_eq!(cut(0, Some(3)), Vec::<Vec<u32>>::new());
}

#[test]
fn no_width_gives_one_row() {
    assert_eq!(cut(4, None), vec![vec![0, 1, 2, 3]]);
    assert_eq!(cut(0, None), vec![Vec::<u32>::new()]);
}

#[test]
fn rows_put_together_are_the_items() {
    for count in 0..40u32 {
        for width in 1..9u32 {
            let rows = cut(count, Some(width));
            assert_eq!(rows.len() as u32, count.div_ceil(width));
            for (i, row) in rows.iter().enumerate() {
                if i + 1 < rows.len() {
                    assert_eq!(row.len() as u32, width);
                } else {
                    assert!(!row.is_empty() && row.len() as u32 <= width);
                }
            }
            let together: Vec<u32> = rows.into_iter().flatten().collect();
            assert_eq!(together, (0..count).collect::<Vec<u32>>());
        }
    }
}
