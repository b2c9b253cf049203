use book_exercises::statistics::{
    calculate_median, calculate_median_and_mode, calculate_mode, Median,
};

fn sorted(mut values: Vec<i32>) -> Vec<i32> {
    values.sort();
    values
}

#[test]
fn median_of_an_odd_number_of_values() {
    let v1 = vec![1, 2, 3, 4, 5];
    assert_eq!(calculate_median(&v1), Median { doubled: 6 });
    assert_eq!(calculate_median(&v1).doubled as f64 / 2.0, 3.0);
    assert_eq!(calculate_median(&vec![7]), Median { doubled: 14 });
}

#[test]
fn median_of_an_even_number_of_values() {
    let v2 = vec![1, 2, 3, 4, 5, 6, 7, 8];
    assert_eq!(calculate_median(&v2), Median { doubled: 9 });
    assert_eq!(calculate_median(&v2).doubled as f64 / 2.0, 4.5);
    assert_eq!(calculate_median(&vec![-3, 4]), Median { doubled: 1 });
}

#[test]
fn median_does_not_overflow() {
    assert_eq!(
        calculate_median(&vec![i32::MAX, i32::MAX]),
        Median { doubled: 2 * (i32::MAX as i64) }
    );
    assert_eq!(calculate_median(&vec![i32::MIN]), Median { doubled: 2 * (i32::MIN as i64) });
}

#[test]
fn modes_are_the_values_that_occur_most_often() {
    assert_eq!(sorted(calculate_mode(&vec![1, 2, 3, 4, 5])), [1, 2, 3, 4, 5]);
    assert_eq!(sorted(calculate_mode(&vec![4, 5, 6, 7, 8, 8])), [8]);
    assert_eq!(sorted(calculate_mode(&vec![9, 9, 10, 10, 10, 11, 11, 11, 12])), [10, 11]);
}

#[test]
fn modes_of_lists_in_any_order() {
    assert_eq!(sorted(calculate_mode(&vec![3, 1, 3, 2, 1, 3])), [3]);
    assert_eq!(sorted(calculate_mode(&vec![2, 1, 2, 1])), [1, 2]);
    assert_eq!(calculate_mode(&vec![]), Vec::<i32>::new());
    assert_eq!(calculate_mode(&vec![5]), [5]);
}

#[test]
fn median_and_mode_sort_the_list() {
    let mut values = vec![5, 3, 1, 3, 2];
    let (median, mode) = calculate_median_and_mode(&mut values);
    assert_eq!(values, [1, 2, 3, 3, 5]);
    assert_eq!(median, Median { doubled: 6 });
    assert_eq!(mode, [3]);

    let mut even = vec![4, 1, 3, 2];
    let (median, mode) = calculate_median_and_mode(&mut even);
    assert_eq!(even, [1, 2, 3, 4]);
    assert_eq!(median, Median { doubled: 5 });
    assert_eq!(sorted(mode), [1, 2, 3, 4]);
}
