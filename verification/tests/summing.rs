use exercises::sums::{form_sum, sum, sum_list};

#[test]
fn test_sum() {
    assert_eq!(sum(1, 3), 4)
}

#[test]
fn sum_test() {
    assert_eq!(sum(1, 2), 3)
}

#[test]
fn sum_of_zeroes() {
    assert_eq!(sum(0, 0), 0)
}

#[test]
fn sum_list_folds_all_entries() {
    assert_eq!(sum_list(&vec![1, 2, 3]), 6);
    assert_eq!(sum_list(&vec![42]), 42);
}

#[test]
fn form_sum_rejects_a_zero_field() {
    assert_eq!(form_sum(0, 5), None);
    assert_eq!(form_sum(5, 0), None);
    assert_eq!(form_sum(0, 0), None);
}

#[test]
fn form_sum_adds_nonzero_fields() {
    assert_eq!(form_sum(1, 2), Some(3));
}
