use exercises::anagram::anagram;
use exercises::change::non_constructible_change;
use exercises::find_largest::find_largest;
use exercises::fizzbuzz::fizzbuzz;
use exercises::squares::sorted_squared_array;
use exercises::subsequence::validate_subsequence;
use exercises::tournament::tournament_winner;
use exercises::two_sum::two_number_sum;

#[test]
fn anagram_works() {
    assert_eq!(anagram("anita lava la tina"), true)
}

#[test]
fn anagram_empty_phrase() {
    assert_eq!(anagram(""), true)
}

#[test]
fn anagram_spaces_only() {
    assert_eq!(anagram("   "), true)
}

#[test]
fn anagram_rejects_plain_word() {
    assert_eq!(anagram("ab"), false)
}

#[test]
fn find_largest_should_throw_error_if_list_is_empty() {
    let list: Vec<isize> = vec![];
    let result = find_largest(list);

    println!("Hola, {:?}", result);

    assert!(result.is_err())
}

#[test]
fn find_largest_should_work() {
    let list = vec![1, 2, 3, 4];
    let result = find_largest(list).unwrap();

    assert_eq!(4, result)
}

#[test]
fn find_largest_should_work_with_negatives() {
    let list = vec![0, -10, 4, 100, 3, 2, 1];
    let result = find_largest(list).unwrap();

    assert_eq!(100, result)
}

#[test]
fn find_largest_with_duplicates() {
    let list = vec![7, 7, 7];
    assert_eq!(find_largest(list).unwrap(), 7)
}

#[test]
fn fizzbuzz_works() {
    assert_eq!(fizzbuzz(3), "fizz");
    assert_eq!(fizzbuzz(5), "buzz");
    assert_eq!(fizzbuzz(15), "fizzbuzz");
    assert_eq!(fizzbuzz(1), "1");
}

#[test]
fn fizzbuzz_renders_longer_numbers() {
    assert_eq!(fizzbuzz(7), "7");
    assert_eq!(fizzbuzz(98), "98");
    assert_eq!(fizzbuzz(1234), "1234");
    assert_eq!(fizzbuzz(0), "fizzbuzz");
}

#[test]
fn non_constructible_change_works() {
    assert_eq!(
        non_constructible_change(&mut vec![1_usize, 2_usize, 5_usize]),
        4
    );
}

#[test]
fn non_constructible_change_no_coins() {
    let mut coins: Vec<usize> = vec![];
    assert_eq!(non_constructible_change(&mut coins), 1);
}

#[test]
fn non_constructible_change_sorts_in_place() {
    let mut coins: Vec<usize> = vec![5, 1, 2];
    assert_eq!(non_constructible_change(&mut coins), 4);
    assert_eq!(coins, vec![1, 2, 5]);
}

#[test]
fn non_constructible_change_contiguous_coins() {
    assert_eq!(non_constructible_change(&mut vec![1, 1, 1]), 4);
    assert_eq!(non_constructible_change(&mut vec![2]), 1);
}

#[test]
fn sorted_squared_array_one_element() {
    let v = vec![4];
    let result = sorted_squared_array(&v);
    assert_eq!(result, vec![16]);
}

#[test]
fn sorted_squared_array_multiple_elements() {
    let v = vec![1, 2, 3, 4];
    let result = sorted_squared_array(&v);
    assert_eq!(result, vec![1, 4, 9, 16]);
}

#[test]
fn sorted_squared_array_multiple_elements_all_negatives() {
    let v = vec![-4, -3, -2, -1];
    let result = sorted_squared_array(&v);
    assert_eq!(result, vec![1, 4, 9, 16]);
}

#[test]
fn sorted_squared_array_mixed_signs() {
    let v = vec![-5, -2, 0, 3];
    let result = sorted_squared_array(&v);
    assert_eq!(result, vec![0, 4, 9, 25]);
}

#[test]
fn tournament_winner_no_teams() {
    let competitions: Vec<Vec<&str>> = vec![];
    let results: Vec<usize> = vec![];
    assert_eq!(tournament_winner(competitions, results).is_err(), true);
}

#[test]
fn tournament_winner_works() {
    let competitions = vec![
        vec!["HTML", "C#"],
        vec!["C#", "Python"],
        vec!["Python", "HTML"],
    ];

    let results = vec![0, 0, 1];

    assert_eq!(tournament_winner(competitions, results).unwrap(), "HTML");
}

#[test]
fn tournament_winner_repeated_names() {
    let competitions = vec![vec!["ada", "zoe"], vec!["zoe", "ada"]];
    let results = vec![1, 0];
    assert_eq!(tournament_winner(competitions, results).unwrap(), "zoe");
}

#[test]
fn two_number_sum_empty_vector() {
    let a: Vec<isize> = Vec::new();
    let r = two_number_sum(&a, 10);

    assert_eq!(r.len(), 0);
}

#[test]
fn two_number_sum_one_element_vector() {
    let a: Vec<isize> = vec![1];
    let r = two_number_sum(&a, 11);

    assert_eq!(r.len(), 0);
}

#[test]
fn two_number_sum_more_elements_vector() {
    let a: Vec<isize> = vec![3, 5, -4, 8, 11, 1, -1, 6];
    let r = two_number_sum(&a, 10);

    println!("{:?}", r);

    assert_eq!(r.len(), 2);
    assert!(r.contains(&-1));
    assert!(r.contains(&11));
}

#[test]
fn two_number_sum_picks_earliest_closing_pair() {
    let a: Vec<isize> = vec![3, 5, -4, 8, 11, 1, -1, 6];
    let r = two_number_sum(&a, 10);
    assert_eq!(r, vec![-1, 11]);
}

#[test]
fn two_number_sum_no_pair() {
    let a: Vec<isize> = vec![1, 2, 3];
    let r = two_number_sum(&a, 100);
    assert_eq!(r.len(), 0);
}

#[test]
fn validate_subsequence_works() {
    assert_eq!(
        validate_subsequence(vec![5, 1, 22, 25, 6, -1, 8, 10], vec![1, 6, -1, 10]),
        true
    )
}

#[test]
fn validate_subsequence_rejects_wrong_order() {
    assert_eq!(validate_subsequence(vec![1, 2, 3], vec![3, 1]), false)
}

#[test]
fn validate_subsequence_whole_array() {
    assert_eq!(validate_subsequence(vec![4, 5], vec![4, 5]), true)
}

#[test]
fn validate_subsequence_longer_candidate() {
    assert_eq!(validate_subsequence(vec![1], vec![1, 2]), false)
}
