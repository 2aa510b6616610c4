use worker_pool::math_utils::is_prime;
use worker_pool::math_utils::n_primes;
use worker_pool::math_utils::primes_from_vec;
use worker_pool::math_utils::primes_in_range;

#[test]
fn primality_of_small_numbers() {
    assert!(!is_prime(0));
    assert!(!is_prime(1));
    assert!(is_prime(2));
    assert!(is_prime(3));
    assert!(!is_prime(4));
    assert!(is_prime(17));
    assert!(!is_prime(25));
    assert!(is_prime(97));
    assert!(!is_prime(100));
}

#[test]
fn first_ten_primes() {
    let primes = n_primes(10);
    assert_eq!(primes, vec![2, 3, 5, 7, 11, 13, 17, 19, 23, 29]);
}

#[test]
fn no_primes_asked_for() {
    assert_eq!(n_primes(0), Vec::<u64>::new());
}

#[test]
fn primes_in_a_range() {
    assert_eq!(primes_in_range(10..20), vec![11, 13, 17, 19]);
    assert_eq!(primes_in_range(0..3), vec![2]);
    assert_eq!(primes_in_range(8..8), Vec::<u64>::new());
}

#[test]
fn primes_filtered_from_a_vec() {
    assert_eq!(primes_from_vec(vec![4, 5, 6, 7, 7, 9, 11]), vec![5, 7, 7, 11]);
    assert_eq!(primes_from_vec(Vec::new()), Vec::<u64>::new());
}
