use pulse_compression::sieve::sieve;

#[test]
fn sieve_thirty() {
    assert_eq!(sieve(30), vec![2, 3, 5, 7, 11, 13, 17, 19, 23, 29]);
}

#[test]
fn sieve_one_is_empty() {
    assert_eq!(sieve(1), Vec::<usize>::new());
}

#[test]
fn sieve_zero_is_empty() {
    assert_eq!(sieve(0), Vec::<usize>::new());
}

#[test]
fn sieve_two_is_first_prime() {
    assert_eq!(sieve(2), vec![2]);
}

#[test]
fn sieve_includes_prime_bound() {
    assert_eq!(sieve(29), vec![2, 3, 5, 7, 11, 13, 17, 19, 23, 29]);
}

#[test]
fn sieve_square_bound() {
    assert_eq!(sieve(25), vec![2, 3, 5, 7, 11, 13, 17, 19, 23]);
}

#[test]
fn sieve_hundred() {
    assert_eq!(
        sieve(100),
        vec![
            2, 3, 5, 7, 11, 13, 17, 19, 23, 29, 31, 37, 41, 43, 47, 53, 59, 61, 67, 71, 73, 79,
            83, 89, 97
        ]
    );
}

#[test]
fn sieve_twice_same_bound() {
    assert_eq!(sieve(30), sieve(30));
    assert_eq!(sieve(0), sieve(0));
}
