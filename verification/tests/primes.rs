use prime_hunter::primes::is_prime;

/// A sieve of Eratosthenes as an independent reference.
fn sieve(limit: usize) -> Vec<bool> {
    let mut prime = vec![true; limit + 1];
    prime[0] = false;
    if limit >= 1 {
        prime[1] = false;
    }
    let mut p: usize = 2;
    while p * p <= limit {
        if prime[p] {
            let mut m: usize = p * p;
            while m <= limit {
                prime[m] = false;
                m += p;
            }
        }
        p += 1;
    }
    prime
}

#[test]
fn matches_reference_sieve_up_to_ten_thousand() {
    let reference = sieve(10000);
    for n in 0..=10000u64 {
        assert_eq!(
            is_prime(n),
            reference[n as usize],
            "verdict differs from the sieve at {}",
            n
        );
    }
}

#[test]
fn small_cases() {
    assert!(!is_prime(0));
    assert!(!is_prime(1));
    assert!(is_prime(2));
    assert!(is_prime(3));
    assert!(!is_prime(4));
    assert!(is_prime(5));
    assert!(!is_prime(9));
    assert!(!is_prime(25));
    assert!(is_prime(29));
}

#[test]
fn larger_cases() {
    assert!(is_prime(7919));
    assert!(is_prime(999_983));
    assert!(!is_prime(999_983 * 3));
    assert!(is_prime(1_000_000_007));
    assert!(!is_prime(1_000_000_007u64 * 1_000_000_007));
    // A perfect square of a prime: only odd trial divisors reach its root.
    assert!(!is_prime(1_000_003u64 * 1_000_003));
}
