use udamanami::commands::{isprime, prime_report};
use udamanami::prime::{factorize, is_prime_number};

fn words(items: &[&str]) -> Vec<String> {
    items.iter().map(|item| item.to_string()).collect()
}

#[test]
fn small_numbers_factorize() {
    assert_eq!(factorize(0), Vec::<u64>::new());
    assert_eq!(factorize(1), Vec::<u64>::new());
    assert_eq!(factorize(2), vec![2]);
    assert_eq!(factorize(3), vec![3]);
    assert_eq!(factorize(4), vec![2, 2]);
    assert_eq!(factorize(12), vec![2, 2, 3]);
    assert_eq!(factorize(97), vec![97]);
    assert_eq!(factorize(360), vec![2, 2, 2, 3, 3, 5]);
    assert_eq!(factorize(1001), vec![7, 11, 13]);
    assert_eq!(factorize(1u64 << 63), vec![2; 63]);
}

#[test]
fn large_numbers_factorize() {
    assert_eq!(factorize(u64::MAX), vec![3, 5, 17, 257, 641, 65537, 6700417]);
    assert_eq!(factorize(999999999989), vec![999999999989]);
    assert_eq!(factorize(1000006000009), vec![1000003, 1000003]);
    assert_eq!(factorize(2 * 999999999989), vec![2, 999999999989]);
}

#[test]
fn factors_multiply_back() {
    for n in 2..2000u64 {
        let factors = factorize(n);
        assert_eq!(factors.iter().product::<u64>(), n);
        assert!(factors.windows(2).all(|pair| pair[0] <= pair[1]));
        assert!(factors.iter().all(|&p| (2..p).all(|d| p % d != 0)));
        assert_eq!(is_prime_number(n), factors.len() == 1);
    }
}

#[test]
fn primes_are_told() {
    assert!(!is_prime_number(0));
    assert!(!is_prime_number(1));
    assert!(is_prime_number(2));
    assert!(is_prime_number(4294967291));
    assert!(!is_prime_number(4294967297));
}

#[test]
fn prime_reports() {
    assert_eq!(prime_report(7, &vec![7]), "7は素数だよ");
    assert_eq!(prime_report(1, &vec![]), "1は素数じゃないよ。あたりまえでしょ？");
    assert_eq!(prime_report(12, &vec![2, 2, 3]), "12は素数じゃないよ。素因数は[2, 2, 3]だよ");
}

#[test]
fn isprime_answers() {
    assert_eq!(isprime(&words(&["7"])), "7は素数だよ");
    assert_eq!(isprime(&words(&["+7"])), "7は素数だよ");
    assert_eq!(isprime(&words(&["0"])), "0は素数じゃないよ。あたりまえでしょ？");
    assert_eq!(isprime(&words(&["1"])), "1は素数じゃないよ。あたりまえでしょ？");
    assert_eq!(isprime(&words(&["0012"])), "12は素数じゃないよ。素因数は[2, 2, 3]だよ");
    assert_eq!(
        isprime(&words(&["18446744073709551615"])),
        "18446744073709551615は素数じゃないよ。素因数は[3, 5, 17, 257, 641, 65537, 6700417]だよ"
    );
    assert_eq!(isprime(&words(&["18446744073709551616"])), "わかんないよ");
    assert_eq!(isprime(&words(&["-1"])), "わかんないよ");
    assert_eq!(isprime(&words(&["abc"])), "わかんないよ");
    assert_eq!(isprime(&words(&["+"])), "わかんないよ");
    assert_eq!(isprime(&words(&["1 "])), "わかんないよ");
    assert_eq!(isprime(&words(&[""])), "わかんないよ");
    assert_eq!(isprime(&words(&[])), "使い方: `!isprime <number>`");
    assert_eq!(isprime(&words(&["1", "2"])), "使い方: `!isprime <number>`");
}
