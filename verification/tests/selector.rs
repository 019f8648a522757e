use dns_sweep::selector::{index_for_hash, select};

#[test]
fn index_for_hash_reduces_modulo_pool_size() {
    assert_eq!(index_for_hash(0, 7), 0);
    assert_eq!(index_for_hash(6, 7), 6);
    assert_eq!(index_for_hash(7, 7), 0);
    assert_eq!(index_for_hash(23, 7), 2);
    assert_eq!(index_for_hash(u64::MAX, 7), (u64::MAX % 7) as usize);
    assert_eq!(index_for_hash(12345, 1), 0);
}

#[test]
fn select_uses_the_city_hash_of_the_bytes() {
    // CityHash64("hello") and CityHash64("helloworld")
    let hello: u64 = 2578220239953316063;
    let helloworld: u64 = 16622738483577116029;
    assert_eq!(select("hello", 7), (hello % 7) as usize);
    assert_eq!(select("helloworld", 7), (helloworld % 7) as usize);
    assert_eq!(select("hello", 1000), (hello % 1000) as usize);
    assert_eq!(select("helloworld", 1000), (helloworld % 1000) as usize);
    assert_eq!(select("hello", 1000), 63);
    assert_eq!(select("helloworld", 1000), 29);
}

#[test]
fn select_is_deterministic() {
    let domains = ["example.com", "a.example.org", "xn--bcher-kva.example", ""];
    for d in domains.iter() {
        for n in 1..20usize {
            let first = select(d, n);
            let second = select(d, n);
            assert_eq!(first, second);
        }
    }
}

#[test]
fn select_stays_in_range() {
    for i in 0..200usize {
        let domain = format!("host-{}.example.net", i);
        for n in 1..12usize {
            assert!(select(&domain, n) < n);
        }
    }
}

#[test]
fn select_with_one_resolver_is_zero() {
    assert_eq!(select("example.com", 1), 0);
    assert_eq!(select("another.example", 1), 0);
}

#[test]
fn select_spreads_over_the_pool() {
    let mut seen = [false; 7];
    for i in 0..500usize {
        let domain = format!("d{}.example", i);
        seen[select(&domain, 7)] = true;
    }
    assert!(seen.iter().all(|s| *s));
}
