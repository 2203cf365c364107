use soniq::params::ParameterSet;
use soniq::sig::create_sig;
use soniq::sig::signature_base;
use std::collections::BTreeMap;

/// A small generator of numbers, the same on every run.
struct Numbers(u64);

impl Numbers {
    fn next(&mut self) -> u64 {
        self.0 = self.0.wrapping_mul(6364136223846793005).wrapping_add(1442695040888963407);
        self.0 >> 33
    }

    fn text(&mut self, alphabet: &[&str], longest: u64) -> String {
        let length = self.next() % (longest + 1);
        let mut text = String::new();
        for _ in 0..length {
            text.push_str(alphabet[(self.next() % alphabet.len() as u64) as usize]);
        }
        text
    }
}

const ALPHABET: [&str; 12] = ["a", "b", "A", "_", "0", "z", "é", "♫", "ß", " ", "~", "𝄞"];

fn signature_by_hand(params: &BTreeMap<String, String>, secret: &str) -> String {
    let mut base = String::new();
    for (name, value) in params {
        base.push_str(name);
        base.push_str(value);
    }
    base.push_str(secret);
    format!("{:x}", md5::compute(base.as_bytes()))
}

#[test]
fn parameter_set_behaves_like_an_ordered_map() {
    let mut numbers = Numbers(7);
    let mut set = ParameterSet::new();
    let mut map: BTreeMap<String, String> = BTreeMap::new();
    for round in 0..3000 {
        let name = numbers.text(&ALPHABET, 3);
        let value = numbers.text(&ALPHABET, 4);
        assert_eq!(set.contains_key(&name), map.contains_key(&name));
        assert_eq!(set.get(&name), map.get(&name));
        assert_eq!(set.insert(name.clone(), value.clone()), map.insert(name.clone(), value.clone()));
        assert_eq!(set.get(&name), Some(&value));
        assert_eq!(set.len(), map.len());
        assert_eq!(set.is_empty(), map.is_empty());
        if round % 100 == 0 {
            let listed: Vec<(String, String)> =
                map.iter().map(|(n, v)| (n.clone(), v.clone())).collect();
            assert_eq!(set.entries(), &listed);
        }
    }
    let listed: Vec<(String, String)> = map.iter().map(|(n, v)| (n.clone(), v.clone())).collect();
    assert_eq!(set.entries(), &listed);
    assert!(set.len() > 100);
}

#[test]
fn signature_is_the_digest_of_the_ordered_map_written_out() {
    let mut numbers = Numbers(2024);
    for _ in 0..300 {
        let mut set = ParameterSet::new();
        let mut map: BTreeMap<String, String> = BTreeMap::new();
        let count = numbers.next() % 8;
        for _ in 0..count {
            let name = numbers.text(&ALPHABET, 5);
            let value = numbers.text(&ALPHABET, 9);
            set.insert(name.clone(), value.clone());
            map.insert(name, value);
        }
        let secret = numbers.text(&ALPHABET, 12);
        let sig = create_sig(&set, &secret);
        assert_eq!(sig, signature_by_hand(&map, &secret));
        assert_eq!(sig, format!("{:x}", md5::compute(signature_base(&set, &secret))));
        assert_eq!(sig.len(), 32);
        assert!(sig.chars().all(|c| matches!(c, '0'..='9' | 'a'..='f')));
    }
}

#[test]
fn signature_of_a_large_parameter_set() {
    let mut set = ParameterSet::new();
    let mut map: BTreeMap<String, String> = BTreeMap::new();
    for i in (0..500).rev() {
        let name = format!("name{}", i);
        let value = "v".repeat(i % 17);
        set.insert(name.clone(), value.clone());
        map.insert(name, value);
    }
    assert_eq!(set.len(), 500);
    assert_eq!(create_sig(&set, "secret"), signature_by_hand(&map, "secret"));
}
