use std::collections::BTreeSet;

use pwdv::cli::{
    alphabet, by_name, check_confirmed, check_not_empty, find_entry, generate, name_free, pick_from_draw, remove_entry,
    Charset,
    ALL_CHARSETS,
};
use pwdv::vault::{Entry, VaultData};

fn data(names: &[&str]) -> VaultData {
    let mut data = VaultData::default();
    for (i, name) in names.iter().enumerate() {
        data.entries.push(Entry::new(name.to_string(), format!("user{i}"), format!("pw{i}"), None, None));
    }
    data
}

#[test]
fn generate_respects_length_and_charset() {
    let pw = generate(64, &[Charset::Digits]).unwrap();
    assert_eq!(pw.len(), 64);
    assert!(pw.bytes().all(|b| b.is_ascii_digit()), "{}", pw.as_str());
}

#[test]
fn generate_covers_exactly_the_alphabet() {
    let pw = generate(20_000, &[Charset::Lower, Charset::Digits]).unwrap();
    let seen: BTreeSet<u8> = pw.bytes().collect();
    let expected: BTreeSet<u8> = (b'a'..=b'z').chain(b'0'..=b'9').collect();
    assert_eq!(seen, expected);
}

#[test]
fn two_generations_differ() {
    let a = generate(20, &Charset::all()).unwrap();
    let b = generate(20, &Charset::all()).unwrap();
    assert_ne!(a, b);
}

#[test]
fn generating_from_no_class_fails_unless_nothing_is_asked() {
    assert_eq!(generate(5, &[]), Err("empty character set"));
    assert_eq!(generate(0, &[]), Ok(String::new()));
}

#[test]
fn the_alphabet_is_the_union_of_the_classes_sorted_without_repeats() {
    let all = alphabet(&ALL_CHARSETS);
    let mut expected: Vec<u8> = ALL_CHARSETS.iter().flat_map(|c| c.chars().bytes()).collect();
    expected.sort_unstable();
    expected.dedup();
    assert_eq!(all, expected);
    assert_eq!(alphabet(&[Charset::Digits, Charset::Digits]), b"0123456789".to_vec());
    for c in ALL_CHARSETS {
        for b in 0..=u8::MAX {
            assert_eq!(c.has(b), c.chars().as_bytes().contains(&b), "{c:?} {b}");
        }
    }
}

#[test]
fn add_refuses_a_name_that_is_taken() {
    let d = data(&["mail", "bank"]);
    assert_eq!(name_free(&d, "mail"), Err("entry 'mail' already exists".to_owned()));
    assert_eq!(name_free(&d, "Mail"), Ok(()));
}

#[test]
fn get_and_rm_find_the_first_entry_with_the_name() {
    let mut d = data(&["mail", "bank", "mail"]);
    assert_eq!(find_entry(&d, "mail").unwrap().username, "user0");
    assert!(find_entry(&d, "none").is_err());
    assert_eq!(remove_entry(&mut d, "mail"), Ok(()));
    assert_eq!(d.entries.len(), 2);
    assert_eq!(d.entries[0].name, "bank");
    assert_eq!(d.entries[1].username, "user2");
    assert_eq!(remove_entry(&mut d, "none"), Err("no entry named 'none'".to_owned()));
}

#[test]
fn list_sorts_alphabetically_like_the_window() {
    let d = data(&["b", "B", "a", "b"]);
    assert_eq!(by_name(&d.entries), [2, 1, 0, 3]);
}

#[test]
fn list_ignores_case_when_ordering_names() {
    let d = data(&["posta", "Banca", "amazon", "Zeta"]);
    assert_eq!(by_name(&d.entries), [2, 1, 0, 3]);
}

#[test]
fn new_master_passwords_are_checked() {
    assert_eq!(check_not_empty(""), Err("password must not be empty"));
    assert_eq!(check_not_empty("x"), Ok(()));
    assert_eq!(check_confirmed("a", "b"), Err("passwords do not match"));
    assert_eq!(check_confirmed("a", "a"), Ok(()));
}

#[test]
fn a_draw_picks_by_its_remainder_and_the_top_draws_are_rejected() {
    let alphabet = b"abc";
    assert_eq!(pick_from_draw(alphabet, [0, 0]), Some(b'a'));
    assert_eq!(pick_from_draw(alphabet, [0, 4]), Some(b'b'));
    assert_eq!(pick_from_draw(alphabet, [255, 254]), Some(b'c'));
    assert_eq!(pick_from_draw(alphabet, [255, 255]), None);
    let all: Vec<u8> = (0u8..=255).collect();
    assert_eq!(pick_from_draw(&all, [1, 7]), Some(7));
    assert_eq!(pick_from_draw(&all, [255, 255]), Some(255));
}
