use pwdv::calendar::format_timestamp;
use pwdv::main_view::{Draft, MainView};
use pwdv::search::{alphabetical, listing};
use pwdv::vault::{Entry, VaultData};

fn entry(name: &str, username: &str, url: Option<&str>) -> Entry {
    Entry::new(
        name.to_owned(),
        username.to_owned(),
        "segreto".to_owned(),
        url.map(str::to_owned),
        Some("appunti riservati".to_owned()),
    )
}

#[test]
fn search_is_fuzzy_on_name_username_and_url() {
    let github = entry("GitHub", "mario.rossi", Some("https://github.com"));
    assert!(pwdv::search::matches("", &github));
    assert!(pwdv::search::matches("gthb", &github));
    assert!(pwdv::search::matches("GIT", &github));
    assert!(pwdv::search::matches("rossi", &github));
    assert!(pwdv::search::matches("hub.com", &github));
    assert!(pwdv::search::matches("git rossi", &github));
    assert!(!pwdv::search::matches("bhtg", &github), "le lettere devono essere in ordine");
    assert!(!pwdv::search::matches("git bianchi", &github), "ogni parola deve comparire");
}

#[test]
fn search_ignores_notes_and_password() {
    let banca = entry("Banca", "utente", None);
    assert!(!pwdv::search::matches("segreto", &banca));
    assert!(!pwdv::search::matches("riservati", &banca));
}

#[test]
fn list_is_alphabetical_ignoring_case_and_follows_the_filter() {
    let entries = vec![
        entry("posta", "a", None),
        entry("Banca", "b", None),
        entry("amazon", "c", None),
        entry("Zeta", "d", None),
    ];
    let mut view = MainView::new(&VaultData::default());
    view.refresh(&entries);
    assert_eq!(view.visible(), [2, 1, 0, 3]);

    view.query_buffer().push_str("ta");
    view.refresh(&entries);
    assert_eq!(view.visible(), [0, 3]);
}

#[test]
fn timestamps_are_formatted_in_utc() {
    for (secs, expected) in [
        (0, "1970-01-01 00:00"),
        (951_782_400, "2000-02-29 00:00"),
        (1_000_000_000, "2001-09-09 01:46"),
        (1_757_795_580, "2025-09-13 20:33"),
        (4_102_444_799, "2099-12-31 23:59"),
    ] {
        assert_eq!(format_timestamp(secs), format!("{expected} UTC"));
    }
}

#[test]
fn draft_validation() {
    let entries = vec![entry("GitHub", "u", None), entry("Posta", "u", None)];
    let mut draft = Draft::empty();
    assert!(draft.is_blank());
    assert_eq!(draft.problem(&entries, None), Some("Il nome è obbligatorio."));

    draft.name.push_str("  Posta ");
    assert_eq!(draft.problem(&entries, None), Some("Esiste già una voce con questo nome."));
    assert_eq!(
        draft.problem(&entries, Some(1)),
        Some("La password è obbligatoria."),
        "una voce può tenere il proprio nome"
    );

    draft.password.push_str("pw");
    assert_eq!(draft.problem(&entries, Some(1)), None);
}

#[test]
fn draft_detects_changes_and_applies_them() {
    let mut github = entry("GitHub", "mario", Some("https://github.com"));
    github.modified = 0;
    let mut draft = Draft::of(&github);
    assert!(!draft.differs_from(&github));

    draft.url.clear();
    draft.username.push_str(".rossi");
    assert!(draft.differs_from(&github));

    draft.apply_to(&mut github);
    assert_eq!(github.username, "mario.rossi");
    assert_eq!(github.url, None);
    assert_eq!(github.password, "segreto");
    assert!(github.modified > 0);
}

#[test]
fn ties_on_the_lowercase_name_keep_a_fixed_order() {
    let entries = vec![
        entry("posta", "b", None),
        entry("Posta", "a", None),
        entry("posta", "a", None),
        entry("posta", "a", None),
    ];
    assert_eq!(listing("", &entries), [1, 2, 3, 0]);
    assert_eq!(alphabetical(&entries[1], &entries[2]), std::cmp::Ordering::Less);
    assert_eq!(alphabetical(&entries[2], &entries[3]), std::cmp::Ordering::Equal);
    assert_eq!(alphabetical(&entries[0], &entries[2]), std::cmp::Ordering::Greater);
}

#[test]
fn dates_around_leap_days_and_centuries() {
    assert_eq!(format_timestamp(68_169_600), "1972-02-29 00:00 UTC");
    assert_eq!(format_timestamp(4_107_542_400), "2100-03-01 00:00 UTC");
    assert_eq!(format_timestamp(253_402_300_799), "9999-12-31 23:59 UTC");
    assert_eq!(format_timestamp(253_402_300_800), "10000-01-01 00:00 UTC");
}

#[test]
fn entries_carry_the_time_they_were_made_and_changed_at() {
    let mut e = Entry::created_at("Posta".into(), "mario".into(), "pw".into(), None, None, 1_700_000_000);
    assert_eq!((e.created, e.modified), (1_700_000_000, 1_700_000_000));
    let mut draft = Draft::of(&e);
    draft.notes.push_str("nuova nota");
    draft.apply_at(&mut e, 1_800_000_000);
    assert_eq!((e.created, e.modified), (1_700_000_000, 1_800_000_000));
    assert_eq!(e.notes.as_deref(), Some("nuova nota"));
}
