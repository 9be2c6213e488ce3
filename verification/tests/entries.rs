use lock_smith::entry::PasswordEntry;
use lock_smith::secret::Secret;
use lock_smith::timestamp::Timestamp;

fn text(s: &str) -> Option<String> {
    Some(String::from(s))
}

fn sample() -> PasswordEntry {
    PasswordEntry::from_parts(
        String::from("github"),
        text("alice"),
        Secret::new(String::from("s3cret")),
        text("https://github.com"),
        text("work account"),
        Timestamp { secs: 1_700_000_000, nanos: 5 },
        Some(Timestamp { secs: 1_700_000_100, nanos: 6 }),
    )
}

#[test]
fn from_parts_keeps_every_field() {
    let entry = sample();
    assert_eq!(entry.id(), "github");
    assert_eq!(entry.username(), &text("alice"));
    assert_eq!(entry.password().expose(), "s3cret");
    assert_eq!(entry.url(), &text("https://github.com"));
    assert_eq!(entry.description(), &text("work account"));
    assert_eq!(entry.created_at(), Timestamp { secs: 1_700_000_000, nanos: 5 });
    assert_eq!(entry.updated_at(), Some(Timestamp { secs: 1_700_000_100, nanos: 6 }));
}

#[test]
fn a_new_entry_was_never_updated() {
    let before = Timestamp::now();
    let entry = PasswordEntry::new(
        String::from("github"),
        text("alice"),
        Secret::new(String::from("s3cret")),
        None,
        None,
    );
    let after = Timestamp::now();
    assert_eq!(entry.id(), "github");
    assert_eq!(entry.username(), &text("alice"));
    assert_eq!(entry.password().expose(), "s3cret");
    assert_eq!(entry.url(), &None);
    assert_eq!(entry.description(), &None);
    assert_eq!(entry.updated_at(), None);
    assert!(before.secs <= entry.created_at().secs);
    assert!(entry.created_at().secs <= after.secs);
}

#[test]
fn the_clock_is_past_the_year_2020() {
    let now = Timestamp::now();
    assert!(now.secs > 1_577_836_800);
    assert!(now.nanos < 1_000_000_000);
}

#[test]
fn superseding_keeps_the_creation_time_and_records_the_update() {
    let old = sample();
    let fresh = PasswordEntry::from_parts(
        String::from("github"),
        text("bob"),
        Secret::new(String::from("n3w")),
        None,
        None,
        Timestamp { secs: 1_800_000_000, nanos: 0 },
        None,
    );
    let stored = fresh.superseding(&old, Timestamp { secs: 1_800_000_001, nanos: 2 });
    assert_eq!(stored.id(), "github");
    assert_eq!(stored.username(), &text("bob"));
    assert_eq!(stored.password().expose(), "n3w");
    assert_eq!(stored.url(), &None);
    assert_eq!(stored.description(), &None);
    assert_eq!(stored.created_at(), Timestamp { secs: 1_700_000_000, nanos: 5 });
    assert_eq!(stored.updated_at(), Some(Timestamp { secs: 1_800_000_001, nanos: 2 }));
}

#[test]
fn show_discloses_id_username_and_password() {
    assert_eq!(sample().show(), "id: github\nusername: alice\npassword: s3cret");
}

#[test]
fn show_leaves_a_missing_username_empty() {
    let entry = PasswordEntry::from_parts(
        String::from("github"),
        None,
        Secret::new(String::from("s3cret")),
        None,
        None,
        Timestamp { secs: 0, nanos: 0 },
        None,
    );
    assert_eq!(entry.show(), "id: github\nusername: \npassword: s3cret");
}

#[test]
fn a_plain_summary_has_id_and_username_only() {
    let summary = sample().summary(false);
    assert_eq!(summary.id, "github");
    assert_eq!(summary.username, text("alice"));
    assert!(summary.details.is_none());
}

#[test]
fn a_verbose_summary_adds_the_other_public_fields() {
    let summary = sample().summary(true);
    assert_eq!(summary.id, "github");
    assert_eq!(summary.username, text("alice"));
    let details = summary.details.unwrap();
    assert_eq!(details.url, text("https://github.com"));
    assert_eq!(details.description, text("work account"));
    assert_eq!(details.created_at, Timestamp { secs: 1_700_000_000, nanos: 5 });
    assert_eq!(details.updated_at, Some(Timestamp { secs: 1_700_000_100, nanos: 6 }));
    assert_eq!(details.last_modified(), Timestamp { secs: 1_700_000_100, nanos: 6 });
}

#[test]
fn an_entry_never_updated_was_last_modified_at_its_creation() {
    let entry = PasswordEntry::from_parts(
        String::from("github"),
        None,
        Secret::new(String::from("s3cret")),
        None,
        None,
        Timestamp { secs: 42, nanos: 7 },
        None,
    );
    let details = entry.summary(true).details.unwrap();
    assert_eq!(details.last_modified(), Timestamp { secs: 42, nanos: 7 });
}

#[test]
fn no_summary_holds_the_secret() {
    let entry = PasswordEntry::from_parts(
        String::from("github"),
        text("alice"),
        Secret::new(String::from("s3cret-VALUE")),
        text("https://github.com"),
        text("work account"),
        Timestamp { secs: 1, nanos: 2 },
        Some(Timestamp { secs: 3, nanos: 4 }),
    );
    assert!(!format!("{:?}", entry.summary(false)).contains("s3cret-VALUE"));
    assert!(!format!("{:?}", entry.summary(true)).contains("s3cret-VALUE"));
}

#[test]
fn debug_output_of_an_entry_redacts_the_secret() {
    let text = format!("{:?}", sample());
    assert!(text.contains("github"));
    assert!(!text.contains("s3cret"));
}
