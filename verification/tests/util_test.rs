use git_issues::util::{id_from_draws, make_id, slugify, timestamp_at, utc_now};

#[test]
fn slug_of_a_sentence() {
    assert_eq!(slugify("Fix the login bug!"), "fix-the-login-bug");
}

#[test]
fn slug_collapses_runs_and_trims() {
    assert_eq!(slugify("  Hello,   World  "), "hello-world");
}

#[test]
fn slug_of_nothing_is_issue() {
    assert_eq!(slugify(""), "issue");
    assert_eq!(slugify("!!!"), "issue");
}

#[test]
fn slug_drops_non_ascii_letters() {
    assert_eq!(slugify("Ünïcödé tëst"), "n-c-d-t-st");
}

#[test]
fn slug_is_cut_at_forty_characters() {
    assert_eq!(slugify(&"a".repeat(50)), "a".repeat(40));
    assert_eq!(slugify(&"abc ".repeat(20)), "abc-abc-abc-abc-abc-abc-abc-abc-abc-abc");
    assert_eq!(
        slugify("The quick brown fox jumps over the lazy dog again"),
        "the-quick-brown-fox-jumps-over-the-lazy"
    );
}

#[test]
fn slug_of_a_slug_is_itself() {
    for t in ["Fix the login bug!", "Ünïcödé tëst", "", "abc abc abc abc abc abc abc abc abc abc abc"] {
        let s = slugify(t);
        assert_eq!(slugify(&s), s);
    }
}

#[test]
fn id_is_slug_dash_and_four_characters() {
    let id = make_id("Fix the login bug!");
    assert!(id.starts_with("fix-the-login-bug-"));
    assert_eq!(id.len(), "fix-the-login-bug-".len() + 4);
    let suffix = &id[id.len() - 4..];
    assert!(suffix.chars().all(|c| c.is_ascii_lowercase() || c.is_ascii_digit()));
    assert!(!id.chars().any(char::is_whitespace));
}

#[test]
fn timestamp_has_iso_shape() {
    let t = utc_now();
    let b = t.as_bytes();
    assert_eq!(t.len(), 20);
    assert_eq!(b[4], b'-');
    assert_eq!(b[7], b'-');
    assert_eq!(b[10], b'T');
    assert_eq!(b[13], b':');
    assert_eq!(b[16], b':');
    assert_eq!(b[19], b'Z');
    for i in [0, 1, 2, 3, 5, 6, 8, 9, 11, 12, 14, 15, 17, 18] {
        assert!(b[i].is_ascii_digit());
    }
}

#[test]
fn upper_case_titles_give_the_same_slug() {
    for t in ["Fix the login bug!", "Ünïcödé tëst", "mixed Case 42", ""] {
        assert_eq!(slugify(&t.to_ascii_uppercase()), slugify(t));
    }
}

#[test]
fn ids_pick_their_suffix_from_the_draws() {
    assert_eq!(id_from_draws("Fix the login bug!", &[0, 1, 26, 35]), "fix-the-login-bug-ab09");
    assert_eq!(id_from_draws("", &[25, 25, 25, 25]), "issue-zzzz");
}

#[test]
fn timestamps_of_given_instants() {
    assert_eq!(timestamp_at(0), "1970-01-01T00:00:00Z");
    assert_eq!(timestamp_at(1782995696), "2026-07-02T12:34:56Z");
    assert_eq!(timestamp_at(253402300800), "+10000-01-01T00:00:00Z");
}
