use jot::update::{is_newer, newer_release, release_tag, Update};
use jot::views::{update_element, update_state, UpdateState};

#[test]
fn a_higher_number_anywhere_is_newer() {
    assert!(is_newer("0.3.0", "0.2.0"));
    assert!(is_newer("0.2.1", "0.2.0"));
    assert!(is_newer("1.0.0", "0.99.99"));
    assert!(is_newer("0.10.0", "0.9.0"), "10 is not 'less than' 9");
}

#[test]
fn the_same_version_is_not_an_update() {
    assert!(!is_newer("0.2.0", "0.2.0"));
    assert!(!is_newer("v0.2.0", "0.2.0"), "the v prefix is not a version");
}

#[test]
fn an_older_release_never_reads_as_newer() {
    assert!(!is_newer("0.1.0", "0.2.0"));
    assert!(!is_newer("0.2.0", "1.0.0"));
}

#[test]
fn a_prerelease_suffix_stops_the_comparison_instead_of_confusing_it() {
    assert!(is_newer("0.3.0-rc1", "0.2.0"));
    assert!(!is_newer("0.3.0-rc1", "0.3.0"));
}

#[test]
fn nonsense_from_the_api_is_not_an_update() {
    assert!(!is_newer("", "0.2.0"));
    assert!(!is_newer("latest", "0.2.0"));
}

#[test]
fn the_tag_comes_out_of_the_redirect() {
    assert_eq!(
        release_tag("https://github.com/o/r/releases/tag/v0.3.0").as_deref(),
        Some("v0.3.0")
    );
    assert_eq!(release_tag("https://github.com/o/r/releases"), None);
    assert_eq!(release_tag("https://github.com/o/r/releases/tag/"), None);
}

#[test]
fn a_redirect_is_an_update_only_if_it_is_newer() {
    let page = "https://github.com/o/r/releases/tag/v0.3.0";
    assert_eq!(
        newer_release(page, "0.2.0"),
        Ok(Some(Update { version: "0.3.0".into(), page: page.into() }))
    );
    assert_eq!(newer_release(page, "0.3.0"), Ok(None));
    assert_eq!(
        newer_release("https://github.com/o/r", "0.3.0"),
        Err("no release tag in GitHub's redirect to https://github.com/o/r".to_string())
    );
}

#[test]
fn the_about_window_says_what_it_knows() {
    let (said, page) = update_element(&UpdateState::Checking);
    assert_eq!(said.words, "Checking for updates…");
    assert_eq!(page, None);
    let found = Update { version: "0.4.0".into(), page: "https://x".into() };
    let (said, page) = update_element(&update_state(Some(Some(found))));
    assert_eq!(said.words, "Jot 0.4.0 is available.");
    assert_eq!(page.as_deref(), Some("https://x"));
    let (said, _) = update_element(&update_state(Some(None)));
    assert_eq!(said.words, "You are on the latest version.");
    let (said, _) = update_element(&update_state(None));
    assert_eq!(said.words, "Could not reach GitHub to check for updates.");
}
