use aop_app::offer::{is_skipped, UpdateOffer};
use aop_app::release::{Artefact, Found, Install, Installed, Platform};

const RUNNING: &str = "0.4.0";

/// A release found by a check, at whatever version.
fn found(version: &str) -> Found {
    Found {
        version: version.into(),
        install: Install::SelfManaged,
        artefact: Some(Artefact {
            name: format!("alterion-open-project-{version}-x86_64-linux.tar.gz"),
            digest: "0".repeat(64),
        }),
        page: format!("https://example.test/releases/v{version}"),
    }
}

#[test]
fn an_update_will_not_install_over_unsaved_work() {
    let mut offer = UpdateOffer::new();
    offer.found = Some(Found {
        version: "9.9.9".into(),
        install: Install::SelfManaged,
        artefact: Some(Artefact {
            name: "alterion-open-project-9.9.9-x86_64-linux.tar.gz".into(),
            digest: "0".repeat(64),
        }),
        page: "https://example.test/releases/v9.9.9".into(),
    });
    let dirty = true;

    let why = offer.update_blocked(dirty, Platform::Linux).expect("unsaved work stops it");
    assert!(why.contains("unsaved changes"), "got {why}");

    let dirty = false;
    assert!(offer.update_blocked(dirty, Platform::Linux).is_none());
}

#[test]
fn skipping_a_version_takes_the_offer_away_without_stopping_the_next_one() {
    let mut offer = UpdateOffer::new();
    offer.update_landed(Ok(Some(found("9.9.9"))), RUNNING);
    assert!(offer.found.is_some(), "the offer stands before it is refused");

    offer.skip_the_found_version();
    assert_eq!(offer.skip_version, "9.9.9");
    assert!(offer.found.is_none(), "and the offer goes with it");

    offer.update_landed(Ok(Some(found("9.9.9"))), RUNNING);
    assert!(offer.found.is_none());
    let message = offer.message.clone().expect("the page that asked is told");
    assert!(message.contains("9.9.9") && message.contains("Options"), "got {message}");

    offer.update_landed(Ok(Some(found("9.9.10"))), RUNNING);
    assert_eq!(offer.found.as_ref().map(|f| f.version.as_str()), Some("9.9.10"));
}

#[test]
fn skipping_one_version_does_not_bring_an_older_one_back() {
    let mut offer = UpdateOffer::new();
    offer.skip_version = "9.9.9".into();
    offer.update_landed(Ok(Some(found("9.9.8"))), RUNNING);
    assert_eq!(
        offer.found.as_ref().map(|f| f.version.as_str()),
        Some("9.9.8"),
        "an older release is judged on its own, not by the skip"
    );
}

#[test]
fn withdrawing_a_skip_puts_the_offer_back() {
    let mut offer = UpdateOffer::new();
    offer.skip_version = "9.9.9".into();
    offer.update_landed(Ok(Some(found("9.9.9"))), RUNNING);
    assert!(offer.found.is_none(), "suppressed while the record stands");

    offer.offer_the_skipped_version_again();
    assert!(offer.skip_version.is_empty());

    offer.update_landed(Ok(Some(found("9.9.9"))), RUNNING);
    assert!(offer.found.is_some(), "and offered once it is gone");
}

#[test]
fn a_skip_this_copy_has_already_passed_is_dropped_at_start_up() {
    let mut offer = UpdateOffer::new();
    offer.skip_version = "0.0.1-nonesuch".into();
    offer.forget_a_spent_skip(RUNNING);
    assert!(offer.skip_version.is_empty());

    let mut ahead = UpdateOffer::new();
    ahead.skip_version = "9999.0.0".into();
    ahead.forget_a_spent_skip(RUNNING);
    assert_eq!(ahead.skip_version, "9999.0.0");
}

#[test]
fn a_skipped_version_says_nothing_in_the_status_bar() {
    let mut offer = UpdateOffer::new();
    offer.skip_version = "9.9.9".into();
    let before = offer.status.clone();
    offer.update_landed(Ok(Some(found("9.9.9"))), RUNNING);
    assert_eq!(offer.status, before);
    assert!(offer.found.is_none(), "nothing is put in front of anybody");
}

#[test]
fn failing_to_reach_a_release_host_is_kept_quiet() {
    let mut offer = UpdateOffer::new();
    let before = offer.status.clone();
    offer.update_landed(Err("nothing is answering at that address".into()), RUNNING);

    assert!(offer.found.is_none());
    assert_eq!(offer.status, before, "the status bar says nothing new");
    assert_eq!(
        offer.message.as_deref(),
        Some("nothing is answering at that address"),
        "the page that asked is told"
    );
}

#[test]
fn a_release_worth_offering_is_announced_in_the_status_bar() {
    let mut offer = UpdateOffer::new();
    offer.updating = true;
    offer.update_landed(Ok(Some(found("9.9.9"))), RUNNING);
    assert_eq!(offer.status, "Version 9.9.9 is available");
    assert!(offer.message.is_none());
    assert!(!offer.updating);
}

#[test]
fn nothing_newer_says_which_version_is_the_newest() {
    let mut offer = UpdateOffer::new();
    offer.update_landed(Ok(None), RUNNING);
    assert_eq!(offer.message.as_deref(), Some("Version 0.4.0 is the newest there is."));
}

#[test]
fn an_install_already_running_blocks_another() {
    let mut offer = UpdateOffer::new();
    offer.updating = true;
    assert_eq!(
        offer.update_blocked(false, Platform::Linux).as_deref(),
        Some("An update is already being fetched.")
    );
}

#[test]
fn a_finished_install_says_where_the_old_copy_went() {
    let mut offer = UpdateOffer::new();
    offer.found = Some(found("9.9.9"));
    offer.install_landed(Ok(Installed::Replaced { kept: "/tmp/old".into() }));
    assert!(offer.found.is_none());
    assert!(offer.message.as_deref().unwrap().ends_with("kept at /tmp/old."));
    assert_eq!(offer.ready, Some(Installed::Replaced { kept: "/tmp/old".into() }));

    let mut failed = UpdateOffer::new();
    failed.install_landed(Err("the download stopped".into()));
    assert_eq!(failed.message.as_deref(), Some("the download stopped"));
    assert!(failed.ready.is_none());
}

#[test]
fn a_downloaded_installer_says_running_it_closes_the_application() {
    let mut offer = UpdateOffer::new();
    offer.install_landed(Ok(Installed::Downloaded { installer: "setup.exe".into() }));
    assert!(offer.message.as_deref().unwrap().contains("Installing closes this application"));
}

#[test]
fn skipping_says_later_versions_will_still_be_offered() {
    let mut offer = UpdateOffer::new();
    offer.update_landed(Ok(Some(found("2.0.0"))), RUNNING);
    offer.skip_the_found_version();
    assert_eq!(
        offer.status,
        "Version 2.0.0 will not be offered again. Later versions still will."
    );
    offer.offer_the_skipped_version_again();
    assert_eq!(offer.status, "Version 2.0.0 will be offered again at the next check.");
}

#[test]
fn no_skip_recorded_skips_nothing() {
    assert!(!is_skipped("", ""));
    assert!(is_skipped("1.0.0", "1.0.0"));
    assert!(!is_skipped("1.0.0", "1.0.1"));
}
