use aop_app::release::{
    artefact_urls, assess_latest, decompress, descriptor_urls, found_from, host_of, install_for,
    install_plan, is_system_path, line_for, placement_of, read_latest, release_page, unpack,
    verify, Artefact, Found, Install, Kind, Placement, Platform, Unpacked, LATEST_NAME, SUMS_NAME,
};
use aop_app::tar::entry_in_tar;
use aop_app::version::{compare, is_newer, parts_of, Order};
use flate2::write::GzEncoder;
use sha2::{Digest, Sha256};
use std::io::Write;

// ---- comparing versions ---------------------------------------------

#[test]
fn a_pre_release_is_older_than_the_release_it_leads_to() {
    assert!(is_newer("1.0.0", "1.0.0-beta"));
    assert!(!is_newer("1.0.0-beta", "1.0.0"));
}

#[test]
fn ten_is_newer_than_nine_rather_than_earlier_in_the_alphabet() {
    assert!(is_newer("1.0.10", "1.0.9"));
    assert!(!is_newer("1.0.9", "1.0.10"));
    assert!(is_newer("1.10.0", "1.9.0"));
}

#[test]
fn newer_numbers_win_over_older_ones() {
    assert!(is_newer("1.1.0", "1.0.9"));
    assert!(is_newer("2.0.0", "1.99.99"));
    assert!(!is_newer("1.0.0", "1.0.0"));
    assert!(!is_newer("0.9.0", "1.0.0"));
}

#[test]
fn pre_release_numbers_compare_as_numbers() {
    assert!(is_newer("1.0.0-beta.10", "1.0.0-beta.9"));
    assert!(is_newer("1.0.0-beta.2", "1.0.0-alpha.9"));
}

#[test]
fn something_that_is_not_a_version_is_never_newer() {
    assert!(!is_newer("nightly", "1.0.0"));
    assert!(!is_newer("", "1.0.0"));
    assert!(!is_newer("1.0.0.0", "1.0.0"));
}

#[test]
fn a_version_is_split_into_its_numbers_and_its_pre_release() {
    assert_eq!(parts_of("1.2.3"), Some((1, 2, 3, None)));
    assert_eq!(parts_of("1.2.3-rc.1"), Some((1, 2, 3, Some("rc.1".to_string()))));
    assert_eq!(parts_of("1.2"), Some((1, 2, 0, None)), "a short tag fills in zeros");
    assert_eq!(parts_of("2+build.7"), Some((2, 0, 0, None)), "build metadata is dropped");
    assert_eq!(parts_of("1.2.3-"), None, "an empty pre-release leaves the dash in the patch");
    assert_eq!(parts_of("1.x.3"), None);
    assert_eq!(parts_of("v1.2.3"), None);
}

#[test]
fn comparing_a_version_with_itself_finds_them_equal() {
    assert_eq!(compare("1.2.3", "1.2.3"), Order::Equal);
    assert_eq!(compare("1.2.3", "1.2.4"), Order::Less);
    assert_eq!(compare("1.2.4-beta", "1.2.3"), Order::Greater);
}

// ---- the latest file ------------------------------------------------

#[test]
fn latest_is_one_line_and_read_as_one() {
    assert_eq!(read_latest("1.0.1\n"), Some("1.0.1".to_string()));
    assert_eq!(read_latest("  1.0.1  \n\n"), Some("1.0.1".to_string()));
    assert_eq!(read_latest("v1.0.1\n"), Some("1.0.1".to_string()));
}

#[test]
fn something_that_is_not_a_version_does_not_become_an_update() {
    for body in ["", "\n\n", "<html>Sign in to the network</html>", "Not Found"] {
        assert_eq!(read_latest(body), None, "{body:?}");
    }
}

#[test]
fn a_latest_file_offers_only_what_is_newer_than_what_runs() {
    assert_eq!(assess_latest("1.0.2\n", "1.0.1"), Ok(Some("1.0.2".to_string())));
    assert_eq!(assess_latest("1.0.1\n", "1.0.1"), Ok(None));
    assert_eq!(
        assess_latest("Not Found", "1.0.1"),
        Err("the version file did not hold a version".to_string())
    );
}

// ---- the manifest ---------------------------------------------------

const MANIFEST: &str = "\
a1b2c3d4e5f60718293a4b5c6d7e8f90a1b2c3d4e5f60718293a4b5c6d7e8f90  alterion-open-project-1.0.1-x86_64-linux.tar.gz
c3d4e5f60718293a4b5c6d7e8f90a1b2c3d4e5f60718293a4b5c6d7e8f90a1b2  AlterionOpenProject-1.0.1-setup.exe
e5f60718293a4b5c6d7e8f90a1b2c3d4e5f60718293a4b5c6d7e8f90a1b2c3d4 *AlterionOpenProject-1.0.1.dmg
";

#[test]
fn the_platforms_line_is_found_by_the_end_of_its_name() {
    let (name, digest) = line_for(MANIFEST, "-x86_64-linux.tar.gz").expect("a linux line");
    assert_eq!(name, "alterion-open-project-1.0.1-x86_64-linux.tar.gz");
    assert!(digest.starts_with("a1b2c3d4"));

    let (name, _) = line_for(MANIFEST, "-setup.exe").expect("a windows line");
    assert_eq!(name, "AlterionOpenProject-1.0.1-setup.exe");
}

#[test]
fn binary_mode_puts_an_asterisk_before_the_name_and_it_is_not_part_of_it() {
    let (name, _) = line_for(MANIFEST, ".dmg").expect("a macos line");
    assert_eq!(name, "AlterionOpenProject-1.0.1.dmg");
}

#[test]
fn a_platform_with_no_line_has_no_build_rather_than_a_guessed_address() {
    let partial = "a1b2c3d4e5f60718293a4b5c6d7e8f90a1b2c3d4e5f60718293a4b5c6d7e8f90  \
                   alterion-open-project-1.0.1-x86_64-linux.tar.gz\n";
    assert!(line_for(partial, "-setup.exe").is_none());
    assert!(line_for(partial, ".dmg").is_none());
    assert!(line_for(partial, "-x86_64-linux.tar.gz").is_some());
}

#[test]
fn a_line_whose_first_field_is_not_a_digest_is_not_a_digest_line() {
    assert!(line_for("not-a-digest  thing-setup.exe\n", "-setup.exe").is_none());
    assert!(line_for("# a comment about setup.exe\n", "-setup.exe").is_none());
    assert!(line_for("", "-setup.exe").is_none());
}

#[test]
fn a_found_release_carries_the_artefact_its_platform_installs_from() {
    let found = found_from("1.0.1".to_string(), MANIFEST, Install::SelfManaged, Platform::Linux);
    assert_eq!(found.version, "1.0.1");
    let artefact = found.artefact.clone().expect("a linux build");
    assert_eq!(artefact.name, "alterion-open-project-1.0.1-x86_64-linux.tar.gz");
    assert!(found.page.ends_with("1.0.1"), "{}", found.page);
    assert!(found.installable(Platform::Linux));

    let none = found_from("1.0.1".to_string(), MANIFEST, Install::SelfManaged, Platform::Other);
    assert!(none.artefact.is_none());
}

// ---- checking a download --------------------------------------------

fn digest_of(bytes: &[u8]) -> String {
    Sha256::digest(bytes)
        .iter()
        .map(|byte| format!("{byte:02x}"))
        .collect()
}

#[test]
fn a_checksum_mismatch_refuses_the_update() {
    let want = digest_of(b"the real artefact");
    let refused = verify(b"something else entirely", &want);
    assert!(refused.is_err(), "a substituted download must be refused");
    assert!(
        refused.unwrap_err().contains("does not match the checksum"),
        "and it must say why"
    );

    assert!(verify(b"the real artefact", &want).is_ok());
}

#[test]
fn a_truncated_download_fails_the_same_check() {
    let want = digest_of(b"a whole artefact, every byte of it");
    assert!(verify(b"a whole artefact", &want).is_err());
}

#[test]
fn the_digest_is_compared_whatever_case_the_manifest_wrote_it_in() {
    let want = digest_of(b"artefact").to_ascii_uppercase();
    assert!(verify(b"artefact", &want).is_ok());
}

#[test]
fn a_mismatch_quotes_the_start_of_both_digests() {
    let want = digest_of(b"one");
    let got = digest_of(b"two");
    let said = verify(b"two", &want).unwrap_err();
    assert!(said.contains(&want[..12]), "{said}");
    assert!(said.contains(&got[..12]), "{said}");
}

// ---- how it was installed -------------------------------------------

#[test]
fn a_package_managed_install_refuses_to_self_update_and_says_how_instead() {
    let pacman = Install::Packaged {
        name: "pacman",
        command: "sudo pacman -Syu",
    };
    assert!(!pacman.self_updates(Platform::Linux), "pacman owns those files");
    let advice = pacman.advice();
    assert!(advice.contains("pacman -Syu"), "got {advice}");
    assert!(advice.contains("pacman"), "it has to name what installed it");
}

#[test]
fn nothing_that_is_not_plainly_ours_replaces_itself() {
    for install in [
        Install::Packaged {
            name: "pacman",
            command: "sudo pacman -Syu",
        },
        Install::SystemWide,
        Install::Bundle,
        Install::Unknown,
    ] {
        assert!(
            !install.self_updates(Platform::Linux),
            "{install:?} must not overwrite itself"
        );
        assert!(
            !install.advice().is_empty(),
            "{install:?} still has to say how to update"
        );
    }
}

#[test]
fn a_copy_of_its_own_replaces_itself_only_where_a_build_can_be_installed() {
    assert!(Install::SelfManaged.self_updates(Platform::Linux));
    assert!(Install::SelfManaged.self_updates(Platform::Windows));
    assert!(!Install::SelfManaged.self_updates(Platform::MacOs));
    assert!(!Install::SelfManaged.self_updates(Platform::Other));
}

#[test]
fn a_system_wide_install_is_recognised_from_where_it_lives() {
    for path in [
        "/usr/bin/alterion-open-project",
        "/usr/local/bin/alterion-open-project",
    ] {
        assert!(is_system_path(path), "{path} should read as a system install");
    }
    assert!(!is_system_path("/home/somebody/.local/bin/alterion-open-project"));
}

#[test]
fn where_a_binary_lives_decides_who_may_replace_it() {
    assert_eq!(
        placement_of("/Applications/Alterion.app/Contents/MacOS/alterion-open-project"),
        Placement::Bundle
    );
    assert_eq!(placement_of("/usr/bin/alterion-open-project"), Placement::System);
    assert_eq!(
        placement_of("/home/somebody/.local/bin/alterion-open-project"),
        Placement::User
    );
    let pacman = Install::Packaged {
        name: "pacman",
        command: "sudo pacman -Syu",
    };
    assert_eq!(install_for(Placement::System, Some(pacman)), pacman);
    assert_eq!(install_for(Placement::System, None), Install::SystemWide);
    assert_eq!(install_for(Placement::User, None), Install::SelfManaged);
    assert_eq!(install_for(Placement::Bundle, None), Install::Bundle);
}

#[test]
fn a_release_with_no_build_for_this_platform_says_so_rather_than_offering_one() {
    let found = Found {
        version: "1.0.1".into(),
        install: Install::SelfManaged,
        artefact: None,
        page: "https://example.test/releases/v1.0.1".into(),
    };
    assert!(!found.installable(Platform::Linux));
    let why = found.why_not(Platform::Linux).expect("a reason");
    assert!(why.contains("no build for this platform"), "got {why}");
}

#[test]
fn a_package_managed_copy_is_told_how_even_when_a_build_exists() {
    let found = Found {
        version: "1.0.1".into(),
        install: Install::Packaged {
            name: "pacman",
            command: "sudo pacman -Syu",
        },
        artefact: Some(Artefact {
            name: "alterion-open-project-1.0.1-x86_64-linux.tar.gz".into(),
            digest: "0".repeat(64),
        }),
        page: "https://example.test/releases/v1.0.1".into(),
    };
    assert!(
        !found.installable(Platform::Linux),
        "a build existing is not permission to overwrite pacman's files"
    );
    assert!(found
        .why_not(Platform::Linux)
        .expect("a reason")
        .contains("pacman -Syu"));
}

#[test]
fn an_install_is_planned_round_the_artefact_the_manifest_named() {
    let found = found_from("1.0.1".to_string(), MANIFEST, Install::SelfManaged, Platform::Linux);
    let (urls, kind) = install_plan(&found, Platform::Linux).expect("installable");
    assert_eq!(kind, Kind::Tarball);
    for url in &urls {
        assert!(url.ends_with("alterion-open-project-1.0.1-x86_64-linux.tar.gz"), "{url}");
    }
    let nothing = found_from("1.0.1".to_string(), "", Install::SelfManaged, Platform::Linux);
    let why = install_plan(&nothing, Platform::Linux).unwrap_err();
    assert!(why.contains("nothing to install"), "{why}");
}

// ---- reading an archive ---------------------------------------------

/// Build a one entry tar archive, the way `tar` lays one out.
fn tar_with(name: &str, body: &[u8]) -> Vec<u8> {
    let mut header = [0u8; 512];
    header[..name.len()].copy_from_slice(name.as_bytes());
    let size = format!("{:011o}\0", body.len());
    header[124..124 + size.len()].copy_from_slice(size.as_bytes());
    header[156] = b'0';

    let mut archive = header.to_vec();
    archive.extend_from_slice(body);
    archive.resize(512 + body.len().div_ceil(512) * 512, 0);
    archive.extend_from_slice(&[0u8; 1024]);
    archive
}

#[test]
fn the_named_entry_comes_out_of_the_archive() {
    let archive = tar_with("alterion-open-project", b"ELF and then some");
    assert_eq!(
        entry_in_tar(&archive, "alterion-open-project"),
        Some(b"ELF and then some".to_vec())
    );
}

#[test]
fn an_archive_without_the_binary_yields_nothing_rather_than_something_else() {
    let archive = tar_with("alterion-open-project.desktop", b"[Desktop Entry]");
    assert_eq!(entry_in_tar(&archive, "alterion-open-project"), None);
}

#[test]
fn a_truncated_archive_is_refused_rather_than_read_past_its_end() {
    let mut archive = tar_with("alterion-open-project", b"a body that is cut off");
    archive.truncate(520);
    assert_eq!(entry_in_tar(&archive, "alterion-open-project"), None);
    assert_eq!(entry_in_tar(&[], "alterion-open-project"), None);
}

fn gzip(bytes: &[u8]) -> Vec<u8> {
    let mut encoder = GzEncoder::new(Vec::new(), flate2::Compression::fast());
    encoder.write_all(bytes).expect("compress");
    encoder.finish().expect("finish")
}

#[test]
fn a_gzip_round_trip_comes_back_the_same() {
    let archive = tar_with("alterion-open-project", b"contents");
    let compressed = gzip(&archive);
    assert_eq!(decompress(&compressed).expect("decompress"), archive);
    assert!(decompress(b"not a gzip stream at all").is_err());
}

#[test]
fn a_checked_tarball_yields_the_binary_inside_it() {
    let archive = tar_with("alterion-open-project", b"the new program");
    let compressed = gzip(&archive);
    let artefact = Artefact {
        name: "alterion-open-project-1.0.1-x86_64-linux.tar.gz".into(),
        digest: digest_of(&compressed),
    };
    assert_eq!(
        unpack(&artefact, Kind::Tarball, &compressed),
        Ok(Unpacked::Binary(b"the new program".to_vec()))
    );
    assert_eq!(
        unpack(&artefact, Kind::Installer, &compressed),
        Ok(Unpacked::Installer(compressed.clone()))
    );
    assert!(unpack(&artefact, Kind::Tarball, b"tampered").is_err());
    assert!(unpack(&artefact, Kind::Image, &compressed).is_err());
}

// ---- addresses ------------------------------------------------------

#[test]
fn every_address_asked_for_is_an_encrypted_one() {
    for url in descriptor_urls(LATEST_NAME)
        .into_iter()
        .chain(artefact_urls("1.0.1", SUMS_NAME))
        .chain([release_page("1.0.1")])
    {
        assert!(url.starts_with("https://"), "{url}");
    }
}

#[test]
fn the_origin_is_asked_before_the_mirror() {
    let [first, second] = descriptor_urls(LATEST_NAME);
    assert!(first.contains("gitlab.com"), "got {first}");
    assert!(second.contains("github.com"), "got {second}");

    let [first, second] = artefact_urls("1.0.1", "thing.tar.gz");
    assert!(first.contains("gitlab.com"), "got {first}");
    assert!(second.contains("github.com"), "got {second}");
}

#[test]
fn the_descriptors_sit_in_a_slot_no_release_can_move() {
    let [gitlab, _] = descriptor_urls(LATEST_NAME);
    assert!(gitlab.ends_with("/packages/generic/alterion-open-project/latest/latest"));
    let [gitlab, _] = descriptor_urls(SUMS_NAME);
    assert!(gitlab.ends_with("/packages/generic/alterion-open-project/latest/SHA256SUMS"));
    assert!(
        !gitlab.contains("releases/permalink"),
        "the release permalink needs direct asset links the registry does not produce"
    );
}

#[test]
fn an_artefact_address_is_only_ever_built_round_a_name_the_manifest_gave() {
    let (name, _) = line_for(MANIFEST, "-x86_64-linux.tar.gz").expect("a linux line");
    for url in artefact_urls("1.0.1", &name) {
        assert!(url.ends_with(&name), "{url}");
    }
}

#[test]
fn a_host_is_named_by_what_sits_between_the_scheme_and_the_path() {
    assert_eq!(host_of("https://gitlab.com/api/v4/projects"), "gitlab.com");
    assert_eq!(host_of("https://github.com"), "github.com");
}

#[test]
fn missing_numbers_and_build_metadata_do_not_count() {
    assert_eq!(compare("2", "2.0.0"), Order::Equal);
    assert_eq!(compare("2.0", "2.0.0"), Order::Equal);
    assert_eq!(compare("1.0.0+abc", "1.0.0"), Order::Equal);
    assert_eq!(compare("1.0.0", "1.0.0+abc"), Order::Equal);
    assert!(!is_newer("1.0.0+zzz", "1.0.0+aaa"));
}
