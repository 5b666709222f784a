use aop_app::places::{browser_roots, home_from, offered_in_browser, root_candidates_of};
use aop_app::release::Platform;

#[test]
fn home_is_read_from_the_variable_each_platform_sets() {
    assert_eq!(
        home_from(Platform::Windows, None, Some("C:\\Users\\ada"), None, None).as_deref(),
        Some("C:\\Users\\ada")
    );
    assert_eq!(
        home_from(Platform::Linux, Some("/home/ada"), Some("C:\\Users\\ada"), None, None)
            .as_deref(),
        Some("/home/ada")
    );
    assert_eq!(
        home_from(Platform::Windows, Some("/home/ada"), Some("C:\\Users\\ada"), None, None)
            .as_deref(),
        Some("C:\\Users\\ada")
    );
    assert_eq!(
        home_from(Platform::Linux, Some(""), Some("/home/other"), None, None).as_deref(),
        Some("/home/other"),
        "a variable set to nothing does not count"
    );
}

#[test]
fn windows_splits_the_home_folder_in_two_when_it_has_to() {
    assert_eq!(
        home_from(Platform::Windows, None, None, Some("C:"), Some("\\Users\\ada")).as_deref(),
        Some("C:\\Users\\ada")
    );
    assert_eq!(home_from(Platform::Windows, None, None, Some("C:"), None), None);
    assert_eq!(home_from(Platform::Linux, None, None, None, None), None);
}

#[test]
fn only_windows_has_drives_to_walk_between() {
    let candidates = root_candidates_of(Platform::Windows);
    assert_eq!(candidates.len(), 26);
    assert_eq!(candidates[0], "A:\\");
    assert_eq!(candidates[2], "C:\\");
    assert_eq!(candidates[25], "Z:\\");
    assert!(root_candidates_of(Platform::Linux).is_empty());
    let mut present = vec![false; 26];
    present[2] = true;
    present[3] = true;
    assert!(browser_roots(Platform::Linux, &present).is_empty());
    assert!(browser_roots(Platform::MacOs, &present).is_empty());
}

#[test]
fn only_the_drives_that_are_there_are_offered_in_letter_order() {
    let mut present = vec![false; 26];
    present[3] = true;
    present[2] = true;
    present[25] = true;
    assert_eq!(
        browser_roots(Platform::Windows, &present),
        vec!["C:\\".to_string(), "D:\\".to_string(), "Z:\\".to_string()]
    );
    assert!(browser_roots(Platform::Windows, &vec![]).is_empty());
}

#[test]
fn a_browser_offers_everything_the_opener_can_read() {
    let imported = vec!["xlsx", "xls", "xlsm", "ods"];
    for extension in &imported {
        assert!(offered_in_browser(Some(extension), false, "plan", &imported), ".{extension}");
        let shouted = extension.to_uppercase();
        assert!(offered_in_browser(Some(&shouted), false, "plan", &imported), ".{shouted}");
    }
    assert!(offered_in_browser(Some("plan"), false, "plan", &imported));
    assert!(offered_in_browser(Some("PLAN"), true, "plan", &imported));
    assert!(
        !offered_in_browser(Some("xlsx"), true, "plan", &imported),
        "saving narrows to the plan format"
    );
    assert!(!offered_in_browser(Some("txt"), false, "plan", &imported));
    assert!(!offered_in_browser(None, false, "plan", &imported));
}
