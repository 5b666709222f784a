use aop_app::state::{default_qat_commands, QatCommand, RecentEntry};
use aop_app::stored::{qat_from_json, qat_json, recent_from_json, recent_json};

#[test]
fn a_stored_toolbar_comes_back_as_it_was_written() {
    let toolbar = vec![QatCommand::Print, QatCommand::Save, QatCommand::Redo];
    let text = qat_json(&toolbar).expect("a list of names always writes");
    assert_eq!(qat_from_json(&text), toolbar);
}

#[test]
fn a_toolbar_file_that_is_not_a_list_gives_the_default() {
    assert_eq!(qat_from_json("{ \"not\": \"a list\" }"), default_qat_commands());
    assert_eq!(qat_from_json("[\"nothing\", \"known\"]"), default_qat_commands());
    assert_eq!(qat_from_json(""), default_qat_commands());
}

#[test]
fn the_recent_list_is_stored_as_its_paths() {
    let entries = vec![
        RecentEntry { name: "bridge".into(), path: "/plans/bridge.aop".into() },
        RecentEntry { name: "tunnel".into(), path: "/plans/tunnel.aop".into() },
    ];
    let text = recent_json(&entries).expect("writes");
    assert_eq!(
        recent_from_json(&text),
        vec!["/plans/bridge.aop".to_string(), "/plans/tunnel.aop".to_string()]
    );
    assert!(recent_from_json("garbage").is_empty());
}
