use aop_app::collaborate::{push_answered, Collaboration, PushAnswer, SyncDialog};
use aop_app::state::{CheckOutcome, Working};

fn ready() -> Collaboration {
    Collaboration {
        collaborate: true,
        server: "https://collab.example.test".into(),
        idp_issuer: "https://id.example.test".into(),
        idp_client_id: "aop".into(),
        signed_in: true,
        linked: true,
        saved: true,
        working: None,
        cloud_message: None,
        invite_email: String::new(),
        invite_role: "editor".into(),
    }
}

const BUSY: &str = "Something else is talking to the server. Wait for it to finish.";

#[test]
fn a_sign_in_names_the_field_still_missing() {
    let mut c = ready();
    c.idp_issuer = "   ".into();
    assert_eq!(c.sign_in_blocked(), Some("Fill in the identity provider address first."));
    c.idp_issuer = "https://id.example.test".into();
    c.idp_client_id = String::new();
    assert_eq!(c.sign_in_blocked(), Some("Fill in the client ID first."));
    c.idp_client_id = "aop".into();
    c.working = Some(Working::Syncing);
    assert_eq!(c.sign_in_blocked(), Some(BUSY));
}

#[test]
fn starting_a_sign_in_hands_over_the_trimmed_fields_and_waits() {
    let mut c = ready();
    c.idp_issuer = "  https://id.example.test ".into();
    c.cloud_message = Some("old news".into());
    let asked = c.start_sign_in();
    assert_eq!(
        asked,
        Some(("https://id.example.test".to_string(), "aop".to_string()))
    );
    assert_eq!(c.working, Some(Working::SigningIn));
    assert!(c.cloud_message.is_none());
    assert!(c.start_sign_in().is_none(), "not twice at once");
}

#[test]
fn a_sign_in_shows_the_email_address_or_the_name() {
    let mut c = ready();
    c.signed_in = false;
    let status = c.sign_in_landed(Ok(("Ada".into(), "ada@example.test".into())));
    assert_eq!(status.as_deref(), Some("Signed in as ada@example.test"));
    assert_eq!(c.cloud_message.as_deref(), Some("Signed in as ada@example.test."));
    assert!(c.signed_in);

    let status = c.sign_in_landed(Ok(("Ada".into(), String::new())));
    assert_eq!(status.as_deref(), Some("Signed in as Ada"));

    let mut refused = ready();
    refused.signed_in = false;
    assert!(refused.sign_in_landed(Err("The browser window was closed.".into())).is_none());
    assert!(!refused.signed_in);
    assert_eq!(refused.cloud_message.as_deref(), Some("The browser window was closed."));
}

#[test]
fn a_sign_out_signs_out_whatever_the_server_said() {
    let mut c = ready();
    assert_eq!(c.sign_out_landed(Err("The server could not be reached.".into())), "Signed out");
    assert!(!c.signed_in);
    assert_eq!(c.cloud_message.as_deref(), Some("The server could not be reached."));
    c.signed_in = true;
    c.sign_out_landed(Ok(()));
    assert_eq!(
        c.cloud_message.as_deref(),
        Some("Signed out. Nothing has been removed from this machine.")
    );
}

#[test]
fn sync_says_what_is_missing_in_the_order_it_has_to_be_fixed() {
    let mut c = ready();
    assert!(c.sync_blocked().is_none());
    c.working = Some(Working::Publishing);
    assert_eq!(c.sync_blocked().as_deref(), Some(BUSY));
    c.working = None;
    c.linked = false;
    assert!(c.sync_blocked().unwrap().contains("on this machine only"));
    c.signed_in = false;
    assert!(c.sync_blocked().unwrap().starts_with("Not signed in."));
    c.server = " ".into();
    assert!(c.sync_blocked().unwrap().starts_with("No Collaborate server address is set."));
    c.collaborate = false;
    assert_eq!(
        c.sync_blocked().as_deref(),
        Some("Alterion Collaborate is turned off. Turn it on in Options to sync this plan.")
    );
}

#[test]
fn a_plan_goes_on_the_server_once_and_only_from_a_file() {
    let mut c = ready();
    assert_eq!(c.publish_blocked().as_deref(), Some("This plan is already on the server."));
    c.linked = false;
    assert!(c.publish_blocked().is_none());
    c.saved = false;
    assert_eq!(
        c.publish_blocked().as_deref(),
        Some("Save this plan to a file first, so the link to the server can be kept.")
    );
}

#[test]
fn a_plan_on_this_machine_only_has_nobody_to_share_with() {
    let mut c = ready();
    assert!(c.sharing_blocked().is_none());
    c.linked = false;
    assert!(c.sharing_blocked().unwrap().contains("nobody to share it with yet"));
    c.linked = true;
    c.server = String::new();
    assert_eq!(
        c.sharing_blocked().as_deref(),
        Some("No Collaborate server address is set. Fill it in above.")
    );
}

#[test]
fn an_invite_needs_one_address_with_an_at_in_it() {
    let mut c = ready();
    c.invite_email = "   ".into();
    assert_eq!(
        c.invite_ready(),
        Err("Type the email address of whoever you want to invite.".to_string())
    );
    c.invite_email = "ada.example.test".into();
    assert_eq!(
        c.invite_ready(),
        Err("That is not an email address. It needs an @ in it.".to_string())
    );
    for wrong in ["@example.test", "ada@", "ada @example.test", "ada@example.test bob@x"] {
        c.invite_email = wrong.into();
        assert_eq!(
            c.invite_ready(),
            Err("That is not an email address. One address, with no spaces.".to_string()),
            "{wrong}"
        );
    }
    c.invite_email = "  ada@example.test ".into();
    assert_eq!(
        c.invite_ready(),
        Ok(("ada@example.test".to_string(), "editor".to_string()))
    );
}

#[test]
fn a_session_goes_to_one_worker_at_a_time() {
    let mut c = ready();
    let mut session = Some(42u32);
    assert_eq!(c.hand_over(&mut session, Working::Syncing), Some(42));
    assert!(session.is_none());
    assert_eq!(c.working, Some(Working::Syncing));
    assert_eq!(c.hand_over(&mut session, Working::Fetching), None);
    c.hand_back(&mut session, 42);
    assert_eq!(session, Some(42));
    assert!(c.working.is_none());
}

#[test]
fn a_worker_that_never_came_back_is_said_so() {
    let mut c = ready();
    c.working = Some(Working::Syncing);
    c.worker_lost("The sync");
    assert!(c.working.is_none());
    assert_eq!(
        c.cloud_message.as_deref(),
        Some("The sync stopped unexpectedly. Try it again.")
    );
}

#[test]
fn an_applied_sync_marks_the_highest_id_and_reads_to_the_head() {
    let r = push_answered(PushAnswer::Applied { head: 40, applied: vec![(3, 38), (5, 39), (4, 40)] });
    assert_eq!(r.checked, CheckOutcome::Current);
    assert_eq!(r.status, "3 changes sent.");
    assert_eq!(r.message.as_deref(), Some("3 changes sent."));
    assert_eq!(r.mark_pushed, Some(5));
    assert_eq!(r.reached, Some(40));
    assert!(r.touch_local_copy && !r.forget_link);
    assert!(matches!(r.dialog, SyncDialog::Nothing));

    let none = push_answered(PushAnswer::Applied { head: 40, applied: vec![] });
    assert_eq!(none.status, "Already up to date. Nothing was waiting to go.");
    assert_eq!(none.mark_pushed, None);
}

#[test]
fn a_refused_sync_says_why_and_forgets_a_plan_that_is_gone() {
    let r = push_answered(PushAnswer::Refused { why: "no such plan".into(), gone: true });
    assert_eq!(r.checked, CheckOutcome::Failed("no such plan".into()));
    assert_eq!(r.status, "Could not sync");
    assert_eq!(r.message.as_deref(), Some("no such plan"));
    assert!(r.forget_link);
    assert_eq!(r.mark_pushed, None);
    assert!(!push_answered(PushAnswer::Refused { why: "busy".into(), gone: false }).forget_link);
}

#[test]
fn a_sync_behind_ahead_or_past_the_log_puts_the_question() {
    let behind = push_answered(PushAnswer::Behind {
        head: 9,
        changes: 2,
        sentence: "They added 2 tasks.".into(),
    });
    assert_eq!(behind.checked, CheckOutcome::Behind { by: 2 });
    assert_eq!(behind.message.as_deref(), Some("They added 2 tasks."));
    assert_eq!(behind.status, "Somebody else changed this plan first");
    assert!(matches!(behind.dialog, SyncDialog::Behind { head: 9, ref sentence } if sentence == "They added 2 tasks."));
    assert_eq!(behind.reached, None);

    let ahead = push_answered(PushAnswer::Ahead { head: 3, cursor: 7 });
    assert_eq!(ahead.checked, CheckOutcome::Failed("this copy is not on the same log".into()));
    assert!(matches!(ahead.dialog, SyncDialog::Ahead { head: 3, cursor: 7 }));

    let gap = push_answered(PushAnswer::Gap { head: 20, oldest: Some(15) });
    assert_eq!(gap.status, "This copy is too far behind to catch up");
    match gap.dialog {
        SyncDialog::FreshCopy(why) => {
            assert!(why.contains("the oldest change it still keeps is 15"));
            assert!(why.contains("the head is now 20"));
        }
        _ => panic!("a gap wants a whole plan"),
    }
}
