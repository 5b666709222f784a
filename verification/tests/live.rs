use aop_app::live::{
    Arrival, Arrivals, LiveStream, LocalCopy, Settled, LOCAL_COPY_AFTER_MILLIS, STREAM_AFTER_MILLIS, STREAM_ANSWER_SECONDS,
    STREAM_BATCH, STREAM_RETRY_MILLIS,
};
use aop_app::state::Working;

fn streaming() -> LiveStream {
    let mut stream = LiveStream::new();
    stream.connected = true;
    stream.stream_out = true;
    stream
}

#[test]
fn an_edit_arms_the_stream_after_a_pause() {
    let mut stream = streaming();
    stream.work_to_offer(1_000);
    assert_eq!(stream.due, Some(1_000 + STREAM_AFTER_MILLIS));
    assert!(!stream.stream_due(1_100, true), "not during the pause");
    assert!(stream.stream_due(1_000 + STREAM_AFTER_MILLIS, true));
    stream.work_to_offer(1_200);
    assert_eq!(stream.due, Some(1_000 + STREAM_AFTER_MILLIS), "a later edit does not push it back");
}

#[test]
fn nothing_streams_without_a_session() {
    let mut stream = LiveStream::new();
    stream.work_to_offer(0);
    assert!(!stream.stream_due(10_000, true));
}

#[test]
fn a_server_that_does_not_take_work_is_not_streamed_to() {
    let mut stream = streaming();
    stream.stream_out = false;
    stream.work_to_offer(0);
    assert!(!stream.streams_out());
    assert!(!stream.stream_due(10_000, true));
    assert!(stream.after_save(10_000, true, true), "the usual sync carries it instead");
}

#[test]
fn a_save_sends_waiting_work_at_once() {
    let mut stream = streaming();
    assert!(!stream.after_save(500, true, true));
    assert_eq!(stream.due, Some(500));
    let mut unlinked = streaming();
    assert!(!unlinked.after_save(500, false, true));
    assert_eq!(unlinked.due, None);
}

#[test]
fn one_batch_goes_at_a_time_and_never_more_than_a_page() {
    let mut stream = streaming();
    stream.work_to_offer(0);
    let sent = stream.start_offer(None, 1_000, STREAM_BATCH + 50, true);
    assert_eq!(sent, Some(STREAM_BATCH));
    assert_eq!(stream.in_flight, Some(1_000));
    assert!(stream.start_offer(None, 2_000, 50, true).is_none(), "one is already out");
    stream.batch_answered();
    stream.work_to_offer(2_000);
    assert_eq!(stream.start_offer(None, 3_000, 50, true), Some(50));
}

#[test]
fn a_sync_moving_the_same_work_keeps_the_stream_quiet() {
    let mut stream = streaming();
    stream.work_to_offer(0);
    assert!(stream.start_offer(Some(Working::Syncing), 1_000, 3, true).is_none());
    assert!(stream.start_offer(Some(Working::Fetching), 1_000, 3, true).is_none());
    assert!(stream.start_offer(Some(Working::ReadingAccount), 1_000, 3, true).is_some());
}

#[test]
fn a_batch_nobody_answers_is_given_up_on_and_the_next_one_is_offered() {
    let mut stream = streaming();
    stream.in_flight = Some(0);
    let now = (STREAM_ANSWER_SECONDS + 1) * 1_000;
    assert!(stream.stream_unanswered(now), "long enough to be a fault rather than a wait");

    let told = stream.gave_up_on_batch(now);

    assert!(stream.in_flight.is_none(), "the socket is free to carry the next batch");
    assert_eq!(stream.due, Some(now + STREAM_RETRY_MILLIS), "offered again after a pause");
    assert!(
        told.is_some_and(|(said, status)| said.contains("not answered")
            && status == "The live connection is not answering"),
        "and somebody is told"
    );
}

#[test]
fn a_connection_that_keeps_saying_nothing_is_complained_about_once() {
    let mut stream = streaming();
    let late = (STREAM_ANSWER_SECONDS + 1) * 1_000;

    stream.in_flight = Some(0);
    assert!(stream.gave_up_on_batch(late).is_some(), "said the first time");

    stream.in_flight = Some(late);
    assert!(stream.gave_up_on_batch(2 * late).is_none(), "and not again");

    stream.batch_answered();
    stream.in_flight = Some(2 * late);
    assert!(stream.gave_up_on_batch(3 * late).is_some(), "a session that recovers and fails again says so");
}

#[test]
fn a_batch_still_inside_its_deadline_is_waited_for() {
    let mut stream = streaming();
    stream.in_flight = Some(1_000);
    assert!(!stream.stream_unanswered(1_000 + STREAM_ANSWER_SECONDS * 1_000 - 1));
    assert!(stream.gave_up_on_batch(2_000).is_none());
    assert_eq!(stream.in_flight, Some(1_000));
}

#[test]
fn somebody_elses_work_waits_for_the_editor_and_for_a_push() {
    let mut stream = streaming();
    stream.held = 2;
    assert!(stream.held_work_due(false, None));
    assert!(!stream.held_work_due(true, None), "not under somebody typing");
    assert!(!stream.held_work_due(false, Some(Working::Syncing)), "not while a push is out");
    stream.work_to_offer(0);
    assert!(!stream.stream_due(10_000, true), "and it goes in ahead of this copy's work");
}

#[test]
fn the_local_copy_is_written_once_a_run_of_edits_stops() {
    let mut copy = LocalCopy { kept: true, due: None };
    copy.touch(100);
    copy.touch(900);
    assert_eq!(copy.due, Some(100 + LOCAL_COPY_AFTER_MILLIS));
    assert!(!copy.is_due(1_000));
    assert!(copy.is_due(100 + LOCAL_COPY_AFTER_MILLIS));
    copy.written();
    assert!(!copy.is_due(100_000));

    let mut none = LocalCopy { kept: false, due: None };
    none.touch(0);
    assert!(!none.is_due(100_000));
}

#[test]
fn a_server_that_takes_work_is_streamed_to_at_once() {
    let mut stream = LiveStream::new();
    stream.in_flight = Some(5);
    stream.silence_told = true;
    let (status, message, sync_instead) = stream.connected(true, 700, true);
    assert_eq!(status, "Live editing is on");
    assert!(message.is_none());
    assert!(!sync_instead);
    assert!(stream.connected && stream.stream_out && !stream.silence_told);
    assert_eq!(stream.in_flight, None);
    assert_eq!(stream.due, Some(700));
    assert!(stream.stream_due(700, true));
}

#[test]
fn a_server_that_only_lets_this_copy_watch_says_so_and_sync_carries_the_work() {
    let mut stream = LiveStream::new();
    let (status, message, sync_instead) = stream.connected(false, 10, true);
    assert_eq!(status, "Live editing is on, for watching only");
    assert!(message.unwrap().starts_with("This server does not understand edits"));
    assert!(sync_instead);
    assert!(!stream.streams_out());
    let (_, _, nothing_to_carry) = LiveStream::new().connected(false, 10, false);
    assert!(!nothing_to_carry);
}

#[test]
fn a_failed_connection_keeps_what_the_server_said_and_a_closed_one_forgets_it() {
    let mut stream = streaming();
    stream.held = 3;
    stream.due = Some(4);
    stream.connect_failed(false);
    assert!(!stream.stream_out);
    assert_eq!(stream.held, 3);
    assert_eq!(stream.due, Some(4));
    stream.in_flight = Some(9);
    stream.stopped();
    assert!(!stream.connected && stream.stream_out);
    assert_eq!(stream.in_flight, None);
    assert_eq!(stream.due, None);
    assert_eq!(stream.held, 0);
}

#[test]
fn what_did_not_fit_in_a_batch_goes_next_at_once() {
    let mut stream = streaming();
    stream.offer_if_unsent(50, false);
    assert_eq!(stream.due, None);
    stream.offer_if_unsent(50, true);
    assert_eq!(stream.due, Some(50));
}

#[test]
fn a_batch_of_messages_reads_the_log_to_its_furthest_point_in_order() {
    let mut stream = streaming();
    let mut got: Arrivals<&str> = Arrivals::new();
    got.take(&mut stream, Arrival::Welcome { head: 3, connection: Some(41) }, 0);
    assert_eq!(got.connection, Some(Some(41)));
    got.take(&mut stream, Arrival::Change { seq: 5, change: "a" }, 0);
    got.take(&mut stream, Arrival::Catchup { head: 7, changes: vec!["b", "c"] }, 0);
    got.take(&mut stream, Arrival::Change { seq: 4, change: "d" }, 0);
    assert_eq!(got.cursor, Some(7));
    assert_eq!(got.incoming, vec!["a", "b", "c", "d"]);
    match got.settle(None) {
        (Settled::Apply(changes, cursor), closed) => {
            assert_eq!(changes, vec!["a", "b", "c", "d"]);
            assert_eq!(cursor, Some(7));
            assert!(closed.is_none());
        }
        _ => panic!("their changes go in"),
    }
}

#[test]
fn an_acknowledgement_marks_only_the_highest_id_and_frees_the_socket() {
    let mut stream = streaming();
    stream.in_flight = Some(1);
    stream.silence_told = true;
    let mut got: Arrivals<u8> = Arrivals::new();
    let (ack, said) = got.take(
        &mut stream,
        Arrival::Applied { head: 12, applied: vec![(4, 10), (9, 11), (6, 12)], snapshot_wanted: true },
        100,
    );
    let ack = ack.unwrap();
    assert_eq!(ack.mark_pushed, Some(9));
    assert_eq!(ack.reached, 12);
    assert!(ack.snapshot_wanted);
    assert!(said.is_none());
    assert_eq!(stream.in_flight, None);
    assert!(!stream.silence_told);
    let (empty, _) = got.take(&mut stream, Arrival::Applied { head: 12, applied: vec![], snapshot_wanted: false }, 100);
    assert_eq!(empty.unwrap().mark_pushed, None);
    assert!(matches!(got.settle(None).0, Settled::Quiet));
}

#[test]
fn a_refusal_is_told_only_with_a_reason_and_offered_again_after_a_pause() {
    let mut stream = streaming();
    stream.in_flight = Some(1);
    let mut got: Arrivals<u8> = Arrivals::new();
    let (_, said) = got.take(&mut stream, Arrival::Refused("  ".into()), 1_000);
    assert!(said.is_none());
    assert_eq!(stream.due, Some(1_000 + STREAM_RETRY_MILLIS));
    let (_, said) = got.take(&mut stream, Arrival::Refused("too big".into()), 2_000);
    assert_eq!(
        said.unwrap(),
        "The server would not take a change: too big. It is still here and will be offered again."
    );
}

#[test]
fn a_batch_refused_as_behind_brings_their_work_and_goes_again_at_once() {
    let mut stream = streaming();
    stream.in_flight = Some(1);
    let mut got: Arrivals<u8> = Arrivals::new();
    got.take(&mut stream, Arrival::Behind { head: 8, changes: vec![1, 2] }, 300);
    assert_eq!(stream.in_flight, None);
    assert_eq!(stream.due, Some(300));
    assert_eq!(got.cursor, Some(8));
    assert!(matches!(got.settle(None).0, Settled::Apply(ref v, Some(8)) if v == &vec![1, 2]));
}

#[test]
fn their_work_waits_while_a_push_of_this_copys_is_out() {
    let mut stream = streaming();
    let mut got: Arrivals<u8> = Arrivals::new();
    got.take(&mut stream, Arrival::Change { seq: 2, change: 7 }, 0);
    got.take(&mut stream, Arrival::Closed("bye".into()), 0);
    match got.settle(Some(Working::Syncing)) {
        (Settled::Hold(v), closed) => {
            assert_eq!(v, vec![7]);
            assert_eq!(closed.as_deref(), Some("bye"));
        }
        _ => panic!("held"),
    }
}

#[test]
fn a_copy_ahead_of_the_server_or_past_its_log_stops_everything_else() {
    let mut stream = streaming();
    let mut ahead: Arrivals<u8> = Arrivals::new();
    ahead.take(&mut stream, Arrival::Change { seq: 2, change: 7 }, 0);
    ahead.take(&mut stream, Arrival::Gap, 0);
    ahead.take(&mut stream, Arrival::Ahead { head: 3, cursor: 9 }, 0);
    assert!(matches!(ahead.settle(None), (Settled::Ahead { head: 3, cursor: 9 }, None)));

    let mut gap: Arrivals<u8> = Arrivals::new();
    gap.take(&mut stream, Arrival::Change { seq: 2, change: 7 }, 0);
    gap.take(&mut stream, Arrival::Gap, 0);
    match gap.settle(None) {
        (Settled::Gap(why), None) => assert!(why.starts_with("The server's log has been trimmed")),
        _ => panic!("a gap wants a whole plan"),
    }
}

#[test]
fn who_joined_and_who_left_are_gathered_for_the_caller() {
    let mut stream = streaming();
    let mut got: Arrivals<u8> = Arrivals::new();
    got.take(&mut stream, Arrival::Welcome { head: 1, connection: None }, 0);
    assert_eq!(got.connection, Some(None), "an older server gives no handle");
    got.take(&mut stream, Arrival::Joined { name: "Ada".into() }, 0);
    got.take(&mut stream, Arrival::Left { subject: "u-1".into() }, 0);
    got.take(&mut stream, Arrival::Joined { name: "Grace".into() }, 0);
    got.take(&mut stream, Arrival::Left { subject: "u-2".into() }, 0);
    assert_eq!(got.joined.as_deref(), Some("Grace joined this plan"));
    assert_eq!(got.left, vec!["u-1".to_string(), "u-2".to_string()]);
    assert!(matches!(got.settle(None).0, Settled::Quiet));
}
