use std::collections::HashMap;

use crossbeam_channel::bounded;
use paneru::ax_reads::{AxReadService, CachedRead, ReadJob, ReadPoll};
use paneru::ax_writer::{
    drain_batch, plan_push, push_position, AxWriteAck, AxWriteJob, AxWriteState, AxWriterQueue,
    PushOutcome, PushPlan, PushTarget, EPOCH_MEMBER_CAP, STUCK_WRITER_EPOCHS,
};
use paneru::ecs::sync::{SyncCounters, WindowSync};
use paneru::ecs::systems::landing::{
    answer_move_echo, drain_ax_acks, MoveFacts, MovedWindow, WriterHealth,
};
use paneru::ecs::systems::motion::{
    commit_window_position, commit_window_size, CommitTarget, SizeWrite,
};
use paneru::geometry::{IRect, Origin, Size};
use paneru::time::Duration;

fn ms(millis: u64) -> Duration {
    Duration::from_millis(millis)
}

#[test]
fn stale_cache_is_not_served() {
    let mut service = AxReadService::default();
    let (tx, _rx) = bounded::<ReadJob>(1);
    let frame = IRect::new(0, 0, 10, 10);
    service.cache.insert(7, CachedRead { frame, at: ms(0) });
    assert_eq!(service.poll_or_request(7, None, ms(500), ms(1500), &tx), ReadPoll::Unavailable);
    assert_eq!(service.poll_or_request(7, None, ms(500), ms(500), &tx), ReadPoll::Ready(frame));
}

#[test]
fn full_queue_degrades_to_sync() {
    let (tx, _rx) = bounded::<ReadJob>(0);
    let mut service = AxReadService::default();
    assert_eq!(service.poll_or_request(7, None, ms(500), ms(0), &tx), ReadPoll::Unavailable);
    assert_eq!(service.poll_or_request(7, Some(70), ms(500), ms(0), &tx), ReadPoll::Unavailable);
}

#[test]
fn answers_are_served_to_the_next_poll() {
    let (tx, rx) = bounded::<ReadJob>(4);
    let mut service = AxReadService::default();
    let frame = IRect::new(1, 2, 30, 40);
    assert_eq!(service.poll_or_request(7, Some(70), ms(500), ms(0), &tx), ReadPoll::Pending);
    assert_eq!(service.poll_or_request(7, Some(70), ms(500), ms(5), &tx), ReadPoll::Pending);
    let job = rx.try_recv().expect("one request is out");
    assert_eq!((job.win_id, job.element), (7, 70));
    assert!(rx.try_recv().is_err(), "a pending request is not repeated");
    service.record_answer(job, Some(frame), ms(10));
    assert_eq!(service.poll_or_request(7, Some(70), ms(500), ms(12), &tx), ReadPoll::Ready(frame));
}

#[test]
fn write_state_tracks_inflight_truth() {
    let mut state = AxWriteState::default();
    assert!(!state.unacked(7));
    let e1 = state.begin_frame();
    let s1 = state.issue(7, e1);
    let s2 = state.issue(7, e1);
    assert!(s2 > s1, "sequences increase per enqueue");
    assert!(state.unacked(7));
    state.acknowledge(7, s1, e1);
    assert!(state.unacked(7), "stale ack does not clear newer truth");
    state.acknowledge(7, s2, e1);
    assert!(!state.unacked(7));
    assert!(!state.unacked(9));
}

#[test]
fn write_state_is_per_window() {
    let mut state = AxWriteState::default();
    let e1 = state.begin_frame();
    let s1 = state.issue(1, e1);
    state.issue(2, e1);
    state.acknowledge(1, s1, e1);
    assert!(!state.unacked(1));
    assert!(state.unacked(2), "one window's ack clears only itself");
}

#[test]
fn same_target_repush_is_deduped() {
    let mut state = AxWriteState::default();
    let target = Origin::new(10, 20);
    assert!(!state.already_sent(3, target));
    state.record_sent(3, target);
    assert!(state.already_sent(3, target));
    assert!(!state.already_sent(3, Origin::new(11, 20)));
    assert!(!state.already_sent(4, target));
}

#[test]
fn epoch_lands_only_when_every_member_acked() {
    let mut state = AxWriteState::default();
    assert_eq!(state.last_landed(), 0);
    let e1 = state.begin_frame();
    let e2 = state.begin_frame();
    assert_eq!((e1, e2), (1, 2));
    assert!(state.landed(1), "empty epochs land vacuously");
    assert!(state.landed(2), "empty epochs land vacuously");

    let e3 = state.begin_frame();
    let s1 = state.issue(1, e3);
    let s2 = state.issue(2, e3);
    assert!(!state.landed(e3));
    state.acknowledge(1, s1, e3);
    assert!(!state.landed(e3), "one sibling still traveling");
    assert_eq!(state.last_landed(), 2);
    state.acknowledge(2, s2, e3);
    assert!(state.landed(e3));
    assert_eq!(state.last_landed(), 3, "frontier advances past it");
}

#[test]
fn newer_landed_write_counts_for_its_epoch() {
    let mut state = AxWriteState::default();
    let e1 = state.begin_frame();
    let s1 = state.issue(1, e1);
    let e2 = state.begin_frame();
    let s2 = state.issue(1, e2);
    state.acknowledge(1, s2, e2);
    assert!(state.landed(e1), "superseded by a landed newer write");
    assert!(state.landed(e2));
    assert_eq!(state.last_landed(), 2);
    state.acknowledge(1, s1, e1);
    assert_eq!(state.last_landed(), 2);
}

#[test]
fn stall_watchdog_edges_and_rearms() {
    let mut state = AxWriteState::default();
    assert_eq!(state.check_stall(), None);
    let e1 = state.begin_frame();
    state.issue(1, e1);
    assert_eq!(state.check_stall(), None, "one frame behind is motion");
    for _ in 0..STUCK_WRITER_EPOCHS {
        let e = state.begin_frame();
        state.issue(1, e);
    }
    let gap = state.check_stall();
    assert!(
        gap.is_some_and(|g| g >= STUCK_WRITER_EPOCHS),
        "stuck worker must trip the watchdog"
    );
    assert_eq!(state.check_stall(), None);
    let e = state.begin_frame();
    state.issue(1, e);
    assert!(state.check_stall().is_some(), "a growing gap re-warns");
}

#[test]
fn landed_epochs_prune_and_cap_members() {
    let mut state = AxWriteState::default();
    let e1 = state.begin_frame();
    let s1 = state.issue(1, e1);
    state.acknowledge(1, s1, e1);
    assert_eq!(state.last_landed(), 1);
    for _ in 0..(EPOCH_MEMBER_CAP + 4) {
        let e = state.begin_frame();
        state.issue(9, e);
    }
    assert!(
        state.epoch_members.len() <= EPOCH_MEMBER_CAP,
        "unlanded epochs stay bounded"
    );
}

fn target(win_id: i32) -> PushTarget {
    PushTarget { win_id, element: Some(win_id as u64 * 10), servable: true, h_pad: 1, v_pad: 2 }
}

#[test]
fn pushes_reach_the_writer_once() {
    let (tx, rx) = bounded::<AxWriteJob>(1);
    let queue = AxWriterQueue(tx);
    let mut state = AxWriteState::default();
    let epoch = state.begin_frame();
    let there = Origin::new(5, 6);
    let sent = push_position(&target(3), there, Some(&queue), &mut state, true, epoch);
    assert_eq!(sent, PushOutcome::Sent { seq: 1 });
    let again = push_position(&target(3), there, Some(&queue), &mut state, true, epoch);
    assert_eq!(again, PushOutcome::Deduped);
    let full = push_position(&target(4), there, Some(&queue), &mut state, true, epoch);
    assert_eq!(full, PushOutcome::Dropped { seq: 1 });
    assert!(!state.unacked(4), "nobody waits for a write that was dropped");
    let direct = push_position(&target(5), there, None, &mut state, true, epoch);
    assert_eq!(direct, PushOutcome::Direct);
    let job = rx.try_recv().expect("the first write is in the queue");
    assert_eq!((job.win_id, job.element, job.origin), (3, 30, there));
    assert_eq!((job.h_pad, job.v_pad, job.seq, job.epoch), (1, 2, 1, epoch));
}

#[test]
fn a_disconnected_writer_drops_pushes() {
    let (tx, rx) = bounded::<AxWriteJob>(4);
    drop(rx);
    let queue = AxWriterQueue(tx);
    let mut state = AxWriteState::default();
    let epoch = state.begin_frame();
    let outcome = push_position(&target(3), Origin::new(1, 1), Some(&queue), &mut state, true, epoch);
    assert_eq!(outcome, PushOutcome::Dropped { seq: 1 });
    assert!(!state.already_sent(3, Origin::new(1, 1)));
}

#[test]
fn invalidated_places_go_out_again() {
    let (tx, rx) = bounded::<AxWriteJob>(4);
    let queue = AxWriterQueue(tx);
    let mut state = AxWriteState::default();
    let epoch = state.begin_frame();
    let there = Origin::new(5, 6);
    push_position(&target(3), there, Some(&queue), &mut state, true, epoch);
    state.invalidate_sent(3);
    let outcome = push_position(&target(3), there, Some(&queue), &mut state, true, epoch);
    assert_eq!(outcome, PushOutcome::Sent { seq: 2 });
    assert_eq!(rx.len(), 2);
}

#[test]
fn a_frame_of_places_joins_one_epoch() {
    let (tx, rx) = bounded::<AxWriteJob>(8);
    let queue = AxWriterQueue(tx);
    let mut state = AxWriteState::default();
    let targets = vec![
        CommitTarget { window: target(3), position: Origin::new(1, 0) },
        CommitTarget { window: target(4), position: Origin::new(2, 0) },
        CommitTarget {
            window: PushTarget { servable: false, ..target(5) },
            position: Origin::new(3, 0),
        },
    ];
    let mut counters = SyncCounters::default();
    let outcomes =
        commit_window_position(&targets, Some(&queue), &mut state, true, &mut counters);
    assert_eq!(
        outcomes,
        vec![PushOutcome::Sent { seq: 1 }, PushOutcome::Sent { seq: 1 }, PushOutcome::Direct]
    );
    let epochs: Vec<u64> = rx.try_iter().map(|job| job.epoch).collect();
    assert_eq!(epochs, vec![1, 1]);
    let again = commit_window_position(&targets, Some(&queue), &mut state, true, &mut counters);
    assert_eq!((counters.push_sent, counters.push_deduped), (3, 3));
    assert_eq!(again, vec![PushOutcome::Deduped, PushOutcome::Deduped, PushOutcome::Deduped]);
    assert_eq!(state.current_epoch(), 2);
}

#[test]
fn batches_hold_the_newest_job_of_each_window() {
    let job = |win_id: i32, seq: u64| AxWriteJob {
        win_id,
        element: 1,
        origin: Origin::new(seq as i32, 0),
        h_pad: 0,
        v_pad: 0,
        seq,
        epoch: 1,
    };
    let batch = drain_batch(&vec![job(9, 1), job(2, 1), job(9, 2), job(5, 1)]);
    let order: Vec<(i32, u64)> = batch.iter().map(|job| (job.win_id, job.seq)).collect();
    assert_eq!(order, vec![(2, 1), (5, 1), (9, 2)]);
}

#[test]
fn the_writer_ladder_warns_falls_back_and_recovers() {
    let mut state = AxWriteState::default();
    let mut fallback = false;
    let mut counters = SyncCounters::default();
    let mut drain = |acks: &Vec<AxWriteAck>, state: &mut AxWriteState, fallback: &mut bool| {
        drain_ax_acks(acks, state, fallback, STUCK_WRITER_EPOCHS + 1, &mut counters)
    };
    let mut first: HashMap<u64, u64> = HashMap::new();
    for _ in 0..STUCK_WRITER_EPOCHS {
        let e = state.begin_frame();
        first.insert(e, state.issue(1, e));
    }
    let none: Vec<AxWriteAck> = Vec::new();
    assert_eq!(
        drain(&none, &mut state, &mut fallback),
        WriterHealth::Stuck { gap: STUCK_WRITER_EPOCHS, fallback: false }
    );
    assert_eq!(
        drain(&none, &mut state, &mut fallback),
        WriterHealth::Quiet
    );
    let e = state.begin_frame();
    let seq = state.issue(1, e);
    assert_eq!(
        drain(&none, &mut state, &mut fallback),
        WriterHealth::Stuck { gap: STUCK_WRITER_EPOCHS + 1, fallback: true }
    );
    assert!(fallback);
    assert_eq!(
        drain(&none, &mut state, &mut fallback),
        WriterHealth::Quiet
    );
    let acks = vec![AxWriteAck { win_id: 1, seq, epoch: e, ok: true }];
    assert_eq!(
        drain(&acks, &mut state, &mut fallback),
        WriterHealth::Recovered
    );
    assert!(!fallback && !state.unacked(1));
    assert_eq!((counters.writer_stall_warned, counters.writer_fallback_entries), (2, 1));
}

#[test]
fn rejected_echoes_write_the_slot_back() {
    let (tx, rx) = bounded::<AxWriteJob>(1);
    let queue = AxWriterQueue(tx);
    let mut state = AxWriteState::default();
    let mut counters = SyncCounters::default();
    let epoch = state.begin_frame();
    let slot = Origin::new(5, 6);
    push_position(&target(3), slot, Some(&queue), &mut state, true, epoch);
    rx.try_recv().expect("the first write is in the queue");
    let facts = MoveFacts {
        unmanaged: None,
        held: false,
        armed: false,
        repositioning: false,
        verifying: false,
        unacked: false,
        button_held: true,
        state: WindowSync::Synced,
    };
    let window = MovedWindow { facts, position: slot, size: Size::new(400, 300) };
    let read = Some(IRect::new(90, 6, 490, 306));
    let mut answer = |window: MovedWindow, state: &mut AxWriteState| {
        let queue = Some(&queue);
        answer_move_echo(Some(window), &target(3), read, ms(0), queue, state, true, &mut counters)
    };
    let pushed = answer(window, &mut state);
    assert_eq!(pushed.pushed, Some((PushOutcome::Sent { seq: 2 }, false)));
    assert_eq!(pushed.outcome.state, Some(WindowSync::Drifted));
    let full = answer(window, &mut state);
    assert_eq!(full.pushed, Some((PushOutcome::Dropped { seq: 3 }, true)), "to be sent again");
    let job = rx.try_recv().expect("the slot went out though it was the last place sent");
    assert_eq!((job.win_id, job.origin, job.epoch), (3, slot, epoch));
    let calm = MoveFacts { button_held: false, ..facts };
    let adopted = answer(MovedWindow { facts: calm, ..window }, &mut state);
    assert_eq!(adopted.pushed, None);
    assert_eq!((counters.move_echo_total, counters.move_pushback_distrust), (3, 2));
    assert_eq!((counters.push_sent, counters.push_dropped_full, counters.move_adopt), (1, 1, 1));
}

#[test]
fn lost_completions_delay_and_never_block() {
    let mut state = AxWriteState::default();
    let epoch = state.begin_frame();
    state.issue(1, epoch);
    state.issue(1, epoch);
    assert_eq!(state.epoch_members[&epoch], vec![1], "a window is on a frame once");
    assert!(state.unacked_live(1, ms(99), ms(100)));
    assert!(!state.unacked_live(1, ms(100), ms(100)));
    assert!(!state.unacked_live(2, ms(0), ms(100)));
}

#[test]
fn pushes_are_planned_before_they_go_out() {
    let mut state = AxWriteState::default();
    let epoch = state.begin_frame();
    let there = Origin::new(5, 6);
    match plan_push(&target(3), there, true, &mut state, true, epoch) {
        PushPlan::Queue { job } => {
            assert_eq!((job.win_id, job.element, job.origin, job.seq), (3, 30, there, 1));
            assert_eq!((job.h_pad, job.v_pad, job.epoch), (1, 2, epoch));
        }
        _ => panic!("the writer serves this window"),
    }
    assert!(state.unacked(3));
    let dance = PushTarget { servable: false, ..target(4) };
    assert_eq!(plan_push(&dance, there, true, &mut state, true, epoch), PushPlan::Direct);
    assert_eq!(plan_push(&dance, there, true, &mut state, true, epoch), PushPlan::Deduped);
}

#[test]
fn sizes_are_driven_and_then_made_sure_of() {
    let mut state = AxWriteState::default();
    let corner = Origin::new(1, 2);
    assert_eq!(commit_window_size(3, true, corner, &mut state), SizeWrite::Driven);
    assert!(state.already_sent(3, corner));
    assert_eq!(commit_window_size(3, false, corner, &mut state), SizeWrite::Settled);
}
