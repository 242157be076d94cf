use paneru::ecs::sync::ResizeJitter;
use paneru::ecs::{AdoptionCalm, ADOPTION_CALM_COUNT};
use paneru::time::Duration;

#[test]
fn ecs_chronic_jitter_damps_then_large_resets() {
    let mut calm = AdoptionCalm::default();
    let start = Duration::from_secs(100);
    for i in 0..ADOPTION_CALM_COUNT {
        let now = start.plus(Duration::from_millis(i as u64 * 20));
        assert!(!calm.damp(7, now, 2), "small adoption {i} adopts");
    }
    assert!(
        calm.damp(7, start.plus(Duration::from_millis(120)), 2),
        "chronic jitter holds the tile"
    );
    assert!(
        !calm.damp(7, start.plus(Duration::from_millis(140)), 50),
        "large resize resets"
    );
    assert!(
        !calm.damp(7, start.plus(Duration::from_millis(160)), 2),
        "fresh episode adopts again"
    );
    assert!(!calm.damp(9, start, 2));
}

#[test]
fn ecs_quiet_stretch_resets_the_episode() {
    let mut calm = AdoptionCalm::default();
    for i in 0..ADOPTION_CALM_COUNT {
        assert!(!calm.damp(7, Duration::from_secs(i as u64), 2));
    }
    assert!(!calm.damp(7, Duration::from_secs(120), 2), "quiet stretch resets");
}

#[test]
fn sync_chronic_jitter_damps_then_large_resets() {
    let mut jitter = ResizeJitter::default();
    let start = Duration::from_secs(100);
    for i in 0..5 {
        let now = start.plus(Duration::from_millis(i * 20));
        assert!(!jitter.damp(now, 2), "small adoption {i} adopts");
    }
    assert!(
        jitter.damp(start.plus(Duration::from_millis(120)), 2),
        "chronic jitter holds the tile"
    );
    assert!(
        !jitter.damp(start.plus(Duration::from_millis(140)), 50),
        "large resize resets"
    );
    assert!(
        !jitter.damp(start.plus(Duration::from_millis(160)), 2),
        "fresh episode adopts again"
    );
}

#[test]
fn sync_quiet_stretch_resets_the_episode() {
    let mut jitter = ResizeJitter::default();
    for i in 0..5 {
        assert!(!jitter.damp(Duration::from_secs(i), 2));
    }
    assert!(!jitter.damp(Duration::from_secs(120), 2), "quiet stretch resets");
}

#[test]
fn damping_engages_at_the_sixth_change_and_stays() {
    let mut calm = AdoptionCalm::default();
    let held: Vec<bool> =
        (0..8).map(|i| calm.damp(1, Duration::from_millis(i * 10), 7)).collect();
    assert_eq!(held, vec![false, false, false, false, false, true, true, true]);
    assert!(!calm.damp(1, Duration::from_millis(90), 8), "eight pixels are genuine");
}

#[test]
fn every_episode_is_reported_once() {
    let mut calm = AdoptionCalm::default();
    let mut jitter = ResizeJitter::default();
    assert!(!calm.reported(1) && !jitter.reported());
    for start in [0, 3600] {
        for i in 0..6 {
            let now = Duration::from_secs(start + i);
            assert_eq!(calm.damp(1, now, 2), i == 5);
            assert_eq!(jitter.damp(now, 2), i == 5);
            assert_eq!((calm.reported(1), jitter.reported()), (i == 5, i == 5));
        }
    }
    assert!(!calm.reported(2));
}
