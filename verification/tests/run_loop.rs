use prismae::run_loop::{frame_pause, frame_step};

#[test]
fn quitting_windows_close_one_frame_later() {
    let step = frame_step(&vec![1, 2, 3], &vec![false, true, false], &vec![]);
    assert_eq!(step.close_next, vec![2]);
    assert_eq!(step.remaining, vec![1, 2, 3]);
    assert!(step.running);
    let next = frame_step(&vec![1, 2, 3], &vec![false, true, false], &step.close_next);
    assert_eq!(next.remaining, vec![1, 3]);
    assert!(next.running);
}

#[test]
fn loop_stops_when_no_window_is_left() {
    let step = frame_step(&vec![4], &vec![true], &vec![4]);
    assert_eq!(step.remaining, Vec::<u32>::new());
    assert!(!step.running);
}

#[test]
fn frames_are_paced() {
    assert_eq!(frame_pause(5, 16), 11);
    assert_eq!(frame_pause(16, 16), 0);
    assert_eq!(frame_pause(40, 16), 0);
}
