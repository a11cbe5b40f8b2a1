use terrarium::tween::{CycleSkip, TweenCycles};
use terrarium::Repeat;

fn cycles(repeat: Repeat, yoyo: bool) -> TweenCycles {
    TweenCycles { repeat, completed_repeats: 0, yoyo, reversed: false, finished: false }
}

#[test]
fn one_shot_tweens_finish_after_their_first_pass() {
    let mut state = TweenCycles::new();
    state.advance_cycle();
    assert!(state.finished);
    assert_eq!(state.completed_repeats, 0);
}

#[test]
fn counted_tweens_run_count_plus_one_passes_and_yoyo_flips() {
    let mut state = cycles(Repeat::Count(2), true);
    state.advance_cycle();
    assert_eq!((state.completed_repeats, state.reversed, state.finished), (1, true, false));
    state.advance_cycle();
    assert_eq!((state.completed_repeats, state.reversed, state.finished), (2, false, false));
    state.advance_cycle();
    assert_eq!((state.completed_repeats, state.reversed, state.finished), (2, false, true));
}

#[test]
fn skipping_passes_matches_ending_them_one_by_one() {
    for k in 1..6u64 {
        let mut skipped = cycles(Repeat::Count(3), true);
        let outcome = skipped.skip_full_cycles(k);
        let mut stepped = cycles(Repeat::Count(3), true);
        for _ in 0..k {
            stepped.advance_cycle();
        }
        assert_eq!(skipped.finished, stepped.finished);
        assert_eq!(skipped.reversed, stepped.reversed);
        assert_eq!(outcome, if stepped.finished { CycleSkip::Finished } else { CycleSkip::Repeated });
        if !skipped.finished {
            assert_eq!(skipped.completed_repeats, stepped.completed_repeats);
        }
    }
    let mut state = cycles(Repeat::Forever, true);
    assert_eq!(state.skip_full_cycles(0), CycleSkip::Unchanged);
    assert_eq!(state.skip_full_cycles(5), CycleSkip::Repeated);
    assert_eq!((state.completed_repeats, state.reversed, state.finished), (5, true, false));
    let mut state = TweenCycles { completed_repeats: u32::MAX - 1, ..cycles(Repeat::Forever, false) };
    state.skip_full_cycles(u64::MAX);
    assert_eq!(state.completed_repeats, u32::MAX);
}
