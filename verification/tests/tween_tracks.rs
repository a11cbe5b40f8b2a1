use terrarium::{TweenId, TweenTracks};

#[test]
fn identifiers_count_up_and_cancel_removes_only_their_track() {
    let mut tracks: TweenTracks<&str> = TweenTracks::new();
    let a = tracks.add("a");
    let b = tracks.add("b");
    let c = tracks.add("c");
    assert_eq!((a, b, c), (TweenId(0), TweenId(1), TweenId(2)));
    assert!(tracks.cancel(b));
    assert!(!tracks.cancel(b));
    assert!(!tracks.is_active(b));
    assert!(tracks.is_active(a) && tracks.is_active(c));
    assert_eq!(tracks.len(), 2);
    assert_eq!(tracks.id_at(1), c);
    assert_eq!(tracks.add("d"), TweenId(3));
    tracks.clear();
    assert!(tracks.is_empty());
    assert_eq!(tracks.add("e"), TweenId(4));
}

#[test]
fn finished_tracks_are_dropped_in_order() {
    let mut tracks: TweenTracks<u32> = TweenTracks::new();
    for value in 0..5 {
        tracks.add(value);
    }
    *tracks.get_mut(0) += 10;
    tracks.retain_unfinished(&[false, true, false, true, false]);
    assert_eq!(tracks.len(), 3);
    assert_eq!((tracks.id_at(0), *tracks.get_mut(0)), (TweenId(0), 10));
    assert_eq!((tracks.id_at(1), *tracks.get_mut(1)), (TweenId(2), 2));
    assert_eq!(tracks.id_at(2), TweenId(4));
}
