use corruption_spread::music::{distinct_notes, has_note, next_song_note};

#[test]
fn next_note_skips_what_is_not_collected() {
    let song = vec![Some(2), None, Some(6), Some(9), Some(2)];
    let collected = vec![9, 2];
    assert_eq!(next_song_note(&song, &collected, 0), (Some(0), 1));
    assert_eq!(next_song_note(&song, &collected, 1), (Some(3), 4));
    assert_eq!(next_song_note(&song, &collected, 4), (Some(4), 0));
    assert_eq!(next_song_note(&song, &vec![6], 3), (None, 0));
    assert_eq!(next_song_note(&song, &collected, 9), (None, 0));
    assert_eq!(next_song_note(&song, &vec![], 0), (None, 0));
}

#[test]
fn distinct_notes_in_first_order() {
    let song = vec![Some(2), Some(6), None, Some(9), Some(6), Some(2), Some(14)];
    assert_eq!(distinct_notes(&song), vec![2, 6, 9, 14]);
    assert_eq!(distinct_notes(&vec![None, None]), Vec::<usize>::new());
}

#[test]
fn note_lookup() {
    assert!(has_note(&vec![4, 2], 2));
    assert!(!has_note(&vec![4, 2], 3));
    assert!(!has_note(&vec![], 0));
}
