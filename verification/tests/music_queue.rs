use radish::music::{MusicAction, MusicPlayer};
use std::collections::VecDeque;

fn queue(songs: &[usize]) -> VecDeque<usize> {
    songs.iter().copied().collect()
}

#[test]
fn new_player_plays_nothing() {
    let p = MusicPlayer::new(queue(&[0, 1, 2]));
    assert_eq!(p.current_song(), None);
    assert_eq!(p.playlist(), vec![0, 1, 2]);
    assert_eq!(p.wave(), 0);
}

#[test]
fn next_song_rotates_the_queue() {
    let mut p = MusicPlayer::new(queue(&[0, 1, 2]));
    assert_eq!(p.next_song(), MusicAction { stop: None, start: Some(0) });
    assert_eq!(p.playlist(), vec![1, 2]);
    assert_eq!(p.next_song(), MusicAction { stop: Some(0), start: Some(1) });
    assert_eq!(p.playlist(), vec![2, 0]);
    assert_eq!(p.current_song(), Some(1));
    // Three more changes bring the same song back: nothing is lost.
    p.next_song();
    p.next_song();
    p.next_song();
    assert_eq!(p.current_song(), Some(1));
    assert_eq!(p.playlist(), vec![2, 0]);
}

#[test]
fn stop_puts_the_song_back() {
    let mut p = MusicPlayer::new(queue(&[4, 5]));
    p.next_song();
    assert_eq!(p.stop(), Some(4));
    assert_eq!(p.current_song(), None);
    assert_eq!(p.playlist(), vec![5, 4]);
    assert_eq!(p.stop(), None);
    assert_eq!(p.playlist(), vec![5, 4]);
}

#[test]
fn empty_queue_plays_nothing() {
    let mut p = MusicPlayer::new(VecDeque::new());
    assert_eq!(p.next_song(), MusicAction { stop: None, start: None });
    assert_eq!(p.current_song(), None);
}

#[test]
fn a_new_wave_changes_the_song_only_while_one_plays() {
    let mut p = MusicPlayer::new(queue(&[7, 8]));
    // Nothing plays: the wave is not even noted.
    assert_eq!(p.check_song(3), None);
    assert_eq!(p.wave(), 0);
    p.next_song();
    assert_eq!(p.check_song(0), None);
    assert_eq!(p.check_song(1), Some(MusicAction { stop: Some(7), start: Some(8) }));
    assert_eq!(p.wave(), 1);
    assert_eq!(p.check_song(1), None);
    assert_eq!(p.current_song(), Some(8));
    assert_eq!(p.playlist(), vec![7]);
}
