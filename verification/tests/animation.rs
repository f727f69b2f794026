use riptide::animator::Animator;
use riptide::frame::Frame;
use riptide::gate::{start_delay, Span, StartError, NANOS_PER_SEC};
use riptide::pixel::{Color, Pixel};
use riptide::protocol::release_the_kraken;
use riptide::sequence::FrameSequence;

fn one_pixel(color: Color) -> Frame {
    Frame::new(vec![vec![Pixel::new(color)]]).unwrap()
}

fn sequence_of(len: usize) -> FrameSequence {
    let frames = (0..len)
        .map(|i| one_pixel(Color::Rgb(i as u8, 0, 0)))
        .collect();
    FrameSequence::new(frames).unwrap()
}

#[test]
fn playback_of_two_frames_end_to_end() {
    let frames = FrameSequence::new(vec![
        one_pixel(Color::Rgb(0xFF, 0, 0)),
        one_pixel(Color::Rgb(0, 0xFF, 0)),
    ])
    .unwrap();
    let mut animator = Animator::new(&frames);
    let mut seen: Vec<Vec<u8>> = Vec::new();

    let current = animator.current();
    seen.push(release_the_kraken(frames.frame(current).unwrap(), (5, 10)).unwrap());
    let current = animator.tick();
    seen.push(release_the_kraken(frames.frame(current).unwrap(), (5, 10)).unwrap());

    assert_eq!(
        seen,
        vec![b"PX 5 10 FF0000\n".to_vec(), b"PX 5 10 00FF00\n".to_vec()]
    );
    let current = animator.tick();
    assert_eq!(
        release_the_kraken(frames.frame(current).unwrap(), (5, 10)).unwrap(),
        b"PX 5 10 FF0000\n".to_vec()
    );
}

#[test]
fn animator_starts_at_the_first_frame() {
    let frames = sequence_of(4);
    let animator = Animator::new(&frames);
    assert_eq!(animator.current(), 0);
}

#[test]
fn ticks_select_frames_cyclically() {
    for len in [1usize, 2, 3, 7, 10] {
        let frames = sequence_of(len);
        let mut animator = Animator::new(&frames);
        for i in 1..=50usize {
            let index = animator.tick();
            assert_eq!(index, i % len);
            assert_eq!(animator.current(), i % len);
            let frame = frames.frame(index).unwrap();
            assert_eq!(frame.lane(0)[0].color(), Color::Rgb((i % len) as u8, 0, 0));
        }
    }
}

#[test]
fn single_frame_animation_stays_on_its_frame() {
    let frames = sequence_of(1);
    let mut animator = Animator::new(&frames);
    for _ in 0..5 {
        assert_eq!(animator.tick(), 0);
    }
}

#[test]
fn no_start_instant_means_no_wait() {
    let now = Span { secs: 1_700_000_000, nanos: 123 };
    assert_eq!(start_delay(None, now), Ok(Span { secs: 0, nanos: 0 }));
}

#[test]
fn wait_is_what_is_left_until_the_instant() {
    let now = Span { secs: 1000, nanos: 0 };
    assert_eq!(start_delay(Some(1060), now), Ok(Span { secs: 60, nanos: 0 }));
    let now = Span { secs: 1000, nanos: 250_000_000 };
    assert_eq!(
        start_delay(Some(1060), now),
        Ok(Span { secs: 59, nanos: 750_000_000 })
    );
    let now = Span { secs: 1000, nanos: NANOS_PER_SEC - 1 };
    assert_eq!(start_delay(Some(1001), now), Ok(Span { secs: 0, nanos: 1 }));
    let now = Span { secs: 0, nanos: 1 };
    assert_eq!(
        start_delay(Some(u64::MAX), now),
        Ok(Span { secs: u64::MAX - 1, nanos: NANOS_PER_SEC - 1 })
    );
}

#[test]
fn instant_that_is_now_needs_no_wait() {
    let now = Span { secs: 1000, nanos: 0 };
    assert_eq!(start_delay(Some(1000), now), Ok(Span { secs: 0, nanos: 0 }));
}

#[test]
fn instant_in_the_past_is_an_error() {
    let now = Span { secs: 1000, nanos: 1 };
    assert_eq!(start_delay(Some(1000), now), Err(StartError::AlreadyElapsed));
    let now = Span { secs: 1000, nanos: 0 };
    assert_eq!(start_delay(Some(999), now), Err(StartError::AlreadyElapsed));
    assert_eq!(start_delay(Some(0), now), Err(StartError::AlreadyElapsed));
}
