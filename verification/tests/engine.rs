use signal_macro::engine::{first_channel, table_positions, TanHWaveshaper};

#[test]
fn positions_wrap_around_the_table() {
    assert_eq!(table_positions(5, 4), (1, 2));
    assert_eq!(table_positions(3, 4), (3, 0));
    assert_eq!(table_positions(0, 1), (0, 0));
    assert_eq!(table_positions(2048 * 3 + 7, 2048), (7, 8));
    assert_eq!(table_positions(usize::MAX, 10), (5, 6));
}

#[test]
fn next_position_is_the_successor() {
    for len in 1..20usize {
        for i in 0..100usize {
            let (a, b) = table_positions(i, len);
            assert!(a < len && b < len);
            assert_eq!(b, (i + 1) % len);
        }
    }
}

#[test]
fn first_channel_takes_every_nth_sample() {
    let s: Vec<i16> = vec![1, -1, 2, -2, 3, -3];
    assert_eq!(first_channel(&s, 2), vec![1, 2, 3]);
    assert_eq!(first_channel(&s, 1), s);
    assert_eq!(first_channel(&s, 4), vec![1, 3]);
    assert_eq!(first_channel(&s, 6), vec![1]);
    assert_eq!(first_channel(&s, 10), vec![1]);
    let odd: Vec<i16> = vec![1, 2, 3, 4, 5];
    assert_eq!(first_channel(&odd, 2), vec![1, 3, 5]);
    let none: Vec<i16> = Vec::new();
    assert_eq!(first_channel(&none, 0), Vec::<i16>::new());
    assert_eq!(first_channel(&none, 2), Vec::<i16>::new());
}

#[test]
fn first_channel_keeps_sample_errors_in_place() {
    let s: Vec<Option<i16>> = vec![Some(7), None, Some(8), None];
    assert_eq!(first_channel(&s, 2), vec![Some(7), Some(8)]);
}

#[test]
fn waveshaper_is_built() {
    let w = TanHWaveshaper::new();
    assert_eq!(format!("{:?}", w), "TanHWaveshaper");
}
