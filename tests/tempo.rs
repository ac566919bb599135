use the_search_thing::aggregate::{aggregate, is_valid_observation, median_of, sort_ascending, BpmAggregator, Median, Observation, CONFIDENCE_FLOOR_BITS, INFINITY_BITS};
use the_search_thing::decode::{check_source, on_decode, on_packet, select_track, DecodeEvent, LoopAction, PacketEvent, SelectedTrack, TrackInfo};
use the_search_thing::downmix::{downmix, frame_mean, MonoBuffer};
use the_search_thing::error::TempoError;
use the_search_thing::segment::{windows, HOP_SIZE, WINDOW_SIZE};

fn obs(bpm: f32, confidence: f32) -> Observation {
    Observation { bpm_bits: bpm.to_bits(), confidence_bits: confidence.to_bits() }
}

fn value_of(m: Median) -> f32 {
    match m {
        Median::Single(b) => f32::from_bits(b),
        Median::Pair(a, b) => (f32::from_bits(a) + f32::from_bits(b)) / 2.0,
    }
}

#[test]
fn constants_match_their_values() {
    assert_eq!(CONFIDENCE_FLOOR_BITS, 0.2f32.to_bits());
    assert_eq!(INFINITY_BITS, f32::INFINITY.to_bits());
    assert_eq!(WINDOW_SIZE, 1024);
    assert_eq!(HOP_SIZE, 512);
}

#[test]
fn median_of_odd_count_is_middle() {
    let r = aggregate(&vec![obs(140.0, 0.9), obs(100.0, 0.5), obs(120.0, 0.3)]);
    assert_eq!(r, Ok(Median::Single(120.0f32.to_bits())));
    assert_eq!(format!("{:.1}", value_of(r.unwrap())), "120.0");
}

#[test]
fn median_of_even_count_averages_middle_pair() {
    let r = aggregate(&vec![obs(140.0, 0.9), obs(100.0, 0.5), obs(130.0, 0.3), obs(120.0, 0.4)]);
    assert_eq!(r, Ok(Median::Pair(120.0f32.to_bits(), 130.0f32.to_bits())));
    assert_eq!(format!("{:.1}", value_of(r.unwrap())), "125.0");
}

#[test]
fn empty_run_gives_no_beats() {
    assert_eq!(aggregate(&vec![]), Err(TempoError::NoBeatsDetected));
    assert_eq!(median_of(&vec![]), Err(TempoError::NoBeatsDetected));
}

#[test]
fn confidence_at_floor_is_filtered() {
    assert!(!is_valid_observation(obs(120.0, 0.2)));
    assert!(is_valid_observation(obs(120.0, 0.2000001)));
    assert_eq!(aggregate(&vec![obs(120.0, 0.2)]), Err(TempoError::NoBeatsDetected));
}

#[test]
fn non_finite_and_non_positive_observations_are_filtered() {
    let bad = vec![
        obs(f32::NAN, 0.9),
        obs(f32::INFINITY, 0.9),
        obs(120.0, f32::NAN),
        obs(120.0, f32::INFINITY),
        obs(0.0, 0.9),
        obs(-0.0, 0.9),
        obs(-120.0, 0.9),
        obs(120.0, -0.9),
    ];
    for o in &bad {
        assert!(!is_valid_observation(*o));
    }
    assert_eq!(aggregate(&bad), Err(TempoError::NoBeatsDetected));
    let mut with_one = bad.clone();
    with_one.insert(3, obs(98.5, 0.7));
    assert_eq!(aggregate(&with_one), Ok(Median::Single(98.5f32.to_bits())));
}

#[test]
fn aggregator_reports_what_it_keeps() {
    let mut agg = BpmAggregator::new();
    assert!(agg.observe(obs(110.0, 0.8)));
    assert!(!agg.observe(obs(90.0, 0.1)));
    assert!(agg.observe(obs(130.0, 0.8)));
    assert_eq!(agg.median(), Ok(Median::Pair(110.0f32.to_bits(), 130.0f32.to_bits())));
}

#[test]
fn repeated_aggregation_is_identical() {
    let run = vec![obs(121.3, 0.6), obs(119.9, 0.7), obs(120.4, 0.25)];
    let a = aggregate(&run);
    let b = aggregate(&run);
    assert_eq!(a, b);
    assert_eq!(format!("{:.1}", value_of(a.unwrap())), format!("{:.1}", value_of(b.unwrap())));
}

#[test]
fn sort_orders_positive_float_bits_by_value() {
    let vals = [3.5f32, 0.001, 250.0, 1e-40, 120.0, 120.0];
    let bits: Vec<u32> = vals.iter().map(|v| v.to_bits()).collect();
    let sorted: Vec<f32> = sort_ascending(&bits).into_iter().map(f32::from_bits).collect();
    assert_eq!(sorted, vec![1e-40, 0.001, 3.5, 120.0, 120.0, 250.0]);
}

#[test]
fn three_channel_frame_downmixes_to_mean() {
    assert_eq!(downmix(&vec![2, 4, 6], 3), vec![4]);
}

#[test]
fn identical_stereo_channels_give_the_mono_signal() {
    let x = vec![0, 1, -1, i32::MAX, i32::MIN, 12345, -98765];
    let mut stereo = Vec::new();
    for v in &x {
        stereo.push(*v);
        stereo.push(*v);
    }
    assert_eq!(downmix(&stereo, 2), x);
}

#[test]
fn downmix_rounds_toward_zero_and_drops_partial_frames() {
    assert_eq!(downmix(&vec![-3, 0, 3, 0, 7], 2), vec![-1, 1]);
    assert_eq!(frame_mean(&vec![i32::MAX, i32::MAX, i32::MAX], 0, 3), i32::MAX);
    assert_eq!(frame_mean(&vec![i32::MIN, i32::MIN], 0, 2), i32::MIN);
}

#[test]
fn frame_without_channels_contributes_nothing() {
    assert_eq!(downmix(&vec![1, 2, 3], 0), Vec::<i32>::new());
    let mut buf = MonoBuffer::new();
    buf.push_frame(&vec![10, 20], 2);
    buf.push_frame(&vec![5, 6, 7], 0);
    buf.push_frame(&vec![1, 3, 5, 7], 1);
    assert_eq!(buf.samples(), &vec![15, 1, 3, 5, 7]);
}

#[test]
fn empty_mono_gives_no_windows() {
    assert_eq!(windows(&vec![], HOP_SIZE).len(), 0);
}

#[test]
fn last_window_is_zero_padded() {
    let mono: Vec<i32> = (1..=1000).collect();
    let w = windows(&mono, HOP_SIZE);
    assert_eq!(w.len(), 2);
    assert_eq!(w[0], (1..=512).collect::<Vec<i32>>());
    assert_eq!(w[1].len(), 512);
    assert_eq!(&w[1][..488], &(513..=1000).collect::<Vec<i32>>()[..]);
    assert!(w[1][488..].iter().all(|v| *v == 0));
}

#[test]
fn whole_strides_need_no_padding() {
    let mono = vec![7; 1024];
    let w = windows(&mono, HOP_SIZE);
    assert_eq!(w, vec![vec![7; 512], vec![7; 512]]);
    assert_eq!(windows(&vec![1, 2, 3], 2), vec![vec![1, 2], vec![3, 0]]);
}

#[test]
fn five_silent_seconds_make_431_windows() {
    let w = windows(&vec![0; 5 * 44100], HOP_SIZE);
    assert_eq!(w.len(), 431);
    assert!(w.iter().all(|x| x.iter().all(|v| *v == 0)));
}

#[test]
fn first_track_with_rate_is_selected() {
    let tracks = vec![
        TrackInfo { id: 3, sample_rate: None },
        TrackInfo { id: 5, sample_rate: Some(48000) },
        TrackInfo { id: 7, sample_rate: Some(44100) },
    ];
    assert_eq!(select_track(&tracks), Ok(SelectedTrack { id: 5, sample_rate: 48000 }));
}

#[test]
fn no_track_with_rate_is_an_error() {
    assert_eq!(select_track(&vec![]), Err(TempoError::NoTrack));
    assert_eq!(select_track(&vec![TrackInfo { id: 1, sample_rate: None }]), Err(TempoError::NoTrack));
}

#[test]
fn missing_source_is_not_found() {
    assert_eq!(check_source(false), Err(TempoError::NotFound));
    assert_eq!(check_source(true), Ok(()));
}

#[test]
fn packet_loop_decisions() {
    assert_eq!(on_packet(PacketEvent::Packet { track_id: 2 }, 2), LoopAction::Decode);
    assert_eq!(on_packet(PacketEvent::Packet { track_id: 9 }, 2), LoopAction::Skip);
    assert_eq!(on_packet(PacketEvent::EndOfStream, 2), LoopAction::Stop);
    assert_eq!(on_packet(PacketEvent::ResetRequired, 2), LoopAction::Fail(TempoError::ResetRequired));
    assert_eq!(on_packet(PacketEvent::ReadFailed, 2), LoopAction::Fail(TempoError::PacketReadError));
    assert_eq!(on_decode(DecodeEvent::Decoded), LoopAction::Append);
    assert_eq!(on_decode(DecodeEvent::Malformed), LoopAction::Skip);
    assert_eq!(on_decode(DecodeEvent::ResetRequired), LoopAction::Fail(TempoError::ResetRequired));
    assert_eq!(on_decode(DecodeEvent::Failed), LoopAction::Fail(TempoError::DecodeFailed));
}
