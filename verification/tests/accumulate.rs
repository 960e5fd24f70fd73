use rt::accumulate::{
    num_samples_at_pass, pixel_job, running_totals, Pass, PixelJob, Progressive, ScheduleError,
    PREVIEW_PASSES,
};

fn preview_list() -> Vec<usize> {
    let mut list = vec![1, 2, 4, 8, 8, 16, 16, 32, 32];
    list.extend(std::iter::repeat(64).take(84));
    list.extend(std::iter::repeat(128).take(18));
    list.extend(std::iter::repeat(256).take(126));
    list
}

#[test]
fn preview_schedule_is_the_fixed_list() {
    let got = num_samples_at_pass();
    assert_eq!(got.len(), 237);
    assert_eq!(got.len(), PREVIEW_PASSES);
    assert_eq!(got, preview_list());
    assert_eq!(got.iter().sum::<usize>(), 40055);
}

#[test]
fn running_totals_are_prefix_sums() {
    assert_eq!(running_totals(&vec![4, 4]), Some(vec![4, 8]));
    assert_eq!(running_totals(&vec![1, 2, 4, 8]), Some(vec![1, 3, 7, 15]));
    assert_eq!(running_totals(&vec![]), Some(vec![]));
    assert_eq!(running_totals(&vec![0, 0, 5]), Some(vec![0, 0, 5]));
}

#[test]
fn running_totals_stop_at_overflow() {
    assert_eq!(running_totals(&vec![usize::MAX, 1]), None);
    assert_eq!(running_totals(&vec![usize::MAX]), Some(vec![usize::MAX]));
    assert_eq!(running_totals(&vec![usize::MAX - 1, 1, 1]), None);
}

#[test]
fn schedule_with_an_empty_pass_is_refused() {
    assert_eq!(Progressive::new(vec![1, 0, 2]).err(), Some(ScheduleError::EmptyPass));
    assert_eq!(Progressive::new(vec![0]).err(), Some(ScheduleError::EmptyPass));
}

#[test]
fn schedule_that_decreases_is_refused() {
    assert_eq!(Progressive::new(vec![1, 2, 1]).err(), Some(ScheduleError::Decreasing));
    assert_eq!(Progressive::new(vec![8, 4]).err(), Some(ScheduleError::Decreasing));
}

#[test]
fn schedule_that_overflows_is_refused() {
    assert_eq!(Progressive::new(vec![usize::MAX, usize::MAX]).err(), Some(ScheduleError::Overflow));
}

#[test]
fn schedule_faults_are_named_in_order() {
    // An empty pass is found before a decrease, and a decrease before an overflow.
    assert_eq!(Progressive::new(vec![2, 1, 0]).err(), Some(ScheduleError::EmptyPass));
    assert_eq!(
        Progressive::new(vec![usize::MAX, usize::MAX, 1]).err(),
        Some(ScheduleError::Decreasing)
    );
}

#[test]
fn empty_schedule_has_no_pass() {
    let mut render = Progressive::new(vec![]).unwrap();
    assert_eq!(render.pass_count(), 0);
    assert_eq!(render.next_pass(false), None);
    assert!(!render.is_cancelled());
}

#[test]
fn passes_come_in_order_with_their_totals() {
    let mut render = Progressive::new(vec![1, 2, 4, 4]).unwrap();
    assert_eq!(render.pass_count(), 4);
    assert_eq!(render.passes_done(), 0);
    assert_eq!(render.next_pass(false), Some(Pass { number: 1, first_sample: 0, new_samples: 1, total_samples: 1 }));
    assert_eq!(render.next_pass(false), Some(Pass { number: 2, first_sample: 1, new_samples: 2, total_samples: 3 }));
    assert_eq!(render.next_pass(false), Some(Pass { number: 3, first_sample: 3, new_samples: 4, total_samples: 7 }));
    assert_eq!(render.next_pass(false), Some(Pass { number: 4, first_sample: 7, new_samples: 4, total_samples: 11 }));
    assert_eq!(render.passes_done(), 4);
    assert_eq!(render.next_pass(false), None);
    assert_eq!(render.next_pass(false), None);
    assert_eq!(render.passes_done(), 4);
    assert!(!render.is_cancelled());
}

#[test]
fn preview_runs_through_all_its_passes() {
    let mut render = Progressive::preview();
    let list = preview_list();
    let mut total = 0;
    for (i, samples) in list.iter().enumerate() {
        let before = total;
        total += samples;
        assert_eq!(
            render.next_pass(false),
            Some(Pass { number: i + 1, first_sample: before, new_samples: *samples, total_samples: total })
        );
    }
    assert_eq!(total, 40055);
    assert_eq!(render.next_pass(false), None);
}

#[test]
fn first_pass_has_full_weight() {
    let mut render = Progressive::preview();
    let first = render.next_pass(false).unwrap();
    assert_eq!(first.new_samples, first.total_samples);
}

#[test]
fn cancellation_stops_the_passes_for_good() {
    let mut render = Progressive::new(vec![1, 2, 4]).unwrap();
    assert!(render.next_pass(false).is_some());
    assert_eq!(render.next_pass(true), None);
    assert!(render.is_cancelled());
    assert_eq!(render.passes_done(), 1);
    // The flag is never reset: a later reading of `false` changes nothing.
    assert_eq!(render.next_pass(false), None);
    assert_eq!(render.next_pass(false), None);
    assert!(render.is_cancelled());
    assert_eq!(render.passes_done(), 1);
}

#[test]
fn cancellation_before_the_first_pass_gives_none() {
    let mut render = Progressive::preview();
    assert_eq!(render.next_pass(true), None);
    assert_eq!(render.passes_done(), 0);
    assert_eq!(render.next_pass(false), None);
}

#[test]
fn pixel_job_finds_column_row_and_place() {
    assert_eq!(pixel_job(0, 800, false), Some(PixelJob { x: 0, y: 0, index: 0 }));
    assert_eq!(pixel_job(799, 800, false), Some(PixelJob { x: 799, y: 0, index: 799 }));
    assert_eq!(pixel_job(800, 800, false), Some(PixelJob { x: 0, y: 1, index: 800 }));
    assert_eq!(pixel_job(801, 800, false), Some(PixelJob { x: 1, y: 1, index: 801 }));
    assert_eq!(pixel_job(479_999, 800, false), Some(PixelJob { x: 799, y: 599, index: 479_999 }));
    assert_eq!(pixel_job(7, 1, false), Some(PixelJob { x: 0, y: 7, index: 7 }));
    assert_eq!(
        pixel_job(u32::MAX, 65536, false),
        Some(PixelJob { x: 65535, y: 65535, index: u32::MAX as usize })
    );
}

#[test]
fn no_pixel_job_once_cancelled() {
    for index in [0u32, 1, 799, 800, 479_999, u32::MAX] {
        assert_eq!(pixel_job(index, 800, true), None);
    }
}

#[test]
fn cancelled_pass_writes_nothing_more() {
    // A pass over six pixels during which the flag is set after the third.
    let mut buffer = rt::framebuffer::Framebuffer::new(3, 2);
    let mut written = Vec::new();
    for index in 0..6u32 {
        let closing = index >= 3;
        if let Some(job) = pixel_job(index, 3, closing) {
            buffer.write(job.index, 1, 2, 3);
            written.push(job.index);
        }
    }
    assert_eq!(written, vec![0, 1, 2]);
    for index in 0..3 {
        assert_eq!(buffer.read(index), (1, 2, 3));
    }
    for index in 3..6 {
        assert_eq!(buffer.read(index), (255, 255, 255));
    }
}

/// Blends the means of the passes with the weights that the schedule gives.
fn blend(samples: Vec<usize>, means: &[f64], start: f64) -> f64 {
    let mut render = Progressive::new(samples).unwrap();
    let mut value = start;
    let mut i = 0;
    while let Some(pass) = render.next_pass(false) {
        let new_ratio = pass.new_samples as f64 / pass.total_samples as f64;
        let old_ratio = 1.0 - new_ratio;
        value = means[i] * new_ratio + value * old_ratio;
        i += 1;
    }
    value
}

#[test]
fn two_passes_of_four_blend_like_one_pass_of_eight() {
    let first = [0.25, 0.5, 0.75, 1.0];
    let second = [0.0, 0.125, 0.5, 0.375];
    let mean_first = first.iter().sum::<f64>() / 4.0;
    let mean_second = second.iter().sum::<f64>() / 4.0;
    let mean_all = (first.iter().sum::<f64>() + second.iter().sum::<f64>()) / 8.0;
    let split = blend(vec![4, 4], &[mean_first, mean_second], 1.0);
    let whole = blend(vec![8], &[mean_all], 1.0);
    assert_eq!(split, whole);
    assert_eq!(whole, 0.4375);
}

#[test]
fn blending_forgets_what_the_buffer_held() {
    let means = [0.5, 0.25, 0.75];
    let from_white = blend(vec![1, 2, 4], &means, 1.0);
    let from_black = blend(vec![1, 2, 4], &means, 0.0);
    assert_eq!(from_white, from_black);
    assert!((from_white - (0.5 + 2.0 * 0.25 + 4.0 * 0.75) / 7.0).abs() < 1e-12);
}

#[test]
fn no_sample_is_drawn_twice() {
    let mut render = Progressive::preview();
    let mut drawn = 0;
    while let Some(pass) = render.next_pass(false) {
        assert_eq!(pass.first_sample, drawn);
        drawn = pass.first_sample + pass.new_samples;
        assert_eq!(drawn, pass.total_samples);
    }
    assert_eq!(drawn, 40055);
    assert!(drawn as u64 <= rt::camera::SAMPLE_COUNT);
}
