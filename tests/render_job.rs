use ray_tracing_weekend::frame::{pack_pixels, JobError, Phase, RenderJob, Rgb};

fn px(r: u8, g: u8, b: u8) -> Rgb {
    Rgb { r, g, b }
}

#[test]
fn packs_three_bytes_per_pixel() {
    let row = vec![px(1, 2, 3), px(4, 5, 6)];
    assert_eq!(pack_pixels(&row), vec![1, 2, 3, 4, 5, 6]);
    assert_eq!(pack_pixels(&Vec::new()), Vec::<u8>::new());
}

#[test]
fn new_job_is_idle_and_black() {
    let job = RenderJob::new(4, 2).unwrap();
    assert_eq!(job.phase(), Phase::Idle);
    assert_eq!(job.width(), 4);
    assert_eq!(job.height(), 2);
    assert!(!job.is_complete());
    assert!(!job.is_band_done(0));
    assert_eq!(job.into_pixels(), None);
}

#[test]
fn oversized_frame_is_refused() {
    assert_eq!(RenderJob::new(usize::MAX, 2).err(), Some(JobError::TooLarge));
    assert_eq!(RenderJob::new(usize::MAX / 3 + 1, 1).err(), Some(JobError::TooLarge));
}

#[test]
fn bands_need_a_started_job() {
    let mut job = RenderJob::new(1, 1).unwrap();
    assert_eq!(job.submit_band(0, &vec![1, 2, 3]), Err(JobError::WrongPhase));
    assert_eq!(job.start(), Ok(()));
    assert_eq!(job.start(), Err(JobError::WrongPhase));
}

#[test]
fn band_errors() {
    let mut job = RenderJob::new(2, 2).unwrap();
    job.start().unwrap();
    assert_eq!(job.submit_band(2, &vec![0; 6]), Err(JobError::NoSuchBand));
    assert_eq!(job.submit_band(0, &vec![0; 5]), Err(JobError::WrongLength));
    assert_eq!(job.submit_band(0, &vec![9; 6]), Ok(()));
    assert_eq!(job.submit_band(0, &vec![7; 6]), Err(JobError::BandTaken));
    assert!(job.is_band_done(0));
    assert!(!job.is_band_done(1));
    assert_eq!(job.phase(), Phase::Rendering);
    assert_eq!(job.submit_band(1, &vec![8; 6]), Ok(()));
    assert_eq!(job.phase(), Phase::Complete);
    assert_eq!(job.submit_band(1, &vec![8; 6]), Err(JobError::WrongPhase));
}

#[test]
fn bands_land_in_their_rows_in_any_order() {
    let mut job = RenderJob::new(2, 3).unwrap();
    job.start().unwrap();
    job.submit_band(2, &vec![20, 21, 22, 23, 24, 25]).unwrap();
    job.submit_band(0, &vec![0, 1, 2, 3, 4, 5]).unwrap();
    assert!(!job.is_complete());
    job.submit_band(1, &vec![10, 11, 12, 13, 14, 15]).unwrap();
    assert!(job.is_complete());
    assert_eq!(
        job.into_pixels().unwrap(),
        vec![0, 1, 2, 3, 4, 5, 10, 11, 12, 13, 14, 15, 20, 21, 22, 23, 24, 25]
    );
}

#[test]
fn blank_scene_gives_uniform_frame() {
    let (w, h) = (5usize, 4usize);
    let background = px(128, 64, 255);
    let mut job = RenderJob::new(w, h).unwrap();
    job.start().unwrap();
    for y in (0..h).rev() {
        job.submit_band(y, &pack_pixels(&vec![background; w])).unwrap();
    }
    let pixels = job.into_pixels().unwrap();
    assert_eq!(pixels.len(), w * h * 3);
    for p in pixels.chunks(3) {
        assert_eq!(p, &[128, 64, 255]);
    }
}

#[test]
fn frame_without_rows_completes_on_start() {
    let mut job = RenderJob::new(7, 0).unwrap();
    job.start().unwrap();
    assert!(job.is_complete());
    assert_eq!(job.into_pixels(), Some(Vec::new()));
}

#[test]
fn frame_without_columns_takes_empty_rows() {
    let mut job = RenderJob::new(0, 2).unwrap();
    job.start().unwrap();
    job.submit_band(0, &Vec::new()).unwrap();
    job.submit_band(1, &Vec::new()).unwrap();
    assert_eq!(job.into_pixels(), Some(Vec::new()));
}
