use hardwave_bridge::capture::{band_bin_range, CapturePipeline, SampleWindow, FFT_SIZE};

#[test]
fn window_evicts_oldest() {
    let mut w: SampleWindow<i32> = SampleWindow::new(3);
    w.extend(&[1, 2]);
    assert_eq!(w.as_slice(), &[1, 2]);
    assert!(!w.is_full());
    w.push(3);
    assert!(w.is_full());
    w.push(4);
    assert_eq!(w.as_slice(), &[2, 3, 4]);
    w.extend(&[5, 6, 7, 8]);
    assert_eq!(w.as_slice(), &[6, 7, 8]);
    assert_eq!(w.len(), 3);
    w.clear();
    assert_eq!(w.len(), 0);
}

#[test]
fn mono_block_fills_both_channels() {
    let mut p: CapturePipeline<f32> = CapturePipeline::new(48000);
    p.push_block(&[0.25, -0.5], None);
    assert_eq!(p.left_samples(), &[0.25, -0.5]);
    assert_eq!(p.right_samples(), &[0.25, -0.5]);
    p.push_block(&[1.0], Some(&[2.0]));
    assert_eq!(p.left_samples(), &[0.25, -0.5, 1.0]);
    assert_eq!(p.right_samples(), &[0.25, -0.5, 2.0]);
}

#[test]
fn analysis_waits_for_full_window_then_cadence() {
    let mut p: CapturePipeline<f32> = CapturePipeline::new(48000);
    let block = vec![0.0f32; 512];
    let mut due_at = Vec::new();
    for i in 0..20 {
        if p.push_block(&block, None) {
            due_at.push(i);
        }
    }
    // The window is full after 8 blocks; then every 2400 samples, that is
    // once the count of 512-sample blocks reaches 2400.
    assert_eq!(due_at, vec![7, 12, 17]);
    assert_eq!(p.left_samples().len(), FFT_SIZE);
}

#[test]
fn reset_clears_windows_and_count() {
    let mut p: CapturePipeline<f32> = CapturePipeline::new(44100);
    p.push_block(&vec![0.1f32; FFT_SIZE], None);
    p.reset();
    assert_eq!(p.left_samples().len(), 0);
    assert!(!p.push_block(&vec![0.1f32; 2000], None));
    p.initialize(8000);
    assert_eq!(p.right_samples().len(), 0);
    // 400 samples per analysis at 8 kHz, but the window must refill first.
    assert!(!p.push_block(&vec![0.1f32; 4000], None));
    assert!(p.push_block(&vec![0.1f32; 96], None));
}

#[test]
fn band_bins_are_clamped() {
    assert_eq!(band_bin_range(0, 0), (1, 2));
    assert_eq!(band_bin_range(10, 20), (10, 20));
    assert_eq!(band_bin_range(10, 5), (10, 11));
    assert_eq!(band_bin_range(5000, 6000), (2047, 2048));
    assert_eq!(band_bin_range(100, 9000), (100, 2048));
}
