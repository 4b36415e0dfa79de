use gaussian_splatting::buffers::{sort_depths, BufferSlot, SortBufferPair};
use gaussian_splatting::cloud::{GpuGaussianCloud, SortAction, TemporalSortWindow, UploadIds};
use gaussian_splatting::defines::ShaderDefines;
use gaussian_splatting::key::{encode_depth, extract_keys};
use gaussian_splatting::radix::SortEntry;

fn bits(values: &[f32]) -> Vec<u32> {
    values.iter().map(|v| v.to_bits()).collect()
}

fn next_random(state: &mut u64) -> u64 {
    *state = state.wrapping_mul(6364136223846793005).wrapping_add(1442695040888963407);
    *state >> 33
}

#[test]
fn encode_orders_floats() {
    let values = [
        f32::NEG_INFINITY,
        -1.0e30,
        -2.5,
        -1.0,
        -1.0e-30,
        0.0,
        1.0e-30,
        1.0,
        2.5,
        1.0e30,
        f32::INFINITY,
    ];
    for w in values.windows(2) {
        assert!(encode_depth(w[0].to_bits()) < encode_depth(w[1].to_bits()));
    }
}

#[test]
fn encode_exact_values() {
    assert_eq!(encode_depth(0.0f32.to_bits()), 0x8000_0000);
    assert_eq!(encode_depth((-0.0f32).to_bits()), 0x7FFF_FFFF);
    assert_eq!(encode_depth(1.0f32.to_bits()), 0xBF80_0000);
    assert_eq!(encode_depth((-1.0f32).to_bits()), 0x407F_FFFF);
}

#[test]
fn encode_is_injective_on_samples() {
    let samples = bits(&[-0.0, 0.0, 1.0, -1.0, 3.0, -3.0]);
    for i in 0..samples.len() {
        for j in 0..samples.len() {
            if i != j {
                assert_ne!(encode_depth(samples[i]), encode_depth(samples[j]));
            }
        }
    }
}

#[test]
fn extract_keys_carries_positions() {
    let depths = bits(&[3.0, -1.0]);
    let entries = extract_keys(&depths);
    assert_eq!(
        entries,
        vec![
            SortEntry { key: encode_depth(depths[0]), index: 0 },
            SortEntry { key: encode_depth(depths[1]), index: 1 },
        ]
    );
}

#[test]
fn sort_orders_by_depth() {
    let depths = bits(&[5.0, -2.0, 7.5, 0.0, 3.25]);
    let out = sort_depths(&depths, 1024);
    let order: Vec<u32> = out.iter().map(|e| e.index).collect();
    assert_eq!(order, vec![1, 3, 4, 0, 2]);
    for w in out.windows(2) {
        assert!(w[0].key <= w[1].key);
    }
}

#[test]
fn sort_output_is_permutation() {
    let mut state = 7u64;
    let depths: Vec<u32> = (0..300).map(|_| (next_random(&mut state) as f32 / 1000.0).to_bits()).collect();
    let out = sort_depths(&depths, 1024);
    let mut seen = vec![false; depths.len()];
    for e in &out {
        assert!(!seen[e.index as usize]);
        seen[e.index as usize] = true;
        assert_eq!(e.key, encode_depth(depths[e.index as usize]));
    }
    assert!(seen.iter().all(|s| *s));
}

#[test]
fn sort_breaks_ties_by_index() {
    let depths = bits(&[2.0, 1.0, 2.0, 1.0, 2.0]);
    let out = sort_depths(&depths, 1024);
    let order: Vec<u32> = out.iter().map(|e| e.index).collect();
    assert_eq!(order, vec![1, 3, 0, 2, 4]);
}

#[test]
fn sort_ties_across_all_digits() {
    // Keys that differ only in their highest or lowest byte.
    let raw = vec![0x0100_0000u32, 0x0000_0001, 0x0100_0000, 0x0000_0000, 0xFF00_0000];
    let mut pair = SortBufferPair::new(raw.len());
    let entries: Vec<SortEntry> = raw.iter().enumerate().map(|(i, k)| SortEntry { key: *k, index: i as u32 }).collect();
    pair.write_current(entries);
    pair.sort(1024);
    assert_eq!(pair.current, BufferSlot::A);
    let order: Vec<u32> = pair.current_buffer().iter().map(|e| e.index).collect();
    assert_eq!(order, vec![3, 1, 0, 2, 4]);
}

#[test]
fn sort_empty_and_single() {
    assert!(sort_depths(&Vec::new(), 1024).is_empty());
    let one = sort_depths(&bits(&[4.0]), 1024);
    assert_eq!(one, vec![SortEntry { key: encode_depth(4.0f32.to_bits()), index: 0 }]);
}

#[test]
fn sort_is_idempotent() {
    let depths = bits(&[9.0, -3.0, 9.0, 0.5, 100.0, -3.0]);
    let once = sort_depths(&depths, 1024);
    let mut pair = SortBufferPair::new(once.len());
    pair.write_current(once.clone());
    pair.sort(1024);
    assert_eq!(pair.current_buffer(), &once);
}

#[test]
fn single_pass_flips_current_buffer() {
    let mut pair = SortBufferPair::new(3);
    pair.write_current(vec![
        SortEntry { key: 0x0203, index: 0 },
        SortEntry { key: 0x0101, index: 1 },
        SortEntry { key: 0x0002, index: 2 },
    ]);
    pair.run_pass(1, 1024);
    assert_eq!(pair.current, BufferSlot::B);
    let order: Vec<u32> = pair.current_buffer().iter().map(|e| e.index).collect();
    assert_eq!(order, vec![1, 2, 0]);
}

#[test]
fn end_to_end_thousand_splats() {
    let defines = ShaderDefines::default();
    let ids = UploadIds { gaussian_buffer: 1, draw_indirect_buffer: 2, sort_buffer_a: 3, sort_buffer_b: 4 };
    let mut cloud = GpuGaussianCloud::prepare(1000, 64, &defines, ids);
    assert_eq!(cloud.draw_args.instance_count, 1000);
    assert_eq!(cloud.draw_args.vertex_count, 4);
    assert_eq!(cloud.gaussian_buffer.size, 64_000);
    assert_eq!(cloud.draw_indirect_buffer.size, 16);
    assert_eq!(cloud.status_counters_size, 256 * 1 * 4);
    let mut state = 42u64;
    let depths: Vec<f32> = (0..1000).map(|_| (next_random(&mut state) % 100_000) as f32 / 1000.0).collect();
    let mut window = TemporalSortWindow::new(16);
    let action = cloud.sort_frame(&mut window, &bits(&depths));
    assert_eq!(action, SortAction::FullResort);
    let sorted = cloud.radix_sort_buffers.current_buffer();
    let read_back: Vec<f32> = sorted.iter().map(|e| depths[e.index as usize]).collect();
    for w in read_back.windows(2) {
        assert!(w[0] <= w[1]);
    }
    assert_eq!(cloud.draw_args.instance_count, 1000);
}

#[test]
fn temporal_window_reuses_between_resorts() {
    let mut window = TemporalSortWindow::new(3);
    let actions: Vec<SortAction> = (0..7).map(|_| window.next_frame()).collect();
    assert_eq!(
        actions,
        vec![
            SortAction::FullResort,
            SortAction::ReusePrevious,
            SortAction::ReusePrevious,
            SortAction::FullResort,
            SortAction::ReusePrevious,
            SortAction::ReusePrevious,
            SortAction::FullResort,
        ]
    );
    window.next_frame();
    window.request_resort();
    assert_eq!(window.next_frame(), SortAction::FullResort);
}

#[test]
fn reused_frame_keeps_previous_order() {
    let defines = ShaderDefines::default();
    let ids = UploadIds { gaussian_buffer: 1, draw_indirect_buffer: 2, sort_buffer_a: 3, sort_buffer_b: 4 };
    let mut cloud = GpuGaussianCloud::prepare(3, 16, &defines, ids);
    let mut window = TemporalSortWindow::new(2);
    cloud.sort_frame(&mut window, &bits(&[3.0, 1.0, 2.0]));
    let first: Vec<u32> = cloud.radix_sort_buffers.current_buffer().iter().map(|e| e.index).collect();
    assert_eq!(first, vec![1, 2, 0]);
    let action = cloud.sort_frame(&mut window, &bits(&[1.0, 2.0, 3.0]));
    assert_eq!(action, SortAction::ReusePrevious);
    let second: Vec<u32> = cloud.radix_sort_buffers.current_buffer().iter().map(|e| e.index).collect();
    assert_eq!(second, first);
    cloud.sort_frame(&mut window, &bits(&[1.0, 2.0, 3.0]));
    let third: Vec<u32> = cloud.radix_sort_buffers.current_buffer().iter().map(|e| e.index).collect();
    assert_eq!(third, vec![0, 1, 2]);
}

#[test]
fn tile_size_does_not_change_the_order() {
    let mut state = 11u64;
    let depths: Vec<u32> = (0..257).map(|_| ((next_random(&mut state) % 50) as f32 - 25.0).to_bits()).collect();
    let whole = sort_depths(&depths, 1024);
    for tile in [1usize, 2, 3, 16, 100, 256, 257] {
        assert_eq!(sort_depths(&depths, tile), whole);
    }
    for w in whole.windows(2) {
        assert!(w[0].key < w[1].key || (w[0].key == w[1].key && w[0].index < w[1].index));
    }
}

#[test]
fn resize_reallocates_only_on_count_change() {
    let defines = ShaderDefines::default();
    let ids = UploadIds { gaussian_buffer: 1, draw_indirect_buffer: 2, sort_buffer_a: 3, sort_buffer_b: 4 };
    let mut cloud = GpuGaussianCloud::prepare(10, 8, &defines, ids);
    let next = UploadIds { gaussian_buffer: 5, draw_indirect_buffer: 6, sort_buffer_a: 7, sort_buffer_b: 8 };
    assert!(!cloud.resize(10, 8, &defines, next));
    assert_eq!(cloud.sorted_buffer(), 3);
    assert!(cloud.resize(2000, 8, &defines, next));
    assert_eq!(cloud.count, 2000);
    assert_eq!(cloud.draw_args.instance_count, 2000);
    assert_eq!(cloud.radix_sort_buffers.entry_buffer_a.len(), 2000);
    assert_eq!(cloud.radix_sort_buffers.entry_buffer_b.len(), 2000);
    assert_eq!(cloud.status_counters_size, 256 * 2 * 4);
    assert_eq!(cloud.gaussian_buffer.size, 16_000);
    assert_eq!(cloud.sorted_buffer(), 7);
}
