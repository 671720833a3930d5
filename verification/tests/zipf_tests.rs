use rand::distributions::Distribution;
use rust_storage_bench::config::Workload;
use rust_storage_bench::workload::{draw_op, zipf_to_index, OpKind};
use zipf::ZipfDistribution;

#[test]
fn zipf_draws_stay_in_range_and_favor_small_indices() {
    let mut rng = rand::thread_rng();
    let population = 100usize;
    let dist = ZipfDistribution::new(population, 0.99).unwrap();
    let mut hist = [0u32; 100];
    for _ in 0..10_000 {
        let draw = dist.sample(&mut rng);
        assert!(1 <= draw && draw <= population, "draw out of range: {draw}");
        let idx = zipf_to_index(draw as u64, population as u64);
        assert!(idx < population as u64);
        hist[idx as usize] += 1;
    }
    // the smallest index is the hottest key by a wide margin
    let max = *hist.iter().max().unwrap();
    assert_eq!(hist[0], max);
    assert!(hist[0] > hist[9]);
    let head: u32 = hist[..10].iter().sum();
    let tail: u32 = hist[90..].iter().sum();
    assert!(head > tail);
}

#[test]
fn zipf_steeper_skew_concentrates_more() {
    let mut rng = rand::thread_rng();
    let flat = ZipfDistribution::new(100, 0.5).unwrap();
    let steep = ZipfDistribution::new(100, 1.5).unwrap();
    let count_first = |dist: &ZipfDistribution, rng: &mut rand::rngs::ThreadRng| -> u32 {
        let mut hits = 0;
        for _ in 0..10_000 {
            if dist.sample(rng) == 1 {
                hits += 1;
            }
        }
        hits
    };
    assert!(count_first(&steep, &mut rng) > count_first(&flat, &mut rng));
}

#[test]
fn drawn_operations_follow_the_table() {
    for _ in 0..200 {
        assert_eq!(draw_op(Workload::TaskC), OpKind::Read);
        let d = draw_op(Workload::TaskD);
        assert!(matches!(d, OpKind::Insert | OpKind::Scan));
        let a = draw_op(Workload::TaskA);
        assert!(matches!(a, OpKind::Read | OpKind::Overwrite));
    }
}
