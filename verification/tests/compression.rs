use algebra_rose::coherence::CoherenceReport;
use algebra_rose::compress::{CompressionEngine, CompressionError};
use algebra_rose::phi::SCALE;
use algebra_rose::stage::StageTable;

const PHI: f64 = 1.618033988749895;

fn engine_with_levels(levels: &[usize]) -> CompressionEngine {
    CompressionEngine::from_dimensions(&levels.to_vec()).unwrap()
}

fn report_in_range(report: &CoherenceReport) -> bool {
    report.energy_ratio <= SCALE
        && report.spectral_ratio <= SCALE
        && report.ratio_pattern_score <= SCALE
        && report.combined_score <= SCALE
}

#[test]
fn test_optimal_compression_path() {
    let extensor = engine_with_levels(&[3, 5, 8, 13, 21, 34, 55, 89, 144, 233, 377, 610, 1025]);
    let test_cases = vec![(1025, 3), (610, 3), (377, 13), (233, 8)];

    for (from, to) in test_cases {
        let path = extensor.plan_path(from, to).unwrap();
        println!("Compresión {}D → {}D:", from, to);
        println!("   Ruta: {:?}", path);

        assert!(!path.is_empty());
        assert_eq!(path[0], from);
        assert_eq!(path[path.len() - 1], to);
        for &dim in &path {
            assert!(extensor.levels.contains(&dim), "{}D no es nivel Fibonacci válido", dim);
        }
    }
}

#[test]
fn test_extensor_compression() {
    let extensor = engine_with_levels(&[3, 5, 8, 13, 21, 34, 55, 89, 144, 233, 377, 610, 1025]);

    let high_dim_state: Vec<i64> = (0..1025)
        .map(|i| ((PHI * i as f64).sin() * SCALE as f64).round() as i64)
        .collect();

    let low_dim_state = extensor.compress(&high_dim_state, 1025, 3).unwrap();
    assert_eq!(low_dim_state.len(), 3);
    println!("✅ Compresión 1025D → 3D exitosa");
    println!("   Estado comprimido: {:?}", low_dim_state);

    let energy: i128 = low_dim_state.iter().map(|&x| (x as i128) * (x as i128)).sum();
    assert!(energy > 0, "Estado comprimido no debería ser todo ceros");
}

#[test]
fn test_uniform_vector_single_hop() {
    // A single hop from 21 down to 3 splits into three full windows of
    // seven; a uniform vector is exactly invariant under the weighted
    // average, and the energy ratio is exactly 3/21 = 1/7.
    let extensor = engine_with_levels(&[3, 21]);
    let uniform: Vec<i64> = vec![SCALE as i64; 21];
    let (compressed, report) = extensor.compress_with_coherence(&uniform, 21, 3).unwrap();
    assert_eq!(compressed, vec![SCALE as i64, SCALE as i64, SCALE as i64]);
    // floor(SCALE / 7)
    assert_eq!(report.energy_ratio, 142_857_142);
    assert_eq!(report.spectral_ratio, SCALE);
    // All consecutive ratios are 1.0, each deviating by phi - 1 from phi.
    assert_eq!(report.ratio_pattern_score, SCALE - 618_033_989);
    assert_eq!(report.combined_score, 495_643_547);
    assert!(report_in_range(&report));
}

#[test]
fn test_uniform_vector_staged_path() {
    // Down the full staged path 21 → 13 → 8 → 5 → 3 the trailing windows of
    // some hops are empty and fill with zeros, so only the leading entry
    // of a uniform vector survives unchanged.
    let extensor = engine_with_levels(&[3, 5, 8, 13, 21]);
    let uniform: Vec<i64> = vec![SCALE as i64; 21];
    let compressed = extensor.compress(&uniform, 21, 3).unwrap();
    assert_eq!(compressed.len(), 3);
    // The leading window stays exact; the second averages a half-empty
    // window (1 / phi^2 of the mass gone); the third is entirely padding.
    assert_eq!(compressed, vec![SCALE as i64, 527_864_044, 0]);
    let report = extensor.coherence(&uniform, &compressed);
    assert!(report_in_range(&report));
}

#[test]
fn test_compression_lengths() {
    // Every valid source/target pair yields a vector of exactly the target
    // dimension.
    let extensor = engine_with_levels(&[3, 5, 8, 13, 21, 34, 55]);
    let cases = vec![(55, 3), (55, 21), (34, 8), (21, 21), (13, 5)];
    for (from, to) in cases {
        let input: Vec<i64> = (0..from).map(|i| (i as i64) * 1_000_000).collect();
        let output = extensor.compress(&input, from, to).unwrap();
        assert_eq!(output.len(), to);
    }
}

#[test]
fn test_compression_deterministic() {
    let extensor = engine_with_levels(&[3, 5, 8, 13, 21]);
    let input: Vec<i64> = (0..21).map(|i| ((i * i) as i64) * 7_000_000 - 900_000_000).collect();
    let first = extensor.compress(&input, 21, 3).unwrap();
    let second = extensor.compress(&input, 21, 3).unwrap();
    assert_eq!(first, second);
}

#[test]
fn test_compression_error_variants() {
    let extensor = engine_with_levels(&[3, 5, 8, 13, 21]);
    let v21: Vec<i64> = vec![1_000_000; 21];
    let v10: Vec<i64> = vec![1_000_000; 10];

    // The vector's length must match the stated source dimension.
    assert_eq!(
        extensor.compress(&v21, 13, 3).unwrap_err(),
        CompressionError::DimensionMismatch
    );
    // The target must be a catalogued dimension not above the source.
    assert_eq!(
        extensor.compress(&v21, 21, 4).unwrap_err(),
        CompressionError::InvalidTargetDimension
    );
    let v3: Vec<i64> = vec![1_000_000; 3];
    assert_eq!(
        extensor.compress(&v3, 3, 21).unwrap_err(),
        CompressionError::InvalidTargetDimension
    );
    // The source itself must be catalogued.
    assert_eq!(
        extensor.compress(&v10, 10, 3).unwrap_err(),
        CompressionError::NoValidPath
    );
}

#[test]
fn test_plan_path_errors() {
    let extensor = engine_with_levels(&[3, 5, 8, 13, 21]);
    assert_eq!(extensor.plan_path(22, 3).unwrap_err(), CompressionError::NoValidPath);
    assert_eq!(extensor.plan_path(21, 4).unwrap_err(), CompressionError::NoValidPath);
    assert_eq!(extensor.plan_path(3, 21).unwrap_err(), CompressionError::NoValidPath);
    assert_eq!(extensor.plan_path(21, 21).unwrap(), vec![21]);
    assert_eq!(extensor.plan_path(21, 3).unwrap(), vec![21, 13, 8, 5, 3]);
}

#[test]
fn test_coherence_bounds_pathological() {
    // Every report field stays in [0, 1] even for all-zero and
    // zero-variance inputs.
    let extensor = engine_with_levels(&[3, 5, 8, 13, 21]);

    let zeros: Vec<i64> = vec![0; 21];
    let compressed = extensor.compress(&zeros, 21, 3).unwrap();
    assert_eq!(compressed, vec![0, 0, 0]);
    let report = extensor.coherence(&zeros, &compressed);
    assert!(report_in_range(&report));
    assert_eq!(report.energy_ratio, SCALE);
    assert_eq!(report.spectral_ratio, 0);

    let constant: Vec<i64> = vec![-123_000_000; 13];
    let compressed = extensor.compress(&constant, 13, 5).unwrap();
    let report = extensor.coherence(&constant, &compressed);
    assert!(report_in_range(&report));

    let mixed: Vec<i64> = (0..21).map(|i| if i % 2 == 0 { 500_000_000 } else { -500_000_000 }).collect();
    let compressed = extensor.compress(&mixed, 21, 8).unwrap();
    let report = extensor.coherence(&mixed, &compressed);
    assert!(report_in_range(&report));
}

#[test]
fn test_engine_from_stage_table() {
    let extensor = CompressionEngine::new(&StageTable::new());
    assert_eq!(extensor.levels.len(), 24);
    assert_eq!(extensor.levels[0], 3);
    assert_eq!(extensor.levels[23], 196418);
    let path = extensor.plan_path(21, 3).unwrap();
    assert_eq!(path, vec![21, 13, 8, 5, 3]);
}
