use raytracer::sampler::{
    PixelSampler, RandomSampler, RandomSamplerConfig, Sample1d, Sample2d, SamplerConfig,
    SamplerError, StratifiedSampler, StratifiedSamplerConfig, STRATIFIED_DIMENSIONS,
};

#[test]
fn random_sampler_counts_samples() {
    let mut s = RandomSampler::new(3);
    assert_eq!(s.samples_per_pixel(), 3);
    s.start_pixel((0, 0));
    let mut taken = 1;
    while s.start_next_sample() {
        taken += 1;
    }
    assert_eq!(taken, 3);
    s.start_pixel((1, 0));
    assert!(s.start_next_sample());
}

#[test]
fn random_sampler_with_one_sample_takes_one() {
    let mut s = RandomSampler::new(1);
    s.start_pixel((0, 0));
    assert!(!s.start_next_sample());
}

#[test]
fn stratified_sampler_shuffles_strata() {
    let mut s = StratifiedSampler::new(16, 4, 4, 1);
    let identity: Vec<usize> = (0..16).collect();
    let mut shuffled = false;
    for pixel in 0..5 {
        s.start_pixel((pixel, 0));
        let mut strata = Vec::new();
        loop {
            if let Sample1d::Stratum { stratum, .. } = s.get_1d() {
                strata.push(stratum);
            }
            if !s.start_next_sample() {
                break;
            }
        }
        if strata != identity {
            shuffled = true;
        }
        strata.sort();
        assert_eq!(strata, identity);
    }
    assert!(shuffled);
}

#[test]
fn random_sampler_always_draws_uniformly() {
    let mut s = SamplerConfig::Random(RandomSamplerConfig { samples_per_pixel: 4 })
        .to_sampler()
        .unwrap();
    s.start_pixel((2, 3));
    assert!(s.get_1d() == Sample1d::Uniform);
    assert!(s.get_2d() == Sample2d::Uniform);
    assert_eq!(s.samples_per_pixel(), 4);
}

#[test]
fn stratified_sampler_covers_every_stratum() {
    let mut s = StratifiedSampler::new(6, 3, 2, 2);
    s.start_pixel((0, 0));
    let mut first = Vec::new();
    let mut second = Vec::new();
    let mut cells = Vec::new();
    loop {
        match s.get_1d() {
            Sample1d::Stratum { stratum, strata } => {
                assert_eq!(strata, 6);
                first.push(stratum);
            }
            Sample1d::Uniform => panic!("expected a stratum"),
        }
        match s.get_2d() {
            Sample2d::Cell { x_cell, y_cell, x_strata, y_strata } => {
                assert_eq!((x_strata, y_strata), (3, 2));
                assert!(x_cell < 3 && y_cell < 2);
                cells.push((x_cell, y_cell));
            }
            Sample2d::Uniform => panic!("expected a cell"),
        }
        // Past the precomputed dimensions the draws are uniform.
        assert!(s.get_1d() == Sample1d::Uniform);
        if let Sample1d::Stratum { stratum, .. } = StratifiedSampler::get_1d(&mut s) {
            second.push(stratum);
        }
        if !s.start_next_sample() {
            break;
        }
    }
    first.sort();
    assert_eq!(first, vec![0, 1, 2, 3, 4, 5]);
    assert!(second.is_empty());
    cells.sort();
    assert_eq!(cells, vec![(0, 0), (0, 1), (1, 0), (1, 1), (2, 0), (2, 1)]);
}

#[test]
fn stratified_sampler_takes_each_sample_once() {
    let mut s = StratifiedSampler::new(4, 2, 2, 1);
    s.start_pixel((5, 5));
    let mut taken = 1;
    while s.start_next_sample() {
        taken += 1;
    }
    assert_eq!(taken, 4);
}

#[test]
fn stratified_sampler_with_no_samples_draws_uniformly() {
    let mut s = StratifiedSampler::new(0, 0, 3, 2);
    s.start_pixel((0, 0));
    assert!(s.get_1d() == Sample1d::Uniform);
    assert!(s.get_2d() == Sample2d::Uniform);
    assert!(!s.start_next_sample());
}

#[test]
fn stratified_config_needs_one_cell_per_sample() {
    let bad = SamplerConfig::Stratified(StratifiedSamplerConfig {
        samples_per_pixel: 16,
        x_strata: 4,
        y_strata: 3,
    });
    assert!(matches!(bad.to_sampler(), Err(SamplerError::StrataMismatch)));
    let huge = SamplerConfig::Stratified(StratifiedSamplerConfig {
        samples_per_pixel: 0,
        x_strata: usize::MAX,
        y_strata: 2,
    });
    assert!(matches!(huge.to_sampler(), Err(SamplerError::StrataMismatch)));
    let good = SamplerConfig::Stratified(StratifiedSamplerConfig {
        samples_per_pixel: 16,
        x_strata: 4,
        y_strata: 4,
    });
    match good.to_sampler() {
        Ok(PixelSampler::Stratified(mut s)) => {
            assert_eq!(s.samples_per_pixel(), 16);
            s.start_pixel((0, 0));
            for _ in 0..STRATIFIED_DIMENSIONS {
                assert!(matches!(s.get_1d(), Sample1d::Stratum { strata: 16, .. }));
            }
            assert!(s.get_1d() == Sample1d::Uniform);
        }
        _ => panic!("expected a stratified sampler"),
    }
}
