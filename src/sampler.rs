use rand::rngs::ThreadRng;
use vstd::prelude::*;

verus! {

broadcast use vstd::seq_lib::group_to_multiset_ensures;

#[verifier::external_type_specification]
#[verifier::external_body]
pub struct ExThreadRng(rand::rngs::ThreadRng);

/// Relies on rand::thread_rng: a handle to the calling thread's generator.
#[verifier::external_body]
fn thread_rng() -> (r: ThreadRng) {
    rand::thread_rng()
}

/// Relies on rand's SliceRandom::shuffle: a Fisher-Yates pass that only swaps
/// elements, so the result holds the same elements in some order.
#[verifier::external_body]
fn shuffle(v: &mut Vec<usize>, rng: &mut ThreadRng)
    ensures
        final(v)@.len() == old(v)@.len(),
        final(v)@.to_multiset() == old(v)@.to_multiset(),
{
    rand::seq::SliceRandom::shuffle(v.as_mut_slice(), rng)
}

/// Settings of a sampler that draws every value afresh.
pub struct RandomSamplerConfig {
    pub samples_per_pixel: usize,
}

/// Settings of a stratified sampler over an `x_strata` by `y_strata` grid.
pub struct StratifiedSamplerConfig {
    pub samples_per_pixel: usize,
    pub x_strata: usize,
    pub y_strata: usize,
}

/// The sampler selected by a render description.
pub enum SamplerConfig {
    Random(RandomSamplerConfig),
    Stratified(StratifiedSamplerConfig),
}

/// Number of 1-D and of 2-D dimensions that a stratified sampler built from
/// a render description precomputes for each pixel.
pub const STRATIFIED_DIMENSIONS: usize = 4;

/// Where a 1-D sample value in [0, 1) has to be drawn.
#[derive(Clone, Copy, Debug, PartialEq, Eq, Structural)]
pub enum Sample1d {
    /// Uniformly inside `[stratum / strata, (stratum + 1) / strata)`.
    Stratum { stratum: usize, strata: usize },
    /// Uniformly in [0, 1).
    Uniform,
}

/// Where a 2-D sample point in [0, 1)² has to be drawn.
#[derive(Clone, Copy, Debug, PartialEq, Eq, Structural)]
pub enum Sample2d {
    /// Uniformly inside the cell (`x_cell`, `y_cell`) of an `x_strata` by
    /// `y_strata` grid laid over the unit square.
    Cell { x_cell: usize, y_cell: usize, x_strata: usize, y_strata: usize },
    /// Uniformly in [0, 1)².
    Uniform,
}

/// The integers `0, 1, ..., n - 1` in increasing order.
pub open spec fn range_seq(n: nat) -> Seq<usize> {
    Seq::new(n, |i: int| i as usize)
}

/// `row` holds each of `0, 1, ..., n - 1` exactly once.
pub open spec fn is_strata_permutation(row: Seq<usize>, n: nat) -> bool {
    row.to_multiset() == range_seq(n).to_multiset()
}

/// A row that hands out every stratum once has one entry per stratum, each
/// entry names a stratum, no two entries agree, and every stratum occurs.
pub proof fn lemma_strata_permutation(row: Seq<usize>, n: nat)
    requires
        is_strata_permutation(row, n),
        n <= usize::MAX,
    ensures
        row.len() == n,
        forall|j: int| 0 <= j < row.len() ==> (#[trigger] row[j] as nat) < n,
        row.no_duplicates(),
        forall|k: nat| k < n ==> #[trigger] row.contains(k as usize),
{
    let range = range_seq(n);
    assert(row.len() == row.to_multiset().len());
    assert(range.len() == range.to_multiset().len());
    assert forall|j: int| 0 <= j < row.len() implies (#[trigger] row[j] as nat) < n by {
        assert(row.contains(row[j]));
        assert(row.to_multiset().count(row[j]) > 0);
        assert(range.contains(row[j]));
    }
    assert forall|i: int, j: int| 0 <= i < range.len() && 0 <= j < range.len() && i != j implies range[i]
        != range[j] by {
        assert(range[i] == i);
        assert(range[j] == j);
    }
    assert(range.no_duplicates());
    range.lemma_multiset_has_no_duplicates();
    row.lemma_multiset_has_no_duplicates_conv();
    assert forall|k: nat| k < n implies #[trigger] row.contains(k as usize) by {
        assert(range[k as int] == k as usize);
        assert(range.contains(k as usize));
        assert(range.to_multiset().count(k as usize) > 0);
    }
}

fn strata_in_order(n: usize) -> (r: Vec<usize>)
    ensures
        r@ == range_seq(n as nat),
{
    let mut r: Vec<usize> = Vec::new();
    let mut i: usize = 0;
    while i < n
        invariant
            i <= n,
            r@ == range_seq(i as nat),
        decreases n - i,
    {
        r.push(i);
        i = i + 1;
        proof {
            assert(r@ =~= range_seq(i as nat));
        }
    }
    r
}

fn shuffled_strata(n: usize, rng: &mut ThreadRng) -> (r: Vec<usize>)
    ensures
        is_strata_permutation(r@, n as nat),
{
    let mut r = strata_in_order(n);
    shuffle(&mut r, rng);
    r
}

/// Mathematical model of a [`RandomSampler`].
pub struct RandomState {
    pub samples_per_pixel: nat,
    /// Index of the current sample of the pixel.
    pub current_sample: nat,
}

/// Whether state `st` moves to another sample, and the state after: the next
/// sample index, unless the last sample is reached.
pub open spec fn random_next(st: RandomState) -> (bool, RandomState) {
    if st.current_sample + 1 < st.samples_per_pixel {
        (true, RandomState { current_sample: st.current_sample + 1, ..st })
    } else {
        (false, st)
    }
}

/// A sampler whose every value is a fresh uniform draw.
pub struct RandomSampler {
    samples_per_pixel: usize,
    current_sample: usize,
}

impl View for RandomSampler {
    type V = RandomState;

    closed spec fn view(&self) -> RandomState {
        RandomState {
            samples_per_pixel: self.samples_per_pixel as nat,
            current_sample: self.current_sample as nat,
        }
    }
}

impl RandomSampler {
    #[verifier::type_invariant]
    spec fn inv(&self) -> bool {
        self.current_sample < self.samples_per_pixel || self.current_sample == 0
    }

    pub fn new(samples_per_pixel: usize) -> (r: RandomSampler)
        ensures
            r@ == (RandomState { samples_per_pixel: samples_per_pixel as nat, current_sample: 0 }),
    {
        RandomSampler { samples_per_pixel, current_sample: 0 }
    }

    /// Starts a new pixel at its first sample.
    pub fn start_pixel(&mut self, _pixel: (u32, u32))
        ensures
            final(self)@ == (RandomState { current_sample: 0, ..old(self)@ }),
    {
        *self = RandomSampler { samples_per_pixel: self.samples_per_pixel, current_sample: 0 };
    }

    /// Moves to the next sample of the pixel; false once the last one is reached.
    pub fn start_next_sample(&mut self) -> (r: bool)
        ensures
            (r, final(self)@) == random_next(old(self)@),
    {
        proof {
            use_type_invariant(&*self);
        }
        if self.current_sample + 1 < self.samples_per_pixel {
            *self = RandomSampler {
                samples_per_pixel: self.samples_per_pixel,
                current_sample: self.current_sample + 1,
            };
            true
        } else {
            false
        }
    }

    pub fn samples_per_pixel(&self) -> (r: usize)
        ensures
            r == self@.samples_per_pixel,
    {
        self.samples_per_pixel
    }
}

/// Mathematical model of a [`StratifiedSampler`].
pub struct StratifiedState {
    pub samples_per_pixel: nat,
    pub x_strata: nat,
    pub y_strata: nat,
    /// For each precomputed 1-D dimension, the stratum used by each sample index.
    pub strata_1d: Seq<Seq<usize>>,
    /// For each precomputed 2-D dimension, the grid cell, numbered row by row,
    /// used by each sample index.
    pub cells_2d: Seq<Seq<usize>>,
    pub sample_index: nat,
    /// Number of dimensions consumed by the current sample.
    pub dimension: nat,
}

/// What every stratified sampler keeps: the grid has one cell per sample,
/// both tables have one row per precomputed dimension, each row hands out
/// every stratum (or cell) exactly once, and the sample index stays in range.
pub open spec fn stratified_wf(st: StratifiedState) -> bool {
    &&& st.x_strata * st.y_strata == st.samples_per_pixel
    &&& st.strata_1d.len() == st.cells_2d.len()
    &&& forall|d: int|
        0 <= d < st.strata_1d.len() ==> #[trigger] is_strata_permutation(
            st.strata_1d[d],
            st.samples_per_pixel,
        )
    &&& forall|d: int|
        0 <= d < st.cells_2d.len() ==> #[trigger] is_strata_permutation(
            st.cells_2d[d],
            st.samples_per_pixel,
        )
    &&& (st.sample_index < st.samples_per_pixel || (st.samples_per_pixel == 0 && st.sample_index
        == 0))
}

/// The same sampler with a fresh draw of its tables: everything else is kept.
pub open spec fn same_layout(a: StratifiedState, b: StratifiedState) -> bool {
    &&& a.samples_per_pixel == b.samples_per_pixel
    &&& a.x_strata == b.x_strata
    &&& a.y_strata == b.y_strata
    &&& a.strata_1d.len() == b.strata_1d.len()
    &&& a.cells_2d.len() == b.cells_2d.len()
}

/// The 1-D sample of state `st` and the state after it: the stratum that the
/// current sample index holds in the next precomputed dimension, or a uniform
/// draw once those are used up.
pub open spec fn stratified_1d(st: StratifiedState) -> (Sample1d, StratifiedState) {
    if st.dimension < st.strata_1d.len() && st.sample_index < st.samples_per_pixel {
        (
            Sample1d::Stratum {
                stratum: st.strata_1d[st.dimension as int][st.sample_index as int],
                strata: st.samples_per_pixel as usize,
            },
            StratifiedState { dimension: st.dimension + 1, ..st },
        )
    } else {
        (Sample1d::Uniform, st)
    }
}

/// The 2-D sample of state `st` and the state after it: the grid cell that
/// the current sample index holds in the next precomputed dimension, cells
/// being numbered row by row, or a uniform draw once those are used up.
pub open spec fn stratified_2d(st: StratifiedState) -> (Sample2d, StratifiedState) {
    if st.dimension < st.cells_2d.len() && st.sample_index < st.samples_per_pixel {
        let cell = st.cells_2d[st.dimension as int][st.sample_index as int];
        (
            Sample2d::Cell {
                x_cell: (cell as nat % st.x_strata) as usize,
                y_cell: (cell as nat / st.x_strata) as usize,
                x_strata: st.x_strata as usize,
                y_strata: st.y_strata as usize,
            },
            StratifiedState { dimension: st.dimension + 1, ..st },
        )
    } else {
        (Sample2d::Uniform, st)
    }
}

/// Whether state `st` moves to another sample, and the state after: the next
/// sample index with no dimension consumed, unless the last sample is reached.
pub open spec fn stratified_next(st: StratifiedState) -> (bool, StratifiedState) {
    if st.sample_index + 1 < st.samples_per_pixel {
        (true, StratifiedState { sample_index: st.sample_index + 1, dimension: 0, ..st })
    } else {
        (false, st)
    }
}

/// A sampler that, for each pixel, splits [0, 1) into as many strata as there
/// are samples (and the unit square into as many cells), and hands each
/// stratum out once per precomputed dimension, in a random order. Dimensions
/// past the precomputed ones are drawn uniformly. Callers have to consume
/// dimensions in the same order for every sample of a pixel: nothing checks it.
pub struct StratifiedSampler {
    samples_per_pixel: usize,
    x_strata: usize,
    y_strata: usize,
    strata_1d: Vec<Vec<usize>>,
    cells_2d: Vec<Vec<usize>>,
    current_sample_index: usize,
    current_dimension: usize,
}

impl View for StratifiedSampler {
    type V = StratifiedState;

    closed spec fn view(&self) -> StratifiedState {
        StratifiedState {
            samples_per_pixel: self.samples_per_pixel as nat,
            x_strata: self.x_strata as nat,
            y_strata: self.y_strata as nat,
            strata_1d: self.strata_1d@.map_values(|row: Vec<usize>| row@),
            cells_2d: self.cells_2d@.map_values(|row: Vec<usize>| row@),
            sample_index: self.current_sample_index as nat,
            dimension: self.current_dimension as nat,
        }
    }
}

fn strata_table(dimensions: usize, n: usize, rng: &mut ThreadRng) -> (r: Vec<Vec<usize>>)
    ensures
        r@.len() == dimensions,
        forall|d: int| 0 <= d < dimensions ==> #[trigger] is_strata_permutation(r@[d]@, n as nat),
{
    let mut table: Vec<Vec<usize>> = Vec::new();
    let mut d: usize = 0;
    while d < dimensions
        invariant
            d <= dimensions,
            table@.len() == d,
            forall|e: int| 0 <= e < d ==> #[trigger] is_strata_permutation(table@[e]@, n as nat),
        decreases dimensions - d,
    {
        table.push(shuffled_strata(n, rng));
        d = d + 1;
    }
    table
}

fn ordered_table(dimensions: usize, n: usize) -> (r: Vec<Vec<usize>>)
    ensures
        r@.len() == dimensions,
        forall|d: int| 0 <= d < dimensions ==> #[trigger] is_strata_permutation(r@[d]@, n as nat),
{
    let mut table: Vec<Vec<usize>> = Vec::new();
    let mut d: usize = 0;
    while d < dimensions
        invariant
            d <= dimensions,
            table@.len() == d,
            forall|e: int| 0 <= e < d ==> #[trigger] is_strata_permutation(table@[e]@, n as nat),
        decreases dimensions - d,
    {
        table.push(strata_in_order(n));
        d = d + 1;
    }
    table
}

impl StratifiedSampler {
    #[verifier::type_invariant]
    spec fn inv(&self) -> bool {
        stratified_wf(self@)
    }

    /// A sampler with `dimensions` precomputed 1-D and 2-D dimensions. Its
    /// tables are laid out in order until the first pixel starts.
    pub fn new(samples_per_pixel: usize, x_strata: usize, y_strata: usize, dimensions: usize) -> (r:
        StratifiedSampler)
        requires
            x_strata * y_strata == samples_per_pixel,
        ensures
            r@.samples_per_pixel == samples_per_pixel,
            r@.x_strata == x_strata,
            r@.y_strata == y_strata,
            r@.strata_1d.len() == dimensions,
            r@.cells_2d.len() == dimensions,
            r@.sample_index == 0,
            r@.dimension == 0,
            stratified_wf(r@),
    {
        let strata_1d = ordered_table(dimensions, samples_per_pixel);
        let cells_2d = ordered_table(dimensions, samples_per_pixel);
        let r = StratifiedSampler {
            samples_per_pixel,
            x_strata,
            y_strata,
            strata_1d,
            cells_2d,
            current_sample_index: 0,
            current_dimension: 0,
        };
        proof {
            assert(r@.strata_1d.len() == dimensions);
            assert forall|d: int| 0 <= d < r@.strata_1d.len() implies #[trigger] is_strata_permutation(
                r@.strata_1d[d],
                samples_per_pixel as nat,
            ) by {
                assert(r@.strata_1d[d] == strata_1d@[d]@);
            }
            assert forall|d: int| 0 <= d < r@.cells_2d.len() implies #[trigger] is_strata_permutation(
                r@.cells_2d[d],
                samples_per_pixel as nat,
            ) by {
                assert(r@.cells_2d[d] == cells_2d@[d]@);
            }
        }
        r
    }

    /// Starts a pixel: the first sample, no dimension consumed, and a fresh
    /// random order of strata and cells in every precomputed dimension.
    pub fn start_pixel(&mut self, _pixel: (u32, u32))
        ensures
            same_layout(old(self)@, final(self)@),
            final(self)@.sample_index == 0,
            final(self)@.dimension == 0,
            stratified_wf(final(self)@),
    {
        proof {
            use_type_invariant(&*self);
        }
        let dimensions = self.strata_1d.len();
        let n = self.samples_per_pixel;
        let mut rng = thread_rng();
        let strata_1d = strata_table(dimensions, n, &mut rng);
        let cells_2d = strata_table(dimensions, n, &mut rng);
        proof {
            let st = StratifiedState {
                strata_1d: strata_1d@.map_values(|row: Vec<usize>| row@),
                cells_2d: cells_2d@.map_values(|row: Vec<usize>| row@),
                sample_index: 0,
                dimension: 0,
                ..self@
            };
            assert forall|d: int| 0 <= d < st.strata_1d.len() implies #[trigger] is_strata_permutation(
                st.strata_1d[d],
                n as nat,
            ) by {
                assert(st.strata_1d[d] == strata_1d@[d]@);
            }
            assert forall|d: int| 0 <= d < st.cells_2d.len() implies #[trigger] is_strata_permutation(
                st.cells_2d[d],
                n as nat,
            ) by {
                assert(st.cells_2d[d] == cells_2d@[d]@);
            }
        }
        *self = StratifiedSampler {
            samples_per_pixel: self.samples_per_pixel,
            x_strata: self.x_strata,
            y_strata: self.y_strata,
            strata_1d,
            cells_2d,
            current_sample_index: 0,
            current_dimension: 0,
        };
    }

    /// The next 1-D sample of the current sample index.
    pub fn get_1d(&mut self) -> (r: Sample1d)
        ensures
            (r, final(self)@) == stratified_1d(old(self)@),
            stratified_wf(final(self)@),
    {
        proof {
            use_type_invariant(&*self);
        }
        if self.current_dimension >= self.strata_1d.len()
            || self.current_sample_index >= self.samples_per_pixel {
            return Sample1d::Uniform;
        }
        proof {
            let d = self.current_dimension as int;
            assert(self@.strata_1d[d] == self.strata_1d@[d]@);
            lemma_strata_permutation(self@.strata_1d[d], self@.samples_per_pixel);
        }
        let stratum = self.strata_1d[self.current_dimension][self.current_sample_index];
        self.current_dimension = self.current_dimension + 1;
        Sample1d::Stratum { stratum, strata: self.samples_per_pixel }
    }

    /// The next 2-D sample of the current sample index.
    pub fn get_2d(&mut self) -> (r: Sample2d)
        ensures
            (r, final(self)@) == stratified_2d(old(self)@),
            stratified_wf(final(self)@),
    {
        proof {
            use_type_invariant(&*self);
        }
        if self.current_dimension >= self.cells_2d.len()
            || self.current_sample_index >= self.samples_per_pixel {
            return Sample2d::Uniform;
        }
        proof {
            let d = self.current_dimension as int;
            assert(self@.cells_2d[d] == self.cells_2d@[d]@);
            lemma_strata_permutation(self@.cells_2d[d], self@.samples_per_pixel);
        }
        let cell = self.cells_2d[self.current_dimension][self.current_sample_index];
        proof {
            let (x, y, n) = (self.x_strata as int, self.y_strata as int, self.samples_per_pixel as int);
            assert(x > 0) by (nonlinear_arith)
                requires
                    x * y == n,
                    n > 0,
                    x >= 0,
                    y >= 0,
            ;
        }
        self.current_dimension = self.current_dimension + 1;
        Sample2d::Cell {
            x_cell: cell % self.x_strata,
            y_cell: cell / self.x_strata,
            x_strata: self.x_strata,
            y_strata: self.y_strata,
        }
    }

    /// Moves to the next sample of the pixel; false once the last one is reached.
    pub fn start_next_sample(&mut self) -> (r: bool)
        ensures
            (r, final(self)@) == stratified_next(old(self)@),
            stratified_wf(final(self)@),
    {
        proof {
            use_type_invariant(&*self);
        }
        if self.current_sample_index + 1 < self.samples_per_pixel {
            self.current_sample_index = self.current_sample_index + 1;
            self.current_dimension = 0;
            true
        } else {
            false
        }
    }

    pub fn samples_per_pixel(&self) -> (r: usize)
        ensures
            r == self@.samples_per_pixel,
    {
        self.samples_per_pixel
    }
}

/// Within one pixel, every precomputed dimension gives each sample index its
/// own stratum: over the sample indices the strata of a 1-D dimension, and the
/// cells of a 2-D dimension, are all different and together cover every one.
pub proof fn lemma_stratification(st: StratifiedState, d: int)
    requires
        stratified_wf(st),
        st.samples_per_pixel <= usize::MAX,
        0 <= d < st.strata_1d.len(),
    ensures
        st.strata_1d[d].len() == st.samples_per_pixel,
        st.strata_1d[d].no_duplicates(),
        forall|k: nat| k < st.samples_per_pixel ==> #[trigger] st.strata_1d[d].contains(k as usize),
        st.cells_2d[d].len() == st.samples_per_pixel,
        st.cells_2d[d].no_duplicates(),
        forall|k: nat| k < st.samples_per_pixel ==> #[trigger] st.cells_2d[d].contains(k as usize),
{
    lemma_strata_permutation(st.strata_1d[d], st.samples_per_pixel);
    lemma_strata_permutation(st.cells_2d[d], st.samples_per_pixel);
}

/// The state of a random sampler after `k` calls of `start_next_sample`.
pub open spec fn random_run(st: RandomState, k: nat) -> RandomState
    decreases k,
{
    if k == 0 {
        st
    } else {
        random_next(random_run(st, (k - 1) as nat)).1
    }
}

/// The state of a stratified sampler after `k` calls of `start_next_sample`.
pub open spec fn stratified_run(st: StratifiedState, k: nat) -> StratifiedState
    decreases k,
{
    if k == 0 {
        st
    } else {
        stratified_next(stratified_run(st, (k - 1) as nat)).1
    }
}

/// A pixel gets exactly `samples_per_pixel` samples from a random sampler:
/// from the first sample, `start_next_sample` answers true the first
/// `samples_per_pixel - 1` times and false after that.
pub proof fn lemma_random_pixel_samples(st: RandomState, k: nat)
    requires
        st.current_sample == 0,
        st.samples_per_pixel >= 1,
        k < st.samples_per_pixel,
    ensures
        random_run(st, k).current_sample == k,
        random_run(st, k).samples_per_pixel == st.samples_per_pixel,
        random_next(random_run(st, k)).0 == (k + 1 < st.samples_per_pixel),
    decreases k,
{
    if k > 0 {
        lemma_random_pixel_samples(st, (k - 1) as nat);
    }
}

/// A pixel gets exactly `samples_per_pixel` samples from a stratified
/// sampler: from the first sample, `start_next_sample` answers true the
/// first `samples_per_pixel - 1` times and false after that.
pub proof fn lemma_stratified_pixel_samples(st: StratifiedState, k: nat)
    requires
        st.sample_index == 0,
        st.samples_per_pixel >= 1,
        k < st.samples_per_pixel,
    ensures
        stratified_run(st, k).sample_index == k,
        stratified_run(st, k).samples_per_pixel == st.samples_per_pixel,
        stratified_next(stratified_run(st, k)).0 == (k + 1 < st.samples_per_pixel),
    decreases k,
{
    if k > 0 {
        lemma_stratified_pixel_samples(st, (k - 1) as nat);
    }
}

/// A sampler built from a render description.
pub enum PixelSampler {
    Random(RandomSampler),
    Stratified(StratifiedSampler),
}

/// Render descriptions that cannot give a sampler.
#[derive(Clone, Copy, Debug, PartialEq, Eq, Structural)]
pub enum SamplerError {
    /// The stratified grid does not have one cell per sample.
    StrataMismatch,
}

impl SamplerConfig {
    /// The sampler that the description asks for. A stratified one
    /// precomputes [`STRATIFIED_DIMENSIONS`] dimensions, and needs
    /// `x_strata * y_strata == samples_per_pixel`.
    pub fn to_sampler(&self) -> (r: Result<PixelSampler, SamplerError>)
        ensures
            match self {
                SamplerConfig::Random(c) => match r {
                    Ok(PixelSampler::Random(s)) => s@ == (RandomState {
                        samples_per_pixel: c.samples_per_pixel as nat,
                        current_sample: 0,
                    }),
                    _ => false,
                },
                SamplerConfig::Stratified(c) => if c.x_strata * c.y_strata == c.samples_per_pixel {
                    match r {
                        Ok(PixelSampler::Stratified(s)) => {
                            &&& s@.samples_per_pixel == c.samples_per_pixel
                            &&& s@.x_strata == c.x_strata
                            &&& s@.y_strata == c.y_strata
                            &&& s@.strata_1d.len() == STRATIFIED_DIMENSIONS
                            &&& s@.cells_2d.len() == STRATIFIED_DIMENSIONS
                            &&& s@.sample_index == 0
                            &&& s@.dimension == 0
                            &&& stratified_wf(s@)
                        },
                        _ => false,
                    }
                } else {
                    r == Err::<PixelSampler, SamplerError>(SamplerError::StrataMismatch)
                },
            },
    {
        match self {
            SamplerConfig::Random(config) => Ok(
                PixelSampler::Random(RandomSampler::new(config.samples_per_pixel)),
            ),
            SamplerConfig::Stratified(config) => {
                match config.x_strata.checked_mul(config.y_strata) {
                    Some(cells) if cells == config.samples_per_pixel => Ok(
                        PixelSampler::Stratified(
                            StratifiedSampler::new(
                                config.samples_per_pixel,
                                config.x_strata,
                                config.y_strata,
                                STRATIFIED_DIMENSIONS,
                            ),
                        ),
                    ),
                    _ => Err(SamplerError::StrataMismatch),
                }
            },
        }
    }
}

impl PixelSampler {
    /// Starts a new pixel.
    pub fn start_pixel(&mut self, pixel: (u32, u32))
        ensures
            match (*old(self), *final(self)) {
                (PixelSampler::Random(a), PixelSampler::Random(b)) => b@ == (RandomState {
                    current_sample: 0,
                    ..a@
                }),
                (PixelSampler::Stratified(a), PixelSampler::Stratified(b)) => {
                    &&& same_layout(a@, b@)
                    &&& b@.sample_index == 0
                    &&& b@.dimension == 0
                    &&& stratified_wf(b@)
                },
                _ => false,
            },
    {
        match self {
            PixelSampler::Random(s) => s.start_pixel(pixel),
            PixelSampler::Stratified(s) => s.start_pixel(pixel),
        }
    }

    /// Where the next 1-D value has to be drawn.
    pub fn get_1d(&mut self) -> (r: Sample1d)
        ensures
            match (*old(self), *final(self)) {
                (PixelSampler::Random(a), PixelSampler::Random(b)) => r == Sample1d::Uniform && b@
                    == a@,
                (PixelSampler::Stratified(a), PixelSampler::Stratified(b)) => (r, b@)
                    == stratified_1d(a@),
                _ => false,
            },
    {
        match self {
            PixelSampler::Random(_) => Sample1d::Uniform,
            PixelSampler::Stratified(s) => s.get_1d(),
        }
    }

    /// Where the next 2-D point has to be drawn.
    pub fn get_2d(&mut self) -> (r: Sample2d)
        ensures
            match (*old(self), *final(self)) {
                (PixelSampler::Random(a), PixelSampler::Random(b)) => r == Sample2d::Uniform && b@
                    == a@,
                (PixelSampler::Stratified(a), PixelSampler::Stratified(b)) => (r, b@)
                    == stratified_2d(a@),
                _ => false,
            },
    {
        match self {
            PixelSampler::Random(_) => Sample2d::Uniform,
            PixelSampler::Stratified(s) => s.get_2d(),
        }
    }

    /// Moves to the next sample of the pixel; false when there is none.
    pub fn start_next_sample(&mut self) -> (r: bool)
        ensures
            match (*old(self), *final(self)) {
                (PixelSampler::Random(a), PixelSampler::Random(b)) => (r, b@) == random_next(
                    a@,
                ),
                (PixelSampler::Stratified(a), PixelSampler::Stratified(b)) => (r, b@)
                    == stratified_next(a@),
                _ => false,
            },
    {
        match self {
            PixelSampler::Random(s) => s.start_next_sample(),
            PixelSampler::Stratified(s) => s.start_next_sample(),
        }
    }

    pub fn samples_per_pixel(&self) -> (r: usize)
        ensures
            r == match self {
                PixelSampler::Random(s) => s@.samples_per_pixel,
                PixelSampler::Stratified(s) => s@.samples_per_pixel,
            },
    {
        match self {
            PixelSampler::Random(s) => s.samples_per_pixel(),
            PixelSampler::Stratified(s) => s.samples_per_pixel(),
        }
    }
}

} // verus!
