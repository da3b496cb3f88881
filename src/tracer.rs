use vstd::prelude::*;

verus! {

/// Settings of the Monte Carlo path tracer as read from a render description.
pub struct MonteCarloPathTracerConfig {
    pub min_depth: usize,
    pub max_depth: usize,
}

/// The Monte Carlo path tracer: Russian roulette starts at `min_depth`, and no
/// path is followed for more than `max_depth` bounces.
pub struct MonteCarloPathTracer {
    pub min_depth: usize,
    pub max_depth: usize,
}

impl MonteCarloPathTracerConfig {
    pub fn to_tracer(&self) -> (r: MonteCarloPathTracer)
        ensures
            r.min_depth == self.min_depth,
            r.max_depth == self.max_depth,
    {
        MonteCarloPathTracer { min_depth: self.min_depth, max_depth: self.max_depth }
    }
}

/// The tracer selected by a render description.
pub enum TracerConfig {
    MonteCarloPathTracer(MonteCarloPathTracerConfig),
}

impl TracerConfig {
    pub fn to_tracer(&self) -> (r: MonteCarloPathTracer)
        ensures
            match self {
                TracerConfig::MonteCarloPathTracer(c) => r.min_depth == c.min_depth
                    && r.max_depth == c.max_depth,
            },
    {
        match self {
            TracerConfig::MonteCarloPathTracer(config) => config.to_tracer(),
        }
    }
}

/// The step a path that is being extended from the camera has reached.
#[derive(Clone, Copy, Debug, PartialEq, Eq, Structural)]
pub enum PathPhase {
    Intersect,
    Roulette,
    Scatter,
    Done,
}

/// What the caller observed while carrying out the last requested action.
#[derive(Clone, Copy, Debug)]
pub enum PathEvent {
    /// The ray left the scene without hitting anything.
    Missed,
    /// The ray hit a surface; `emissive` tells whether its material emits light.
    Hit { emissive: bool },
    /// The roulette draw kept the path alive.
    Survived,
    /// The roulette draw ended the path.
    Terminated,
    /// The material proposed a ray whose density lies above the numerical floor.
    Scattered,
    /// The material proposed no ray, or one whose density is at or below the floor.
    Absorbed,
}

/// What the caller has to do next for the path.
#[derive(Clone, Copy, Debug, PartialEq, Eq, Structural)]
pub enum PathAction {
    /// Intersect the current ray with the scene, then report `Missed` or `Hit`.
    Intersect,
    /// Draw one 1-D sample and compare it with the continuation probability,
    /// then report `Survived` or `Terminated`. The probability is 1 unless
    /// `weighted` holds, in which case it is taken from the path's throughput.
    DrawRoulette { weighted: bool },
    /// Ask the material for a scattered ray, then report `Scattered` or `Absorbed`.
    Scatter,
    /// The path is complete.
    Finish,
}

/// Mathematical model of a [`PathWalk`].
pub struct WalkState {
    pub min_depth: nat,
    pub max_depth: nat,
    /// Index of the current bounce.
    pub depth: nat,
    /// Number of path vertices recorded so far, the camera vertex included.
    pub vertices: nat,
    pub phase: PathPhase,
}

/// The state a path starts in: only the camera vertex is recorded.
pub open spec fn walk_start(min_depth: nat, max_depth: nat) -> WalkState {
    WalkState {
        min_depth,
        max_depth,
        depth: 0,
        vertices: 1,
        phase: if max_depth > 0 {
            PathPhase::Intersect
        } else {
            PathPhase::Done
        },
    }
}

/// The state after `e` was observed in `w`. An event that does not answer the
/// question of the current phase leaves the state as it is.
pub open spec fn walk_next(w: WalkState, e: PathEvent) -> WalkState {
    match w.phase {
        PathPhase::Intersect => match e {
            PathEvent::Missed => WalkState { phase: PathPhase::Done, ..w },
            PathEvent::Hit { emissive } => WalkState {
                vertices: w.vertices + 1,
                phase: if emissive {
                    PathPhase::Done
                } else {
                    PathPhase::Roulette
                },
                ..w
            },
            _ => w,
        },
        PathPhase::Roulette => match e {
            PathEvent::Survived => WalkState { phase: PathPhase::Scatter, ..w },
            PathEvent::Terminated => WalkState { phase: PathPhase::Done, ..w },
            _ => w,
        },
        PathPhase::Scatter => match e {
            PathEvent::Scattered => WalkState {
                depth: w.depth + 1,
                phase: if w.depth + 1 < w.max_depth {
                    PathPhase::Intersect
                } else {
                    PathPhase::Done
                },
                ..w
            },
            PathEvent::Absorbed => WalkState { phase: PathPhase::Done, ..w },
            _ => w,
        },
        PathPhase::Done => w,
    }
}

/// The action that the state `w` asks for. Russian roulette weighs the
/// continuation from the minimum depth on; below it the path always continues.
pub open spec fn action_of(w: WalkState) -> PathAction {
    match w.phase {
        PathPhase::Intersect => PathAction::Intersect,
        PathPhase::Roulette => PathAction::DrawRoulette { weighted: w.depth >= w.min_depth },
        PathPhase::Scatter => PathAction::Scatter,
        PathPhase::Done => PathAction::Finish,
    }
}

/// The state reached from `w` after observing `events` in order.
pub open spec fn walk_run(w: WalkState, events: Seq<PathEvent>) -> WalkState
    decreases events.len(),
{
    if events.len() == 0 {
        w
    } else {
        walk_run(walk_next(w, events[0]), events.drop_first())
    }
}

/// Bounds that every reachable state keeps.
pub open spec fn walk_bounded(w: WalkState) -> bool {
    &&& w.depth <= w.max_depth
    &&& w.vertices <= w.max_depth + 1
    &&& w.vertices >= 1
    &&& (w.phase != PathPhase::Done ==> w.depth < w.max_depth)
    &&& (w.phase == PathPhase::Intersect ==> w.vertices == w.depth + 1)
    &&& (w.phase == PathPhase::Roulette || w.phase == PathPhase::Scatter) ==> w.vertices == w.depth
        + 2
}

/// The decisions of the integrator while it extends one path from the camera:
/// which query comes next, when Russian roulette applies, and when the path
/// ends. The caller performs each requested action and reports what it saw.
pub struct PathWalk {
    min_depth: usize,
    max_depth: usize,
    depth: usize,
    vertices: usize,
    phase: PathPhase,
}

impl View for PathWalk {
    type V = WalkState;

    closed spec fn view(&self) -> WalkState {
        WalkState {
            min_depth: self.min_depth as nat,
            max_depth: self.max_depth as nat,
            depth: self.depth as nat,
            vertices: self.vertices as nat,
            phase: self.phase,
        }
    }
}

proof fn lemma_walk_next_bounded(w: WalkState, e: PathEvent)
    requires
        walk_bounded(w),
    ensures
        walk_bounded(walk_next(w, e)),
{
}

impl PathWalk {
    #[verifier::type_invariant]
    spec fn inv(&self) -> bool {
        &&& walk_bounded(self@)
        &&& self.max_depth < usize::MAX
    }

    /// Starts a path for `tracer` at the camera. The vertex count of a path
    /// reaches `max_depth + 1`, which has to fit in a `usize`.
    pub fn new(tracer: &MonteCarloPathTracer) -> (r: PathWalk)
        requires
            tracer.max_depth < usize::MAX,
        ensures
            r@ == walk_start(tracer.min_depth as nat, tracer.max_depth as nat),
    {
        PathWalk {
            min_depth: tracer.min_depth,
            max_depth: tracer.max_depth,
            depth: 0,
            vertices: 1,
            phase: if tracer.max_depth > 0 {
                PathPhase::Intersect
            } else {
                PathPhase::Done
            },
        }
    }

    /// The action the path waits for.
    pub fn action(&self) -> (r: PathAction)
        ensures
            r == action_of(self@),
    {
        match self.phase {
            PathPhase::Intersect => PathAction::Intersect,
            PathPhase::Roulette => PathAction::DrawRoulette { weighted: self.depth >= self.min_depth },
            PathPhase::Scatter => PathAction::Scatter,
            PathPhase::Done => PathAction::Finish,
        }
    }

    /// Records what the caller observed and returns the next action.
    pub fn step(&mut self, event: PathEvent) -> (r: PathAction)
        ensures
            final(self)@ == walk_next(old(self)@, event),
            r == action_of(final(self)@),
    {
        proof {
            use_type_invariant(&*self);
        }
        let (depth, vertices, phase) = match self.phase {
            PathPhase::Intersect => match event {
                PathEvent::Missed => (self.depth, self.vertices, PathPhase::Done),
                PathEvent::Hit { emissive } => (
                    self.depth,
                    self.vertices + 1,
                    if emissive {
                        PathPhase::Done
                    } else {
                        PathPhase::Roulette
                    },
                ),
                _ => (self.depth, self.vertices, self.phase),
            },
            PathPhase::Roulette => match event {
                PathEvent::Survived => (self.depth, self.vertices, PathPhase::Scatter),
                PathEvent::Terminated => (self.depth, self.vertices, PathPhase::Done),
                _ => (self.depth, self.vertices, self.phase),
            },
            PathPhase::Scatter => match event {
                PathEvent::Scattered => (
                    self.depth + 1,
                    self.vertices,
                    if self.depth + 1 < self.max_depth {
                        PathPhase::Intersect
                    } else {
                        PathPhase::Done
                    },
                ),
                PathEvent::Absorbed => (self.depth, self.vertices, PathPhase::Done),
                _ => (self.depth, self.vertices, self.phase),
            },
            PathPhase::Done => (self.depth, self.vertices, self.phase),
        };
        proof {
            lemma_walk_next_bounded(self@, event);
        }
        *self = PathWalk { min_depth: self.min_depth, max_depth: self.max_depth, depth, vertices, phase };
        self.action()
    }

    /// Number of path vertices recorded so far, the camera vertex included.
    pub fn vertex_count(&self) -> (r: usize)
        ensures
            r == self@.vertices,
    {
        self.vertices
    }

    /// Index of the current bounce.
    pub fn depth(&self) -> (r: usize)
        ensures
            r == self@.depth,
    {
        self.depth
    }
}

/// Whatever the surfaces, lights and random draws turn out to be, a path never
/// goes past the tracer's maximum depth and never holds more than one vertex
/// per bounce besides the camera vertex.
pub proof fn lemma_walk_depth_bounded(min_depth: nat, max_depth: nat, events: Seq<PathEvent>)
    ensures
        walk_run(walk_start(min_depth, max_depth), events).depth <= max_depth,
        walk_run(walk_start(min_depth, max_depth), events).vertices <= max_depth + 1,
{
    lemma_walk_run_bounded(walk_start(min_depth, max_depth), events);
}

proof fn lemma_walk_run_bounded(w: WalkState, events: Seq<PathEvent>)
    requires
        walk_bounded(w),
    ensures
        walk_bounded(walk_run(w, events)),
        walk_run(w, events).max_depth == w.max_depth,
    decreases events.len(),
{
    if events.len() > 0 {
        lemma_walk_next_bounded(w, events[0]);
        lemma_walk_run_bounded(walk_next(w, events[0]), events.drop_first());
    }
}

/// Whether `e` answers the question that state `w` asks.
pub open spec fn answers(w: WalkState, e: PathEvent) -> bool {
    match w.phase {
        PathPhase::Intersect => e is Missed || e is Hit,
        PathPhase::Roulette => e is Survived || e is Terminated,
        PathPhase::Scatter => e is Scattered || e is Absorbed,
        PathPhase::Done => false,
    }
}

/// How many more answers state `w` can take at most: three per remaining
/// bounce, less the steps already taken in the current one.
pub open spec fn walk_measure(w: WalkState) -> int {
    match w.phase {
        PathPhase::Intersect => 3 * (w.max_depth - w.depth),
        PathPhase::Roulette => 3 * (w.max_depth - w.depth) - 1,
        PathPhase::Scatter => 3 * (w.max_depth - w.depth) - 2,
        PathPhase::Done => 0,
    }
}

/// Every answer brings a path closer to its end, and a path starts at most
/// `3 * max_depth` answers away from it: the number of scene queries,
/// roulette draws and scatterings per camera ray is bounded.
pub proof fn lemma_walk_progress(w: WalkState, e: PathEvent)
    requires
        walk_bounded(w),
        answers(w, e),
    ensures
        0 <= walk_measure(walk_next(w, e)) < walk_measure(w),
        walk_measure(walk_start(w.min_depth, w.max_depth)) <= 3 * w.max_depth,
{
}

/// What one pairing of a camera sub-path with a light sub-path adds to a pixel.
#[derive(Clone, Copy, Debug, PartialEq, Eq, Structural)]
pub enum Connection {
    /// No radiance.
    Nothing,
    /// The emission of the camera vertex with this index, weighted by the
    /// throughput recorded at that vertex.
    Emission(usize),
}

/// Pairings that the integrator does not support.
#[derive(Clone, Copy, Debug, PartialEq, Eq, Structural)]
pub enum ConnectError {
    /// Joining a light sub-path of one or more vertices to the camera sub-path.
    NotImplemented,
}

/// The contribution of the camera sub-path's first `t` vertices joined with
/// the light sub-path's first `s` vertices; `emissive[i]` tells whether the
/// camera vertex `i` lies on a light.
pub open spec fn connect_spec(emissive: Seq<bool>, s: nat, t: nat) -> Result<
    Connection,
    ConnectError,
> {
    if t > 1 && s > 0 && emissive[t - 1] {
        Ok(Connection::Nothing)
    } else if s == 0 {
        if emissive[t - 1] {
            Ok(Connection::Emission((t - 1) as usize))
        } else {
            Ok(Connection::Nothing)
        }
    } else {
        Err(ConnectError::NotImplemented)
    }
}

/// Decides what joining the first `s` light vertices to the first `t` camera
/// vertices contributes. Only the case without light vertices is supported.
pub fn connect(camera_emissive: &Vec<bool>, s: usize, t: usize) -> (r: Result<
    Connection,
    ConnectError,
>)
    requires
        1 <= t <= camera_emissive.len(),
    ensures
        r == connect_spec(camera_emissive@, s as nat, t as nat),
{
    if t > 1 && s > 0 && camera_emissive[t - 1] {
        return Ok(Connection::Nothing);
    }
    if s == 0 {
        if camera_emissive[t - 1] {
            Ok(Connection::Emission(t - 1))
        } else {
            Ok(Connection::Nothing)
        }
    } else {
        Err(ConnectError::NotImplemented)
    }
}

/// Indices of the camera vertices among the first `n` whose emission reaches
/// the eye: every emissive vertex past the camera whose bounce index,
/// `i - 1`, does not exceed `max_depth`, in increasing order.
pub open spec fn emitting_vertices(emissive: Seq<bool>, max_depth: nat, n: nat) -> Seq<usize>
    decreases n,
{
    if n == 0 {
        Seq::empty()
    } else {
        let i = (n - 1) as nat;
        let before = emitting_vertices(emissive, max_depth, i);
        if i >= 1 && i - 1 <= max_depth && emissive[i as int] {
            before.push(i as usize)
        } else {
            before
        }
    }
}

impl MonteCarloPathTracer {
    /// The radiance estimate of one camera path is the sum, over the returned
    /// vertex indices, of each vertex's throughput times its emission.
    /// `camera_emissive[i]` tells whether the camera vertex `i` lies on a light.
    pub fn trace(&self, camera_emissive: &Vec<bool>) -> (r: Vec<usize>)
        ensures
            r@ == emitting_vertices(camera_emissive@, self.max_depth as nat, camera_emissive.len() as nat),
    {
        let n = camera_emissive.len();
        let mut picked: Vec<usize> = Vec::new();
        let mut k: usize = 0;
        while k < n
            invariant
                k <= n,
                n == camera_emissive.len(),
                picked@ == emitting_vertices(camera_emissive@, self.max_depth as nat, k as nat),
            decreases n - k,
        {
            let t = k + 1;
            let s: usize = 0;
            let skipped = (s == 1 && t == 1) || s + t < 2 || s + t - 2 > self.max_depth;
            if !skipped {
                match connect(camera_emissive, s, t) {
                    Ok(Connection::Emission(i)) => {
                        picked.push(i);
                    },
                    _ => {},
                }
            }
            k = k + 1;
        }
        picked
    }
}

/// A camera path that meets no light gathers no radiance: the estimate is
/// exactly zero.
pub proof fn lemma_dark_path_is_black(emissive: Seq<bool>, max_depth: nat)
    requires
        forall|i: int| 0 <= i < emissive.len() ==> !emissive[i],
    ensures
        emitting_vertices(emissive, max_depth, emissive.len()) == Seq::<usize>::empty(),
{
    lemma_dark_prefix_is_black(emissive, max_depth, emissive.len());
}

proof fn lemma_dark_prefix_is_black(emissive: Seq<bool>, max_depth: nat, n: nat)
    requires
        n <= emissive.len(),
        forall|i: int| 0 <= i < emissive.len() ==> !emissive[i],
    ensures
        emitting_vertices(emissive, max_depth, n) == Seq::<usize>::empty(),
    decreases n,
{
    if n > 0 {
        lemma_dark_prefix_is_black(emissive, max_depth, (n - 1) as nat);
    }
}

} // verus!
