//! The parameter sweep: the cross product of chunk sizes and delays, walked
//! in row-major order, one trial per pair. The sweep hands out the next
//! trial's parameters, records each trial's result, and lays the finished
//! results out as the latency surface. Running a trial means sockets and
//! threads, so that stays with the caller; every decision about which trial
//! comes next and where its result lands is made and proved here.

use vstd::prelude::*;
use crate::surface::Surface;
use crate::surface::surface_cells;
use crate::surface::surface_cols;
use crate::surface::surface_rows;

verus! {

/// A sweep in progress: the parameter grid and the results of the trials
/// run so far, in row-major order.
pub struct Sweep {
    /// The chunk sizes to try: one grid row each, in the order given.
    pub chunk_sizes: Vec<usize>,
    /// The per-chunk delays to try, in milliseconds: one grid column each.
    pub delays: Vec<u64>,
    /// The latency recorded for each finished trial, row-major.
    pub results: Vec<u64>,
}

impl Sweep {
    /// The number of grid rows.
    pub open spec fn rows(self) -> int {
        self.chunk_sizes@.len() as int
    }

    /// The number of grid columns.
    pub open spec fn cols(self) -> int {
        self.delays@.len() as int
    }

    /// The number of trials a full sweep runs.
    pub open spec fn total(self) -> int {
        self.rows() * self.cols()
    }

    /// The chunk size of trial number `k`.
    pub open spec fn trial_chunk(self, k: int) -> usize {
        self.chunk_sizes@[k / self.cols()]
    }

    /// The delay of trial number `k`.
    pub open spec fn trial_delay(self, k: int) -> u64 {
        self.delays@[k % self.cols()]
    }

    /// Well-formedness: both parameter sequences are non-empty, every chunk
    /// size is positive, the grid is no larger than a vector can hold, and
    /// no more results are recorded than there are trials.
    pub open spec fn wf(self) -> bool {
        &&& self.rows() >= 1
        &&& self.cols() >= 1
        &&& self.total() <= usize::MAX
        &&& (forall|i: int| 0 <= i < self.rows() ==> self.chunk_sizes@[i] > 0)
        &&& self.results@.len() <= self.total()
    }

    /// Starts a sweep over the given parameter grid, with no trial run yet.
    pub fn new(chunk_sizes: Vec<usize>, delays: Vec<u64>) -> (s: Sweep)
        requires
            chunk_sizes@.len() >= 1,
            delays@.len() >= 1,
            chunk_sizes@.len() * delays@.len() <= usize::MAX,
            forall|i: int| 0 <= i < chunk_sizes@.len() ==> chunk_sizes@[i] > 0,
        ensures
            s.wf(),
            s.chunk_sizes@ == chunk_sizes@,
            s.delays@ == delays@,
            s.results@.len() == 0,
    {
        Sweep { chunk_sizes, delays, results: Vec::new() }
    }

    /// The parameters of the next trial to run, in row-major order — chunk
    /// sizes outer, delays inner — or None once every trial is recorded.
    pub fn next_trial(&self) -> (t: Option<(usize, u64)>)
        requires
            self.wf(),
        ensures
            match t {
                Some(p) => {
                    &&& self.results@.len() < self.total()
                    &&& p.0 == self.trial_chunk(self.results@.len() as int)
                    &&& p.1 == self.trial_delay(self.results@.len() as int)
                    &&& p.0 > 0
                },
                None => self.results@.len() == self.total(),
            },
    {
        let k = self.results.len();
        let rows = self.chunk_sizes.len();
        let cols = self.delays.len();
        if k >= rows * cols {
            None
        } else {
            let r = k / cols;
            let c = k % cols;
            proof {
                assert((k as int) / (cols as int) < (rows as int)) by (nonlinear_arith)
                    requires
                        cols as int > 0,
                        k as int >= 0,
                        (k as int) < (rows as int) * (cols as int),
                ;
            }
            Some((self.chunk_sizes[r], self.delays[c]))
        }
    }

    /// Records the result of the trial whose parameters `next_trial` just
    /// handed out.
    pub fn record(&mut self, latency: u64)
        requires
            old(self).wf(),
            old(self).results@.len() < old(self).total(),
        ensures
            final(self).wf(),
            final(self).chunk_sizes@ == old(self).chunk_sizes@,
            final(self).delays@ == old(self).delays@,
            final(self).results@ == old(self).results@.push(latency),
    {
        self.results.push(latency);
    }

    /// Lays the results of a finished sweep out as the latency surface:
    /// one row per chunk size, one column per delay, cell (r, c) the result
    /// of trial number r * cols + c.
    pub fn into_surface(self) -> (g: Surface)
        requires
            self.wf(),
            self.results@.len() == self.total(),
        ensures
            surface_rows(g) == self.rows(),
            surface_cols(g) == self.cols(),
            surface_cells(g) == self.results@,
    {
        let rows = self.chunk_sizes.len();
        let cols = self.delays.len();
        Surface::from_vec(rows, cols, self.results)
    }
}

/// Sweep shape: trials are handed out in row-major order, so for every grid
/// position (r, c) the trial whose result lands in cell (r, c) — trial
/// number r * cols + c — was run with chunk size `chunk_sizes[r]` and delay
/// `delays[c]`.
pub proof fn lemma_cell_is_trial(s: Sweep, r: int, c: int)
    requires
        s.wf(),
        0 <= r < s.rows(),
        0 <= c < s.cols(),
    ensures
        0 <= r * s.cols() + c < s.total(),
        s.trial_chunk(r * s.cols() + c) == s.chunk_sizes@[r],
        s.trial_delay(r * s.cols() + c) == s.delays@[c],
{
    let k = r * s.cols() + c;
    vstd::arithmetic::div_mod::lemma_fundamental_div_mod_converse_div(k, s.cols(), r, c);
    vstd::arithmetic::div_mod::lemma_fundamental_div_mod_converse_mod(k, s.cols(), r, c);
    assert(k < s.total()) by (nonlinear_arith)
        requires
            0 <= c < s.cols(),
            0 <= r < s.rows(),
            k == r * s.cols() + c,
            s.total() == s.rows() * s.cols(),
    ;
}

} // verus!
