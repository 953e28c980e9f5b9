//! The append-only log of spectrum generations.
//!
//! A generation is a list of spectral lines. Each step that has feedback
//! derives a new generation from the one selected by the retarded time: every
//! line of that one is carried over through a transform (Doppler shift,
//! diffraction loss, reflectivity), and the seed line of freshly injected laser
//! light is appended. The log starts with a generation that holds the seed
//! line alone, so every generation ends with the seed line.
use vstd::prelude::*;

verus! {

/// The generations of a spectrum, oldest first, over lines of type `L`.
pub struct SpectrumHistory<L> {
    seed: L,
    generations: Vec<Vec<L>>,
}

/// Every generation is non-empty and ends with `seed`.
pub open spec fn seed_terminated<L>(generations: Seq<Seq<L>>, seed: L) -> bool {
    forall|g: int|
        0 <= g < generations.len() ==> #[trigger] generations[g].len() > 0
            && generations[g].last() == seed
}

/// The generation that index `idx` selects among `n` generations: that one
/// when it exists, else the most recent.
pub open spec fn selected_generation(idx: nat, n: nat) -> nat {
    if idx < n {
        idx
    } else {
        (n - 1) as nat
    }
}

/// The generation derived from `source`: each of its lines after `transform`,
/// followed by `seed`.
pub open spec fn derived_from<L, F: Fn(L) -> L>(source: Seq<L>, transform: F, seed: L, r: Seq<L>) -> bool {
    &&& r.len() == source.len() + 1
    &&& forall|i: int| 0 <= i < source.len() ==> transform.ensures((source[i],), #[trigger] r[i])
    &&& r.last() == seed
}

impl<L: Copy> SpectrumHistory<L> {
    /// The seed line.
    pub closed spec fn seed(&self) -> L {
        self.seed
    }

    /// The generations, oldest first.
    pub closed spec fn generations(&self) -> Seq<Seq<L>> {
        self.generations@.map_values(|g: Vec<L>| g@)
    }

    /// At least one generation, and every generation ends with the seed line.
    pub open spec fn wf(&self) -> bool {
        &&& self.generations().len() > 0
        &&& seed_terminated(self.generations(), self.seed())
    }

    /// A log whose only generation is the seed line alone.
    pub fn new(seed: L) -> (r: Self)
        ensures
            r.wf(),
            r.seed() == seed,
            r.generations() == seq![seq![seed]],
    {
        let mut first: Vec<L> = Vec::new();
        first.push(seed);
        assert(first@ =~= seq![seed]);
        let mut generations: Vec<Vec<L>> = Vec::new();
        generations.push(first);
        let r = SpectrumHistory { seed, generations };
        assert(r.generations()[0] == seq![seed]);
        assert(r.generations() =~= seq![seq![seed]]);
        r
    }

    /// The seed line.
    pub fn seed_line(&self) -> (r: L)
        ensures
            r == self.seed(),
    {
        self.seed
    }

    /// Number of generations.
    pub fn len(&self) -> (r: usize)
        requires
            self.wf(),
        ensures
            r == self.generations().len(),
    {
        self.generations.len()
    }

    /// Generation `g`.
    pub fn generation(&self, g: usize) -> (r: &Vec<L>)
        requires
            self.wf(),
            g < self.generations().len(),
        ensures
            r@ == self.generations()[g as int],
    {
        &self.generations[g]
    }

    /// The most recent generation.
    pub fn latest(&self) -> (r: &Vec<L>)
        requires
            self.wf(),
        ensures
            r@ == self.generations().last(),
    {
        &self.generations[self.generations.len() - 1]
    }

    /// Index of the generation that index `idx` selects: `idx` itself when
    /// that generation exists, else the most recent one.
    pub fn select(&self, idx: usize) -> (r: usize)
        requires
            self.wf(),
        ensures
            r as nat == selected_generation(idx as nat, self.generations().len()),
    {
        let n = self.generations.len();
        if idx < n {
            idx
        } else {
            n - 1
        }
    }

    /// Derives the next generation, appends it to the log and returns it.
    ///
    /// `source` is the index computed from the retarded time, or `None` while
    /// no feedback has reached the sail yet; then the new generation is the
    /// seed line alone. Otherwise the generation selected by the index (see
    /// [`Self::select`]) is carried over through `transform` and the seed line
    /// is appended.
    pub fn propagate<F: Fn(L) -> L>(&mut self, source: Option<usize>, transform: F) -> (r: Vec<L>)
        requires
            old(self).wf(),
            forall|l: L| transform.requires((l,)),
        ensures
            final(self).wf(),
            final(self).seed() == old(self).seed(),
            final(self).generations() == old(self).generations().push(r@),
            source is None ==> r@ == seq![old(self).seed()],
            source is Some ==> derived_from(
                old(self).generations()[selected_generation(
                    source->Some_0 as nat,
                    old(self).generations().len(),
                ) as int],
                transform,
                old(self).seed(),
                r@,
            ),
    {
        let ghost before = self.generations();
        let mut kept: Vec<L> = Vec::new();
        let mut out: Vec<L> = Vec::new();
        match source {
            None => {},
            Some(idx) => {
                let g = self.select(idx);
                let lines = &self.generations[g];
                assert(lines@ == before[g as int]);
                let mut i: usize = 0;
                while i < lines.len()
                    invariant
                        i <= lines@.len(),
                        lines@ == before[g as int],
                        forall|l: L| transform.requires((l,)),
                        kept@ == out@,
                        out@.len() == i,
                        forall|j: int| 0 <= j < i ==> transform.ensures((lines@[j],), #[trigger] out@[j]),
                    decreases lines@.len() - i,
                {
                    let line = transform(lines[i]);
                    kept.push(line);
                    out.push(line);
                    i = i + 1;
                }
            },
        }
        kept.push(self.seed);
        out.push(self.seed);
        self.generations.push(kept);
        proof {
            assert(self.generations() =~= before.push(out@));
            assert forall|g: int| 0 <= g < self.generations().len() implies #[trigger] self.generations()[g].len() > 0
                && self.generations()[g].last() == self.seed() by {
                if g < before.len() {
                    assert(self.generations()[g] == before[g]);
                }
            }
        }
        out
    }
}

} // verus!
