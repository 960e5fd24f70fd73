//! The life of one traced path: when it goes on, when it ends, and how.
//!
//! A path starts active at depth 0. Each bounce queries the scene and, on a
//! hit, the material. A miss lets the path escape to the sky; an absorbing
//! material or the depth limit ends it in black. A scattered path past the
//! warm-up depth plays Russian roulette: it goes on with a probability the
//! caller derives from the attenuation, and is rescaled if it does. The
//! caller does the geometry and draws the numbers; this module keeps the
//! state and makes the decisions.

use vstd::prelude::*;

verus! {

/// Where a path stands.
#[derive(Clone, Copy, Debug, PartialEq, Eq, Structural)]
pub enum Phase {
    /// Active: the next thing to do is to trace the ray into the scene.
    Tracing,
    /// Active: the ray was scattered and the roulette decides whether it
    /// goes on.
    Rolling,
    /// Ended: the ray left the scene and contributes the sky, scaled by the
    /// attenuation gathered so far.
    Escaped,
    /// Ended: the path contributes nothing.
    Absorbed,
}

/// What tracing the ray into the scene found.
#[derive(Clone, Copy, Debug, PartialEq, Eq, Structural)]
pub enum Bounce {
    /// No surface within range.
    Missed,
    /// A surface whose material swallowed the ray.
    Absorbed,
    /// A surface whose material sent the ray on.
    Scattered,
}

/// An active or ended path. `depth` counts the scatterings the path has
/// gone on from.
#[derive(Clone, Copy, Debug, PartialEq, Eq, Structural)]
pub struct Path {
    /// Scatterings the path has gone on from.
    pub depth: usize,
    /// The depth at which a scattered ray is no longer followed.
    pub max_depth: usize,
    /// The depth from which scattered rays play roulette.
    pub warm_up: usize,
    /// Where the path stands.
    pub phase: Phase,
}

impl Path {
    /// Whether the path has ended.
    pub open spec fn ended(self) -> bool {
        self.phase is Escaped || self.phase is Absorbed
    }

    /// The path as it starts.
    pub open spec fn start(max_depth: usize, warm_up: usize) -> Path {
        Path { depth: 0, max_depth, warm_up, phase: Phase::Tracing }
    }

    /// The path after tracing found `bounce`. Only a path that is tracing
    /// reacts.
    pub open spec fn after_bounce(self, bounce: Bounce) -> Path {
        if !(self.phase is Tracing) {
            self
        } else {
            match bounce {
                Bounce::Missed => Path { phase: Phase::Escaped, ..self },
                Bounce::Absorbed => Path { phase: Phase::Absorbed, ..self },
                Bounce::Scattered => if self.depth >= self.max_depth {
                    Path { phase: Phase::Absorbed, ..self }
                } else if self.depth >= self.warm_up {
                    Path { phase: Phase::Rolling, ..self }
                } else {
                    Path { depth: (self.depth + 1) as usize, ..self }
                },
            }
        }
    }

    /// The path after the roulette was played. Only a path that is rolling
    /// reacts: a survivor below the depth limit goes one level deeper, any
    /// other is absorbed.
    pub open spec fn after_roulette(self, survived: bool) -> Path {
        if !(self.phase is Rolling) {
            self
        } else if survived && self.depth < self.max_depth {
            Path { depth: (self.depth + 1) as usize, phase: Phase::Tracing, ..self }
        } else {
            Path { phase: Phase::Absorbed, ..self }
        }
    }

    /// Whether the path is one that a start and a run of events can lead
    /// to: its depth is within the limit, and below it where the roulette is
    /// due.
    pub open spec fn valid(self) -> bool {
        &&& self.depth <= self.max_depth
        &&& self.phase is Rolling ==> self.depth < self.max_depth
    }

    /// The number of events an active path can still take before it must
    /// have ended.
    pub open spec fn budget(self) -> int {
        if self.ended() || !self.valid() {
            0
        } else if self.phase is Rolling {
            2 * (self.max_depth - self.depth)
        } else {
            2 * (self.max_depth - self.depth) + 1
        }
    }

    /// A path at depth 0, about to trace its first ray.
    pub fn new(max_depth: usize, warm_up: usize) -> (path: Path)
        ensures
            path == Path::start(max_depth, warm_up),
    {
        Path { depth: 0, max_depth, warm_up, phase: Phase::Tracing }
    }

    /// Whether the path has ended.
    pub fn is_ended(&self) -> (e: bool)
        ensures
            e == self.ended(),
    {
        match self.phase {
            Phase::Escaped => true,
            Phase::Absorbed => true,
            _ => false,
        }
    }

    /// Takes in what tracing found and says where the path stands now:
    /// `Tracing` to follow the scattered ray with the attenuation as it is,
    /// `Rolling` to play the roulette first, `Escaped` or `Absorbed` to stop.
    pub fn on_bounce(self, bounce: Bounce) -> (next: Path)
        ensures
            next == self.after_bounce(bounce),
    {
        match self.phase {
            Phase::Tracing => match bounce {
                Bounce::Missed => Path {
                    depth: self.depth,
                    max_depth: self.max_depth,
                    warm_up: self.warm_up,
                    phase: Phase::Escaped,
                },
                Bounce::Absorbed => Path {
                    depth: self.depth,
                    max_depth: self.max_depth,
                    warm_up: self.warm_up,
                    phase: Phase::Absorbed,
                },
                Bounce::Scattered => {
                    if self.depth >= self.max_depth {
                        Path {
                            depth: self.depth,
                            max_depth: self.max_depth,
                            warm_up: self.warm_up,
                            phase: Phase::Absorbed,
                        }
                    } else if self.depth >= self.warm_up {
                        Path {
                            depth: self.depth,
                            max_depth: self.max_depth,
                            warm_up: self.warm_up,
                            phase: Phase::Rolling,
                        }
                    } else {
                        Path {
                            depth: self.depth + 1,
                            max_depth: self.max_depth,
                            warm_up: self.warm_up,
                            phase: Phase::Tracing,
                        }
                    }
                },
            },
            _ => self,
        }
    }

    /// Takes in the outcome of the roulette: a survivor goes one level
    /// deeper and traces again, a loser is absorbed.
    pub fn on_roulette(self, survived: bool) -> (next: Path)
        ensures
            next == self.after_roulette(survived),
    {
        match self.phase {
            Phase::Rolling => {
                if survived && self.depth < self.max_depth {
                    Path {
                        depth: self.depth + 1,
                        max_depth: self.max_depth,
                        warm_up: self.warm_up,
                        phase: Phase::Tracing,
                    }
                } else {
                    Path {
                        depth: self.depth,
                        max_depth: self.max_depth,
                        warm_up: self.warm_up,
                        phase: Phase::Absorbed,
                    }
                }
            },
            _ => self,
        }
    }
}

/// A path that misses on its first ray escapes at depth 0: nothing has
/// attenuated it, so it carries the sky as it is.
pub proof fn lemma_first_miss_escapes(max_depth: usize, warm_up: usize)
    ensures
        Path::start(max_depth, warm_up).after_bounce(Bounce::Missed) == (Path {
            depth: 0,
            max_depth,
            warm_up,
            phase: Phase::Escaped,
        }),
{
}

/// A path stays valid from its start on: its depth never passes the limit,
/// and the limit and the warm-up depth never change.
pub proof fn lemma_depth_stays_within_limit(path: Path, bounce: Bounce, survived: bool)
    requires
        path.valid(),
    ensures
        Path::start(path.max_depth, path.warm_up).valid(),
        path.after_bounce(bounce).valid(),
        path.after_roulette(survived).valid(),
        path.after_bounce(bounce).max_depth == path.max_depth,
        path.after_roulette(survived).max_depth == path.max_depth,
        path.after_bounce(bounce).warm_up == path.warm_up,
        path.after_roulette(survived).warm_up == path.warm_up,
{
}

/// Every event that an active path takes spends some of its budget, and a
/// path without budget has ended: from its start a path takes at most
/// `2 * max_depth + 1` events, however the scene reflects.
pub proof fn lemma_path_ends(path: Path, bounce: Bounce, survived: bool)
    requires
        path.valid(),
    ensures
        path.budget() == 0 <==> path.ended(),
        path.phase is Tracing ==> path.after_bounce(bounce).budget() < path.budget(),
        path.phase is Rolling ==> path.after_roulette(survived).budget() < path.budget(),
        Path::start(path.max_depth, path.warm_up).budget() == 2 * path.max_depth + 1,
{
}

/// An ended path stays as it is, whatever is reported to it.
pub proof fn lemma_ended_is_final(path: Path, bounce: Bounce, survived: bool)
    requires
        path.ended(),
    ensures
        path.after_bounce(bounce) == path,
        path.after_roulette(survived) == path,
{
}

/// The roulette is played only from the warm-up depth on and only below the
/// depth limit; at the limit a scattered ray is dropped.
pub proof fn lemma_roulette_policy(path: Path)
    requires
        path.phase is Tracing,
    ensures
        path.after_bounce(Bounce::Scattered).phase is Rolling <==> path.warm_up <= path.depth < path.max_depth,
        path.after_bounce(Bounce::Scattered).phase is Absorbed <==> path.depth >= path.max_depth,
        path.after_bounce(Bounce::Scattered).phase is Tracing <==> path.depth < path.max_depth && path.depth
            < path.warm_up,
{
}

} // verus!
