//! Control of the path integrator, written as the loop it unrolls to: a
//! path starts with a depth budget, asks the scene about one ray at a time,
//! and ends when the sky is reached, a surface absorbs the ray, or the
//! budget runs out. The colour arithmetic is done by the caller: a path
//! that ends in the sky is worth the product of the attenuations it met
//! times the sky colour; any other end is black.

use vstd::prelude::*;

verus! {

/// What the scene did with the ray it was asked about.
#[derive(Clone, Copy, Debug, PartialEq, Eq, Structural)]
pub enum Bounce {
    /// The ray hit nothing.
    Miss,
    /// The nearest surface swallowed the ray.
    Absorbed,
    /// The nearest surface sent a new ray on.
    Scattered,
}

/// How a path ended.
#[derive(Clone, Copy, Debug, PartialEq, Eq, Structural)]
pub enum PathEnd {
    /// The depth budget ran out: black.
    Exhausted,
    /// A ray escaped to the sky: the sky colour, attenuated.
    Sky,
    /// A surface absorbed the ray: black.
    Absorbed,
}

impl PathEnd {
    /// Whether the path contributes no light at all.
    pub open spec fn spec_is_black(self) -> bool {
        self != PathEnd::Sky
    }

    pub fn is_black(&self) -> (r: bool)
        ensures
            r == self.spec_is_black(),
    {
        !matches!(self, PathEnd::Sky)
    }
}

/// The end of a path with `depth` bounces left when the scene answers its
/// successive rays with `answers`, and how many scatterings it went through;
/// `None` when `answers` runs out first.
pub open spec fn path_outcome(depth: nat, answers: Seq<Bounce>) -> Option<(PathEnd, nat)>
    decreases depth,
{
    if depth == 0 {
        Some((PathEnd::Exhausted, 0))
    } else if answers.len() == 0 {
        None
    } else if answers[0] == Bounce::Miss {
        Some((PathEnd::Sky, 0))
    } else if answers[0] == Bounce::Absorbed {
        Some((PathEnd::Absorbed, 0))
    } else {
        match path_outcome((depth - 1) as nat, answers.drop_first()) {
            Some((end, n)) => Some((end, n + 1)),
            None => None,
        }
    }
}

/// One path being traced.
pub struct Path {
    depth_left: u64,
    bounces: u64,
    end: Option<PathEnd>,
    max_depth: Ghost<nat>,
    answers: Ghost<Seq<Bounce>>,
}

impl Path {
    /// Depth budget the path started with.
    pub closed spec fn spec_max_depth(&self) -> nat {
        self.max_depth@
    }

    /// The scene's answers so far, in order.
    pub closed spec fn view(&self) -> Seq<Bounce> {
        self.answers@
    }

    /// How the path ended, if it has.
    pub closed spec fn spec_end(&self) -> Option<PathEnd> {
        self.end
    }

    /// Scatterings so far.
    pub closed spec fn spec_bounces(&self) -> nat {
        self.bounces as nat
    }

    /// The state agrees with what the answers so far give for the budget.
    pub open spec fn consistent(&self) -> bool {
        match path_outcome(self.spec_max_depth(), self@) {
            Some((end, n)) => self.spec_end() == Some(end) && self.spec_bounces() == n,
            None => self.spec_end() is None && self.spec_bounces() == self@.len(),
        }
    }

    pub closed spec fn wf(&self) -> bool {
        &&& self.consistent()
        &&& self.depth_left + self.bounces == self.max_depth@
        &&& self.max_depth@ <= u64::MAX
        &&& self.end is None ==> self.depth_left > 0
    }

    /// A path with `max_depth` bounces left, no ray asked about yet.
    pub fn start(max_depth: u64) -> (r: Path)
        ensures
            r.wf(),
            r.consistent(),
            r.spec_max_depth() == max_depth,
            r@ == Seq::<Bounce>::empty(),
            r.spec_end() == (if max_depth == 0 {
                Some(PathEnd::Exhausted)
            } else {
                None
            }),
    {
        let end = if max_depth == 0 {
            Some(PathEnd::Exhausted)
        } else {
            None
        };
        Path {
            depth_left: max_depth,
            bounces: 0,
            end,
            max_depth: Ghost(max_depth as nat),
            answers: Ghost(Seq::empty()),
        }
    }

    /// Whether the path still wants the scene's answer for its current ray.
    pub fn is_running(&self) -> (r: bool)
        requires
            self.wf(),
        ensures
            r == (self.spec_end() is None),
    {
        self.end.is_none()
    }

    /// How the path ended, if it has.
    pub fn end(&self) -> (r: Option<PathEnd>)
        ensures
            r == self.spec_end(),
    {
        self.end
    }

    /// Scatterings so far: the number of attenuations the path's colour is
    /// the product of.
    pub fn bounces(&self) -> (r: u64)
        requires
            self.wf(),
        ensures
            r == self.spec_bounces(),
    {
        self.bounces
    }

    /// Takes the scene's answer for the current ray.
    pub fn record(&mut self, answer: Bounce)
        requires
            old(self).wf(),
            old(self).spec_end() is None,
        ensures
            final(self).wf(),
            final(self).consistent(),
            final(self).spec_max_depth() == old(self).spec_max_depth(),
            final(self)@ == old(self)@.push(answer),
    {
        let ghost before = self.answers@;
        proof {
            lemma_outcome_running(self.max_depth@, before, answer);
        }
        match answer {
            Bounce::Miss => {
                self.end = Some(PathEnd::Sky);
            },
            Bounce::Absorbed => {
                self.end = Some(PathEnd::Absorbed);
            },
            Bounce::Scattered => {
                self.depth_left = self.depth_left - 1;
                self.bounces = self.bounces + 1;
                if self.depth_left == 0 {
                    self.end = Some(PathEnd::Exhausted);
                }
            },
        }
        self.answers = Ghost(before.push(answer));
    }
}

/// A path with no depth left ends black without asking the scene anything,
/// whatever the scene would have answered.
pub proof fn lemma_no_depth_is_black(answers: Seq<Bounce>)
    ensures
        path_outcome(0, answers) == Some((PathEnd::Exhausted, 0nat)),
        PathEnd::Exhausted.spec_is_black(),
{
}

/// A first ray that hits nothing ends the path in the sky with no
/// attenuation, whatever depth is left and whatever would have come next.
pub proof fn lemma_miss_is_sky(depth: nat, rest: Seq<Bounce>)
    requires
        depth > 0,
    ensures
        path_outcome(depth, seq![Bounce::Miss] + rest) == Some((PathEnd::Sky, 0nat)),
{
    assert((seq![Bounce::Miss] + rest)[0] == Bounce::Miss);
}

/// Every path ends once it has had as many answers as its depth budget:
/// the integrator asks about at most that many rays, and scatters at most
/// that many times.
pub proof fn lemma_path_ends_within_depth(depth: nat, answers: Seq<Bounce>)
    requires
        answers.len() >= depth,
    ensures
        match path_outcome(depth, answers) {
            Some((_, bounces)) => bounces <= depth,
            None => false,
        },
    decreases depth,
{
    if depth > 0 && answers[0] == Bounce::Scattered {
        lemma_path_ends_within_depth((depth - 1) as nat, answers.drop_first());
    }
}

/// While a path is running, each answer so far was a scattering, and one
/// more answer settles or extends the outcome the way the integrator does.
proof fn lemma_outcome_running(depth: nat, answers: Seq<Bounce>, answer: Bounce)
    requires
        answers.len() < depth,
        path_outcome(depth, answers) is None,
    ensures
        forall|i: int| 0 <= i < answers.len() ==> answers[i] == Bounce::Scattered,
        path_outcome(depth, answers.push(answer)) == (if answer == Bounce::Miss {
            Some((PathEnd::Sky, answers.len()))
        } else if answer == Bounce::Absorbed {
            Some((PathEnd::Absorbed, answers.len()))
        } else if answers.len() + 1 == depth {
            Some((PathEnd::Exhausted, depth))
        } else {
            None
        }),
    decreases depth,
{
    if answers.len() > 0 {
        assert(answers[0] == Bounce::Scattered);
        lemma_outcome_running((depth - 1) as nat, answers.drop_first(), answer);
        assert(answers.push(answer).drop_first() =~= answers.drop_first().push(answer));
        assert(answers.push(answer)[0] == answers[0]);
        assert forall|i: int| 0 <= i < answers.len() implies answers[i] == Bounce::Scattered by {
            if i > 0 {
                assert(answers[i] == answers.drop_first()[i - 1]);
            }
        }
    } else {
        assert(answers.push(answer).drop_first() =~= Seq::<Bounce>::empty());
        assert(answers.push(answer)[0] == answer);
        assert(path_outcome((depth - 1) as nat, Seq::<Bounce>::empty()) == (if depth == 1 {
            Some((PathEnd::Exhausted, 0nat))
        } else {
            None
        }));
    }
}

} // verus!
