use vstd::prelude::*;

verus! {

/// Depth at which shading stops following reflected and refracted rays.
pub const MAX_DEPTH: u32 = 3;

/// Candidate `i` of `c` reports a hit, no candidate reports a closer one, and
/// no earlier candidate reports one as close.
pub open spec fn is_nearest(c: Seq<Option<u32>>, i: int) -> bool {
    &&& 0 <= i < c.len()
    &&& c[i] is Some
    &&& forall|j: int| 0 <= j < c.len() && #[trigger] c[j] is Some ==> c[i]->0 <= c[j]->0
    &&& forall|j: int| 0 <= j < i && #[trigger] c[j] is Some ==> c[i]->0 < c[j]->0
}

/// Some candidate of `c` reports a hit.
pub open spec fn any_hit(c: Seq<Option<u32>>) -> bool {
    exists|j: int| 0 <= j < c.len() && #[trigger] c[j] is Some
}

/// Running search for the nearest of a sequence of candidates, each of which
/// either misses or hits at a distance key; equal keys keep the earlier one.
///
/// Keys compare as distances do: for distances that are non-negative
/// IEEE-754 singles, the bit patterns are such keys.
pub struct NearestHit {
    count: usize,
    best: Option<(usize, u32)>,
    seen: Ghost<Seq<Option<u32>>>,
}

impl NearestHit {
    pub closed spec fn wf(&self) -> bool {
        &&& self.count == self.seen@.len()
        &&& match self.best {
            None => !any_hit(self.seen@),
            Some((i, k)) => is_nearest(self.seen@, i as int) && self.seen@[i as int] == Some(k),
        }
    }

    /// The candidates offered so far, in order.
    pub closed spec fn seen(&self) -> Seq<Option<u32>> {
        self.seen@
    }

    pub fn new() -> (s: NearestHit)
        ensures
            s.wf(),
            s.seen() == Seq::<Option<u32>>::empty(),
    {
        NearestHit { count: 0, best: None, seen: Ghost(Seq::empty()) }
    }

    /// Offers the next candidate: its key if it hits, none if it misses.
    pub fn offer(&mut self, key: Option<u32>)
        requires
            old(self).wf(),
            old(self).seen().len() < usize::MAX,
        ensures
            final(self).wf(),
            final(self).seen() == old(self).seen().push(key),
    {
        let ghost before = self.seen@;
        let ghost after = before.push(key);
        let index = self.count;
        if let Some(k) = key {
            let closer = match self.best {
                None => true,
                Some((_, bk)) => k < bk,
            };
            if closer {
                self.best = Some((index, k));
            }
        }
        self.seen = Ghost(after);
        self.count = index + 1;
        proof {
            assert(after[index as int] == key);
            assert forall|j: int| 0 <= j < before.len() implies #[trigger] after[j] == before[j] by {}
            if key is None {
                if !any_hit(before) {
                    assert forall|j: int| 0 <= j < after.len() implies !(#[trigger] after[j] is Some) by {
                        if j < before.len() {
                            assert(after[j] == before[j]);
                        }
                    }
                }
            } else if !any_hit(before) {
                assert(after[index as int] is Some);
            }
        }
    }

    /// Key of the nearest hit so far: the bound a later candidate must beat.
    pub fn bound(&self) -> (r: Option<u32>)
        requires
            self.wf(),
        ensures
            !any_hit(self.seen()) ==> r is None,
            any_hit(self.seen()) ==> exists|i: int| is_nearest(self.seen(), i) && r == self.seen()[i],
    {
        match self.best {
            None => None,
            Some((_, k)) => Some(k),
        }
    }

    /// Position of the nearest hit among the candidates offered, or none if
    /// every one missed.
    pub fn best(&self) -> (r: Option<usize>)
        requires
            self.wf(),
        ensures
            r is None <==> !any_hit(self.seen()),
            r matches Some(i) ==> is_nearest(self.seen(), i as int),
    {
        match self.best {
            None => None,
            Some((i, _)) => Some(i),
        }
    }
}

/// Position of the nearest hit among `candidates`, or none if every one misses.
pub fn nearest_of(candidates: &Vec<Option<u32>>) -> (r: Option<usize>)
    ensures
        r is None <==> !any_hit(candidates@),
        r matches Some(i) ==> is_nearest(candidates@, i as int),
{
    let mut search = NearestHit::new();
    let mut i: usize = 0;
    while i < candidates.len()
        invariant
            0 <= i <= candidates@.len(),
            search.wf(),
            search.seen() == candidates@.subrange(0, i as int),
        decreases candidates@.len() - i,
    {
        search.offer(candidates[i]);
        proof {
            assert(candidates@.subrange(0, i as int).push(candidates@[i as int]) =~= candidates@.subrange(0, i + 1));
        }
        i += 1;
    }
    proof {
        assert(candidates@.subrange(0, candidates@.len() as int) =~= candidates@);
    }
    search.best()
}

/// What a surface that reflects or transmits sends on besides its reflection.
pub enum Transmission<R> {
    /// Nothing passes through.
    Opaque,
    /// Refraction is impossible at this angle: the reflection stands in for it.
    TotalInternal,
    /// The refracted ray.
    Refracted(R),
}

/// Rays that a reflective or transparent surface sends on.
pub struct Secondary<R> {
    pub reflected: R,
    pub transmitted: Transmission<R>,
}

/// The scene-dependent steps of recursive shading, one closure each: the
/// nearest-hit query, the background color, direct lighting at a hit, the
/// rays a surface sends on, and how their colors blend.
pub struct ShadeSteps<N, B, D, X, L> {
    /// The nearest surface a ray meets, if any.
    pub nearest: N,
    /// Color of a ray that meets nothing, or that is no longer followed.
    pub background: B,
    /// Direct lighting at a hit.
    pub direct: D,
    /// The reflected and transmitted rays, or none for a surface that
    /// neither reflects nor transmits.
    pub secondary: X,
    /// Blends direct light with the reflected color and, if the surface
    /// transmits, the transmitted one.
    pub blend: L,
}

/// Every step accepts every argument.
pub open spec fn steps_total<R, H, S, N, B, D, X, L>(steps: &ShadeSteps<N, B, D, X, L>) -> bool where
    N: Fn(&R) -> Option<H>,
    B: Fn(&R) -> S,
    D: Fn(&R, &H) -> S,
    X: Fn(&R, &H) -> Option<Secondary<R>>,
    L: Fn(&R, &H, S, S, Option<S>) -> S,
 {
    &&& forall|ray: &R| call_requires(steps.nearest, (ray,))
    &&& forall|ray: &R| call_requires(steps.background, (ray,))
    &&& forall|ray: &R, hit: &H| call_requires(steps.direct, (ray, hit))
    &&& forall|ray: &R, hit: &H| call_requires(steps.secondary, (ray, hit))
    &&& forall|ray: &R, hit: &H, d: S, rf: S, t: Option<S>| call_requires(steps.blend, (ray, hit, d, rf, t))
}

/// The nearest-hit query can find `hit` for `ray`, and direct lighting there
/// can be `direct`.
pub open spec fn lit_hit<R, H, S, N, B, D, X, L>(
    steps: &ShadeSteps<N, B, D, X, L>,
    ray: R,
    hit: H,
    direct: S,
) -> bool where
    N: Fn(&R) -> Option<H>,
    B: Fn(&R) -> S,
    D: Fn(&R, &H) -> S,
    X: Fn(&R, &H) -> Option<Secondary<R>>,
    L: Fn(&R, &H, S, S, Option<S>) -> S,
 {
    &&& call_ensures(steps.nearest, (&ray,), Some(hit))
    &&& call_ensures(steps.direct, (&ray, &hit), direct)
}

/// The surface at `hit` can send on the rays `next`, and blending `direct`
/// with `reflected` and `transmitted` can give `r`.
pub open spec fn blended<R, H, S, N, B, D, X, L>(
    steps: &ShadeSteps<N, B, D, X, L>,
    ray: R,
    hit: H,
    direct: S,
    next: Secondary<R>,
    reflected: S,
    transmitted: Option<S>,
    r: S,
) -> bool where
    N: Fn(&R) -> Option<H>,
    B: Fn(&R) -> S,
    D: Fn(&R, &H) -> S,
    X: Fn(&R, &H) -> Option<Secondary<R>>,
    L: Fn(&R, &H, S, S, Option<S>) -> S,
 {
    &&& call_ensures(steps.secondary, (&ray, &hit), Some(next))
    &&& call_ensures(steps.blend, (&ray, &hit, direct, reflected, transmitted), r)
}

/// `r` is a color that shading `ray` at recursion depth `depth` can give,
/// built from results the steps can return: the background at `MAX_DEPTH`
/// or deeper and for a ray that meets nothing; direct light for a surface
/// that sends no ray on; otherwise the blend of direct light with the
/// reflected ray's color and, for a transmitting surface, the refracted
/// ray's color (the reflected one under total internal reflection), each
/// secondary ray shaded one level deeper.
pub open spec fn shade_allows<R, H, S, N, B, D, X, L>(
    steps: &ShadeSteps<N, B, D, X, L>,
    ray: R,
    depth: u32,
    r: S,
) -> bool where
    N: Fn(&R) -> Option<H>,
    B: Fn(&R) -> S,
    D: Fn(&R, &H) -> S,
    X: Fn(&R, &H) -> Option<Secondary<R>>,
    L: Fn(&R, &H, S, S, Option<S>) -> S,
    decreases MAX_DEPTH - depth,
{
    if depth >= MAX_DEPTH {
        call_ensures(steps.background, (&ray,), r)
    } else {
        ||| call_ensures(steps.nearest, (&ray,), None) && call_ensures(steps.background, (&ray,), r)
        ||| exists|hit: H, direct: S|
            #[trigger] lit_hit(steps, ray, hit, direct) && call_ensures(steps.secondary, (&ray, &hit), None)
                && r == direct
        ||| exists|hit: H, direct: S, next: Secondary<R>, reflected: S, transmitted: Option<S>|
            {
                &&& #[trigger] blended(steps, ray, hit, direct, next, reflected, transmitted, r)
                &&& lit_hit(steps, ray, hit, direct)
                &&& shade_allows(steps, next.reflected, (depth + 1) as u32, reflected)
                &&& match next.transmitted {
                    Transmission::Opaque => transmitted is None,
                    Transmission::TotalInternal => transmitted == Some(reflected),
                    Transmission::Refracted(t) => transmitted is Some && shade_allows(
                        steps,
                        t,
                        (depth + 1) as u32,
                        transmitted->0,
                    ),
                }
            }
    }
}

/// Whether a ray at recursion depth `depth` is still followed.
pub fn may_trace(depth: u32) -> (r: bool)
    ensures
        r == (depth < MAX_DEPTH),
{
    depth < MAX_DEPTH
}

/// Color seen along `ray` at recursion depth `depth`. Rays at `MAX_DEPTH` or
/// deeper get the background without a nearest-hit query, and so do rays
/// that meet nothing. Each reflected or refracted ray is shaded one level
/// deeper, so the recursion ends.
pub fn shade<R, H, S, N, B, D, X, L>(steps: &ShadeSteps<N, B, D, X, L>, ray: &R, depth: u32) -> (r: S) where
    S: Copy,
    N: Fn(&R) -> Option<H>,
    B: Fn(&R) -> S,
    D: Fn(&R, &H) -> S,
    X: Fn(&R, &H) -> Option<Secondary<R>>,
    L: Fn(&R, &H, S, S, Option<S>) -> S,
    requires
        steps_total(steps),
    ensures
        shade_allows(steps, *ray, depth, r),
    decreases MAX_DEPTH - depth,
{
    if !may_trace(depth) {
        return (steps.background)(ray);
    }
    let hit = match (steps.nearest)(ray) {
        None => {
            return (steps.background)(ray);
        },
        Some(h) => h,
    };
    let direct = (steps.direct)(ray, &hit);
    proof {
        assert(lit_hit(steps, *ray, hit, direct));
    }
    match (steps.secondary)(ray, &hit) {
        None => direct,
        Some(next) => {
            let ghost next_spec = next;
            let reflected = shade(steps, &next.reflected, depth + 1);
            let transmitted = match next.transmitted {
                Transmission::Opaque => None,
                Transmission::TotalInternal => Some(reflected),
                Transmission::Refracted(t) => {
                    Some(shade(steps, &t, depth + 1))
                },
            };
            let r = (steps.blend)(ray, &hit, direct, reflected, transmitted);
            proof {
                assert(blended(steps, *ray, hit, direct, next_spec, reflected, transmitted, r));
            }
            r
        },
    }
}

/// The measure that `shade` and `shade_allows` decrease by one at each nested
/// call: how many more levels of secondary rays may follow from depth `depth`.
pub open spec fn shade_nesting(depth: int) -> nat
    decreases MAX_DEPTH - depth,
{
    if depth >= MAX_DEPTH {
        0
    } else {
        1 + shade_nesting(depth + 1)
    }
}

/// However reflective or transparent the surfaces, shading a camera ray
/// nests at most `MAX_DEPTH` recursive calls: the measure that the
/// `decreases` clauses of `shade` and `shade_allows` enforce is at most
/// `MAX_DEPTH`, and zero from `MAX_DEPTH` on, where `shade_allows` admits only
/// the background and no nearest-hit query is made.
pub proof fn lemma_shade_nesting_bounded(depth: int)
    requires
        depth >= 0,
    ensures
        shade_nesting(depth) <= MAX_DEPTH,
        depth >= MAX_DEPTH ==> shade_nesting(depth) == 0,
        depth < MAX_DEPTH ==> shade_nesting(depth) == MAX_DEPTH - depth,
    decreases MAX_DEPTH - depth,
{
    if depth < MAX_DEPTH {
        lemma_shade_nesting_bounded(depth + 1);
    }
}


/// Shading stops at the depth limit: from `MAX_DEPTH` on, whatever the ray,
/// the color is one the background step gives it.
pub proof fn lemma_shade_stops_at_max_depth<R, H, S, N, B, D, X, L>(
    steps: &ShadeSteps<N, B, D, X, L>,
    ray: R,
    depth: u32,
    r: S,
) where
    N: Fn(&R) -> Option<H>,
    B: Fn(&R) -> S,
    D: Fn(&R, &H) -> S,
    X: Fn(&R, &H) -> Option<Secondary<R>>,
    L: Fn(&R, &H, S, S, Option<S>) -> S,
    requires
        depth >= MAX_DEPTH,
        shade_allows(steps, ray, depth, r),
    ensures
        call_ensures(steps.background, (&ray,), r),
{
}

/// A ray whose nearest-hit query finds nothing gets a background color, at
/// every depth.
pub proof fn lemma_missed_ray_gets_background<R, H, S, N, B, D, X, L>(
    steps: &ShadeSteps<N, B, D, X, L>,
    ray: R,
    depth: u32,
    r: S,
) where
    N: Fn(&R) -> Option<H>,
    B: Fn(&R) -> S,
    D: Fn(&R, &H) -> S,
    X: Fn(&R, &H) -> Option<Secondary<R>>,
    L: Fn(&R, &H, S, S, Option<S>) -> S,
    requires
        forall|h: Option<H>| call_ensures(steps.nearest, (&ray,), h) ==> h is None,
        shade_allows(steps, ray, depth, r),
    ensures
        call_ensures(steps.background, (&ray,), r),
{
    if depth < MAX_DEPTH {
        if exists|hit: H, direct: S| #[trigger] lit_hit(steps, ray, hit, direct) {
            let (hit, direct) = choose|hit: H, direct: S| #[trigger] lit_hit(steps, ray, hit, direct);
            assert(call_ensures(steps.nearest, (&ray,), Some(hit)));
        }
    }
}

} // verus!
