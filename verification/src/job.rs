use vstd::prelude::*;

verus! {

use std::marker::PhantomData;
use vstd::layout::{size_of, align_of, layout_for_type_is_valid};
use crate::storage::{fits_inline, spec_required_capacity, lemma_required_capacity_exact, INLINE_ALIGN};
use vstd::arithmetic::power2::is_pow2;

/// Whether a callable of type `F` passes the bound `capacity`: placed behind
/// any `INLINE_ALIGN`-aligned start, with the worst-case padding its alignment
/// may need there, it would take at most `capacity` bytes.
pub open spec fn closure_fits<F>(capacity: int) -> bool {
    spec_required_capacity(size_of::<F>() as int, align_of::<F>() as int) <= capacity
}

/// Admission is exactly placement: a callable of type `F` passes the bound
/// `capacity` if and only if, behind every `INLINE_ALIGN`-aligned start, some
/// offset below its alignment aligns it and leaves it within `capacity`
/// bytes. No alignment is refused for itself, and none is charged more
/// padding than some aligned start needs.
pub proof fn lemma_closure_fits_exact<F>(capacity: int)
    requires
        is_pow2(align_of::<F>() as int),
    ensures
        closure_fits::<F>(capacity) <==> (forall|base: int|
            #![trigger base % (INLINE_ALIGN as int)]
            base >= 0 && base % (INLINE_ALIGN as int) == 0 ==> exists|p: int|
                0 <= p < align_of::<F>() && #[trigger] ((base + p) % (align_of::<F>() as int)) == 0
                    && p + size_of::<F>() <= capacity),
{
    lemma_required_capacity_exact(size_of::<F>() as int, align_of::<F>() as int, capacity);
}

/// A job: a callable of type `F`, held by value in the job itself, with no
/// heap allocation, and run once to produce an `R`.
///
/// * `N` bounds the callables a job admits: a job can only be built from a
///   callable that fits in `N` bytes behind an `INLINE_ALIGN`-aligned start,
///   worst-case padding included (see [`closure_fits`]). The job holds the
///   callable as a field of type `F`; `N` sizes no buffer of its own.
/// * `R` is what running the job returns.
/// * `C` is the context that the job receives, mutably, when it is run; it is
///   `()` for jobs built with [`Job::new`].
/// * `F` is the type of the stored callable: the closure given to
///   [`Job::new_with_ctx`], or a [`NoContext`] around the closure given to
///   [`Job::new`].
///
/// Running a job consumes it, so its callable runs at most once; a job that is
/// dropped without being run drops its callable. A clone holds a clone of the
/// callable and runs independently of the job it was cloned from. The job
/// owns no `R` and no `C`, so it can be sent to another thread whenever its
/// callable can.
pub struct Job<const N: usize, R, C, F> {
    f: F,
    _marker: Ghost<PhantomData<(R, C)>>,
}

/// A callable that takes no context, held by a job built with [`Job::new`]:
/// running the job calls it and ignores the (empty) context.
pub struct NoContext<G> {
    body: G,
}

impl<G> NoContext<G> {
    /// The closure this wrapper holds.
    pub closed spec fn inner(self) -> G {
        self.body
    }
}

impl<G: Clone> Clone for NoContext<G> {
    /// A wrapper around a clone of the held closure.
    fn clone(&self) -> (copy: Self)
        ensures
            cloned(self.inner(), copy.inner()),
    {
        NoContext { body: self.body.clone() }
    }
}

impl<const N: usize, R, C, F> Job<N, R, C, F> {
    /// Every job's callable fits in the bound `N`.
    #[verifier::type_invariant]
    spec fn fits_capacity(self) -> bool {
        closure_fits::<F>(N as int)
    }

    /// The callable this job stores.
    pub closed spec fn callable(&self) -> F {
        self.f
    }

    /// Whether a callable of type `F` may be stored in a job with the bound
    /// `N`: the value that `Job::new_with_ctx` requires to be true (and, for a
    /// `NoContext` callable, `Job::new`).
    pub fn fits() -> (fits: bool)
        ensures
            fits == closure_fits::<F>(N as int),
    {
        layout_for_type_is_valid::<F>();
        fits_inline(N, core::mem::size_of::<F>(), core::mem::align_of::<F>())
    }
}

impl<const N: usize, R, C, F: FnOnce(&mut C) -> R> Job<N, R, C, F> {
    /// Whether the stored callable may be run on a context whose value is
    /// `before`.
    pub open spec fn can_run_with(&self, before: C) -> bool {
        forall|c: &mut C| *c == before ==> call_requires(self.callable(), (c,))
    }

    /// Stores `f` in a new job that receives a mutable context when it is
    /// run.
    pub fn new_with_ctx(f: F) -> (job: Self)
        where F: Send + 'static,
        requires
            closure_fits::<F>(N as int),
        ensures
            job.callable() == f,
    {
        Job { f, _marker: Ghost(PhantomData) }
    }

    /// Stores `f` in a new context-taking job if it fits in the bound `N`;
    /// `None` if it does not.
    pub fn try_new_with_ctx(f: F) -> (job: Option<Self>)
        where F: Send + 'static,
        ensures
            job is Some <==> closure_fits::<F>(N as int),
            job matches Some(j) ==> j.callable() == f,
    {
        if Self::fits() {
            Some(Self::new_with_ctx(f))
        } else {
            None
        }
    }

    /// A job built by `new_with_ctx` or `try_new_with_ctx` from `f` may be
    /// run on a context exactly when `f` may be called on it, and running it
    /// may return `r` and leave the context at `after` exactly when calling
    /// `f` may.
    pub proof fn lemma_run_with_ctx_after_new(job: Self, f: F, before: C, after: C, r: R)
        requires
            job.callable() == f,
        ensures
            job.can_run_with(before) <==> (forall|c: &mut C| *c == before ==> call_requires(f, (c,))),
            (exists|c: &mut C| *c == before && *final(c) == after && call_ensures(job.callable(), (c,), r))
                <==> (exists|c: &mut C| *c == before && *final(c) == after && call_ensures(f, (c,), r)),
    {
    }

    /// Runs the stored callable on `ctx`, consuming the job, and returns what
    /// the callable returns: the callable's own postcondition holds of the
    /// context's value before and after the call and of the result.
    pub fn run_with_ctx(self, ctx: &mut C) -> (r: R)
        requires
            self.can_run_with(*old(ctx)),
        ensures
            exists|c: &mut C|
                *c == *old(ctx) && *final(c) == *final(ctx) && call_ensures(self.callable(), (c,), r),
    {
        (self.f)(ctx)
    }
}

impl<const N: usize, R, F: FnOnce(&mut ()) -> R> Job<N, R, (), F> {
    /// Runs a job whose context is empty, consuming it, and returns what its
    /// callable returns when given the empty context.
    pub fn run(self) -> (r: R)
        requires
            self.can_run_with(()),
        ensures
            exists|c: &mut ()| call_ensures(self.callable(), (c,), r),
    {
        self.run_with_ctx(&mut ())
    }
}

impl<const N: usize, R, G: FnOnce() -> R> Job<N, R, (), NoContext<G>> {
    /// The closure given to `new`, which the job calls when it is run.
    pub closed spec fn body(&self) -> G {
        self.f.inner()
    }

    /// Whether the stored closure may be run.
    pub open spec fn can_run(&self) -> bool {
        call_requires(self.body(), ())
    }

    /// Whether running the stored closure may return `r`.
    pub open spec fn runs_to(&self, r: R) -> bool {
        call_ensures(self.body(), (), r)
    }

    /// Stores `f` in a new job that takes no context (its context is `()`).
    pub fn new(f: G) -> (job: Self)
        where G: Send + 'static,
        requires
            closure_fits::<NoContext<G>>(N as int),
        ensures
            job.body() == f,
    {
        Job { f: NoContext { body: f }, _marker: Ghost(PhantomData) }
    }

    /// Stores `f` in a new job that takes no context if it fits in the bound
    /// `N`; `None` if it does not.
    pub fn try_new(f: G) -> (job: Option<Self>)
        where G: Send + 'static,
        ensures
            job is Some <==> closure_fits::<NoContext<G>>(N as int),
            job matches Some(j) ==> j.body() == f,
    {
        if Self::fits() {
            Some(Self::new(f))
        } else {
            None
        }
    }

    /// A job built by `new` or `try_new` from `f` may be run exactly when `f`
    /// may be called, and running it may return exactly what calling `f` may
    /// return.
    pub proof fn lemma_run_after_new(job: Self, f: G, r: R)
        requires
            job.body() == f,
        ensures
            job.can_run() <==> call_requires(f, ()),
            job.runs_to(r) <==> call_ensures(f, (), r),
    {
    }

    /// A clone of a job built by `new` holds a clone of its closure.
    pub proof fn lemma_clone_holds_cloned_closure(job: Self, copy: Self)
        where G: Clone,
        requires
            cloned(job.callable(), copy.callable()),
        ensures
            cloned(job.body(), copy.body()),
    {
    }

    /// A copy whose closure is the source job's own closure (as when cloning
    /// the closure gives back an equal value) runs exactly as the source job
    /// does: it may be run exactly when the source may, and may return exactly
    /// what the source may return.
    pub proof fn lemma_equal_clone_runs_alike(job: Self, copy: Self, r: R)
        requires
            copy.body() == job.body(),
        ensures
            copy.can_run() <==> job.can_run(),
            copy.runs_to(r) <==> job.runs_to(r),
    {
    }

    /// Runs the stored closure, consuming the job, and returns what the
    /// closure returns.
    pub fn run(self) -> (r: R)
        requires
            self.can_run(),
        ensures
            self.runs_to(r),
    {
        (self.f.body)()
    }

    /// Runs the stored closure on the empty context, consuming the job: the
    /// same as `run`.
    pub fn run_with_ctx(self, ctx: &mut ()) -> (r: R)
        requires
            self.can_run(),
        ensures
            self.runs_to(r),
    {
        self.run()
    }
}

impl<const N: usize, R, C, F: Clone> Clone for Job<N, R, C, F> {
    /// A new job holding a clone of this job's callable.
    fn clone(&self) -> (copy: Self)
        ensures
            cloned(self.callable(), copy.callable()),
    {
        proof {
            use_type_invariant(self);
        }
        Job { f: self.f.clone(), _marker: Ghost(PhantomData) }
    }
}

} // verus!
