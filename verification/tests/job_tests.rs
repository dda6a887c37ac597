use hft_jobs::{Job, INLINE_ALIGN};
use std::mem;
use std::sync::atomic::{AtomicUsize, Ordering};
use std::rc::Rc;
use std::sync::Arc;

/// Helper: prove at compile time that Job is Send.
fn assert_send<T: Send>() {}

#[test]
fn job_is_send() {
    assert_send::<Job<64, (), (), fn()>>();
    assert_send::<Job<128, (), (), fn()>>();
    // The job owns no `R` and no `C`: it is Send whenever its callable is.
    assert_send::<Job<64, Rc<u8>, Rc<u8>, fn(&mut Rc<u8>) -> Rc<u8>>>();
}

#[test]
fn job_runs_closure_once() {
    let counter = Arc::new(AtomicUsize::new(0));
    let c = {
        let counter = counter.clone();
        move || {
            counter.fetch_add(1, Ordering::SeqCst);
        }
    };

    let job = Job::<64, (), (), _>::new(c);
    job.run();

    assert_eq!(counter.load(Ordering::SeqCst), 1);
}

#[test]
fn cloned_jobs_both_run() {
    let counter = Arc::new(AtomicUsize::new(0));
    let c = {
        let counter = counter.clone();
        move || {
            counter.fetch_add(1, Ordering::SeqCst);
        }
    };

    let job1 = Job::<64, (), (), _>::new(c);
    let job2 = job1.clone();

    job1.run();
    job2.run();

    assert_eq!(counter.load(Ordering::SeqCst), 2);
}

/// Type whose Drop increments a shared AtomicUsize.
#[derive(Clone)]
struct DropGuard {
    drops: Arc<AtomicUsize>,
}

impl Drop for DropGuard {
    fn drop(&mut self) {
        self.drops.fetch_add(1, Ordering::SeqCst);
    }
}

#[test]
fn job_drop_calls_closure_drop_when_not_run() {
    let drops = Arc::new(AtomicUsize::new(0));
    {
        let guard = DropGuard {
            drops: drops.clone(),
        };
        let c = move || {
            // Do nothing; we only care about Drop.
            let _ = &guard;
        };
        let _job = Job::<64, (), (), _>::new(c);
        // _job is dropped here without run()
    }

    // The closure's captured DropGuard should have been dropped exactly once.
    assert_eq!(drops.load(Ordering::SeqCst), 1);
}

#[test]
fn job_run_does_not_double_drop_closure() {
    let drops = Arc::new(AtomicUsize::new(0));
    {
        let guard = DropGuard {
            drops: drops.clone(),
        };
        let c = move || {
            // When this closure is called, its captured guard will
            // be dropped at end of call.
            let _ = &guard;
        };
        let job = Job::<64, (), (), _>::new(c);
        job.run();
        // After run(), the job no longer owns the closure.
    }

    // Exactly one drop of the captured guard.
    assert_eq!(drops.load(Ordering::SeqCst), 1);
}

#[test]
fn job_alignment_and_size_are_sufficient_for_small_closure() {
    // Small closure capturing a couple of integers.
    let a = 1u32;
    let b = 2u64;
    let c = move || {
        let _ = a + b as u32;
    };

    let size_f = mem::size_of_val(&c);
    let align_f = mem::align_of_val(&c);

    assert!(size_f <= 64);
    assert!(align_f <= INLINE_ALIGN);

    // Should not panic:
    let job = Job::<64, (), (), _>::new(c);
    job.run();
}

#[test]
fn job_handles_high_alignment_closure() {
    // A zero-sized marker with 64-byte alignment raises the closure's
    // alignment to 64, as a `#[repr(align(64))]` capture would.
    let aligned: [std::arch::x86_64::__m512i; 0] = [];
    let captured = 7u64;
    let c = move || {
        let _ = &aligned;
        captured * 6
    };
    assert_eq!(mem::align_of_val(&c), 64);
    let job = Job::<128, u64, (), _>::new(c);
    assert_eq!(job.run(), 42);
}

#[test]
fn job_returns_value() {
    let job = Job::<64, u32, (), _>::new(|| 40 + 2);
    let result = job.run();
    assert_eq!(result, 42);
}

#[test]
fn job_returns_owned_string() {
    let job = Job::<64, _, (), _>::new(|| "hello".to_owned() + " world");
    let result = job.run();
    assert_eq!(result, "hello world");
}

#[test]
fn cloned_jobs_both_return_values() {
    let job1 = Job::<64, u64, (), _>::new(|| 10u64 * 10);
    let job2 = job1.clone();

    let r1 = job1.run();
    let r2 = job2.run();

    assert_eq!(r1, 100);
    assert_eq!(r2, 100);
}

#[derive(Default, Clone)]
struct Ctx {
    ticks: u32,
}

#[test]
fn job_runs_with_mutable_context() {
    let mut ctx = Ctx::default();

    let job = Job::<64, u32, Ctx, _>::new_with_ctx(|c: &mut Ctx| {
        c.ticks += 1;
        c.ticks
    });

    let job_clone = job.clone();

    let first = job_clone.run_with_ctx(&mut ctx);
    assert_eq!(first, 1);
    assert_eq!(ctx.ticks, 1);

    let second = job.run_with_ctx(&mut ctx);
    assert_eq!(second, 2);
    assert_eq!(ctx.ticks, 2);
}
