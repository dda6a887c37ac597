# hft_jobs

Allocation-free jobs: a `Job<N, R, C, F>` holds a callable of type `F` by
value, admits it only if its layout passes the bound `N` (worst-case padding
included), and runs it once to produce an `R`, with a mutable context `C`
(`()` for jobs built with `new`, whose callable is a `NoContext` around the
closure).

- `src/storage.rs`: the layout arithmetic. `padding_for` computes the padding
  that aligns an address, `fits_inline` decides whether a value of a given
  size and alignment fits in an inline buffer (counting the worst-case
  padding behind a 16-byte aligned start), and
  `lemma_placement_within_capacity` proves that this worst case covers every
  aligned start of the buffer.
- `src/job.rs`: the `Job` type. `new`/`new_with_ctx` require the callable to
  fit (`try_new`/`try_new_with_ctx` test it and return `None` otherwise),
  `run`/`run_with_ctx` (both available when `C = ()`) consume the job and return what the callable returns,
  and `clone` holds a clone of the callable.
- `app/main.rs`: a demo that hands jobs to a worker thread over a channel.
