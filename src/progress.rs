use vstd::prelude::*;

verus! {

/// Least time, in nanoseconds, that must build up between two progress reports.
pub const REPORT_INTERVAL_NANOS: u64 = 100000000;

/// Number of frames of the spinner shown beside a progress report.
pub const SPINNER_FRAMES: usize = 4;

/// The spinner's frame `f`.
pub open spec fn spinner_spec(f: int) -> char {
    if f == 0 {
        '|'
    } else if f == 1 {
        '/'
    } else if f == 2 {
        '-'
    } else {
        '\\'
    }
}

/// Share of `total` that `done` makes, in units of 1/10000 of a percent,
/// rounded to the nearest unit (halves up); zero when the total is unknown (zero).
pub open spec fn percent_e4_spec(done: int, total: int) -> int {
    if total == 0 {
        0
    } else {
        (done * 2000000 + total) / (2 * total)
    }
}

/// One progress line: the spinner frame and the share written so far.
#[derive(Debug, PartialEq, Eq)]
pub struct ProgressReport {
    pub spinner: char,
    /// Percent complete times 10000 (four decimal places).
    pub percent_e4: u128,
}

/// Pacing state of one download: time built up since the last report, bytes
/// written, the declared size and the spinner's next frame.
#[derive(Debug, PartialEq, Eq)]
pub struct ProgressMeter {
    pub elapsed_nanos: u64,
    pub bytes_written: u64,
    pub total_bytes: u64,
    pub frame: usize,
}

/// The meter after a chunk of `len` bytes that arrived `dt` nanoseconds after
/// the previous one, and the report it gives, if any.
pub open spec fn step(m: ProgressMeter, len: u64, dt: u64) -> (ProgressMeter, Option<ProgressReport>) {
    let elapsed = if m.elapsed_nanos + dt > u64::MAX { u64::MAX as int } else { m.elapsed_nanos + dt };
    let written = if m.bytes_written + len > u64::MAX { u64::MAX as int } else { m.bytes_written + len };
    if elapsed > REPORT_INTERVAL_NANOS {
        (
            ProgressMeter {
                elapsed_nanos: 0,
                bytes_written: written as u64,
                total_bytes: m.total_bytes,
                frame: ((m.frame + 1) % SPINNER_FRAMES as int) as usize,
            },
            Some(
                ProgressReport {
                    spinner: spinner_spec(m.frame as int),
                    percent_e4: percent_e4_spec(written, m.total_bytes as int) as u128,
                },
            ),
        )
    } else {
        (
            ProgressMeter {
                elapsed_nanos: elapsed as u64,
                bytes_written: written as u64,
                total_bytes: m.total_bytes,
                frame: m.frame,
            },
            None,
        )
    }
}

/// The meter after a stream of `(length, delay)` chunks, and how many reports it gave.
pub open spec fn run(m: ProgressMeter, chunks: Seq<(u64, u64)>) -> (ProgressMeter, nat)
    decreases chunks.len(),
{
    if chunks.len() == 0 {
        (m, 0)
    } else {
        let (m1, rep) = step(m, chunks[0].0, chunks[0].1);
        let (mf, n) = run(m1, chunks.drop_first());
        (mf, n + if rep is Some { 1nat } else { 0nat })
    }
}

/// Sum of the delays of a stream of chunks.
pub open spec fn total_delay(chunks: Seq<(u64, u64)>) -> int
    decreases chunks.len(),
{
    if chunks.len() == 0 {
        0
    } else {
        chunks[0].1 + total_delay(chunks.drop_first())
    }
}

impl ProgressMeter {
    pub open spec fn wf(&self) -> bool {
        self.frame < SPINNER_FRAMES
    }

    /// A meter for a download of `total_bytes` (zero when unknown).
    pub fn new(total_bytes: u64) -> (r: Self)
        ensures
            r.wf(),
            r.elapsed_nanos == 0,
            r.bytes_written == 0,
            r.total_bytes == total_bytes,
            r.frame == 0,
    {
        ProgressMeter { elapsed_nanos: 0, bytes_written: 0, total_bytes, frame: 0 }
    }

    /// Records a chunk of `len` bytes that arrived `dt_nanos` after the
    /// previous one; reports once the built-up time passes the interval.
    pub fn on_chunk(&mut self, len: u64, dt_nanos: u64) -> (r: Option<ProgressReport>)
        requires
            old(self).wf(),
        ensures
            final(self).wf(),
            (*final(self), r) == step(*old(self), len, dt_nanos),
    {
        let elapsed = self.elapsed_nanos.saturating_add(dt_nanos);
        let written = self.bytes_written.saturating_add(len);
        self.bytes_written = written;
        if elapsed > REPORT_INTERVAL_NANOS {
            self.elapsed_nanos = 0;
            let spinner = spinner_char(self.frame);
            let percent_e4 = percent_e4(written, self.total_bytes);
            self.frame = (self.frame + 1) % SPINNER_FRAMES;
            Some(ProgressReport { spinner, percent_e4 })
        } else {
            self.elapsed_nanos = elapsed;
            None
        }
    }
}

/// The spinner's frame `f`.
pub fn spinner_char(f: usize) -> (r: char)
    requires
        f < SPINNER_FRAMES,
    ensures
        r == spinner_spec(f as int),
{
    if f == 0 {
        '|'
    } else if f == 1 {
        '/'
    } else if f == 2 {
        '-'
    } else {
        '\\'
    }
}

/// Share of `total` that `done` makes, in units of 1/10000 of a percent,
/// rounded to the nearest unit.
pub fn percent_e4(done: u64, total: u64) -> (r: u128)
    ensures
        r == percent_e4_spec(done as int, total as int),
{
    if total == 0 {
        0
    } else {
        proof {
            assert(done as int * 2000000 <= u64::MAX as int * 2000000) by (nonlinear_arith);
        }
        let scaled: u128 = done as u128 * 2000000 + total as u128;
        let twice: u128 = 2 * total as u128;
        proof {
            assert(scaled as int / twice as int <= scaled as int) by (nonlinear_arith)
                requires
                    twice as int >= 1,
                    scaled as int >= 0,
            ;
        }
        scaled / twice
    }
}

proof fn lemma_run_accounting(m: ProgressMeter, chunks: Seq<(u64, u64)>)
    requires
        m.elapsed_nanos <= REPORT_INTERVAL_NANOS,
        forall|k: int| 0 <= k < chunks.len() ==> chunks[k].1 < REPORT_INTERVAL_NANOS,
    ensures
        run(m, chunks).1 * REPORT_INTERVAL_NANOS + run(m, chunks).0.elapsed_nanos
            <= m.elapsed_nanos + total_delay(chunks),
        total_delay(chunks) <= chunks.len() * (REPORT_INTERVAL_NANOS - 1),
    decreases chunks.len(),
{
    if chunks.len() > 0 {
        let (m1, rep) = step(m, chunks[0].0, chunks[0].1);
        let rest = chunks.drop_first();
        assert forall|k: int| 0 <= k < rest.len() implies rest[k].1 < REPORT_INTERVAL_NANOS by {
            assert(rest[k] == chunks[k + 1]);
        }
        lemma_run_accounting(m1, rest);
        let n1 = run(m1, rest).1;
        assert((n1 + 1) * REPORT_INTERVAL_NANOS == n1 * REPORT_INTERVAL_NANOS + REPORT_INTERVAL_NANOS)
            by (nonlinear_arith);
        assert(chunks.len() * (REPORT_INTERVAL_NANOS - 1) == rest.len() * (REPORT_INTERVAL_NANOS - 1)
            + (REPORT_INTERVAL_NANOS - 1)) by (nonlinear_arith)
            requires
                chunks.len() == rest.len() + 1,
        ;
    }
}

/// After a report the built-up time starts again from zero: a chunk that
/// arrives within the interval after a report gives no report.
pub proof fn lemma_no_report_right_after_report(m: ProgressMeter, len1: u64, dt1: u64, len2: u64, dt2: u64)
    requires
        step(m, len1, dt1).1 is Some,
        dt2 <= REPORT_INTERVAL_NANOS,
    ensures
        step(m, len1, dt1).0.elapsed_nanos == 0,
        step(step(m, len1, dt1).0, len2, dt2).1 is None,
{
}

/// A fresh meter fed a stream of chunks that each arrive sooner than the
/// report interval after the one before gives fewer reports than chunks.
pub proof fn lemma_reports_fewer_than_chunks(total_bytes: u64, chunks: Seq<(u64, u64)>)
    requires
        chunks.len() > 0,
        forall|k: int| 0 <= k < chunks.len() ==> chunks[k].1 < REPORT_INTERVAL_NANOS,
    ensures
        run(
            ProgressMeter { elapsed_nanos: 0, bytes_written: 0, total_bytes, frame: 0 },
            chunks,
        ).1 < chunks.len(),
{
    let m = ProgressMeter { elapsed_nanos: 0, bytes_written: 0, total_bytes, frame: 0 };
    lemma_run_accounting(m, chunks);
    let n = run(m, chunks).1;
    let e = run(m, chunks).0.elapsed_nanos;
    assert(n * REPORT_INTERVAL_NANOS < chunks.len() * REPORT_INTERVAL_NANOS) by (nonlinear_arith)
        requires
            n * REPORT_INTERVAL_NANOS + e <= chunks.len() * (REPORT_INTERVAL_NANOS - 1),
            e >= 0,
            chunks.len() > 0,
    ;
    assert(n < chunks.len()) by (nonlinear_arith)
        requires
            n * REPORT_INTERVAL_NANOS < chunks.len() * REPORT_INTERVAL_NANOS,
    ;
}

} // verus!
