//! Detects a worker that keeps failing with the same error.
use vstd::prelude::*;
use crate::text::{chars_of, chars_eq, is_digit, join, join_chars, split_ws, texts, words};

verus! {

/// What an observation reveals.
#[derive(Debug, PartialEq, Eq, Clone, Copy, Structural)]
pub enum StuckSignal {
    NoSignal,
    SameErrorRepeated,
    ChunkTimeout,
}

/// `e` without its ASCII digits.
pub open spec fn without_digits(e: Seq<char>) -> Seq<char> {
    e.filter(|c: char| !is_digit(c))
}

/// The fingerprint of an error message: its first eight whitespace-separated words
/// once digits are removed, joined by single spaces.
pub open spec fn fingerprint_of(e: Seq<char>) -> Seq<char> {
    let ws = words(without_digits(e));
    join(ws.take(if ws.len() < 8 { ws.len() as int } else { 8 }), " "@)
}

/// The window after observing an error of fingerprint `fp`: it grows while the same
/// fingerprint repeats and restarts at one entry when it changes.
pub open spec fn next_window(w: Seq<Seq<char>>, fp: Seq<char>) -> Seq<Seq<char>> {
    if w.len() > 0 && w.last() == fp {
        w.push(fp)
    } else {
        seq![fp]
    }
}

/// A window holds one fingerprint, repeated.
pub open spec fn uniform(w: Seq<Seq<char>>) -> bool {
    forall|i: int| 0 <= i < w.len() ==> w[i] == w.last()
}

/// Tracks the run of identical error fingerprints.
pub struct StuckDetector {
    threshold: usize,
    window: Vec<Vec<char>>,
}

impl StuckDetector {
    /// The number of identical errors in a row that signals a stuck worker.
    pub closed spec fn spec_threshold(&self) -> nat {
        self.threshold as nat
    }

    /// The current run of identical fingerprints, oldest first.
    pub closed spec fn spec_window(&self) -> Seq<Seq<char>> {
        texts(self.window@)
    }

    /// A detector that signals after `threshold` identical errors in a row.
    pub fn new(threshold: usize) -> (r: Self)
        ensures
            r.spec_threshold() == threshold,
            r.spec_window() == Seq::<Seq<char>>::empty(),
    {
        let r = Self { threshold, window: Vec::new() };
        assert(r.spec_window() =~= Seq::<Seq<char>>::empty());
        r
    }

    /// Records the error `err`; signals `SameErrorRepeated` once the run of errors with
    /// its fingerprint reaches the threshold.
    pub fn observe(&mut self, err: &str) -> (r: StuckSignal)
        ensures
            final(self).spec_threshold() == old(self).spec_threshold(),
            final(self).spec_window() == next_window(old(self).spec_window(), fingerprint_of(err@)),
            r == if final(self).spec_window().len() >= final(self).spec_threshold() {
                StuckSignal::SameErrorRepeated
            } else {
                StuckSignal::NoSignal
            },
    {
        let fp = Self::fingerprint(err);
        let ghost old_w = texts(self.window@);
        let n = self.window.len();
        let same = n > 0 && chars_eq(&self.window[n - 1], &fp);
        if same {
            self.window.push(fp);
            assert(texts(self.window@) =~= old_w.push(fingerprint_of(err@)));
        } else {
            let mut w: Vec<Vec<char>> = Vec::new();
            w.push(fp);
            self.window = w;
            assert(texts(self.window@) =~= seq![fingerprint_of(err@)]);
        }
        if self.window.len() >= self.threshold {
            StuckSignal::SameErrorRepeated
        } else {
            StuckSignal::NoSignal
        }
    }

    /// A chunk of streamed output timed out.
    pub fn observe_chunk_timeout(&mut self) -> (r: StuckSignal)
        ensures
            r == StuckSignal::ChunkTimeout,
            final(self).spec_window() == old(self).spec_window(),
            final(self).spec_threshold() == old(self).spec_threshold(),
    {
        StuckSignal::ChunkTimeout
    }

    /// The fingerprint of `err` (see `fingerprint_of`).
    pub fn fingerprint(err: &str) -> (r: Vec<char>)
        ensures
            r@ == fingerprint_of(err@),
    {
        let e = chars_of(err);
        let mut kept: Vec<char> = Vec::new();
        let mut i: usize = 0;
        while i < e.len()
            invariant
                i <= e.len(),
                kept@ == without_digits(e@.take(i as int)),
            decreases e.len() - i,
        {
            let c = e[i];
            proof {
                assert(e@.take(i + 1) == e@.take(i as int).push(c));
                e@.take(i as int).lemma_filter_push(c, |c: char| !is_digit(c));
            }
            if !('0' <= c && c <= '9') {
                kept.push(c);
            }
            i = i + 1;
        }
        assert(e@.take(e@.len() as int) == e@);
        let ws = split_ws(&kept);
        let n: usize = if ws.len() < 8 { ws.len() } else { 8 };
        join_chars(&ws, n, " ")
    }
}

/// The window after observing `fp` `n` times in a row.
pub open spec fn observe_repeatedly(w: Seq<Seq<char>>, fp: Seq<char>, n: nat) -> Seq<Seq<char>>
    decreases n,
{
    if n == 0 {
        w
    } else {
        next_window(observe_repeatedly(w, fp, (n - 1) as nat), fp)
    }
}

/// After the same fingerprint is observed `n` times in a row, from any window, the
/// window holds at least `n` entries, all of that fingerprint: the `threshold`-th
/// identical error in a row is always flagged.
pub proof fn repeated_error_is_flagged(w: Seq<Seq<char>>, fp: Seq<char>, n: nat)
    requires
        n >= 1,
        uniform(w),
    ensures
        observe_repeatedly(w, fp, n).len() >= n,
        uniform(observe_repeatedly(w, fp, n)),
        observe_repeatedly(w, fp, n).last() == fp,
    decreases n,
{
    let prev = observe_repeatedly(w, fp, (n - 1) as nat);
    if n > 1 {
        repeated_error_is_flagged(w, fp, (n - 1) as nat);
    }
    window_is_one_run(prev, fp);
    if n > 1 {
        assert(prev.len() > 0 && prev.last() == fp);
    }
}

/// The window is always one run of a single fingerprint, and a different fingerprint
/// restarts it at one entry.
pub proof fn window_is_one_run(w: Seq<Seq<char>>, fp: Seq<char>)
    requires
        uniform(w),
    ensures
        uniform(next_window(w, fp)),
        next_window(w, fp).last() == fp,
        (w.len() == 0 || w.last() != fp) ==> next_window(w, fp).len() == 1,
{
}

/// The window of a fresh detector after errors of fingerprints `fps` were observed in
/// that order (chunk timeouts between them leave the window as it is).
pub open spec fn window_after(fps: Seq<Seq<char>>) -> Seq<Seq<char>>
    decreases fps.len(),
{
    if fps.len() == 0 {
        seq![]
    } else {
        next_window(window_after(fps.drop_last()), fps.last())
    }
}

/// `k` is the length of the longest run of entries equal to the last one at the end of
/// `fps`.
pub open spec fn last_run_length(fps: Seq<Seq<char>>, k: int) -> bool {
    &&& 1 <= k <= fps.len()
    &&& forall|j: int| fps.len() - k <= j < fps.len() ==> #[trigger] fps[j] == fps.last()
    &&& (k < fps.len() ==> fps[fps.len() - k - 1] != fps.last())
}

/// Over a whole history: after errors of fingerprints `fps` (at least one), the window
/// of a fresh detector holds exactly the last fingerprint, as many times as the longest
/// run of that fingerprint at the end of the history; so the last observation signals
/// `SameErrorRepeated` exactly when that run is at least the threshold.
pub proof fn window_is_the_last_run(fps: Seq<Seq<char>>)
    requires
        fps.len() > 0,
    ensures
        last_run_length(fps, window_after(fps).len() as int),
        uniform(window_after(fps)),
        window_after(fps).last() == fps.last(),
    decreases fps.len(),
{
    let n = fps.len() as int;
    let fp = fps.last();
    let prev = fps.drop_last();
    if n == 1 {
        assert(window_after(prev) =~= Seq::<Seq<char>>::empty());
    } else {
        window_is_the_last_run(prev);
        let w0 = window_after(prev);
        let k0 = w0.len() as int;
        assert(prev.last() == fps[n - 2]);
        if w0.last() == fp {
            assert forall|j: int| n - (k0 + 1) <= j < n implies #[trigger] fps[j] == fp by {
                if j < n - 1 {
                    assert(prev[j] == prev.last());
                }
            }
            if k0 + 1 < n {
                assert(prev[prev.len() - k0 - 1] != prev.last());
            }
        } else {
            assert(fps[n - 2] != fp);
        }
    }
}

} // verus!
