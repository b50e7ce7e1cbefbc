use vstd::prelude::*;

verus! {

/// Which output stream of the child a captured line came from.
#[derive(PartialEq, Eq, Structural, Debug, Clone, Copy)]
pub enum StreamSource {
    Stdout,
    Stderr,
}

/// A captured line tagged with its source, as held on the merged channel.
struct MergedLine {
    source: StreamSource,
    text: String,
}

spec fn line_views(m: Seq<String>) -> Seq<Seq<char>> {
    m.map_values(|s: String| s@)
}

spec fn texts(m: Seq<MergedLine>) -> Seq<Seq<char>> {
    m.map_values(|l: MergedLine| l.text@)
}

/// The lines of `m` that came from `src`, in order.
spec fn from_source(m: Seq<MergedLine>, src: StreamSource) -> Seq<Seq<char>>
    decreases m.len(),
{
    if m.len() == 0 {
        Seq::empty()
    } else {
        let rest = from_source(m.drop_last(), src);
        if m.last().source == src {
            rest.push(m.last().text@)
        } else {
            rest
        }
    }
}

proof fn lemma_from_source_push(m: Seq<MergedLine>, x: MergedLine, src: StreamSource)
    ensures
        from_source(m.push(x), src) == if x.source == src {
            from_source(m, src).push(x.text@)
        } else {
            from_source(m, src)
        },
{
    assert(m.push(x).drop_last() =~= m);
    assert(m.push(x).last() == x);
}

/// One in-flight action: the bookkeeping of a spawned mutating command whose
/// stdout and stderr are read line by line, merged onto a single channel, and
/// handed to a consumer, with a completion flag raised exactly once after
/// both streams are fully forwarded and the child is reaped.
///
/// The surrounding program owns the real child process and reader workers; it
/// mirrors each of their events by the matching method here, and the
/// contracts prove the accounting: per-stream order is kept, no line is lost
/// and none duplicated, and completion implies both streams were drained.
pub struct ActionRun {
    out_pending: Vec<String>,
    err_pending: Vec<String>,
    merged: Vec<MergedLine>,
    finished: bool,
    child_alive: bool,
    child_reaped: bool,
    out_hist: Ghost<Seq<Seq<char>>>,
    err_hist: Ghost<Seq<Seq<char>>>,
    out_delivered: Ghost<Seq<Seq<char>>>,
    err_delivered: Ghost<Seq<Seq<char>>>,
}

impl ActionRun {
    /// Every stdout line ever accepted, in source order.
    pub closed spec fn out_history(&self) -> Seq<Seq<char>> {
        self.out_hist@
    }

    /// Every stderr line ever accepted, in source order.
    pub closed spec fn err_history(&self) -> Seq<Seq<char>> {
        self.err_hist@
    }

    /// The stdout lines already handed to the consumer, in source order.
    pub closed spec fn delivered_out(&self) -> Seq<Seq<char>> {
        self.out_delivered@
    }

    /// The stderr lines already handed to the consumer, in source order.
    pub closed spec fn delivered_err(&self) -> Seq<Seq<char>> {
        self.err_delivered@
    }

    /// The stdout lines on the merged channel, not yet drained.
    pub closed spec fn merged_out(&self) -> Seq<Seq<char>> {
        from_source(self.merged@, StreamSource::Stdout)
    }

    /// The stderr lines on the merged channel, not yet drained.
    pub closed spec fn merged_err(&self) -> Seq<Seq<char>> {
        from_source(self.merged@, StreamSource::Stderr)
    }

    /// All lines on the merged channel in channel order.
    pub closed spec fn merged_texts(&self) -> Seq<Seq<char>> {
        texts(self.merged@)
    }

    /// Accepted stdout lines not yet forwarded to the merged channel.
    pub closed spec fn pending_out(&self) -> Seq<Seq<char>> {
        line_views(self.out_pending@)
    }

    /// Accepted stderr lines not yet forwarded to the merged channel.
    pub closed spec fn pending_err(&self) -> Seq<Seq<char>> {
        line_views(self.err_pending@)
    }

    /// Whether completion has been signalled.
    pub closed spec fn is_finished(&self) -> bool {
        self.finished
    }

    /// Whether the child process is still believed alive.
    pub closed spec fn child_is_alive(&self) -> bool {
        self.child_alive
    }

    /// Whether the child process has been reaped.
    pub closed spec fn child_is_reaped(&self) -> bool {
        self.child_reaped
    }

    /// The accounting invariant: per stream, what was delivered, what sits on
    /// the merged channel and what is still pending is exactly the accepted
    /// history, in order; and completion is signalled only after both streams
    /// were fully forwarded and the child was killed and reaped.
    pub closed spec fn wf(&self) -> bool {
        &&& self.delivered_out() + self.merged_out() + self.pending_out() == self.out_history()
        &&& self.delivered_err() + self.merged_err() + self.pending_err() == self.err_history()
        &&& self.is_finished() ==> {
            &&& self.pending_out().len() == 0
            &&& self.pending_err().len() == 0
            &&& !self.child_is_alive()
            &&& self.child_is_reaped()
        }
    }

    /// Starts the bookkeeping of a freshly spawned action: nothing captured,
    /// nothing delivered, the child alive, completion not signalled.
    pub fn new() -> (r: ActionRun)
        ensures
            r.wf(),
            !r.is_finished(),
            r.child_is_alive(),
            !r.child_is_reaped(),
            r.out_history() == Seq::<Seq<char>>::empty(),
            r.err_history() == Seq::<Seq<char>>::empty(),
            r.delivered_out() == Seq::<Seq<char>>::empty(),
            r.delivered_err() == Seq::<Seq<char>>::empty(),
            r.merged_texts() == Seq::<Seq<char>>::empty(),
            r.merged_out() == Seq::<Seq<char>>::empty(),
            r.merged_err() == Seq::<Seq<char>>::empty(),
            r.pending_out() == Seq::<Seq<char>>::empty(),
            r.pending_err() == Seq::<Seq<char>>::empty(),
    {
        let r = ActionRun {
            out_pending: Vec::new(),
            err_pending: Vec::new(),
            merged: Vec::new(),
            finished: false,
            child_alive: true,
            child_reaped: false,
            out_hist: Ghost(Seq::empty()),
            err_hist: Ghost(Seq::empty()),
            out_delivered: Ghost(Seq::empty()),
            err_delivered: Ghost(Seq::empty()),
        };
        proof {
            assert(r.delivered_out() + r.merged_out() + r.pending_out() =~= r.out_history());
            assert(r.delivered_err() + r.merged_err() + r.pending_err() =~= r.err_history());
            assert(r.merged_texts() =~= Seq::<Seq<char>>::empty());
            assert(r.pending_out() =~= Seq::<Seq<char>>::empty());
            assert(r.pending_err() =~= Seq::<Seq<char>>::empty());
        }
        r
    }

    /// The stdout reader captured one line. Readers are joined before
    /// completion, so no line is accepted on a finished run.
    pub fn accept_stdout_line(&mut self, line: String)
        requires
            old(self).wf(),
            !old(self).is_finished(),
        ensures
            final(self).wf(),
            final(self).out_history() == old(self).out_history().push(line@),
            final(self).pending_out() == old(self).pending_out().push(line@),
            final(self).err_history() == old(self).err_history(),
            final(self).pending_err() == old(self).pending_err(),
            final(self).delivered_out() == old(self).delivered_out(),
            final(self).delivered_err() == old(self).delivered_err(),
            final(self).merged_out() == old(self).merged_out(),
            final(self).merged_err() == old(self).merged_err(),
            final(self).merged_texts() == old(self).merged_texts(),
            !final(self).is_finished(),
            final(self).child_is_alive() == old(self).child_is_alive(),
            final(self).child_is_reaped() == old(self).child_is_reaped(),
    {
        proof {
            let ghost l = line@;
            assert(line_views(self.out_pending@.push(line)) =~= line_views(
                self.out_pending@,
            ).push(l));
            assert(self.delivered_out() + self.merged_out() + self.pending_out().push(l)
                =~= (self.delivered_out() + self.merged_out() + self.pending_out()).push(l));
        }
        self.out_hist = Ghost(self.out_hist@.push(line@));
        self.out_pending.push(line);
    }

    /// The stderr reader captured one line.
    pub fn accept_stderr_line(&mut self, line: String)
        requires
            old(self).wf(),
            !old(self).is_finished(),
        ensures
            final(self).wf(),
            final(self).err_history() == old(self).err_history().push(line@),
            final(self).pending_err() == old(self).pending_err().push(line@),
            final(self).out_history() == old(self).out_history(),
            final(self).pending_out() == old(self).pending_out(),
            final(self).delivered_out() == old(self).delivered_out(),
            final(self).delivered_err() == old(self).delivered_err(),
            final(self).merged_out() == old(self).merged_out(),
            final(self).merged_err() == old(self).merged_err(),
            final(self).merged_texts() == old(self).merged_texts(),
            !final(self).is_finished(),
            final(self).child_is_alive() == old(self).child_is_alive(),
            final(self).child_is_reaped() == old(self).child_is_reaped(),
    {
        proof {
            let ghost l = line@;
            assert(line_views(self.err_pending@.push(line)) =~= line_views(
                self.err_pending@,
            ).push(l));
            assert(self.delivered_err() + self.merged_err() + self.pending_err().push(l)
                =~= (self.delivered_err() + self.merged_err() + self.pending_err()).push(l));
        }
        self.err_hist = Ghost(self.err_hist@.push(line@));
        self.err_pending.push(line);
    }

    /// One poll step on the stdout side: forwards the oldest pending stdout
    /// line, if there is one, onto the merged channel.
    pub fn forward_stdout(&mut self)
        requires
            old(self).wf(),
        ensures
            final(self).wf(),
            old(self).pending_out().len() == 0 ==> final(self).pending_out() == old(self).pending_out() && final(self).merged_out() == old(self).merged_out() && final(self).merged_texts() == old(self).merged_texts(),
            old(self).pending_out().len() > 0 ==> final(self).pending_out() == old(self).pending_out().drop_first() && final(self).merged_out() == old(self).merged_out().push(old(self).pending_out()[0]) && final(self).merged_texts() == old(self).merged_texts().push(old(self).pending_out()[0]),
            final(self).merged_err() == old(self).merged_err(),
            final(self).pending_err() == old(self).pending_err(),
            final(self).out_history() == old(self).out_history(),
            final(self).err_history() == old(self).err_history(),
            final(self).delivered_out() == old(self).delivered_out(),
            final(self).delivered_err() == old(self).delivered_err(),
            final(self).is_finished() == old(self).is_finished(),
            final(self).child_is_alive() == old(self).child_is_alive(),
            final(self).child_is_reaped() == old(self).child_is_reaped(),
    {
        if self.out_pending.len() > 0 {
            let line = self.out_pending.remove(0);
            let ghost m0 = self.merged@;
            let ml = MergedLine { source: StreamSource::Stdout, text: line };
            proof {
                lemma_from_source_push(m0, ml, StreamSource::Stdout);
                lemma_from_source_push(m0, ml, StreamSource::Stderr);
            }
            self.merged.push(ml);
            proof {
                assert(line_views(self.out_pending@) =~= old(self).pending_out().drop_first());
                assert(texts(self.merged@) =~= texts(m0).push(old(self).pending_out()[0]));
                assert(self.delivered_out() + self.merged_out() + self.pending_out()
                    =~= old(self).delivered_out() + old(self).merged_out() + old(self).pending_out());
            }
        }
    }

    /// One poll step on the stderr side: forwards the oldest pending stderr
    /// line, if there is one, onto the merged channel.
    pub fn forward_stderr(&mut self)
        requires
            old(self).wf(),
        ensures
            final(self).wf(),
            old(self).pending_err().len() == 0 ==> final(self).pending_err() == old(self).pending_err() && final(self).merged_err() == old(self).merged_err() && final(self).merged_texts() == old(self).merged_texts(),
            old(self).pending_err().len() > 0 ==> final(self).pending_err() == old(self).pending_err().drop_first() && final(self).merged_err() == old(self).merged_err().push(old(self).pending_err()[0]) && final(self).merged_texts() == old(self).merged_texts().push(old(self).pending_err()[0]),
            final(self).merged_out() == old(self).merged_out(),
            final(self).pending_out() == old(self).pending_out(),
            final(self).out_history() == old(self).out_history(),
            final(self).err_history() == old(self).err_history(),
            final(self).delivered_out() == old(self).delivered_out(),
            final(self).delivered_err() == old(self).delivered_err(),
            final(self).is_finished() == old(self).is_finished(),
            final(self).child_is_alive() == old(self).child_is_alive(),
            final(self).child_is_reaped() == old(self).child_is_reaped(),
    {
        if self.err_pending.len() > 0 {
            let line = self.err_pending.remove(0);
            let ghost m0 = self.merged@;
            let ml = MergedLine { source: StreamSource::Stderr, text: line };
            proof {
                lemma_from_source_push(m0, ml, StreamSource::Stdout);
                lemma_from_source_push(m0, ml, StreamSource::Stderr);
            }
            self.merged.push(ml);
            proof {
                assert(line_views(self.err_pending@) =~= old(self).pending_err().drop_first());
                assert(texts(self.merged@) =~= texts(m0).push(old(self).pending_err()[0]));
                assert(self.delivered_err() + self.merged_err() + self.pending_err()
                    =~= old(self).delivered_err() + old(self).merged_err() + old(self).pending_err());
            }
        }
    }

    /// The child exited and both reader workers were joined: forwards every
    /// still-pending line of both streams onto the merged channel, kills the
    /// child (a no-op on an exited child), reaps it, and signals completion.
    /// Completion can be signalled only once: this call needs a run that has
    /// not finished, and no method ever clears the flag.
    pub fn finish(&mut self)
        requires
            old(self).wf(),
            !old(self).is_finished(),
        ensures
            final(self).wf(),
            final(self).is_finished(),
            !final(self).child_is_alive(),
            final(self).child_is_reaped(),
            final(self).pending_out().len() == 0,
            final(self).pending_err().len() == 0,
            final(self).merged_out() == old(self).merged_out() + old(self).pending_out(),
            final(self).merged_err() == old(self).merged_err() + old(self).pending_err(),
            final(self).out_history() == old(self).out_history(),
            final(self).err_history() == old(self).err_history(),
            final(self).delivered_out() == old(self).delivered_out(),
            final(self).delivered_err() == old(self).delivered_err(),
    {
        let ghost orig = *old(self);
        let ghost mut j: int = 0;
        proof {
            assert(orig.pending_out().skip(0) =~= orig.pending_out());
            assert(orig.merged_out() + orig.pending_out().take(0) =~= orig.merged_out());
        }
        while self.out_pending.len() > 0
            invariant
                self.wf(),
                0 <= j <= orig.pending_out().len(),
                self.pending_out() == orig.pending_out().skip(j),
                self.merged_out() == orig.merged_out() + orig.pending_out().take(j),
                self.merged_err() == orig.merged_err(),
                self.pending_err() == orig.pending_err(),
                self.out_history() == orig.out_history(),
                self.err_history() == orig.err_history(),
                self.delivered_out() == orig.delivered_out(),
                self.delivered_err() == orig.delivered_err(),
                self.is_finished() == orig.is_finished(),
                self.child_is_alive() == orig.child_is_alive(),
                self.child_is_reaped() == orig.child_is_reaped(),
            decreases self.out_pending.len(),
        {
            proof {
                assert(self.pending_out().len() == line_views(self.out_pending@).len());
            }
            self.forward_stdout();
            proof {
                assert(orig.pending_out().skip(j)[0] == orig.pending_out()[j]);
                assert(orig.pending_out().skip(j).drop_first() =~= orig.pending_out().skip(j + 1));
                assert((orig.merged_out() + orig.pending_out().take(j)).push(
                    orig.pending_out()[j],
                ) =~= orig.merged_out() + orig.pending_out().take(j + 1));
                j = j + 1;
            }
        }
        proof {
            assert(orig.pending_out().skip(j).len() == 0);
            assert(orig.pending_out().take(j) =~= orig.pending_out());
        }
        let ghost mut k: int = 0;
        proof {
            assert(orig.pending_err().skip(0) =~= orig.pending_err());
            assert(orig.merged_err() + orig.pending_err().take(0) =~= orig.merged_err());
        }
        while self.err_pending.len() > 0
            invariant
                self.wf(),
                0 <= k <= orig.pending_err().len(),
                self.pending_err() == orig.pending_err().skip(k),
                self.merged_err() == orig.merged_err() + orig.pending_err().take(k),
                self.merged_out() == orig.merged_out() + orig.pending_out(),
                self.pending_out().len() == 0,
                self.out_history() == orig.out_history(),
                self.err_history() == orig.err_history(),
                self.delivered_out() == orig.delivered_out(),
                self.delivered_err() == orig.delivered_err(),
                self.is_finished() == orig.is_finished(),
                self.child_is_alive() == orig.child_is_alive(),
                self.child_is_reaped() == orig.child_is_reaped(),
            decreases self.err_pending.len(),
        {
            proof {
                assert(self.pending_err().len() == line_views(self.err_pending@).len());
            }
            self.forward_stderr();
            proof {
                assert(orig.pending_err().skip(k)[0] == orig.pending_err()[k]);
                assert(orig.pending_err().skip(k).drop_first() =~= orig.pending_err().skip(k + 1));
                assert((orig.merged_err() + orig.pending_err().take(k)).push(
                    orig.pending_err()[k],
                ) =~= orig.merged_err() + orig.pending_err().take(k + 1));
                k = k + 1;
            }
        }
        proof {
            assert(orig.pending_err().skip(k).len() == 0);
            assert(orig.pending_err().take(k) =~= orig.pending_err());
        }
        self.child_alive = false;
        self.child_reaped = true;
        self.finished = true;
    }

    /// Sends a kill to the child. Safe to call at any time and any number of
    /// times: it only records that the child is no longer running and changes
    /// nothing else.
    pub fn kill_child(&mut self)
        requires
            old(self).wf(),
        ensures
            final(self).wf(),
            *final(self) == killed(*old(self)),
            !final(self).child_is_alive(),
            final(self).child_is_reaped() == old(self).child_is_reaped(),
            final(self).is_finished() == old(self).is_finished(),
            final(self).out_history() == old(self).out_history(),
            final(self).err_history() == old(self).err_history(),
            final(self).delivered_out() == old(self).delivered_out(),
            final(self).delivered_err() == old(self).delivered_err(),
            final(self).merged_out() == old(self).merged_out(),
            final(self).merged_err() == old(self).merged_err(),
            final(self).merged_texts() == old(self).merged_texts(),
            final(self).pending_out() == old(self).pending_out(),
            final(self).pending_err() == old(self).pending_err(),
    {
        self.child_alive = false;
    }

    /// Waits on the child to reap it. Best-effort cleanup: callable at any
    /// time; afterwards the child is reaped and no longer running.
    pub fn reap_child(&mut self)
        requires
            old(self).wf(),
        ensures
            final(self).wf(),
            !final(self).child_is_alive(),
            final(self).child_is_reaped(),
            final(self).is_finished() == old(self).is_finished(),
            final(self).out_history() == old(self).out_history(),
            final(self).err_history() == old(self).err_history(),
            final(self).delivered_out() == old(self).delivered_out(),
            final(self).delivered_err() == old(self).delivered_err(),
            final(self).merged_out() == old(self).merged_out(),
            final(self).merged_err() == old(self).merged_err(),
            final(self).merged_texts() == old(self).merged_texts(),
            final(self).pending_out() == old(self).pending_out(),
            final(self).pending_err() == old(self).pending_err(),
    {
        self.child_alive = false;
        self.child_reaped = true;
    }

    /// Whether completion has been signalled, as the consumer polls it.
    pub fn poll_finished(&self) -> (r: bool)
        ensures
            r == self.is_finished(),
    {
        self.finished
    }

    /// Takes every line currently on the merged channel, in channel order, as
    /// the consumer's non-blocking drain: what is returned is exactly what
    /// was on the channel, nothing lost and nothing duplicated, and it is now
    /// recorded as delivered.
    pub fn drain(&mut self) -> (lines: Vec<String>)
        requires
            old(self).wf(),
        ensures
            final(self).wf(),
            lines@.map_values(|s: String| s@) == old(self).merged_texts(),
            final(self).merged_texts() == Seq::<Seq<char>>::empty(),
            final(self).merged_out() == Seq::<Seq<char>>::empty(),
            final(self).merged_err() == Seq::<Seq<char>>::empty(),
            final(self).delivered_out() == old(self).delivered_out() + old(self).merged_out(),
            final(self).delivered_err() == old(self).delivered_err() + old(self).merged_err(),
            final(self).pending_out() == old(self).pending_out(),
            final(self).pending_err() == old(self).pending_err(),
            final(self).out_history() == old(self).out_history(),
            final(self).err_history() == old(self).err_history(),
            final(self).is_finished() == old(self).is_finished(),
            final(self).child_is_alive() == old(self).child_is_alive(),
            final(self).child_is_reaped() == old(self).child_is_reaped(),
    {
        let mut lines: Vec<String> = Vec::new();
        let mut i: usize = 0;
        let n = self.merged.len();
        proof {
            assert(lines@.map_values(|s: String| s@) =~= texts(self.merged@.take(0)));
        }
        while i < n
            invariant
                i <= n,
                n == self.merged@.len(),
                lines@.map_values(|s: String| s@) == texts(self.merged@.take(i as int)),
            decreases n - i,
        {
            let t = self.merged[i].text.clone();
            proof {
                assert(texts(self.merged@.take(i as int + 1)) =~= texts(
                    self.merged@.take(i as int),
                ).push(self.merged@[i as int].text@));
                assert(lines@.push(t).map_values(|s: String| s@) =~= lines@.map_values(
                    |s: String| s@,
                ).push(t@));
            }
            lines.push(t);
            i = i + 1;
        }
        proof {
            assert(self.merged@.take(n as int) =~= self.merged@);
        }
        self.out_delivered = Ghost(self.out_delivered@ + from_source(self.merged@, StreamSource::Stdout));
        self.err_delivered = Ghost(self.err_delivered@ + from_source(self.merged@, StreamSource::Stderr));
        self.merged.clear();
        proof {
            assert(from_source(self.merged@, StreamSource::Stdout) =~= Seq::<Seq<char>>::empty());
            assert(from_source(self.merged@, StreamSource::Stderr) =~= Seq::<Seq<char>>::empty());
            assert(texts(self.merged@) =~= Seq::<Seq<char>>::empty());
            assert(self.delivered_out() + self.merged_out() + self.pending_out() =~= old(self).delivered_out() + old(self).merged_out() + old(self).pending_out());
            assert(self.delivered_err() + self.merged_err() + self.pending_err() =~= old(self).delivered_err() + old(self).merged_err() + old(self).pending_err());
        }
        lines
    }
}

/// The state after a kill: the child is no longer running; nothing else
/// changes.
pub closed spec fn killed(r: ActionRun) -> ActionRun {
    ActionRun { child_alive: false, ..r }
}

/// Killing the child is idempotent: killing an already-killed run leaves it
/// exactly as it was.
pub proof fn lemma_kill_idempotent(r: ActionRun)
    ensures
        killed(killed(r)) == killed(r),
{
}

/// Once a run has signalled completion, the accounting is closed: what was
/// delivered plus what still sits on the merged channel is, per stream and in
/// source order, exactly every line that was ever captured — none lost, none
/// duplicated — no line is still pending, and the child was killed and
/// reaped.
pub proof fn lemma_finished_accounts_for_all(r: &ActionRun)
    requires
        r.wf(),
        r.is_finished(),
    ensures
        r.delivered_out() + r.merged_out() == r.out_history(),
        r.delivered_err() + r.merged_err() == r.err_history(),
        r.pending_out().len() == 0,
        r.pending_err().len() == 0,
        !r.child_is_alive(),
        r.child_is_reaped(),
{
    assert(r.delivered_out() + r.merged_out() =~= r.delivered_out() + r.merged_out()
        + r.pending_out());
    assert(r.delivered_err() + r.merged_err() =~= r.delivered_err() + r.merged_err()
        + r.pending_err());
}

} // verus!
