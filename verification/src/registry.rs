//! The live-connection registry: the set of promoted event-stream
//! connections and the lifecycle of the keep-alive worker that serves
//! them. The registry is the decision core; the caller holds it behind a
//! lock, performs the writes it prescribes, and reports each write's
//! outcome back.
//!
//! Connections are named by handles; the caller keeps whatever socket
//! state each handle stands for. A broadcast pass hands back the outcome
//! of writing to every connection, and the registry keeps exactly the
//! connections whose write succeeded: a failed write is the one signal
//! that a peer is gone, and it removes the connection silently.
use vstd::prelude::*;

verus! {

/// The connections that survive a broadcast pass: those whose write
/// succeeded, in their original order.
pub open spec fn survivors(conns: Seq<u64>, ok: Seq<bool>) -> Seq<u64>
    decreases conns.len(),
{
    if conns.len() == 0 {
        Seq::<u64>::empty()
    } else if ok[0] {
        seq![conns[0]] + survivors(conns.drop_first(), ok.drop_first())
    } else {
        survivors(conns.drop_first(), ok.drop_first())
    }
}

/// What the keep-alive worker does after one poll quantum.
#[derive(Debug, PartialEq, Eq, Structural)]
pub enum TickerAction {
    /// Nothing was due; sleep for another quantum.
    Idle,
    /// A keep-alive pass was broadcast and some connections remain; the
    /// broadcast timer starts over.
    Broadcast,
    /// The worker exits; its running flag has been cleared.
    Exit,
}

/// The registry of promoted connections, with the keep-alive worker's
/// running flag. Both live under one lock in the caller, so the flag and
/// the set are never observed in a torn state.
pub struct Registry {
    conns: Vec<u64>,
    ticker_running: bool,
}

impl Registry {
    /// The registered connection handles, in insertion order.
    pub closed spec fn connections(&self) -> Seq<u64> {
        self.conns@
    }

    /// Whether a keep-alive worker currently exists for this registry.
    pub closed spec fn ticker(&self) -> bool {
        self.ticker_running
    }

    /// An empty registry with no worker.
    pub fn new() -> (r: Registry)
        ensures
            r.connections() == Seq::<u64>::empty(),
            !r.ticker(),
    {
        Registry { conns: Vec::new(), ticker_running: false }
    }

    /// How many connections are registered.
    pub fn len(&self) -> (r: usize)
        ensures
            r == self.connections().len(),
    {
        self.conns.len()
    }

    /// The handle of the connection in position `i`: the caller walks the
    /// registry with it to perform a broadcast's writes.
    pub fn id_at(&self, i: usize) -> (r: u64)
        requires
            i < self.connections().len(),
        ensures
            r == self.connections()[i as int],
    {
        self.conns[i]
    }

    /// Registers a promoted connection. Returns true exactly when the
    /// caller must spawn the keep-alive worker: the flag test and its set
    /// happen in one step under the caller's lock, so two adds racing on
    /// an empty registry see the flag in order and spawn only one worker.
    pub fn add_stream(&mut self, conn: u64) -> (spawn: bool)
        ensures
            final(self).connections() == old(self).connections().push(conn),
            final(self).ticker(),
            spawn == !old(self).ticker(),
    {
        self.conns.push(conn);
        if !self.ticker_running {
            self.ticker_running = true;
            true
        } else {
            false
        }
    }

    /// Removes every connection whose write failed, keeping the rest in
    /// order. `ok[i]` reports the outcome of writing to connection `i`.
    pub fn apply_write_results(&mut self, ok: &Vec<bool>)
        requires
            ok@.len() == old(self).connections().len(),
        ensures
            final(self).connections() == survivors(old(self).connections(), ok@),
            final(self).ticker() == old(self).ticker(),
    {
        let ghost orig = self.conns@;
        let mut kept: Vec<u64> = Vec::new();
        let mut i: usize = 0;
        proof {
            assert(orig.subrange(0, orig.len() as int) =~= orig);
            assert(ok@.subrange(0, orig.len() as int) =~= ok@);
            assert(Seq::<u64>::empty() + survivors(orig, ok@) =~= survivors(orig, ok@));
        }
        while i < self.conns.len()
            invariant
                0 <= i <= self.conns.len(),
                self.conns@ == orig,
                ok@.len() == orig.len(),
                survivors(orig, ok@) == kept@ + survivors(
                    orig.subrange(i as int, orig.len() as int),
                    ok@.subrange(i as int, orig.len() as int),
                ),
            decreases self.conns.len() - i,
        {
            let ghost tail = orig.subrange(i as int, orig.len() as int);
            let ghost oktail = ok@.subrange(i as int, orig.len() as int);
            proof {
                assert(tail.drop_first() =~= orig.subrange(i + 1, orig.len() as int));
                assert(oktail.drop_first() =~= ok@.subrange(i + 1, orig.len() as int));
            }
            if ok[i] {
                kept.push(self.conns[i]);
                proof {
                    assert(kept@.drop_last() + (seq![orig[i as int]] + survivors(
                        tail.drop_first(),
                        oktail.drop_first(),
                    )) =~= kept@ + survivors(tail.drop_first(), oktail.drop_first()));
                }
            }
            i = i + 1;
        }
        proof {
            let empty_tail = orig.subrange(orig.len() as int, orig.len() as int);
            assert(empty_tail =~= Seq::<u64>::empty());
            assert(kept@ + survivors(
                Seq::<u64>::empty(),
                ok@.subrange(orig.len() as int, orig.len() as int),
            ) =~= kept@);
        }
        self.conns = kept;
    }

    /// One decision of the keep-alive worker, taken after it wakes from a
    /// poll quantum. `stop` reports a stop signal, `due` whether the time
    /// since the last broadcast passed the threshold, and `ok` the outcome
    /// of the keep-alive write to each connection when one was due.
    ///
    /// On a stop signal the worker exits and clears its flag. When no
    /// broadcast is due it idles. Otherwise the failed connections are
    /// dropped; if none survive, the worker clears its flag and exits, so
    /// an empty registry never keeps a worker beyond one poll quantum.
    pub fn worker_step(&mut self, stop: bool, due: bool, ok: &Vec<bool>) -> (action: TickerAction)
        requires
            ok@.len() == old(self).connections().len(),
        ensures
            !stop && due && old(self).ticker() ==> (final(self).ticker()
                <==> final(self).connections().len() > 0),
            stop ==> action == TickerAction::Exit && !final(self).ticker()
                && final(self).connections() == old(self).connections(),
            !stop && !due ==> action == TickerAction::Idle && *final(self) == *old(self),
            !stop && due ==> ({
                &&& final(self).connections() == survivors(old(self).connections(), ok@)
                &&& (final(self).connections().len() == 0 ==> action == TickerAction::Exit
                    && !final(self).ticker())
                &&& (final(self).connections().len() > 0 ==> action == TickerAction::Broadcast
                    && final(self).ticker() == old(self).ticker())
            }),
    {
        if stop {
            self.ticker_running = false;
            return TickerAction::Exit;
        }
        if !due {
            return TickerAction::Idle;
        }
        self.apply_write_results(ok);
        if self.conns.len() == 0 {
            self.ticker_running = false;
            TickerAction::Exit
        } else {
            TickerAction::Broadcast
        }
    }

    /// Two adds on an initially empty registry spawn exactly one worker,
    /// whichever order the lock serializes them in, and afterwards both
    /// connections are registered. The states and spawn decisions are
    /// related as the contract of `add_stream` relates them.
    pub proof fn lemma_single_worker(
        r0: Registry,
        r1: Registry,
        r2: Registry,
        c1: u64,
        c2: u64,
        spawn1: bool,
        spawn2: bool,
    )
        requires
            r0.connections().len() == 0,
            !r0.ticker(),
            // the first add's contract
            r1.connections() == r0.connections().push(c1),
            r1.ticker(),
            spawn1 == !r0.ticker(),
            // the second add's contract
            r2.connections() == r1.connections().push(c2),
            r2.ticker(),
            spawn2 == !r1.ticker(),
        ensures
            // the first add spawns a worker, the second does not
            spawn1,
            !spawn2,
            // and both connections are present afterwards
            r2.connections().contains(c1),
            r2.connections().contains(c2),
            r2.connections().len() == 2,
    {
        assert(r2.connections()[0] == c1);
        assert(r2.connections()[1] == c2);
    }

    /// Liveness of the worker lifecycle: once a due broadcast leaves no
    /// survivors, that very step exits and clears the flag — the worker
    /// outlives the last connection by at most one poll quantum — and the
    /// next add on the now-empty registry spawns a fresh worker.
    pub proof fn lemma_worker_stops_and_restarts(
        before: Registry,
        after: Registry,
        ok: Seq<bool>,
        action: TickerAction,
        readd: Registry,
        spawn: bool,
        c: u64,
    )
        requires
            // a due, unstopped worker step whose writes all failed
            ok.len() == before.connections().len(),
            forall|i: int| 0 <= i < ok.len() ==> !ok[i],
            after.connections() == survivors(before.connections(), ok),
            after.connections().len() == 0 ==> action == TickerAction::Exit && !after.ticker(),
            // a later add's contract, starting from the drained registry
            readd.connections() == after.connections().push(c),
            spawn == !after.ticker(),
        ensures
            action == TickerAction::Exit,
            !after.ticker(),
            spawn,
            readd.connections().len() == 1,
    {
        Self::lemma_survivors_all_failed(before.connections(), ok);
    }

    /// A broadcast pass whose every write failed drains the registry.
    proof fn lemma_survivors_all_failed(conns: Seq<u64>, ok: Seq<bool>)
        requires
            ok.len() == conns.len(),
            forall|i: int| 0 <= i < ok.len() ==> !ok[i],
        ensures
            survivors(conns, ok).len() == 0,
        decreases conns.len(),
    {
        if conns.len() > 0 {
            Self::lemma_survivors_all_failed(conns.drop_first(), ok.drop_first());
        }
    }
}

/// The position, among all connections, of the `j`-th survivor of a
/// broadcast pass.
pub open spec fn survivor_source(conns: Seq<u64>, ok: Seq<bool>, j: int) -> int
    decreases conns.len(),
{
    if conns.len() == 0 {
        0
    } else if ok[0] {
        if j == 0 {
            0
        } else {
            1 + survivor_source(conns.drop_first(), ok.drop_first(), j - 1)
        }
    } else {
        1 + survivor_source(conns.drop_first(), ok.drop_first(), j)
    }
}

/// A write failure on one connection never affects delivery to the
/// others: every connection whose write succeeded survives a broadcast
/// pass, and every survivor is a connection whose write succeeded.
pub proof fn lemma_failure_isolation(conns: Seq<u64>, ok: Seq<bool>)
    requires
        ok.len() == conns.len(),
    ensures
        forall|i: int| 0 <= i < conns.len() && ok[i] ==> survivors(conns, ok).contains(conns[i]),
        forall|j: int|
            0 <= j < survivors(conns, ok).len() ==> 0 <= #[trigger] survivor_source(conns, ok, j)
                < conns.len() && ok[survivor_source(conns, ok, j)] && conns[survivor_source(
                conns,
                ok,
                j,
            )] == survivors(conns, ok)[j],
    decreases conns.len(),
{
    if conns.len() > 0 {
        lemma_failure_isolation(conns.drop_first(), ok.drop_first());
        let rest = survivors(conns.drop_first(), ok.drop_first());
        assert forall|i: int| 0 <= i < conns.len() && ok[i] implies survivors(
            conns,
            ok,
        ).contains(conns[i]) by {
            if i == 0 {
                assert(survivors(conns, ok)[0] == conns[0]);
            } else {
                assert(ok.drop_first()[i - 1] == ok[i]);
                assert(conns.drop_first()[i - 1] == conns[i]);
                assert(rest.contains(conns.drop_first()[i - 1]));
                let k = choose|k: int| 0 <= k < rest.len() && rest[k] == conns[i];
                if ok[0] {
                    assert(survivors(conns, ok)[k + 1] == conns[i]);
                } else {
                    assert(survivors(conns, ok)[k] == conns[i]);
                }
            }
        }
        assert forall|j: int|
            0 <= j < survivors(conns, ok).len() implies 0 <= #[trigger] survivor_source(
            conns,
            ok,
            j,
        ) < conns.len() && ok[survivor_source(conns, ok, j)] && conns[survivor_source(
            conns,
            ok,
            j,
        )] == survivors(conns, ok)[j] by {
            if ok[0] && j == 0 {
                assert(survivors(conns, ok)[0] == conns[0]);
            } else {
                let jr: int = if ok[0] {
                    j - 1
                } else {
                    j
                };
                assert(survivors(conns, ok)[j] == survivors(
                    conns.drop_first(),
                    ok.drop_first(),
                )[jr]);
                let i2 = survivor_source(conns.drop_first(), ok.drop_first(), jr);
                assert(0 <= i2 < conns.drop_first().len() && ok.drop_first()[i2]
                    && conns.drop_first()[i2] == survivors(conns.drop_first(), ok.drop_first())[jr]);
                assert(ok.drop_first()[i2] == ok[i2 + 1]);
                assert(conns.drop_first()[i2] == conns[i2 + 1]);
                assert(survivor_source(conns, ok, j) == 1 + i2);
            }
        }
    }
}

} // verus!
