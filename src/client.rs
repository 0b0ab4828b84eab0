use vstd::prelude::*;

verus! {

/// Where a pairing dispatcher stands.
pub enum ClientPhase<L> {
    /// The local source is to be polled next.
    AwaitLocal,
    /// A local stream is held; the remote source is to be polled next.
    AwaitRemote(L),
    /// One of the sources is exhausted; nothing more is polled.
    Stopped,
}

/// The source that a pairing dispatcher polls next.
#[derive(Clone, Copy, Debug, PartialEq, Eq, Structural)]
pub enum Source {
    Local,
    Remote,
}

/// What becomes of a local stream once the remote fetch has answered.
pub enum Pairing<L, R> {
    /// Both streams go to a new handler task; polling goes on.
    Paired(L, R),
    /// The remote source is exhausted. The local stream goes to no handler and
    /// is handed back to the caller to dispose of; polling stops.
    Unpaired(L),
}

/// The source to poll in `phase`, if any.
pub open spec fn wanted<L>(phase: ClientPhase<L>) -> Option<Source> {
    match phase {
        ClientPhase::AwaitLocal => Some(Source::Local),
        ClientPhase::AwaitRemote(_) => Some(Source::Remote),
        ClientPhase::Stopped => None,
    }
}

/// The phase after a local fetch that yielded `fetched`.
pub open spec fn local_step<L>(fetched: Option<L>) -> ClientPhase<L> {
    match fetched {
        Some(l) => ClientPhase::AwaitRemote(l),
        None => ClientPhase::Stopped,
    }
}

/// The phase and the outcome after a remote fetch that yielded `fetched`,
/// with the local stream `local` held.
pub open spec fn remote_step<L, R>(local: L, fetched: Option<R>) -> (ClientPhase<L>, Pairing<L, R>) {
    match fetched {
        Some(r) => (ClientPhase::AwaitLocal, Pairing::Paired(local, r)),
        None => (ClientPhase::Stopped, Pairing::Unpaired(local)),
    }
}

/// The decisions of a dispatcher that pairs a local and a remote stream.
///
/// It polls the local source; on a stream it polls the remote source, and on a
/// second stream it hands both to a handler of their own and starts over. The
/// first absent result from either source stops it for good.
pub struct ClientLoop<L> {
    phase: ClientPhase<L>,
}

impl<L> ClientLoop<L> {
    /// Where the dispatcher stands.
    pub closed spec fn phase(&self) -> ClientPhase<L> {
        self.phase
    }

    pub fn new() -> (r: ClientLoop<L>)
        ensures
            r.phase() == ClientPhase::<L>::AwaitLocal,
    {
        ClientLoop { phase: ClientPhase::AwaitLocal }
    }

    /// The source to poll next, or `None` once the dispatcher has stopped.
    pub fn next_fetch(&self) -> (r: Option<Source>)
        ensures
            r == wanted(self.phase()),
    {
        match &self.phase {
            ClientPhase::AwaitLocal => Some(Source::Local),
            ClientPhase::AwaitRemote(_) => Some(Source::Remote),
            ClientPhase::Stopped => None,
        }
    }

    /// Takes the outcome of a fetch from the local source.
    pub fn on_local(&mut self, fetched: Option<L>)
        requires
            old(self).phase() is AwaitLocal,
        ensures
            final(self).phase() == local_step(fetched),
    {
        self.phase = match fetched {
            Some(l) => ClientPhase::AwaitRemote(l),
            None => ClientPhase::Stopped,
        };
    }

    /// Takes the outcome of a fetch from the remote source and says what becomes
    /// of the local stream held.
    pub fn on_remote<R>(&mut self, fetched: Option<R>) -> (r: Pairing<L, R>)
        requires
            old(self).phase() is AwaitRemote,
        ensures
            (final(self).phase(), r) == remote_step(old(self).phase()->AwaitRemote_0, fetched),
    {
        let mut phase = ClientPhase::Stopped;
        std::mem::swap(&mut self.phase, &mut phase);
        match phase {
            ClientPhase::AwaitRemote(local) => match fetched {
                Some(remote) => {
                    self.phase = ClientPhase::AwaitLocal;
                    Pairing::Paired(local, remote)
                },
                None => Pairing::Unpaired(local),
            },
            _ => vstd::pervasive::unreached(),
        }
    }
}

/// What one run of a pairing dispatcher amounts to.
pub struct ClientRun<L, R> {
    /// The pairs handed to handlers, in the order of hand-off.
    pub pairs: Seq<(L, R)>,
    /// The local streams that got no remote partner.
    pub unpaired: Seq<L>,
    /// How many fetches were made from the local source.
    pub local_fetches: nat,
    /// How many fetches were made from the remote source.
    pub remote_fetches: nat,
    /// Whether the dispatcher ended stopped.
    pub stopped: bool,
}

/// The run of a pairing dispatcher in `phase` whose sources would answer its
/// fetches with `local` and `remote` in order (as far as the dispatcher asks).
pub open spec fn client_run<L, R>(
    phase: ClientPhase<L>,
    local: Seq<Option<L>>,
    remote: Seq<Option<R>>,
) -> ClientRun<L, R>
    decreases local.len() + remote.len(),
{
    let idle = ClientRun {
        pairs: Seq::empty(),
        unpaired: Seq::empty(),
        local_fetches: 0,
        remote_fetches: 0,
        stopped: phase is Stopped,
    };
    match phase {
        ClientPhase::Stopped => idle,
        ClientPhase::AwaitLocal => if local.len() == 0 {
            idle
        } else {
            let rest = client_run(local_step(local[0]), local.drop_first(), remote);
            ClientRun {
                pairs: rest.pairs,
                unpaired: rest.unpaired,
                local_fetches: rest.local_fetches + 1,
                remote_fetches: rest.remote_fetches,
                stopped: rest.stopped,
            }
        },
        ClientPhase::AwaitRemote(held) => if remote.len() == 0 {
            idle
        } else {
            let (next, outcome) = remote_step(held, remote[0]);
            let rest = client_run(next, local, remote.drop_first());
            ClientRun {
                pairs: match outcome {
                    Pairing::Paired(l, r) => seq![(l, r)] + rest.pairs,
                    Pairing::Unpaired(_) => rest.pairs,
                },
                unpaired: match outcome {
                    Pairing::Paired(_, _) => rest.unpaired,
                    Pairing::Unpaired(l) => seq![l] + rest.unpaired,
                },
                local_fetches: rest.local_fetches,
                remote_fetches: rest.remote_fetches + 1,
                stopped: rest.stopped,
            }
        },
    }
}

/// Pairing follows the order of both sources: if the first `n` fetches from
/// each yield a stream and then the local source, or the remote one, answers
/// absent, exactly the `n` pairs of same-numbered streams go to handlers; a
/// local stream fetched just before the remote absent goes to none; and neither
/// source is polled after that.
pub proof fn lemma_pairing<L, R>(local: Seq<Option<L>>, remote: Seq<Option<R>>, n: int)
    requires
        0 <= n < local.len(),
        n <= remote.len(),
        forall|j: int| 0 <= j < n ==> local[j] is Some && remote[j] is Some,
        local[n] is None || (n < remote.len() && remote[n] is None),
    ensures
        client_run(ClientPhase::AwaitLocal, local, remote).pairs.len() == n,
        forall|j: int|
            0 <= j < n ==> #[trigger] client_run(ClientPhase::AwaitLocal, local, remote).pairs[j]
                == (local[j]->0, remote[j]->0),
        client_run(ClientPhase::AwaitLocal, local, remote).unpaired == if local[n] is Some {
            seq![local[n]->0]
        } else {
            Seq::empty()
        },
        client_run(ClientPhase::AwaitLocal, local, remote).local_fetches == n + 1,
        client_run(ClientPhase::AwaitLocal, local, remote).remote_fetches == if local[n] is Some {
            n + 1
        } else {
            n
        },
        client_run(ClientPhase::AwaitLocal, local, remote).stopped,
    decreases n,
{
    reveal_with_fuel(client_run, 3);
    if n > 0 {
        let (l2, r2) = (local.drop_first(), remote.drop_first());
        lemma_pairing(l2, r2, n - 1);
        let inner = client_run(ClientPhase::<L>::AwaitLocal, l2, r2);
        let run = client_run(ClientPhase::<L>::AwaitLocal, local, remote);
        assert(run.pairs == seq![(local[0]->0, remote[0]->0)] + inner.pairs);
        assert forall|j: int| 0 <= j < n implies #[trigger] run.pairs[j] == (
            local[j]->0,
            remote[j]->0,
        ) by {
            if j > 0 {
                assert(run.pairs[j] == inner.pairs[j - 1]);
                assert(l2[j - 1] == local[j]);
                assert(r2[j - 1] == remote[j]);
            }
        }
    }
}

} // verus!
