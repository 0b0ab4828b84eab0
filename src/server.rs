use vstd::prelude::*;

verus! {

/// What the dispatcher does with the outcome of one fetch.
pub enum ServerAction<S> {
    /// Hand the stream to a new handler task, then fetch again.
    Spawn(S),
    /// The source is exhausted: stop polling and return.
    Stop,
}

/// The next state (whether stopped) and the action after a fetch that yielded
/// `fetched`.
pub open spec fn server_step<S>(fetched: Option<S>) -> (bool, ServerAction<S>) {
    match fetched {
        Some(s) => (false, ServerAction::Spawn(s)),
        None => (true, ServerAction::Stop),
    }
}

/// The decisions of a dispatcher that polls one stream source.
///
/// While running it asks for one fetch at a time; each stream that a fetch
/// yields goes to a handler of its own, and the first absent result stops it for
/// good. It never waits for a handler and never sees how one ended.
pub struct ServerLoop {
    stopped: bool,
}

impl ServerLoop {
    /// Whether the dispatcher has stopped.
    pub closed spec fn is_stopped(&self) -> bool {
        self.stopped
    }

    pub fn new() -> (r: ServerLoop)
        ensures
            !r.is_stopped(),
    {
        ServerLoop { stopped: false }
    }

    /// Whether the source is to be polled again.
    pub fn wants_fetch(&self) -> (r: bool)
        ensures
            r == !self.is_stopped(),
    {
        !self.stopped
    }

    /// Takes the outcome of a fetch and says what to do with it.
    pub fn on_fetch<S>(&mut self, fetched: Option<S>) -> (r: ServerAction<S>)
        requires
            !old(self).is_stopped(),
        ensures
            (final(self).is_stopped(), r) == server_step(fetched),
    {
        match fetched {
            Some(s) => ServerAction::Spawn(s),
            None => {
                self.stopped = true;
                ServerAction::Stop
            },
        }
    }
}

/// What one run of the dispatcher amounts to.
pub struct ServerRun<S> {
    /// The streams handed to handlers, in the order of hand-off.
    pub handed: Seq<S>,
    /// How many fetches were made.
    pub fetches: nat,
    /// Whether the dispatcher ended stopped.
    pub stopped: bool,
}

/// The run of a dispatcher, stopped or not, whose source would answer its
/// fetches with `results` in order (as far as the dispatcher asks).
pub open spec fn server_run<S>(stopped: bool, results: Seq<Option<S>>) -> ServerRun<S>
    decreases results.len(),
{
    if stopped || results.len() == 0 {
        ServerRun { handed: Seq::empty(), fetches: 0, stopped }
    } else {
        let (next, action) = server_step(results[0]);
        let rest = server_run(next, results.drop_first());
        ServerRun {
            handed: match action {
                ServerAction::Spawn(s) => seq![s] + rest.handed,
                ServerAction::Stop => rest.handed,
            },
            fetches: rest.fetches + 1,
            stopped: rest.stopped,
        }
    }
}

/// The results of a source that yields each of `streams` in order.
pub open spec fn present<S>(streams: Seq<S>) -> Seq<Option<S>> {
    streams.map_values(|s: S| Some(s))
}

/// Once a fetch returns absent, it is the last fetch: if the `k`-th result is
/// absent, the dispatcher makes at most `k + 1` fetches and ends stopped.
pub proof fn lemma_absent_halts<S>(results: Seq<Option<S>>, k: int)
    requires
        0 <= k < results.len(),
        results[k] is None,
    ensures
        server_run(false, results).fetches <= k + 1,
        server_run(false, results).stopped,
    decreases k,
{
    reveal_with_fuel(server_run, 2);
    if k > 0 && results[0] is Some {
        lemma_absent_halts(results.drop_first(), k - 1);
    }
}

/// A source that yields exactly the streams `streams` and then absent gets
/// exactly `streams.len() + 1` fetches; each stream goes to exactly one handler,
/// in order; and the dispatcher stops only on the absent result.
pub proof fn lemma_fan_out<S>(streams: Seq<S>, tail: Seq<Option<S>>)
    ensures
        server_run(false, present(streams) + seq![None] + tail).handed == streams,
        server_run(false, present(streams) + seq![None] + tail).fetches == streams.len() + 1,
        server_run(false, present(streams) + seq![None] + tail).stopped,
        forall|j: int|
            0 <= j <= streams.len() ==> !#[trigger] server_run(
                false,
                (present(streams) + seq![None] + tail).take(j),
            ).stopped,
    decreases streams.len(),
{
    reveal_with_fuel(server_run, 2);
    let results = present(streams) + seq![None] + tail;
    if streams.len() == 0 {
        assert(results[0] is None);
        assert forall|j: int| 0 <= j <= streams.len() implies !#[trigger] server_run(
            false,
            results.take(j),
        ).stopped by {
            assert(results.take(j).len() == 0);
        }
    } else {
        let rest = streams.drop_first();
        lemma_fan_out(rest, tail);
        assert(results.drop_first() =~= present(rest) + seq![None] + tail);
        assert(results[0] == Some(streams[0]));
        assert(streams =~= seq![streams[0]] + rest);
        assert forall|j: int| 0 <= j <= streams.len() implies !#[trigger] server_run(
            false,
            results.take(j),
        ).stopped by {
            if j > 0 {
                assert(results.take(j).drop_first() =~= (present(rest) + seq![None] + tail).take(
                    j - 1,
                ));
                assert(!server_run(false, (present(rest) + seq![None] + tail).take(j - 1)).stopped);
            }
        }
    }
}

} // verus!
