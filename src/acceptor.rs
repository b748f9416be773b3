//! The accept loop and the wiring of each accepted connection.
//!
//! The accept loop numbers connections in the order they arrive and hands each
//! to its own setup, which never reports back: a connection whose destination
//! cannot be reached is dropped without touching the loop. Only a failure of
//! the listener itself ends the loop.

use vstd::prelude::*;

verus! {

/// What the accept loop does with the outcome of one `accept`.
#[derive(Debug, Clone, Copy, PartialEq, Eq, Structural)]
pub enum AcceptAction {
    /// Set up the accepted connection, concurrently, under this id.
    SetUp(usize),
    /// The listener failed: stop serving.
    Stop,
}

/// The accept loop's state: the id that the next connection gets.
pub struct Acceptor {
    next_id: usize,
}

/// Id that follows `id`; ids wrap around at the top of `usize`.
pub open spec fn id_after(id: usize) -> usize {
    if id == usize::MAX {
        0
    } else {
        (id + 1) as usize
    }
}

/// Actions taken for a sequence of accept outcomes (`true`: a client was
/// accepted), starting from `next_id`. The loop ends at the first failure.
pub open spec fn accept_actions(next_id: usize, outcomes: Seq<bool>) -> Seq<AcceptAction>
    decreases outcomes.len(),
{
    if outcomes.len() == 0 {
        Seq::empty()
    } else if outcomes[0] {
        seq![AcceptAction::SetUp(next_id)] + accept_actions(
            id_after(next_id),
            outcomes.drop_first(),
        )
    } else {
        seq![AcceptAction::Stop]
    }
}

impl Acceptor {
    pub closed spec fn spec_next_id(&self) -> usize {
        self.next_id
    }

    /// An accept loop whose first connection gets id 0.
    pub fn new() -> (r: Acceptor)
        ensures
            r.spec_next_id() == 0,
    {
        Acceptor { next_id: 0 }
    }

    /// The id that the next accepted connection gets.
    pub fn next_id(&self) -> (r: usize)
        ensures
            r == self.spec_next_id(),
    {
        self.next_id
    }

    /// Decides on the outcome of one `accept`: an accepted client is set up
    /// under the next id, which then advances; a failed listener stops the
    /// loop.
    pub fn on_accept(&mut self, accepted: bool) -> (r: AcceptAction)
        ensures
            accepted ==> r == AcceptAction::SetUp(old(self).spec_next_id())
                && final(self).spec_next_id() == id_after(old(self).spec_next_id()),
            !accepted ==> r == AcceptAction::Stop && final(self).spec_next_id() == old(
                self,
            ).spec_next_id(),
    {
        if accepted {
            let id = self.next_id;
            self.next_id = self.next_id.wrapping_add(1);
            AcceptAction::SetUp(id)
        } else {
            AcceptAction::Stop
        }
    }
}

/// `n` accepts in a row that all succeeded.
pub open spec fn all_accepted(n: nat) -> Seq<bool> {
    Seq::new(n, |_i: int| true)
}

/// While the listener keeps accepting, every client is set up, whatever
/// became of earlier connections, and the `k`-th of them gets id `k`: ids are
/// distinct for as many connections as `usize` can count.
pub proof fn lemma_accepted_clients_get_fresh_ids(n: nat)
    requires
        n <= usize::MAX + 1,
    ensures
        accept_actions(0, all_accepted(n)).len() == n,
        forall|k: int|
            0 <= k < n ==> #[trigger] accept_actions(0, all_accepted(n))[k]
                == AcceptAction::SetUp(k as usize),
{
    lemma_accept_run(0, n);
}

proof fn lemma_accept_run(start: usize, n: nat)
    requires
        start + n <= usize::MAX + 1,
    ensures
        accept_actions(start, all_accepted(n)).len() == n,
        forall|k: int|
            0 <= k < n ==> #[trigger] accept_actions(start, all_accepted(n))[k]
                == AcceptAction::SetUp((start + k) as usize),
    decreases n,
{
    let all = all_accepted(n);
    if n > 0 {
        let rest = all_accepted((n - 1) as nat);
        assert(all.drop_first() =~= rest);
        if n > 1 {
            assert(id_after(start) == start + 1);
            lemma_accept_run((start + 1) as usize, (n - 1) as nat);
        } else {
            assert(rest =~= Seq::<bool>::empty());
        }
        let acts = accept_actions(start, all);
        let tail = accept_actions(id_after(start), rest);
        assert(acts == seq![AcceptAction::SetUp(start)] + tail);
        assert forall|k: int| 0 <= k < n implies #[trigger] acts[k] == AcceptAction::SetUp(
            (start + k) as usize,
        ) by {
            if k > 0 {
                assert(acts[k] == tail[k - 1]);
            }
        }
    }
}

/// How far the wiring of one accepted connection has come.
#[derive(Debug, Clone, Copy, PartialEq, Eq, Structural)]
pub enum SetupStage {
    /// The destination is to be connected.
    Connecting,
    /// Connected: each stream is to get a second handle, one per direction.
    Duplicating,
    /// Both streams are ready: the two relay directions are to be started.
    Relaying,
    /// The connection is dropped, for this reason.
    Abandoned(SetupFailure),
}

/// Why a connection was dropped before any relay started.
#[derive(Debug, Clone, Copy, PartialEq, Eq, Structural)]
pub enum SetupFailure {
    /// The destination could not be connected.
    Unreachable,
    /// A second handle to one of the streams could not be made.
    Duplication,
}

/// The wiring of one accepted connection.
pub struct ConnectionSetup {
    id: usize,
    stage: SetupStage,
}

impl ConnectionSetup {
    pub closed spec fn spec_id(&self) -> usize {
        self.id
    }

    pub closed spec fn spec_stage(&self) -> SetupStage {
        self.stage
    }

    /// The setup of the connection accepted under `id`.
    pub fn new(id: usize) -> (r: ConnectionSetup)
        ensures
            r.spec_id() == id,
            r.spec_stage() == SetupStage::Connecting,
    {
        ConnectionSetup { id, stage: SetupStage::Connecting }
    }

    /// The connection this setup belongs to.
    pub fn id(&self) -> (r: usize)
        ensures
            r == self.spec_id(),
    {
        self.id
    }

    pub fn stage(&self) -> (r: SetupStage)
        ensures
            r == self.spec_stage(),
    {
        self.stage
    }

    /// Reports whether the destination was connected. Without it the
    /// connection is abandoned and no relay is started.
    pub fn on_connect(&mut self, connected: bool)
        requires
            old(self).spec_stage() == SetupStage::Connecting,
        ensures
            final(self).spec_id() == old(self).spec_id(),
            final(self).spec_stage() == after_connect(connected),
    {
        if connected {
            self.stage = SetupStage::Duplicating;
        } else {
            self.stage = SetupStage::Abandoned(SetupFailure::Unreachable);
        }
    }

    /// Reports whether both streams got their second handle. Only then are the
    /// two relay directions started.
    pub fn on_duplicate(&mut self, duplicated: bool)
        requires
            old(self).spec_stage() == SetupStage::Duplicating,
        ensures
            final(self).spec_id() == old(self).spec_id(),
            final(self).spec_stage() == after_duplicate(duplicated),
    {
        if duplicated {
            self.stage = SetupStage::Relaying;
        } else {
            self.stage = SetupStage::Abandoned(SetupFailure::Duplication);
        }
    }
}

/// Stage after the destination was (or was not) connected.
pub open spec fn after_connect(connected: bool) -> SetupStage {
    if connected {
        SetupStage::Duplicating
    } else {
        SetupStage::Abandoned(SetupFailure::Unreachable)
    }
}

/// Stage after the streams' second handles were (or were not) made.
pub open spec fn after_duplicate(duplicated: bool) -> SetupStage {
    if duplicated {
        SetupStage::Relaying
    } else {
        SetupStage::Abandoned(SetupFailure::Duplication)
    }
}

/// Stage that a setup reaches from `Connecting`: the duplication is reported
/// only once connected.
pub open spec fn setup_outcome(connected: bool, duplicated: bool) -> SetupStage {
    if after_connect(connected) == SetupStage::Duplicating {
        after_duplicate(duplicated)
    } else {
        after_connect(connected)
    }
}

/// The relays of a connection start only once its destination is connected;
/// an unreachable destination leaves the connection abandoned, with no relay,
/// and the accept loop's next client is set up all the same.
pub proof fn lemma_unreachable_destination_is_contained(next_id: usize, duplicated: bool)
    ensures
        setup_outcome(false, duplicated) == SetupStage::Abandoned(SetupFailure::Unreachable),
        setup_outcome(true, duplicated) == SetupStage::Relaying <==> duplicated,
        accept_actions(next_id, seq![true, true]) == seq![
            AcceptAction::SetUp(next_id),
            AcceptAction::SetUp(id_after(next_id)),
        ],
{
    reveal_with_fuel(accept_actions, 3);
    let two = seq![true, true];
    assert(two.drop_first() =~= seq![true]);
    assert(seq![true].drop_first() =~= Seq::<bool>::empty());
    assert(accept_actions(next_id, two) =~= seq![
        AcceptAction::SetUp(next_id),
        AcceptAction::SetUp(id_after(next_id)),
    ]);
}

} // verus!
