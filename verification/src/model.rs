//! The service as a state machine over mathematical values, and the laws
//! that hold of it.

use vstd::prelude::*;
use crate::account::{AccountId, Balance};
use crate::history::{next_history, Draw, READING_LEN};

verus! {

/// What the service remembers between calls.
#[verifier::ext_equal]
pub struct State {
    /// The account that may hand ownership on and that withdrawals pay.
    pub owner: AccountId,
    /// The least payment that buys a draw.
    pub fee: Balance,
    /// The reading of each account that has drawn.
    pub readings: Map<AccountId, Seq<Draw>>,
}

/// One call to the service, with what the host reports alongside it.
pub enum Call {
    /// `caller` pays `paid` for a draw, and `value` is the draw derived for it.
    Draw { caller: AccountId, paid: Balance, value: Draw },
    /// `caller` asks that `new_owner` become the owner.
    ChangeOwner { caller: AccountId, new_owner: AccountId },
    /// Somebody asks that the balance be paid out to the owner.
    Withdraw,
    /// `history`, stored away earlier, is put back on file for `account`.
    LoadReading { account: AccountId, history: Seq<Draw> },
}

impl State {
    /// The state of a service that `creator` has just set up with `fee`.
    pub open spec fn init(fee: Balance, creator: AccountId) -> State {
        State { owner: creator, fee, readings: Map::empty() }
    }

    /// The reading of `account`: empty where none is on file.
    pub open spec fn history(self, account: AccountId) -> Seq<Draw> {
        if self.readings.contains_key(account) {
            self.readings[account]
        } else {
            Seq::empty()
        }
    }

    /// No reading holds more than three draws.
    pub open spec fn bounded(self) -> bool {
        forall|account: AccountId| #[trigger] self.history(account).len() <= READING_LEN
    }

    /// The state with `history` on file as the reading of `account`.
    pub open spec fn with_reading(self, account: AccountId, history: Seq<Draw>) -> State {
        State { readings: self.readings.insert(account, history), ..self }
    }

    /// The state after an attempt to put `history` back on file for
    /// `account`: it is filed unless it holds more than three draws.
    pub open spec fn load_reading(self, account: AccountId, history: Seq<Draw>) -> State {
        if history.len() <= READING_LEN {
            self.with_reading(account, history)
        } else {
            self
        }
    }

    /// The state once `value` has been drawn for `caller`.
    pub open spec fn record(self, caller: AccountId, value: Draw) -> State {
        self.with_reading(caller, next_history(self.history(caller), value))
    }

    /// The state after `caller` paid `paid` for the draw `value`: the draw is
    /// recorded when the payment covers the fee, and nothing changes when it
    /// does not.
    pub open spec fn draw(self, caller: AccountId, paid: Balance, value: Draw) -> State {
        if paid >= self.fee {
            self.record(caller, value)
        } else {
            self
        }
    }

    /// The state after `caller` asked for `new_owner` to own the service: the
    /// owner's word is followed, anybody else's is ignored.
    pub open spec fn change_owner(self, caller: AccountId, new_owner: AccountId) -> State {
        if caller == self.owner {
            State { owner: new_owner, ..self }
        } else {
            self
        }
    }

    /// The state after `call`.
    pub open spec fn step(self, call: Call) -> State {
        match call {
            Call::Draw { caller, paid, value } => self.draw(caller, paid, value),
            Call::ChangeOwner { caller, new_owner } => self.change_owner(caller, new_owner),
            Call::Withdraw => self,
            Call::LoadReading { account, history } => self.load_reading(account, history),
        }
    }

    /// The state after `calls`, made in order.
    pub open spec fn run(self, calls: Seq<Call>) -> State
        decreases calls.len(),
    {
        if calls.len() == 0 {
            self
        } else {
            self.run(calls.drop_last()).step(calls.last())
        }
    }
}

/// Filing a reading of at most three draws keeps every reading within three
/// draws.
pub proof fn lemma_with_reading_bounded(state: State, account: AccountId, history: Seq<Draw>)
    requires
        state.bounded(),
        history.len() <= READING_LEN,
    ensures
        state.with_reading(account, history).bounded(),
{
    let after = state.with_reading(account, history);
    assert forall|other: AccountId| #[trigger] after.history(other).len() <= READING_LEN by {
        if other != account {
            assert(after.history(other) == state.history(other));
        }
    }
}

/// Recording a draw keeps every reading within three draws.
pub proof fn lemma_record_bounded(state: State, caller: AccountId, value: Draw)
    requires
        state.bounded(),
    ensures
        state.record(caller, value).bounded(),
{
    lemma_with_reading_bounded(state, caller, next_history(state.history(caller), value));
}

/// No call lets a reading outgrow three draws.
pub proof fn lemma_step_bounded(state: State, call: Call)
    requires
        state.bounded(),
    ensures
        state.step(call).bounded(),
{
    match call {
        Call::Draw { caller, paid, value } => {
            if paid >= state.fee {
                lemma_record_bounded(state, caller, value);
            }
        },
        Call::ChangeOwner { caller, new_owner } => {
            let after = state.change_owner(caller, new_owner);
            assert forall|account: AccountId| #[trigger]
                after.history(account).len() <= READING_LEN by {
                assert(after.history(account) == state.history(account));
            }
        },
        Call::Withdraw => {},
        Call::LoadReading { account, history } => {
            if history.len() <= READING_LEN {
                lemma_with_reading_bounded(state, account, history);
            }
        },
    }
}

/// Whatever calls a service has seen since it was set up, and in whatever
/// order, no account's reading holds more than three draws.
pub proof fn lemma_readings_stay_bounded(fee: Balance, creator: AccountId, calls: Seq<Call>)
    ensures
        State::init(fee, creator).run(calls).bounded(),
    decreases calls.len(),
{
    let start = State::init(fee, creator);
    if calls.len() == 0 {
        assert forall|account: AccountId| #[trigger]
            start.history(account).len() <= READING_LEN by {}
    } else {
        lemma_readings_stay_bounded(fee, creator, calls.drop_last());
        lemma_step_bounded(start.run(calls.drop_last()), calls.last());
    }
}

/// The fee is the one that the service was set up with, whatever calls it
/// has seen since.
pub proof fn lemma_fee_is_fixed(fee: Balance, creator: AccountId, calls: Seq<Call>)
    ensures
        State::init(fee, creator).run(calls).fee == fee,
    decreases calls.len(),
{
    if calls.len() > 0 {
        lemma_fee_is_fixed(fee, creator, calls.drop_last());
    }
}

/// A draw that is not paid for changes nothing: neither the readings nor the
/// owner.
pub proof fn lemma_unpaid_draw_changes_nothing(
    state: State,
    caller: AccountId,
    paid: Balance,
    value: Draw,
)
    requires
        paid < state.fee,
    ensures
        state.draw(caller, paid, value) == state,
{
}

/// Only the owner can hand ownership on: a request from anybody else leaves
/// the state as it was, and one from the owner makes exactly the account
/// that it names the owner and touches nothing else.
pub proof fn lemma_change_owner(state: State, caller: AccountId, new_owner: AccountId)
    ensures
        caller != state.owner ==> state.change_owner(caller, new_owner) == state,
        caller == state.owner ==> state.change_owner(caller, new_owner) == (State {
            owner: new_owner,
            ..state
        }),
{
}

/// Four draws in a row by an account whose reading was empty or full leave it
/// with a reading of one draw, the fourth: the first three fill a reading
/// and the fourth opens a new one.
pub proof fn lemma_fourth_draw_starts_over(
    state: State,
    caller: AccountId,
    first: Draw,
    second: Draw,
    third: Draw,
    fourth: Draw,
)
    requires
        state.history(caller).len() == 0 || state.history(caller).len() >= READING_LEN,
    ensures
        state.record(caller, first).record(caller, second).record(caller, third).record(
            caller,
            fourth,
        ).history(caller) == seq![fourth],
{
    let one = state.record(caller, first);
    let two = one.record(caller, second);
    let three = two.record(caller, third);
    assert(one.history(caller) =~= seq![first]);
    assert(two.history(caller) =~= seq![first, second]);
    assert(three.history(caller) =~= seq![first, second, third]);
}

} // verus!
