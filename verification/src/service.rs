//! The service itself: its state, and the calls that it answers.

use vstd::prelude::*;
use crate::account::{AccountId, Balance};
use crate::entropy::{draw_value, is_draw, Entropy};
use crate::gate::{require_fee, require_owner, Error};
use crate::history::{copy_history, push_draw, Draw, READING_LEN};
use crate::model::{lemma_with_reading_bounded, State};
use crate::store::Readings;

verus! {

/// The notice of a draw: who drew, and the reading that the draw left them
/// with, the new draw last.
#[derive(Debug, PartialEq, Eq)]
pub struct TarotDraw {
    /// The account that drew.
    pub from: AccountId,
    /// Its reading after the draw: one to three draws, oldest first.
    pub drawing: Vec<Draw>,
}

/// A payment that the host is asked to make out of the service's balance.
#[derive(Clone, Copy, Debug, PartialEq, Eq)]
pub struct Transfer {
    /// The account to pay.
    pub to: AccountId,
    /// The amount to pay.
    pub amount: Balance,
}

/// The state of the service: its owner, its fee, and the readings on file.
pub struct Tarot {
    owner: AccountId,
    fee: Balance,
    readings: Readings,
}

impl View for Tarot {
    type V = State;

    closed spec fn view(&self) -> State {
        State { owner: self.owner, fee: self.fee, readings: self.readings@ }
    }
}

impl Tarot {
    #[verifier::type_invariant]
    spec fn well_formed(self) -> bool {
        self@.bounded()
    }

    /// Sets the service up: `creator` owns it, a draw costs `fee`, and no
    /// reading is on file.
    pub fn new(fee: Balance, creator: AccountId) -> (tarot: Tarot)
        ensures
            tarot@ == State::init(fee, creator),
            tarot@.bounded(),
    {
        let tarot = Tarot { owner: creator, fee, readings: Readings::new() };
        assert(tarot@ == State::init(fee, creator));
        tarot
    }

    /// The least payment that buys a draw.
    pub fn fee(&self) -> (fee: Balance)
        ensures
            fee == self@.fee,
    {
        self.fee
    }

    /// The account that owns the service.
    pub fn owner(&self) -> (owner: AccountId)
        ensures
            owner == self@.owner,
    {
        self.owner
    }

    /// The reading of `account`, oldest draw first: empty where the account
    /// has not drawn, and never longer than three draws.
    pub fn reading(&self, account: &AccountId) -> (history: Vec<Draw>)
        ensures
            history@ == self@.history(*account),
            history@.len() <= READING_LEN,
    {
        proof {
            use_type_invariant(&*self);
        }
        match self.readings.get(account) {
            Some(history) => history,
            None => Vec::new(),
        }
    }

    /// Puts a reading that was stored away back on file for `account`, in
    /// place of the one it had. A reading of more than three draws is
    /// refused, and the state stays as it was.
    pub fn load_reading(&mut self, account: AccountId, history: Vec<Draw>) -> (loaded: bool)
        ensures
            loaded == (history@.len() <= READING_LEN),
            final(self)@ == old(self)@.load_reading(account, history@),
            final(self)@.bounded(),
    {
        proof {
            use_type_invariant(&*self);
        }
        if history.len() > READING_LEN {
            return false;
        }
        let ghost before = self@;
        let ghost filed = history@;
        let mut readings = Readings::new();
        std::mem::swap(&mut readings, &mut self.readings);
        readings.insert(account, history);
        proof {
            let after = before.with_reading(account, filed);
            assert(after == (State { owner: self.owner, fee: self.fee, readings: readings@ }));
            lemma_with_reading_bounded(before, account, filed);
        }
        self.readings = readings;
        true
    }

    /// Records the draw `value` for `caller` and returns the notice of it.
    /// A reading that already holds three draws is dropped first, so that
    /// `value` opens a new one; otherwise `value` is appended.
    pub fn record(&mut self, caller: AccountId, value: Draw) -> (notice: TarotDraw)
        ensures
            final(self)@ == old(self)@.record(caller, value),
            notice.from == caller,
            notice.drawing@ == final(self)@.history(caller),
            final(self)@.bounded(),
    {
        let current = self.reading(&caller);
        let updated = push_draw(current, value);
        let drawing = copy_history(&updated);
        self.load_reading(caller, updated);
        TarotDraw { from: caller, drawing }
    }

    /// Answers a request for a draw by `caller`, who attached `paid` to it.
    ///
    /// A payment below the fee is refused with `Error::InsufficientFee`
    /// before anything else happens. Otherwise the draw is the digest of
    /// `entropy` and `seed`; it is recorded in the caller's reading and
    /// returned, together with the notice to send out.
    pub fn draw(&mut self, caller: AccountId, paid: Balance, entropy: &Entropy, seed: Draw) -> (outcome:
        Result<(Draw, TarotDraw), Error>)
        ensures
            paid < old(self)@.fee ==> (outcome matches Err(refusal) && refusal
                == Error::InsufficientFee && final(self)@ == old(self)@),
            paid >= old(self)@.fee ==> (outcome matches Ok(receipt) && is_draw(
                receipt.0,
                *entropy,
                seed,
            ) && final(self)@ == old(self)@.record(caller, receipt.0) && receipt.1.from == caller
                && receipt.1.drawing@ == final(self)@.history(caller)),
            final(self)@.bounded(),
    {
        proof {
            use_type_invariant(&*self);
        }
        match require_fee(paid, self.fee) {
            Err(refusal) => Err(refusal),
            Ok(()) => {
                let value = draw_value(entropy, &seed);
                let notice = self.record(caller, value);
                Ok((value, notice))
            },
        }
    }

    /// Answers a request by `caller` to make `new_owner` the owner.
    ///
    /// The owner's request is followed, whatever account it names. A
    /// request by anybody else changes nothing and is refused. Mind the
    /// error: the refusal comes as `Error::InsufficientFee`, the value by
    /// which clients of this call tell a refusal, although `require_owner`
    /// gives the reason as `Error::MustBeOwner`.
    pub fn change_owner(&mut self, caller: AccountId, new_owner: AccountId) -> (outcome: Result<
        (),
        Error,
    >)
        ensures
            caller == old(self)@.owner ==> outcome is Ok,
            caller != old(self)@.owner ==> outcome == Err::<(), Error>(Error::InsufficientFee),
            final(self)@ == old(self)@.change_owner(caller, new_owner),
            final(self)@.bounded(),
    {
        proof {
            use_type_invariant(&*self);
        }
        match require_owner(&caller, &self.owner) {
            Ok(()) => {
                proof {
                    let after = self@.change_owner(caller, new_owner);
                    assert forall|account: AccountId| #[trigger]
                        after.history(account).len() <= READING_LEN by {
                        assert(after.history(account) == self@.history(account));
                    }
                }
                self.owner = new_owner;
                Ok(())
            },
            Err(_) => Err(Error::InsufficientFee),
        }
    }

    /// Answers a request to pay the service's balance out: the whole of
    /// `balance` goes to the owner. Anybody may ask, and the state does not
    /// change.
    pub fn withdraw(&mut self, balance: Balance) -> (transfer: Transfer)
        ensures
            transfer.to == old(self)@.owner,
            transfer.amount == balance,
            final(self)@ == old(self)@,
            final(self)@.bounded(),
    {
        proof {
            use_type_invariant(&*self);
        }
        Transfer { to: self.owner, amount: balance }
    }
}

} // verus!
