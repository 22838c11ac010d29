//! The readings on file: for each account that has one, its draws in the
//! order in which they were made.

use vstd::prelude::*;
use crate::account::{same_account, AccountId};
use crate::history::{copy_history, Draw};

verus! {

/// The reading of one account.
struct Entry {
    account: AccountId,
    history: Vec<Draw>,
}

/// A map from accounts to readings. It holds what it is given and checks
/// nothing: what a reading may look like is for its users to decide.
pub struct Readings {
    entries: Vec<Entry>,
}

/// Whether slot `i` of `entries` belongs to `account`.
spec fn holds_at(entries: Seq<Entry>, account: AccountId, i: int) -> bool {
    0 <= i < entries.len() && entries[i].account == account
}

/// No account has two slots.
spec fn distinct(entries: Seq<Entry>) -> bool {
    forall|i: int, j: int|
        0 <= i < j < entries.len() ==> entries[i].account != entries[j].account
}

/// The map that `entries` stands for.
spec fn as_map(entries: Seq<Entry>) -> Map<AccountId, Seq<Draw>> {
    Map::new(
        |account: AccountId| exists|i: int| holds_at(entries, account, i),
        |account: AccountId| entries[choose|i: int| holds_at(entries, account, i)].history@,
    )
}

/// With no account in two slots, slot `i` is what the map holds for its
/// account.
proof fn lemma_slot_is_mapped(entries: Seq<Entry>, i: int)
    requires
        distinct(entries),
        0 <= i < entries.len(),
    ensures
        as_map(entries).contains_key(entries[i].account),
        as_map(entries)[entries[i].account] == entries[i].history@,
{
    let account = entries[i].account;
    assert(holds_at(entries, account, i));
    let j = choose|j: int| holds_at(entries, account, j);
    assert(j == i);
}

/// An account that owns none of the slots is not in the map.
proof fn lemma_missing_is_unmapped(entries: Seq<Entry>, account: AccountId)
    requires
        forall|i: int| 0 <= i < entries.len() ==> entries[i].account != account,
    ensures
        !as_map(entries).contains_key(account),
{
    assert forall|i: int| !holds_at(entries, account, i) by {}
}

/// Replacing the reading in slot `i` replaces it in the map.
proof fn lemma_update_is_insert(entries: Seq<Entry>, i: int, entry: Entry)
    requires
        distinct(entries),
        0 <= i < entries.len(),
        entry.account == entries[i].account,
    ensures
        distinct(entries.update(i, entry)),
        as_map(entries.update(i, entry)) == as_map(entries).insert(
            entry.account,
            entry.history@,
        ),
{
    let updated = entries.update(i, entry);
    let expected = as_map(entries).insert(entry.account, entry.history@);
    assert(distinct(updated));
    assert forall|account: AccountId|
        as_map(updated).contains_key(account) <==> expected.contains_key(account) by {
        if as_map(updated).contains_key(account) {
            let j = choose|j: int| holds_at(updated, account, j);
            if j != i {
                assert(holds_at(entries, account, j));
            }
        }
        if as_map(entries).contains_key(account) {
            let j = choose|j: int| holds_at(entries, account, j);
            assert(holds_at(updated, account, j));
        }
        if account == entry.account {
            assert(holds_at(updated, account, i));
        }
    }
    assert forall|account: AccountId| as_map(updated).contains_key(account) implies as_map(
        updated,
    )[account] == expected[account] by {
        let j = choose|j: int| holds_at(updated, account, j);
        lemma_slot_is_mapped(updated, j);
        if j != i {
            lemma_slot_is_mapped(entries, j);
        }
    }
    assert(as_map(updated) =~= expected);
}

/// Appending a slot for an account that had none adds it to the map.
proof fn lemma_push_is_insert(entries: Seq<Entry>, entry: Entry)
    requires
        distinct(entries),
        forall|i: int| 0 <= i < entries.len() ==> entries[i].account != entry.account,
    ensures
        distinct(entries.push(entry)),
        as_map(entries.push(entry)) == as_map(entries).insert(entry.account, entry.history@),
{
    let pushed = entries.push(entry);
    let last = entries.len() as int;
    let expected = as_map(entries).insert(entry.account, entry.history@);
    assert(distinct(pushed));
    assert forall|account: AccountId|
        as_map(pushed).contains_key(account) <==> expected.contains_key(account) by {
        if as_map(pushed).contains_key(account) {
            let j = choose|j: int| holds_at(pushed, account, j);
            if j != last {
                assert(holds_at(entries, account, j));
            }
        }
        if as_map(entries).contains_key(account) {
            let j = choose|j: int| holds_at(entries, account, j);
            assert(holds_at(pushed, account, j));
        }
        if account == entry.account {
            assert(holds_at(pushed, account, last));
        }
    }
    assert forall|account: AccountId| as_map(pushed).contains_key(account) implies as_map(
        pushed,
    )[account] == expected[account] by {
        let j = choose|j: int| holds_at(pushed, account, j);
        lemma_slot_is_mapped(pushed, j);
        if j != last {
            lemma_slot_is_mapped(entries, j);
        }
    }
    assert(as_map(pushed) =~= expected);
}

impl View for Readings {
    type V = Map<AccountId, Seq<Draw>>;

    closed spec fn view(&self) -> Map<AccountId, Seq<Draw>> {
        as_map(self.entries@)
    }
}

impl Readings {
    #[verifier::type_invariant]
    spec fn well_formed(self) -> bool {
        distinct(self.entries@)
    }

    /// A map that holds no reading.
    pub fn new() -> (readings: Readings)
        ensures
            readings@ == Map::<AccountId, Seq<Draw>>::empty(),
    {
        let readings = Readings { entries: Vec::new() };
        assert(readings@ =~= Map::<AccountId, Seq<Draw>>::empty());
        readings
    }

    /// The slot of `account`, if it has one.
    fn find(&self, account: &AccountId) -> (slot: Option<usize>)
        ensures
            slot matches Some(i) ==> holds_at(self.entries@, *account, i as int),
            slot is None ==> forall|i: int|
                0 <= i < self.entries@.len() ==> self.entries@[i].account != *account,
    {
        let mut i: usize = 0;
        while i < self.entries.len()
            invariant
                i <= self.entries@.len(),
                forall|j: int| 0 <= j < i ==> self.entries@[j].account != *account,
            decreases self.entries@.len() - i,
        {
            if same_account(&self.entries[i].account, account) {
                return Some(i);
            }
            i += 1;
        }
        None
    }

    /// The reading on file for `account`, or `None` where there is none.
    pub fn get(&self, account: &AccountId) -> (found: Option<Vec<Draw>>)
        ensures
            found is Some <==> self@.contains_key(*account),
            found matches Some(history) ==> history@ == self@[*account],
    {
        proof {
            use_type_invariant(&*self);
        }
        match self.find(account) {
            Some(i) => {
                proof {
                    lemma_slot_is_mapped(self.entries@, i as int);
                }
                Some(copy_history(&self.entries[i].history))
            },
            None => {
                proof {
                    lemma_missing_is_unmapped(self.entries@, *account);
                }
                None
            },
        }
    }

    /// Files `history` as the reading of `account`, in place of the one it
    /// had.
    pub fn insert(&mut self, account: AccountId, history: Vec<Draw>)
        ensures
            final(self)@ == old(self)@.insert(account, history@),
    {
        proof {
            use_type_invariant(&*self);
        }
        let slot = self.find(&account);
        let mut entries: Vec<Entry> = Vec::new();
        std::mem::swap(&mut entries, &mut self.entries);
        let ghost before = entries@;
        let entry = Entry { account, history };
        match slot {
            Some(i) => {
                proof {
                    lemma_update_is_insert(before, i as int, entry);
                }
                entries[i] = entry;
            },
            None => {
                proof {
                    lemma_push_is_insert(before, entry);
                }
                entries.push(entry);
            },
        }
        self.entries = entries;
    }
}

} // verus!
