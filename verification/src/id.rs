//! Unique identifiers from a counter that its owner holds.
//!
//! A generator hands out the identifiers 1, 2, 3 and so on. It belongs to
//! one owner and is passed to whoever needs an identifier; there is no
//! ambient counter. When the counter is exhausted the generator refuses
//! rather than wraps, so no identifier is ever handed out twice.

use vstd::prelude::*;

verus! {

/// An identifier. Identifiers from one generator are all different and
/// increase in the order in which they were made.
#[derive(Debug, Clone, Copy, Hash, PartialEq, Eq, Structural)]
pub struct Id(u128);

/// The source of identifiers: a counter of how many it has handed out.
#[derive(Debug)]
pub struct IdGenerator {
    issued: u128,
}

impl View for IdGenerator {
    type V = nat;

    /// How many identifiers the generator has handed out, which is also the
    /// number of the last one.
    closed spec fn view(&self) -> nat {
        self.issued as nat
    }
}

/// What asking a generator that has handed out `issued` identifiers comes
/// to: the count afterwards, and the number of the new identifier if there
/// is one left.
pub open spec fn next_id(issued: nat) -> (nat, Option<u128>) {
    if issued < u128::MAX {
        (issued + 1, Some((issued + 1) as u128))
    } else {
        (issued, None)
    }
}

impl IdGenerator {
    /// A generator that has handed out nothing yet.
    pub fn new() -> (source: IdGenerator)
        ensures
            source@ == 0,
    {
        IdGenerator { issued: 0 }
    }

    /// How many identifiers were handed out.
    pub fn issued(&self) -> (count: u128)
        ensures
            count == self@,
    {
        self.issued
    }
}

impl Id {
    /// The number of the identifier.
    pub closed spec fn spec_value(&self) -> u128 {
        self.0
    }

    /// The next identifier of the generator.
    ///
    /// Its number is one more than the number of identifiers handed out
    /// before, so the first is 1. Gives `None`, and leaves the generator as
    /// it is, once every number has been handed out.
    pub fn new(source: &mut IdGenerator) -> (id: Option<Id>)
        ensures
            final(source)@ == next_id(old(source)@).0,
            id is Some <==> next_id(old(source)@).1 is Some,
            id is Some ==> id.unwrap().spec_value() == next_id(old(source)@).1.unwrap(),
    {
        if source.issued < u128::MAX {
            source.issued = source.issued + 1;
            Some(Id(source.issued))
        } else {
            None
        }
    }

    /// The number of the identifier.
    pub fn value(&self) -> (value: u128)
        ensures
            value == self.spec_value(),
    {
        self.0
    }
}

/// Every identifier is above zero, and of two identifiers that a generator
/// hands out one after the other the second is exactly one above the first.
/// Once a generator has refused, it refuses for good.
pub proof fn lemma_ids_increase(issued: nat)
    requires
        issued <= u128::MAX,
    ensures
        next_id(issued).1 is Some ==> next_id(issued).1.unwrap() > 0 && next_id(issued).1.unwrap()
            == issued + 1,
        next_id(issued).1 is Some && next_id(next_id(issued).0).1 is Some ==> next_id(
            next_id(issued).0,
        ).1.unwrap() == next_id(issued).1.unwrap() + 1,
        next_id(issued).1 is None ==> next_id(issued).0 == issued && next_id(next_id(issued).0).1
            is None,
        next_id(issued).0 <= u128::MAX,
{
}

/// Two identifiers that a generator hands out at different counts differ:
/// the later one is the greater.
pub proof fn lemma_ids_unique(earlier: nat, later: nat)
    requires
        earlier < later <= u128::MAX,
        next_id(later).1 is Some,
    ensures
        next_id(earlier).1 is Some,
        next_id(earlier).1.unwrap() < next_id(later).1.unwrap(),
{
}

} // verus!
