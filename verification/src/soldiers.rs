//! Soldier classes.

use vstd::prelude::*;

verus! {

/// The classes of soldier.
#[derive(Clone, Copy, Debug, PartialEq, Eq, Structural)]
pub enum SoldierName {
    Warrior,
}

impl Default for SoldierName {
    fn default() -> (name: SoldierName)
        ensures
            name == SoldierName::Warrior,
    {
        SoldierName::Warrior
    }
}

impl SoldierName {
    /// Every class, in declaration order.
    pub fn all() -> (names: Vec<SoldierName>)
        ensures
            names@ == seq![SoldierName::Warrior],
    {
        let mut names: Vec<SoldierName> = Vec::new();
        names.push(SoldierName::Warrior);
        assert(names@ =~= seq![SoldierName::Warrior]);
        names
    }

    /// The letter of the key that queues a soldier of this class.
    pub open spec fn spec_key(&self) -> char {
        match self {
            SoldierName::Warrior => 'Z',
        }
    }

    /// The letter of the key that queues a soldier of this class.
    #[verifier::when_used_as_spec(spec_key)]
    pub fn key(&self) -> (letter: char)
        ensures
            letter == self.spec_key(),
    {
        match self {
            SoldierName::Warrior => 'Z',
        }
    }
}

/// A soldier.
#[derive(Clone, Copy, Debug, PartialEq, Eq, Structural)]
pub struct Soldier {
    pub name: SoldierName,
}

} // verus!
