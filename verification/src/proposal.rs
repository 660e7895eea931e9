//! Proposals: what a member asks the group to do.
use crate::key_package::KeyPackage;
use vstd::prelude::*;

verus! {

/// The kinds of proposal.
#[derive(Debug, Clone, Copy, PartialEq, Eq, Structural)]
pub enum ProposalType {
    Invalid,
    Add,
    Update,
    Remove,
}

impl ProposalType {
    /// The kind as a byte.
    pub open spec fn spec_byte(self) -> u8 {
        match self {
            ProposalType::Invalid => 0,
            ProposalType::Add => 1,
            ProposalType::Update => 2,
            ProposalType::Remove => 3,
        }
    }

    /// The kind as a byte.
    pub fn byte(&self) -> (b: u8)
        ensures
            b == self.spec_byte(),
    {
        match self {
            ProposalType::Invalid => 0,
            ProposalType::Add => 1,
            ProposalType::Update => 2,
            ProposalType::Remove => 3,
        }
    }
}

/// What the messages of all kinds of proposal have in common.
pub trait ProposalTrait {

}

/// The proposal to add the member of a key package.
pub struct Add {
    pub key_package: KeyPackage,
}

impl ProposalTrait for Add {

}

/// The proposal to put a new key package in the place of the sender's.
pub struct Update {
    pub key_package: KeyPackage,
}

impl ProposalTrait for Update {

}

/// The proposal to remove the member at a leaf.
pub struct Remove {
    pub removed: u32,
}

impl ProposalTrait for Remove {

}

/// The message of a proposal, of one of the kinds.
pub enum ProposalMessage {
    Add(Add),
    Update(Update),
    Remove(Remove),
}

impl ProposalMessage {
    /// The kind of the message.
    pub open spec fn spec_type(&self) -> ProposalType {
        match self {
            ProposalMessage::Add(_) => ProposalType::Add,
            ProposalMessage::Update(_) => ProposalType::Update,
            ProposalMessage::Remove(_) => ProposalType::Remove,
        }
    }
}

/// A proposal: a message under its kind.
pub struct Proposal {
    pub proposal_type: ProposalType,
    pub msg: ProposalMessage,
}

impl Proposal {
    /// Whether the proposal is filed under the kind of its message.
    pub open spec fn wf(&self) -> bool {
        self.proposal_type == self.msg.spec_type()
    }

    /// The proposal to add the member of `key_package`.
    pub fn add(key_package: KeyPackage) -> (p: Self)
        ensures
            p.wf(),
            p.proposal_type == ProposalType::Add,
            p.msg matches ProposalMessage::Add(a) && a.key_package@ == key_package@,
    {
        Proposal { proposal_type: ProposalType::Add, msg: ProposalMessage::Add(Add { key_package }) }
    }

    /// The proposal to put `key_package` in the place of the sender's.
    pub fn update(key_package: KeyPackage) -> (p: Self)
        ensures
            p.wf(),
            p.proposal_type == ProposalType::Update,
            p.msg matches ProposalMessage::Update(u) && u.key_package@ == key_package@,
    {
        Proposal {
            proposal_type: ProposalType::Update,
            msg: ProposalMessage::Update(Update { key_package }),
        }
    }

    /// The proposal to remove the member at the leaf `removed`.
    pub fn remove(removed: u32) -> (p: Self)
        ensures
            p.wf(),
            p.proposal_type == ProposalType::Remove,
            p.msg matches ProposalMessage::Remove(r) && r.removed == removed,
    {
        Proposal {
            proposal_type: ProposalType::Remove,
            msg: ProposalMessage::Remove(Remove { removed }),
        }
    }
}

} // verus!
