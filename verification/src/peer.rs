//! The identity of a minion on the network.

use vstd::prelude::*;

verus! {

/// The identity under which a minion is known: the bytes of its peer id.
/// Two minions are the same when their bytes are.
#[derive(Debug)]
pub struct MinionId {
    pub bytes: Vec<u8>,
}

impl View for MinionId {
    type V = Seq<u8>;

    open spec fn view(&self) -> Seq<u8> {
        self.bytes@
    }
}

impl MinionId {
    /// The identity with the given bytes.
    pub fn new(bytes: Vec<u8>) -> (id: MinionId)
        ensures
            id@ == bytes@,
    {
        MinionId { bytes }
    }

    /// Whether `self` and `other` name the same minion.
    pub fn is_same(&self, other: &MinionId) -> (same: bool)
        ensures
            same == (self@ == other@),
    {
        if self.bytes.len() != other.bytes.len() {
            return false;
        }
        let mut at: usize = 0;
        while at < self.bytes.len()
            invariant
                at <= self.bytes.len(),
                self.bytes.len() == other.bytes.len(),
                forall|k: int| 0 <= k < at ==> self.bytes[k] == other.bytes[k],
            decreases self.bytes.len() - at,
        {
            if self.bytes[at] != other.bytes[at] {
                return false;
            }
            at = at + 1;
        }
        assert(self@ =~= other@);
        true
    }

    /// A second value for the same identity.
    pub fn duplicate(&self) -> (copy: MinionId)
        ensures
            copy@ == self@,
    {
        let mut bytes: Vec<u8> = Vec::new();
        let mut at: usize = 0;
        while at < self.bytes.len()
            invariant
                at <= self.bytes.len(),
                bytes@ == self.bytes@.subrange(0, at as int),
            decreases self.bytes.len() - at,
        {
            bytes.push(self.bytes[at]);
            at = at + 1;
        }
        assert(bytes@ =~= self.bytes@);
        MinionId { bytes }
    }
}

} // verus!
