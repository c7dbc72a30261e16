//! What the player has unlocked.

use crate::defs::StructureKind;
use std::collections::BTreeSet;
use vstd::prelude::*;

verus! {

/// The player's state: the codes of the kinds of structure that may be
/// built.
#[derive(Clone, Debug)]
pub struct Player {
    pub buildable_structures: BTreeSet<u32>,
}

impl View for Player {
    type V = Set<StructureKind>;

    /// The kinds of structure that the player may build.
    open spec fn view(&self) -> Set<StructureKind> {
        Set::new(|k: StructureKind| self.buildable_structures@.contains(k.spec_code()))
    }
}

impl Player {
    /// Whether the player may build structures of `kind`.
    pub fn can_build(&self, kind: StructureKind) -> (b: bool)
        ensures
            b == self@.contains(kind),
    {
        let code: u32 = kind.code();
        self.buildable_structures.contains(&code)
    }

    /// Lets the player build structures of `kind` from now on. Nothing that
    /// could be built before is lost.
    pub fn unlock(&mut self, kind: StructureKind)
        ensures
            final(self)@ == old(self)@.insert(kind),
            final(self).buildable_structures@ == old(self).buildable_structures@.insert(
                kind.spec_code(),
            ),
    {
        self.buildable_structures.insert(kind.code());
        assert(self@ =~= old(self)@.insert(kind));
    }

    /// The kinds that the player may build, by rising code.
    pub fn buildable(&self) -> (v: Vec<StructureKind>)
        ensures
            v@ == StructureKind::spec_all().filter(|k: StructureKind| self@.contains(k)),
    {
        let kinds = StructureKind::all();
        let mut v: Vec<StructureKind> = Vec::new();
        let ghost wanted = |k: StructureKind| self@.contains(k);
        let mut i: usize = 0;
        while i < kinds.len()
            invariant
                i <= kinds.len(),
                kinds@ == StructureKind::spec_all(),
                wanted == |k: StructureKind| self@.contains(k),
                v@ == kinds@.take(i as int).filter(wanted),
            decreases kinds.len() - i,
        {
            let kind = kinds[i];
            proof {
                assert(kinds@.take(i + 1).drop_last() =~= kinds@.take(i as int));
                reveal(Seq::filter);
            }
            if self.can_build(kind) {
                v.push(kind);
            }
            i = i + 1;
        }
        assert(kinds@.take(i as int) =~= kinds@);
        v
    }
}

impl Default for Player {
    /// A player who may build nothing yet.
    fn default() -> (p: Player)
        ensures
            p@ == Set::<StructureKind>::empty(),
            p.buildable_structures@ == Set::<u32>::empty(),
    {
        let p = Player { buildable_structures: BTreeSet::new() };
        assert(p@ =~= Set::<StructureKind>::empty());
        p
    }
}

} // verus!
