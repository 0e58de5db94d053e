//! Packs, the dependencies that they declare, and the references between them.

use crate::paths::{first_index, lemma_first_index, Declared};
use crate::text::has_text;
use vstd::prelude::*;

verus! {

/// A pack, known by its name.
#[derive(Clone, Debug)]
pub struct Pack {
    pub name: String,
    /// The names of the packs that it declares as dependencies.
    pub dependencies: Vec<String>,
    /// The names of the packs to which its undeclared references are let pass.
    pub ignored_dependencies: Vec<String>,
}

/// The packs of a project. Where two have the same name, the name stands for the first.
#[derive(Clone, Debug)]
pub struct Configuration {
    pub packs: Vec<Pack>,
}

/// Where a constant is mentioned in its file.
#[derive(Clone, Copy, Debug, PartialEq, Eq, Structural)]
pub struct SourceLocation {
    pub line: usize,
    pub column: usize,
}

/// One mention of a constant.
#[derive(Clone, Debug)]
pub struct Reference {
    pub constant_name: String,
    pub referencing_pack_name: String,
    pub relative_referencing_file: String,
    pub source_location: SourceLocation,
    /// The pack that defines the constant, where one does.
    pub defining_pack_name: Option<String>,
    /// The file that defines the constant, where it is known.
    pub relative_defining_file: Option<String>,
}

/// The names of the packs.
pub open spec fn pack_names(packs: Seq<Pack>) -> Seq<Seq<char>> {
    packs.map_values(|pack: Pack| pack.name@)
}

/// The index of the first pack of the given name.
pub open spec fn position(packs: Seq<Pack>, name: Seq<char>) -> Option<int> {
    first_index(pack_names(packs), name)
}

/// What the packs declare: each name with the dependencies of the pack that it stands for.
pub open spec fn declared(packs: Seq<Pack>) -> Declared {
    Map::new(
        |name: Seq<char>| position(packs, name) is Some,
        |name: Seq<char>|
            Set::new(
                |dependency: Seq<char>|
                    has_text(packs[position(packs, name)->0].dependencies@, dependency),
            ),
    )
}

/// Whether every declared dependency is itself a known pack.
pub open spec fn all_known(packs: Seq<Pack>) -> bool {
    forall|i: int, name: Seq<char>|
        0 <= i < packs.len() && #[trigger] has_text(packs[i].dependencies@, name) ==> position(
            packs,
            name,
        ) is Some
}

/// How many dependencies the packs declare together.
pub open spec fn dependency_total(packs: Seq<Pack>) -> nat
    decreases packs.len(),
{
    if packs.len() == 0 {
        0
    } else {
        dependency_total(packs.drop_last()) + packs.last().dependencies@.len()
    }
}

/// Whether a graph of the packs and their dependencies stays within the `u32` indices that it
/// numbers its nodes and its edges by.
pub open spec fn fits(packs: Seq<Pack>) -> bool {
    &&& packs.len() <= u32::MAX
    &&& dependency_total(packs) <= u32::MAX
}

/// The position of a name is that of the first pack that bears it.
pub proof fn lemma_position(packs: Seq<Pack>, name: Seq<char>)
    ensures
        match position(packs, name) {
            Some(i) => 0 <= i < packs.len() && packs[i].name@ == name && forall|j: int|
                0 <= j < i ==> (#[trigger] packs[j]).name@ != name,
            None => forall|j: int|
                0 <= j < packs.len() ==> (#[trigger] packs[j]).name@ != name,
        },
{
    lemma_first_index(pack_names(packs), name);
    assert(forall|j: int|
        0 <= j < packs.len() ==> (#[trigger] packs[j]).name@ == pack_names(packs)[j]);
}

/// The dependencies of the first packs are no more than those of all.
pub(crate) proof fn lemma_dependency_total_of_prefix(packs: Seq<Pack>, count: int)
    requires
        0 <= count <= packs.len(),
    ensures
        dependency_total(packs.take(count)) <= dependency_total(packs),
    decreases packs.len(),
{
    if count < packs.len() {
        lemma_dependency_total_of_prefix(packs.drop_last(), count);
        assert(packs.drop_last().take(count) =~= packs.take(count));
    } else {
        assert(packs.take(count) =~= packs);
    }
}

impl Configuration {
    /// The pack that `name` stands for.
    pub fn for_pack(&self, name: &String) -> (found: Option<&Pack>)
        ensures
            match position(self.packs@, name@) {
                Some(i) => found == Some(&self.packs@[i]),
                None => found is None,
            },
    {
        proof {
            lemma_position(self.packs@, name@);
        }
        for i in 0..self.packs.len()
            invariant
                forall|j: int| 0 <= j < i ==> (#[trigger] self.packs@[j]).name@ != name@,
                match position(self.packs@, name@) {
                    Some(k) => 0 <= k < self.packs@.len() && self.packs@[k].name@ == name@
                        && forall|j: int|
                        0 <= j < k ==> (#[trigger] self.packs@[j]).name@ != name@,
                    None => forall|j: int|
                        0 <= j < self.packs@.len() ==> (#[trigger] self.packs@[j]).name@ != name@,
                },
        {
            if self.packs[i].name == *name {
                return Some(&self.packs[i]);
            }
        }
        None
    }

    /// Whether a graph of the packs stays within its indices.
    pub fn fits_graph(&self) -> (fit: bool)
        ensures
            fit == fits(self.packs@),
    {
        let limit: u64 = 0xffff_ffff;
        if self.packs.len() as u64 > limit {
            return false;
        }
        let mut total: u64 = 0;
        for i in 0..self.packs.len()
            invariant
                limit == u32::MAX,
                total <= limit,
                total == dependency_total(self.packs@.take(i as int)),
        {
            let more = self.packs[i].dependencies.len() as u64;
            proof {
                assert(self.packs@.take(i + 1).drop_last() =~= self.packs@.take(i as int));
                lemma_dependency_total_of_prefix(self.packs@, i + 1);
            }
            if more > limit - total {
                return false;
            }
            total += more;
        }
        proof {
            assert(self.packs@.take(self.packs@.len() as int) =~= self.packs@);
        }
        true
    }
}

} // verus!
