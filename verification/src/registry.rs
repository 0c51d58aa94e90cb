//! The registry of named stage3 trees: add, look up, remove, list.
use vstd::prelude::*;
use crate::text::{owned, string_eq, text_eq};

verus! {

/// Information about a registered stage3.
#[derive(Debug, Clone)]
pub struct Stage3Info {
    /// Name of the stage3 (e.g. `riscv64-k1`).
    pub name: String,
    /// Path to the stage3 root directory.
    pub path: String,
    /// Target architecture.
    pub target: String,
    /// Version or timestamp of the stage3.
    pub version: String,
    /// Status (ready, updating, ...).
    pub status: String,
    /// Last update timestamp.
    pub last_updated: String,
}

/// Why a registry operation failed.
#[derive(Debug)]
pub enum RegistryError {
    NotFound(String),
    ParseError(String),
    Stage3NotFound(String),
    Stage3Exists(String),
}

/// The registered stage3s, in the order they were added; no name occurs
/// twice.
#[derive(Debug)]
pub struct Stage3Registry {
    stage3s: Vec<Stage3Info>,
}

/// Index of the first entry of `s` named `name`, or -1.
pub open spec fn index_named(s: Seq<Stage3Info>, name: Seq<char>) -> int
    decreases s.len(),
{
    if s.len() == 0 {
        -1
    } else if s[0].name@ == name {
        0
    } else {
        let r = index_named(s.drop_first(), name);
        if r < 0 {
            -1
        } else {
            r + 1
        }
    }
}

pub proof fn lemma_index_named(s: Seq<Stage3Info>, name: Seq<char>)
    ensures
        -1 <= index_named(s, name) < s.len(),
        index_named(s, name) >= 0 ==> s[index_named(s, name)].name@ == name,
        forall|k: int|
            0 <= k < s.len() && (index_named(s, name) < 0 || k < index_named(s, name)) ==> s[k].name@
                != name,
    decreases s.len(),
{
    if s.len() > 0 && s[0].name@ != name {
        lemma_index_named(s.drop_first(), name);
        assert forall|k: int|
            0 <= k < s.len() && (index_named(s, name) < 0 || k < index_named(s, name)) implies s[k].name@
            != name by {
            if k > 0 {
                assert(s[k] == s.drop_first()[k - 1]);
            }
        }
    }
}

pub proof fn lemma_index_named_absent(s: Seq<Stage3Info>, name: Seq<char>)
    requires
        forall|k: int| 0 <= k < s.len() ==> s[k].name@ != name,
    ensures
        index_named(s, name) == -1,
    decreases s.len(),
{
    if s.len() > 0 {
        lemma_index_named_absent(s.drop_first(), name);
    }
}

pub proof fn lemma_index_named_append(s: Seq<Stage3Info>, x: Stage3Info, name: Seq<char>)
    ensures
        index_named(s.push(x), name) == if index_named(s, name) >= 0 {
            index_named(s, name)
        } else if x.name@ == name {
            s.len() as int
        } else {
            -1
        },
    decreases s.len(),
{
    if s.len() == 0 {
        assert(s.push(x).drop_first() =~= Seq::<Stage3Info>::empty());
        assert(index_named(Seq::<Stage3Info>::empty(), name) == -1);
        assert(s.push(x)[0] == x);
    } else {
        assert(s.push(x).drop_first() =~= s.drop_first().push(x));
        assert(s.push(x)[0] == s[0]);
        lemma_index_named_append(s.drop_first(), x, name);
    }
}

/// No name occurs twice.
pub open spec fn names_unique(s: Seq<Stage3Info>) -> bool {
    forall|i: int, j: int| 0 <= i < j < s.len() ==> s[i].name@ != s[j].name@
}

impl Stage3Registry {
    pub closed spec fn entries(&self) -> Seq<Stage3Info> {
        self.stage3s@
    }

    pub closed spec fn wf(&self) -> bool {
        names_unique(self.stage3s@)
    }

    /// A new, empty registry.
    pub fn new() -> (r: Stage3Registry)
        ensures
            r.wf(),
            r.entries().len() == 0,
    {
        Stage3Registry { stage3s: Vec::new() }
    }

    fn find(&self, name: &str) -> (r: Option<usize>)
        ensures
            match r {
                Some(i) => i == index_named(self.entries(), name@) && i < self.entries().len(),
                None => index_named(self.entries(), name@) == -1,
            },
    {
        let mut i: usize = 0;
        while i < self.stage3s.len()
            invariant
                i <= self.stage3s@.len(),
                forall|k: int| 0 <= k < i ==> #[trigger] self.stage3s@[k].name@ != name@,
            decreases self.stage3s@.len() - i,
        {
            if text_eq(self.stage3s[i].name.as_str(), name) {
                proof {
                    lemma_index_named(self.entries(), name@);
                    let j = index_named(self.entries(), name@);
                    if j < 0 || j > i {
                    } else if j < i {
                        assert(self.stage3s@[j].name@ != name@);
                    }
                }
                return Some(i);
            }
            i = i + 1;
        }
        proof {
            lemma_index_named_absent(self.entries(), name@);
        }
        None
    }

    /// Add a stage3; refused when its name is taken.
    pub fn add_stage3(&mut self, stage3: Stage3Info) -> (r: Result<(), RegistryError>)
        requires
            old(self).wf(),
        ensures
            final(self).wf(),
            index_named(old(self).entries(), stage3.name@) == -1 ==> r is Ok
                && final(self).entries() == old(self).entries().push(stage3),
            index_named(old(self).entries(), stage3.name@) >= 0 ==> final(self).entries()
                == old(self).entries() && (r matches Err(RegistryError::Stage3Exists(n))
                && n@ == stage3.name@),
    {
        match self.find(stage3.name.as_str()) {
            Some(_) => Err(RegistryError::Stage3Exists(stage3.name)),
            None => {
                proof {
                    lemma_index_named(self.entries(), stage3.name@);
                }
                self.stage3s.push(stage3);
                Ok(())
            },
        }
    }

    /// Remove the stage3 named `name`, handing it back.
    pub fn remove_stage3(&mut self, name: &str) -> (r: Result<Stage3Info, RegistryError>)
        requires
            old(self).wf(),
        ensures
            final(self).wf(),
            ({
                let i = index_named(old(self).entries(), name@);
                if i >= 0 {
                    r == Ok::<Stage3Info, RegistryError>(old(self).entries()[i])
                        && final(self).entries() == old(self).entries().remove(i)
                } else {
                    final(self).entries() == old(self).entries() && (r matches Err(
                        RegistryError::Stage3NotFound(n),
                    ) && n@ == name@)
                }
            }),
    {
        match self.find(name) {
            Some(i) => {
                let removed = self.stage3s.remove(i);
                Ok(removed)
            },
            None => Err(RegistryError::Stage3NotFound(owned(name))),
        }
    }

    /// The stage3 named `name`.
    pub fn get_stage3(&self, name: &str) -> (r: Option<&Stage3Info>)
        ensures
            ({
                let i = index_named(self.entries(), name@);
                if i >= 0 {
                    r == Some(&self.entries()[i])
                } else {
                    r is None
                }
            }),
    {
        match self.find(name) {
            Some(i) => Some(&self.stage3s[i]),
            None => None,
        }
    }

    /// All registered stage3s, in the order they were added.
    pub fn list_stage3s(&self) -> (r: &[Stage3Info])
        ensures
            r@ == self.entries(),
    {
        self.stage3s.as_slice()
    }
}

/// A stage3 that was added can be looked up by its name at once.
pub proof fn law_added_stage3_is_found(before: Seq<Stage3Info>, x: Stage3Info)
    requires
        names_unique(before),
        index_named(before, x.name@) == -1,
    ensures
        index_named(before.push(x), x.name@) == before.len(),
        before.push(x)[before.len() as int] == x,
{
    lemma_index_named_append(before, x, x.name@);
}

/// Removing a stage3 right after adding it gives back what was added and
/// leaves the registry as it was.
pub proof fn law_remove_undoes_add(before: Seq<Stage3Info>, x: Stage3Info)
    requires
        names_unique(before),
        index_named(before, x.name@) == -1,
    ensures
        ({
            let after = before.push(x);
            let i = index_named(after, x.name@);
            i >= 0 && after[i] == x && after.remove(i) == before
        }),
{
    lemma_index_named_append(before, x, x.name@);
    assert(before.push(x).remove(before.len() as int) =~= before);
}

} // verus!
