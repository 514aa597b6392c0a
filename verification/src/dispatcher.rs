//! The command dispatcher: the mapping from top-level command name to its
//! grammar arena. Registration happens once at setup; lookups are read-only
//! and enumeration keeps registration order, so suggestion packets are
//! reproducible.

use vstd::prelude::*;

use crate::tree::CommandTree;

verus! {

/// Why a dispatcher operation failed.
#[derive(Clone, Copy, Debug, PartialEq, Eq, Structural)]
pub enum CommandError {
    /// No command was registered under the requested name.
    NotFound,
    /// A command is already registered under that name.
    DuplicateName,
}

/// The mapping from command name to arena, in registration order.
pub struct CommandDispatcher {
    pub commands: Vec<(String, CommandTree)>,
}

/// The first arena registered under `name`, if any.
pub open spec fn spec_lookup(
    commands: Seq<(String, CommandTree)>,
    name: Seq<char>,
) -> Option<CommandTree>
    decreases commands.len(),
{
    if commands.len() == 0 {
        None
    } else if commands[0].0@ == name {
        Some(commands[0].1)
    } else {
        spec_lookup(commands.drop_first(), name)
    }
}

/// Views of a list of names.
pub open spec fn name_views(v: Seq<String>) -> Seq<Seq<char>> {
    v.map_values(|s: String| s@)
}

/// What a lookup result means in terms of the stored entries: a miss means
/// no entry carries the name, a hit returns the entry of the first (and,
/// under `CommandDispatcher::wf`, only) index that carries it.
pub proof fn lemma_lookup_props(commands: Seq<(String, CommandTree)>, name: Seq<char>)
    ensures
        spec_lookup(commands, name) is None <==> (forall|i: int|
            0 <= i < commands.len() ==> (#[trigger] commands[i]).0@ != name),
        spec_lookup(commands, name) is Some ==> exists|i: int|
            0 <= i < commands.len() && (#[trigger] commands[i]).0@ == name && spec_lookup(
                commands,
                name,
            ) == Some(commands[i].1),
    decreases commands.len(),
{
    if commands.len() > 0 {
        let rest = commands.drop_first();
        lemma_lookup_props(rest, name);
        if commands[0].0@ == name {
            assert(commands[0].0@ == name);
        } else {
            if spec_lookup(rest, name) is None {
                assert forall|i: int| 0 <= i < commands.len() implies (#[trigger] commands[i]).0@
                    != name by {
                    if i > 0 {
                        assert(commands[i] == rest[i - 1]);
                    }
                }
            } else {
                let i = choose|i: int|
                    0 <= i < rest.len() && (#[trigger] rest[i]).0@ == name && spec_lookup(
                        rest,
                        name,
                    ) == Some(rest[i].1);
                assert(commands[i + 1] == rest[i]);
                assert(commands[i + 1].0@ == name);
            }
            if forall|i: int| 0 <= i < commands.len() ==> (#[trigger] commands[i]).0@ != name {
                assert forall|i: int| 0 <= i < rest.len() implies (#[trigger] rest[i]).0@
                    != name by {
                    assert(rest[i] == commands[i + 1]);
                }
            }
        }
    }
}

impl CommandDispatcher {
    /// Every stored arena is well formed and no name occurs twice.
    pub open spec fn wf(self) -> bool {
        &&& forall|i: int|
            0 <= i < self.commands@.len() ==> (#[trigger] self.commands@[i]).1.wf()
        &&& forall|i: int, j: int|
            0 <= i < j < self.commands@.len() ==> self.commands@[i].0@ != self.commands@[j].0@
    }

    /// The registered names, in registration order.
    pub open spec fn spec_names(self) -> Seq<Seq<char>> {
        self.commands@.map_values(|c: (String, CommandTree)| c.0@)
    }

    pub fn new() -> (r: CommandDispatcher)
        ensures
            r.wf(),
            r.commands@.len() == 0,
    {
        CommandDispatcher { commands: Vec::new() }
    }

    /// Register one command's arena under a name. Names are unique; a second
    /// registration under the same name is refused and changes nothing.
    pub fn register(&mut self, name: String, tree: CommandTree) -> (r: Result<(), CommandError>)
        requires
            old(self).wf(),
            tree.wf(),
        ensures
            final(self).wf(),
            match r {
                Ok(()) => {
                    &&& spec_lookup(old(self).commands@, name@) is None
                    &&& final(self).commands@ == old(self).commands@.push((name, tree))
                },
                Err(e) => {
                    &&& e == CommandError::DuplicateName
                    &&& spec_lookup(old(self).commands@, name@) is Some
                    &&& final(self).commands@ == old(self).commands@
                },
            },
    {
        match self.get_tree(&name) {
            Ok(_) => {
                proof {
                    lemma_lookup_props(self.commands@, name@);
                }
                Err(CommandError::DuplicateName)
            },
            Err(_) => {
                proof {
                    lemma_lookup_props(self.commands@, name@);
                }
                self.commands.push((name, tree));
                Ok(())
            },
        }
    }

    /// Resolve a command name to its arena; fails exactly when no command
    /// was registered under that name.
    pub fn get_tree<'a>(&'a self, key: &String) -> (r: Result<&'a CommandTree, CommandError>)
        ensures
            match r {
                Ok(t) => spec_lookup(self.commands@, key@) == Some(*t),
                Err(e) => {
                    &&& e == CommandError::NotFound
                    &&& spec_lookup(self.commands@, key@) is None
                },
            },
    {
        let n = self.commands.len();
        proof {
            assert(self.commands@.skip(0) =~= self.commands@);
        }
        for idx in 0..n
            invariant
                n == self.commands@.len(),
                spec_lookup(self.commands@, key@) == spec_lookup(
                    self.commands@.skip(idx as int),
                    key@,
                ),
        {
            let ghost suffix = self.commands@.skip(idx as int);
            proof {
                assert(suffix[0] == self.commands@[idx as int]);
                assert(suffix.drop_first() =~= self.commands@.skip(idx as int + 1));
            }
            if self.commands[idx].0 == *key {
                return Ok(&self.commands[idx].1);
            }
        }
        proof {
            assert(self.commands@.skip(n as int) =~= Seq::<(String, CommandTree)>::empty());
        }
        Err(CommandError::NotFound)
    }

    /// The registered names, cloned, in registration order.
    pub fn names(&self) -> (r: Vec<String>)
        ensures
            name_views(r@) == self.spec_names(),
    {
        let mut r: Vec<String> = Vec::new();
        let n = self.commands.len();
        for idx in 0..n
            invariant
                n == self.commands@.len(),
                r@.len() == idx,
                forall|i: int| 0 <= i < idx ==> (#[trigger] r@[i])@ == self.commands@[i].0@,
        {
            r.push(self.commands[idx].0.clone());
        }
        proof {
            assert forall|i: int| 0 <= i < n implies name_views(r@)[i] == self.spec_names()[i] by {
                assert(name_views(r@)[i] == r@[i]@);
                assert(self.spec_names()[i] == self.commands@[i].0@);
            }
            assert(name_views(r@) =~= self.spec_names());
        }
        r
    }
}

} // verus!
