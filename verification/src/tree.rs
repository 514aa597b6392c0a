//! The command grammar data model: an immutable arena of nodes with
//! index-based child lists, permission gates, and requester identities.

use vstd::prelude::*;

verus! {

/// A permission gate: a pure predicate over a requester identity.
///
/// The set of gate kinds is closed, so a gate can live inside a data
/// structure that is shared read-only across many connection tasks.
#[derive(Clone, Copy, Debug)]
pub enum Predicate {
    /// Every requester passes.
    AlwaysAllow,
    /// No requester passes.
    AlwaysDeny,
    /// A player passes when its permission level is at least `min_level`;
    /// the console always passes.
    RequireLevel { min_level: u8 },
}

/// The identity a suggestion tree is compiled for. Gates are evaluated
/// against it; the compiler never mutates it.
#[derive(Clone, Copy, Debug)]
pub enum CommandSender {
    /// The server console: unconditionally maximal permission.
    Console,
    /// A connected player with its derived permission level.
    Player { permission_level: u8 },
}

/// What a gate decides for a given requester.
pub open spec fn spec_allows(p: Predicate, sender: CommandSender) -> bool {
    match p {
        Predicate::AlwaysAllow => true,
        Predicate::AlwaysDeny => false,
        Predicate::RequireLevel { min_level } => match sender {
            CommandSender::Console => true,
            CommandSender::Player { permission_level } => permission_level >= min_level,
        },
    }
}

impl Predicate {
    /// Evaluate this gate against a requester identity.
    pub fn evaluate(&self, sender: &CommandSender) -> (r: bool)
        ensures
            r == spec_allows(*self, *sender),
    {
        match self {
            Predicate::AlwaysAllow => true,
            Predicate::AlwaysDeny => false,
            Predicate::RequireLevel { min_level } => match sender {
                CommandSender::Console => true,
                CommandSender::Player { permission_level } => permission_level >= min_level,
            },
        }
    }
}

/// The collaborator interface of an argument-value consumer, reduced to the
/// two facts the wire structure needs from it: the client-side parser
/// identity and an optional suggestion-type override.
#[derive(Clone, Copy, Debug)]
pub struct ArgumentConsumer {
    pub parser_id: u32,
    pub override_suggestion_type: Option<u32>,
}

/// One grammar unit.
#[derive(Debug)]
pub enum NodeType {
    /// A fixed matching token.
    Literal { string: String },
    /// A named, typed argument backed by a value consumer.
    Argument { name: String, consumer: ArgumentConsumer },
    /// Marks the enclosing child list as a complete, invocable command.
    ExecuteLeaf,
    /// A transparent permission gate over its subtree.
    Require { predicate: Predicate },
}

/// One node of an arena: its variant plus the indices of its children
/// within the same arena.
#[derive(Debug)]
pub struct Node {
    pub node_type: NodeType,
    pub children: Vec<usize>,
}

/// A child list is well formed when every index is strictly below `bound`.
pub open spec fn wf_child_list(children: Seq<usize>, bound: int) -> bool {
    forall|k: int| 0 <= k < children.len() ==> (#[trigger] children[k]) < bound
}

impl Node {
    /// A node stored at position `idx` may only reference children that
    /// come before it in the arena, which makes the structure acyclic;
    /// an `ExecuteLeaf` carries no children of its own.
    pub open spec fn wf(self, idx: int) -> bool {
        &&& wf_child_list(self.children@, idx)
        &&& (self.node_type is ExecuteLeaf ==> self.children@.len() == 0)
    }
}

pub open spec fn wf_nodes(nodes: Seq<Node>) -> bool {
    forall|i: int| 0 <= i < nodes.len() ==> (#[trigger] nodes[i]).wf(i)
}

/// One command's grammar: a flat node array plus the child indices of the
/// conceptual root (the command's top-level literal). Built once at
/// registration and read-only thereafter.
#[derive(Debug)]
pub struct CommandTree {
    pub nodes: Vec<Node>,
    pub children: Vec<usize>,
}

impl CommandTree {
    /// The arena invariant: every child index is a valid position of an
    /// earlier node, so the structure is a forest of trees with no cycles.
    pub open spec fn wf(self) -> bool {
        &&& wf_nodes(self.nodes@)
        &&& wf_child_list(self.children@, self.nodes@.len() as int)
    }
}

} // verus!
