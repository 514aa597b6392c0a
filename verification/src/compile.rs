//! The suggestion compiler: a pure transform from one command grammar arena
//! and one requester identity to the wire-ready node list the client is
//! permitted to see.
//!
//! Compilation has two phases, mirrored exactly by the specification
//! functions here: a depth-first walk of the arena that evaluates permission
//! gates and produces a pending builder tree, and a post-order
//! materialization of that tree into a flat, index-addressed array in which
//! every child precedes its parent.

use vstd::prelude::*;

use crate::proto::{
    buffer_closed, indices_view, proto_seq_view, ProtoNode, ProtoNodeType, SpecProtoNode,
    SpecProtoNodeType,
};
use crate::dispatcher::{name_views, spec_lookup, CommandDispatcher};
use crate::tree::{spec_allows, wf_child_list, wf_nodes, CommandSender, CommandTree, Node, NodeType};

verus! {

broadcast use vstd::std_specs::vec::group_vec_axioms;

/// A pending wire node: its variant plus the already-compiled pending
/// children, not yet assigned positions in the output array.
pub struct ProtoNodeBuilder {
    pub child_nodes: Vec<ProtoNodeBuilder>,
    pub node_type: ProtoNodeType,
}

/// Mathematical view of a pending wire node.
pub struct SpecBuilder {
    pub node_type: SpecProtoNodeType,
    pub child_nodes: Seq<SpecBuilder>,
}

/// Mathematical view of a pending wire node.
pub open spec fn builder_view(b: ProtoNodeBuilder) -> SpecBuilder
    decreases b,
{
    SpecBuilder {
        node_type: b.node_type@,
        child_nodes: Seq::new(
            b.child_nodes@.len(),
            // the guard gives the index bound the termination argument needs;
            // a `Seq` never exposes values outside it
            |i: int|
                if 0 <= i < b.child_nodes@.len() {
                    builder_view(b.child_nodes[i])
                } else {
                    arbitrary()
                },
        ),
    }
}

/// View of a list of pending nodes.
pub open spec fn builders_view(v: Seq<ProtoNodeBuilder>) -> Seq<SpecBuilder> {
    Seq::new(v.len(), |i: int| builder_view(v[i]))
}

/// The compiled form of one child list of the arena, walked against one
/// requester: whether the enclosing node is itself invocable, and the
/// pending wire nodes of the visible children.
///
/// A `Literal` or `Argument` child becomes one pending node over its own
/// compiled children. An `ExecuteLeaf` child becomes no node at all; it
/// marks the enclosing level invocable. A `Require` child whose gate admits
/// the requester is transparent: its compiled children are spliced directly
/// into this level and its invocability propagates up; one whose gate
/// refuses drops its entire subtree.
///
/// `ub` bounds the child indices; in a well-formed arena children precede
/// their parent, so the bound shrinks along every path, which is the
/// termination argument. An index at or above the bound cannot occur in a
/// well-formed arena and is ignored.
pub open spec fn spec_compile(
    nodes: Seq<Node>,
    sender: CommandSender,
    children: Seq<usize>,
    ub: int,
) -> (bool, Seq<SpecBuilder>)
    decreases ub, children.len(),
{
    if children.len() == 0 {
        (false, Seq::<SpecBuilder>::empty())
    } else {
        let rest = spec_compile(nodes, sender, children.drop_first(), ub);
        let c = children[0] as int;
        if 0 <= c < nodes.len() && c < ub {
            match nodes[c].node_type {
                NodeType::Literal { string } => {
                    let inner = spec_compile(nodes, sender, nodes[c].children@, c);
                    (
                        rest.0,
                        seq![
                            SpecBuilder {
                                node_type: SpecProtoNodeType::Literal {
                                    name: string@,
                                    is_executable: inner.0,
                                },
                                child_nodes: inner.1,
                            }
                        ] + rest.1,
                    )
                },
                NodeType::Argument { name, consumer } => {
                    let inner = spec_compile(nodes, sender, nodes[c].children@, c);
                    (
                        rest.0,
                        seq![
                            SpecBuilder {
                                node_type: SpecProtoNodeType::Argument {
                                    name: name@,
                                    is_executable: inner.0,
                                    parser_id: consumer.parser_id,
                                    override_suggestion_type: consumer.override_suggestion_type,
                                },
                                child_nodes: inner.1,
                            }
                        ] + rest.1,
                    )
                },
                NodeType::ExecuteLeaf => (true, rest.1),
                NodeType::Require { predicate } => {
                    if spec_allows(predicate, sender) {
                        let inner = spec_compile(nodes, sender, nodes[c].children@, c);
                        (inner.0 || rest.0, inner.1 + rest.1)
                    } else {
                        rest
                    }
                },
            }
        } else {
            rest
        }
    }
}

/// Materialization of a list of pending nodes into the flat output array:
/// each pending node's children are appended first, depth-first, then the
/// node itself, so every node's position is strictly above those of its
/// children. Returns the extended buffer and the positions assigned to the
/// pending nodes of the list, in order.
pub open spec fn spec_build_list(
    bs: Seq<SpecBuilder>,
    buf: Seq<SpecProtoNode>,
) -> (Seq<SpecProtoNode>, Seq<int>)
    decreases bs,
{
    if bs.len() == 0 {
        (buf, Seq::<int>::empty())
    } else {
        let r1 = spec_build_list(bs[0].child_nodes, buf);
        let own = r1.0.len() as int;
        let buf2 = r1.0.push(SpecProtoNode { children: r1.1, node_type: bs[0].node_type });
        let r2 = spec_build_list(bs.drop_first(), buf2);
        (r2.0, seq![own] + r2.1)
    }
}

/// Materialization of a single pending node: its subtree is appended to the
/// buffer and its own position, the last of the extended buffer, returned.
pub open spec fn spec_build_one(b: SpecBuilder, buf: Seq<SpecProtoNode>) -> (
    Seq<SpecProtoNode>,
    int,
) {
    let r = spec_build_list(b.child_nodes, buf);
    (r.0.push(SpecProtoNode { children: r.1, node_type: b.node_type }), r.0.len() as int)
}

proof fn lemma_builder_view_children(b: ProtoNodeBuilder)
    ensures
        builder_view(b).child_nodes == builders_view(b.child_nodes@),
{
    assert forall|j: int| 0 <= j < b.child_nodes@.len() implies builder_view(b).child_nodes[j]
        == builders_view(b.child_nodes@)[j] by {
        assert(builder_view(b).child_nodes[j] == builder_view(b.child_nodes[j]));
        assert(builders_view(b.child_nodes@)[j] == builder_view(b.child_nodes@[j]));
    }
    assert(builder_view(b).child_nodes =~= builders_view(b.child_nodes@));
}

proof fn lemma_builders_view_push(s: Seq<ProtoNodeBuilder>, x: ProtoNodeBuilder)
    ensures
        builders_view(s.push(x)) == builders_view(s).push(builder_view(x)),
{
    assert(builders_view(s.push(x)) =~= builders_view(s).push(builder_view(x)));
}

proof fn lemma_builders_view_concat(s: Seq<ProtoNodeBuilder>, t: Seq<ProtoNodeBuilder>)
    ensures
        builders_view(s + t) == builders_view(s) + builders_view(t),
{
    assert(builders_view(s + t) =~= builders_view(s) + builders_view(t));
}

/// The depth-first walk of one child list: evaluates each gate against the
/// requester now, at compile time, and returns whether the enclosing node
/// is invocable together with its visible pending wire nodes.
pub(crate) fn nodes_to_proto_node_builders(
    cmd_src: &CommandSender,
    nodes: &Vec<Node>,
    children: &Vec<usize>,
    Ghost(ub): Ghost<int>,
) -> (r: (bool, Vec<ProtoNodeBuilder>))
    requires
        wf_nodes(nodes@),
        wf_child_list(children@, ub),
        0 <= ub <= nodes@.len(),
    ensures
        r.0 == spec_compile(nodes@, *cmd_src, children@, ub).0,
        builders_view(r.1@) == spec_compile(nodes@, *cmd_src, children@, ub).1,
    decreases ub,
{
    let ghost full = spec_compile(nodes@, *cmd_src, children@, ub);
    let mut child_nodes: Vec<ProtoNodeBuilder> = Vec::new();
    let mut is_executable = false;
    let n = children.len();
    proof {
        assert(children@.skip(0) =~= children@);
        assert(builders_view(child_nodes@) + full.1 =~= full.1);
    }
    for idx in 0..n
        invariant
            n == children@.len(),
            wf_nodes(nodes@),
            wf_child_list(children@, ub),
            0 <= ub <= nodes@.len(),
            full == spec_compile(nodes@, *cmd_src, children@, ub),
            full.0 == (is_executable || spec_compile(
                nodes@,
                *cmd_src,
                children@.skip(idx as int),
                ub,
            ).0),
            full.1 == builders_view(child_nodes@) + spec_compile(
                nodes@,
                *cmd_src,
                children@.skip(idx as int),
                ub,
            ).1,
    {
        let ghost suffix = children@.skip(idx as int);
        let ghost srest = spec_compile(nodes@, *cmd_src, children@.skip(idx as int + 1), ub);
        proof {
            assert(suffix[0] == children@[idx as int]);
            assert(suffix.drop_first() =~= children@.skip(idx as int + 1));
            assert(children@[idx as int] < ub);
        }
        let i = children[idx];
        let node = &nodes[i];
        proof {
            assert(nodes@[i as int].wf(i as int));
        }
        match &node.node_type {
            NodeType::Literal { string } => {
                let (node_is_executable, node_children) = nodes_to_proto_node_builders(
                    cmd_src,
                    nodes,
                    &node.children,
                    Ghost(i as int),
                );
                let b = ProtoNodeBuilder {
                    child_nodes: node_children,
                    node_type: ProtoNodeType::Literal {
                        name: string.clone(),
                        is_executable: node_is_executable,
                    },
                };
                proof {
                    let sb = spec_compile(nodes@, *cmd_src, suffix, ub).1[0];
                    lemma_builder_view_children(b);
                    assert(builder_view(b) == sb);
                    lemma_builders_view_push(child_nodes@, b);
                    assert(builders_view(child_nodes@).push(sb) + srest.1 =~= builders_view(
                        child_nodes@,
                    ) + (seq![sb] + srest.1));
                }
                child_nodes.push(b);
            },
            NodeType::Argument { name, consumer } => {
                let (node_is_executable, node_children) = nodes_to_proto_node_builders(
                    cmd_src,
                    nodes,
                    &node.children,
                    Ghost(i as int),
                );
                let b = ProtoNodeBuilder {
                    child_nodes: node_children,
                    node_type: ProtoNodeType::Argument {
                        name: name.clone(),
                        is_executable: node_is_executable,
                        parser_id: consumer.parser_id,
                        override_suggestion_type: consumer.override_suggestion_type,
                    },
                };
                proof {
                    let sb = spec_compile(nodes@, *cmd_src, suffix, ub).1[0];
                    lemma_builder_view_children(b);
                    assert(builder_view(b) == sb);
                    lemma_builders_view_push(child_nodes@, b);
                    assert(builders_view(child_nodes@).push(sb) + srest.1 =~= builders_view(
                        child_nodes@,
                    ) + (seq![sb] + srest.1));
                }
                child_nodes.push(b);
            },
            NodeType::ExecuteLeaf => {
                is_executable = true;
            },
            NodeType::Require { predicate } => {
                if predicate.evaluate(cmd_src) {
                    let (node_is_executable, mut node_children) = nodes_to_proto_node_builders(
                        cmd_src,
                        nodes,
                        &node.children,
                        Ghost(i as int),
                    );
                    if node_is_executable {
                        is_executable = true;
                    }
                    proof {
                        lemma_builders_view_concat(child_nodes@, node_children@);
                        assert((builders_view(child_nodes@) + builders_view(node_children@))
                            + srest.1 =~= builders_view(child_nodes@) + (builders_view(
                            node_children@,
                        ) + srest.1));
                    }
                    child_nodes.append(&mut node_children);
                }
            },
        }
    }
    proof {
        assert(children@.skip(n as int) =~= Seq::<usize>::empty());
        assert(builders_view(child_nodes@) + spec_compile(
            nodes@,
            *cmd_src,
            children@.skip(n as int),
            ub,
        ).1 =~= builders_view(child_nodes@));
    }
    (is_executable, child_nodes)
}


proof fn lemma_indices_view_push(s: Seq<usize>, x: usize)
    ensures
        indices_view(s.push(x)) == indices_view(s).push(x as int),
{
    assert(indices_view(s.push(x)) =~= indices_view(s).push(x as int));
}

proof fn lemma_proto_seq_view_push(s: Seq<ProtoNode>, x: ProtoNode)
    ensures
        proto_seq_view(s.push(x)) == proto_seq_view(s).push(x@),
{
    assert(proto_seq_view(s.push(x)) =~= proto_seq_view(s).push(x@));
}

impl ProtoNodeBuilder {
    /// Append this pending subtree to the output buffer, children strictly
    /// before their parent, and return the position assigned to this node.
    pub fn build(&self, buffer: &mut Vec<ProtoNode>) -> (pos: usize)
        ensures
            proto_seq_view(final(buffer)@) == spec_build_one(
                builder_view(*self),
                proto_seq_view(old(buffer)@),
            ).0,
            pos as int == spec_build_one(builder_view(*self), proto_seq_view(old(buffer)@)).1,
        decreases *self,
    {
        let ghost b0 = proto_seq_view(old(buffer)@);
        let ghost me = builder_view(*self);
        let ghost full = spec_build_list(me.child_nodes, b0);
        let mut children: Vec<usize> = Vec::new();
        let n = self.child_nodes.len();
        proof {
            lemma_builder_view_children(*self);
            assert(me.child_nodes.skip(0) =~= me.child_nodes);
            assert(indices_view(children@) + full.1 =~= full.1);
        }
        for k in 0..n
            invariant
                n == self.child_nodes@.len(),
                me == builder_view(*self),
                me.child_nodes == builders_view(self.child_nodes@),
                full == spec_build_list(me.child_nodes, b0),
                full.0 == spec_build_list(
                    me.child_nodes.skip(k as int),
                    proto_seq_view(buffer@),
                ).0,
                full.1 == indices_view(children@) + spec_build_list(
                    me.child_nodes.skip(k as int),
                    proto_seq_view(buffer@),
                ).1,
        {
            let ghost vnow = proto_seq_view(buffer@);
            let ghost suffix = me.child_nodes.skip(k as int);
            let ghost srest = spec_build_list(suffix, vnow);
            proof {
                assert(suffix[0] == builders_view(self.child_nodes@)[k as int]);
                assert(suffix[0] == builder_view(self.child_nodes@[k as int]));
                assert(suffix.drop_first() =~= me.child_nodes.skip(k as int + 1));
            }
            let pos_k = self.child_nodes[k].build(buffer);
            proof {
                lemma_indices_view_push(children@, pos_k);
                let own = spec_build_list(suffix[0].child_nodes, vnow).0.len() as int;
                let r2 = spec_build_list(me.child_nodes.skip(k as int + 1), proto_seq_view(buffer@));
                assert((indices_view(children@).push(own)) + r2.1 =~= indices_view(children@) + (
                seq![own] + r2.1));
            }
            children.push(pos_k);
        }
        proof {
            assert(me.child_nodes.skip(n as int) =~= Seq::<SpecBuilder>::empty());
            assert(indices_view(children@) + spec_build_list(
                me.child_nodes.skip(n as int),
                proto_seq_view(buffer@),
            ).1 =~= indices_view(children@));
        }
        let pos = buffer.len();
        let node = ProtoNode { children, node_type: self.node_type.duplicate() };
        proof {
            lemma_proto_seq_view_push(buffer@, node);
        }
        buffer.push(node);
        pos
    }
}


/// The pending top level of a suggestion packet: one literal builder per
/// requested command name, keyed by that name, in the given fixed order.
/// A name under which nothing was registered is silently omitted, so one
/// misregistered command cannot block suggestion delivery.
pub open spec fn spec_top_builders(
    commands: Seq<(String, CommandTree)>,
    sender: CommandSender,
    names: Seq<Seq<char>>,
) -> Seq<SpecBuilder>
    decreases names.len(),
{
    if names.len() == 0 {
        Seq::<SpecBuilder>::empty()
    } else {
        let rest = spec_top_builders(commands, sender, names.drop_first());
        match spec_lookup(commands, names[0]) {
            Some(tree) => {
                let r = spec_compile(tree.nodes@, sender, tree.children@, tree.nodes@.len() as int);
                seq![
                    SpecBuilder {
                        node_type: SpecProtoNodeType::Literal {
                            name: names[0],
                            is_executable: r.0,
                        },
                        child_nodes: r.1,
                    }
                ] + rest
            },
            None => rest,
        }
    }
}

/// The whole compilation: the top-level builders are wrapped under a single
/// root, never subject to any gate, and materialized into an empty buffer;
/// the root is built last and so occupies the final index.
pub open spec fn spec_compile_commands(
    commands: Seq<(String, CommandTree)>,
    sender: CommandSender,
    names: Seq<Seq<char>>,
) -> (Seq<SpecProtoNode>, int) {
    spec_build_one(
        SpecBuilder {
            node_type: SpecProtoNodeType::Root,
            child_nodes: spec_top_builders(commands, sender, names),
        },
        Seq::<SpecProtoNode>::empty(),
    )
}

/// Materialization keeps every already-placed node, gives each pending node
/// of the list a fresh position above the existing buffer, and never lets a
/// node reference a position at or above its own.
pub proof fn lemma_build_closed(bs: Seq<SpecBuilder>, buf: Seq<SpecProtoNode>)
    requires
        buffer_closed(buf),
    ensures
        ({
            let r = spec_build_list(bs, buf);
            &&& r.0.len() >= buf.len()
            &&& buffer_closed(r.0)
            &&& r.0.subrange(0, buf.len() as int) == buf
            &&& r.1.len() == bs.len()
            &&& forall|j: int| 0 <= j < r.1.len() ==> buf.len() <= #[trigger] r.1[j] < r.0.len()
        }),
    decreases bs,
{
    let r = spec_build_list(bs, buf);
    if bs.len() == 0 {
        assert(r.0.subrange(0, buf.len() as int) =~= buf);
    } else {
        let r1 = spec_build_list(bs[0].child_nodes, buf);
        lemma_build_closed(bs[0].child_nodes, buf);
        let node = SpecProtoNode { children: r1.1, node_type: bs[0].node_type };
        let buf2 = r1.0.push(node);
        assert forall|i: int, k: int|
            0 <= i < buf2.len() && 0 <= k < buf2[i].children.len() implies 0 <= #[trigger] buf2[i].children[k] < i by {
            if i < r1.0.len() {
                assert(buf2[i] == r1.0[i]);
            } else {
                assert(buf2[i] == node);
            }
        }
        lemma_build_closed(bs.drop_first(), buf2);
        let r2 = spec_build_list(bs.drop_first(), buf2);
        assert forall|i: int| 0 <= i < buf.len() implies r2.0[i] == buf[i] by {
            assert(r2.0.subrange(0, buf2.len() as int)[i] == r2.0[i]);
            assert(buf2[i] == r1.0[i]);
            assert(r1.0.subrange(0, buf.len() as int)[i] == r1.0[i]);
        }
        assert(r2.0.subrange(0, buf.len() as int) =~= buf);
        assert(r.1 == seq![r1.0.len() as int] + r2.1);
        assert forall|j: int| 0 <= j < r.1.len() implies buf.len() <= #[trigger] r.1[j]
            < r.0.len() by {
            if j == 0 {
                assert(r.1[j] == r1.0.len() as int);
            } else {
                assert(r.1[j] == r2.1[j - 1]);
            }
        }
    }
}

/// Compile the suggestion packet one requester is permitted to see: one
/// literal per requested name that resolves, under a single root. Returns
/// the flat node array and the root's index, which is always the last; no
/// node references a position at or above its own.
pub fn compile_commands(
    dispatcher: &CommandDispatcher,
    sender: &CommandSender,
    names: &Vec<String>,
) -> (out: (Vec<ProtoNode>, usize))
    requires
        dispatcher.wf(),
    ensures
        ({
            let r = spec_compile_commands(dispatcher.commands@, *sender, name_views(names@));
            &&& proto_seq_view(out.0@) == r.0
            &&& out.1 as int == r.1
            &&& out.0@.len() >= 1
            &&& out.1 as int == out.0@.len() - 1
            &&& proto_seq_view(out.0@)[out.1 as int].node_type is Root
            &&& buffer_closed(proto_seq_view(out.0@))
        }),
{
    let ghost nviews = name_views(names@);
    let ghost full = spec_top_builders(dispatcher.commands@, *sender, nviews);
    let mut first_level: Vec<ProtoNodeBuilder> = Vec::new();
    let n = names.len();
    proof {
        assert(nviews.skip(0) =~= nviews);
        assert(builders_view(first_level@) + full =~= full);
    }
    for k in 0..n
        invariant
            n == names@.len(),
            nviews == name_views(names@),
            dispatcher.wf(),
            full == spec_top_builders(dispatcher.commands@, *sender, nviews),
            full == builders_view(first_level@) + spec_top_builders(
                dispatcher.commands@,
                *sender,
                nviews.skip(k as int),
            ),
    {
        let ghost suffix = nviews.skip(k as int);
        let ghost srest = spec_top_builders(dispatcher.commands@, *sender, nviews.skip(k as int + 1));
        proof {
            assert(suffix[0] == nviews[k as int]);
            assert(nviews[k as int] == names@[k as int]@);
            assert(suffix.drop_first() =~= nviews.skip(k as int + 1));
        }
        let key = &names[k];
        match dispatcher.get_tree(key) {
            Ok(tree) => {
                proof {
                    crate::dispatcher::lemma_lookup_props(dispatcher.commands@, key@);
                    let i = choose|i: int|
                        0 <= i < dispatcher.commands@.len() && (#[trigger] dispatcher.commands@[i]).0@
                            == key@ && spec_lookup(dispatcher.commands@, key@) == Some(
                            dispatcher.commands@[i].1,
                        );
                    assert(dispatcher.commands@[i].1.wf());
                }
                let (is_executable, child_nodes) = nodes_to_proto_node_builders(
                    sender,
                    &tree.nodes,
                    &tree.children,
                    Ghost(tree.nodes@.len() as int),
                );
                let b = ProtoNodeBuilder {
                    child_nodes,
                    node_type: ProtoNodeType::Literal { name: key.clone(), is_executable },
                };
                proof {
                    let sb = spec_top_builders(dispatcher.commands@, *sender, suffix)[0];
                    lemma_builder_view_children(b);
                    assert(builder_view(b) == sb);
                    lemma_builders_view_push(first_level@, b);
                    assert(builders_view(first_level@).push(sb) + srest =~= builders_view(
                        first_level@,
                    ) + (seq![sb] + srest));
                }
                first_level.push(b);
            },
            Err(_) => {},
        }
    }
    proof {
        assert(nviews.skip(n as int) =~= Seq::<Seq<char>>::empty());
        assert(builders_view(first_level@) + spec_top_builders(
            dispatcher.commands@,
            *sender,
            nviews.skip(n as int),
        ) =~= builders_view(first_level@));
    }
    let root = ProtoNodeBuilder { child_nodes: first_level, node_type: ProtoNodeType::Root };
    let mut proto_nodes: Vec<ProtoNode> = Vec::new();
    let root_node_index = root.build(&mut proto_nodes);
    proof {
        lemma_builder_view_children(root);
        assert(proto_seq_view(Seq::<ProtoNode>::empty()) =~= Seq::<SpecProtoNode>::empty());
        let rootb = SpecBuilder { node_type: SpecProtoNodeType::Root, child_nodes: full };
        assert(builder_view(root) == rootb);
        lemma_build_closed(rootb.child_nodes, Seq::<SpecProtoNode>::empty());
        let r = spec_build_list(full, Seq::<SpecProtoNode>::empty());
        let fin = spec_build_one(rootb, Seq::<SpecProtoNode>::empty()).0;
        assert(fin == r.0.push(SpecProtoNode { children: r.1, node_type: SpecProtoNodeType::Root }));
        assert forall|i: int, k: int|
            0 <= i < fin.len() && 0 <= k < fin[i].children.len() implies 0 <= #[trigger] fin[i].children[k] < i by {
            if i < r.0.len() {
                assert(fin[i] == r.0[i]);
            } else {
                assert(fin[i].children == r.1);
            }
        }
        assert(buffer_closed(fin));
        assert(proto_seq_view(proto_nodes@) == fin);
    }
    (proto_nodes, root_node_index)
}


/// Compile the suggestion packet for the dispatcher's own registered
/// commands, in registration order.
pub fn compile_registered(dispatcher: &CommandDispatcher, sender: &CommandSender) -> (out: (
    Vec<ProtoNode>,
    usize,
))
    requires
        dispatcher.wf(),
    ensures
        ({
            let r = spec_compile_commands(dispatcher.commands@, *sender, dispatcher.spec_names());
            &&& proto_seq_view(out.0@) == r.0
            &&& out.1 as int == r.1
            &&& out.0@.len() >= 1
            &&& out.1 as int == out.0@.len() - 1
            &&& proto_seq_view(out.0@)[out.1 as int].node_type is Root
            &&& buffer_closed(proto_seq_view(out.0@))
        }),
{
    let names = dispatcher.names();
    compile_commands(dispatcher, sender, &names)
}

/// What makes a child mark its enclosing level invocable: it is a direct
/// `ExecuteLeaf`, or a gate that admits the requester and whose own level
/// is invocable.
pub open spec fn spec_child_marks_executable(
    nodes: Seq<Node>,
    sender: CommandSender,
    c_raw: usize,
    ub: int,
) -> bool {
    let c = c_raw as int;
    &&& c < nodes.len()
    &&& c < ub
    &&& match nodes[c].node_type {
        NodeType::ExecuteLeaf => true,
        NodeType::Require { predicate } => spec_allows(predicate, sender) && spec_compile(
            nodes,
            sender,
            nodes[c].children@,
            c,
        ).0,
        _ => false,
    }
}

/// A compiled level's invocability flag is true exactly when the child list
/// holds a direct `ExecuteLeaf`, or a passing gate whose gated level is
/// itself invocable: a gate never blocks invocability once it has passed,
/// and nothing else sets the flag.
pub proof fn lemma_executable_iff(
    nodes: Seq<Node>,
    sender: CommandSender,
    children: Seq<usize>,
    ub: int,
)
    ensures
        spec_compile(nodes, sender, children, ub).0 <==> exists|k: int|
            0 <= k < children.len() && spec_child_marks_executable(
                nodes,
                sender,
                #[trigger] children[k],
                ub,
            ),
    decreases children.len(),
{
    if children.len() > 0 {
        let tail = children.drop_first();
        lemma_executable_iff(nodes, sender, tail, ub);
        let r = spec_compile(nodes, sender, children, ub);
        let rest = spec_compile(nodes, sender, tail, ub);
        if r.0 {
            if spec_child_marks_executable(nodes, sender, children[0], ub) {
                assert(0 <= 0 < children.len() && spec_child_marks_executable(
                    nodes,
                    sender,
                    children[0],
                    ub,
                ));
            } else {
                assert(rest.0);
                let k = choose|k: int|
                    0 <= k < tail.len() && spec_child_marks_executable(
                        nodes,
                        sender,
                        #[trigger] tail[k],
                        ub,
                    );
                assert(children[k + 1] == tail[k]);
            }
        }
        if exists|k: int|
            0 <= k < children.len() && spec_child_marks_executable(
                nodes,
                sender,
                #[trigger] children[k],
                ub,
            ) {
            let k = choose|k: int|
                0 <= k < children.len() && spec_child_marks_executable(
                    nodes,
                    sender,
                    #[trigger] children[k],
                    ub,
                );
            if k == 0 {
                assert(r.0);
            } else {
                assert(tail[k - 1] == children[k]);
                assert(rest.0);
                assert(r.0);
            }
        }
    }
}

/// A gate that refuses the requester prunes its entire subtree: the
/// compiled output of a child list is exactly the output with that child
/// removed, so none of the gated node's descendants can reach the wire
/// structure.
pub proof fn lemma_refused_gate_prunes_subtree(
    nodes: Seq<Node>,
    sender: CommandSender,
    children: Seq<usize>,
    ub: int,
    k: int,
)
    requires
        0 <= k < children.len(),
        (children[k] as int) < nodes.len(),
        (children[k] as int) < ub,
        nodes[children[k] as int].node_type matches NodeType::Require { predicate }
            && !spec_allows(predicate, sender),
    ensures
        spec_compile(nodes, sender, children, ub) == spec_compile(
            nodes,
            sender,
            children.remove(k),
            ub,
        ),
    decreases k,
{
    if k == 0 {
        assert(children.remove(0) =~= children.drop_first());
    } else {
        lemma_refused_gate_prunes_subtree(nodes, sender, children.drop_first(), ub, k - 1);
        assert(children.drop_first()[k - 1] == children[k]);
        assert(children.remove(k).drop_first() =~= children.drop_first().remove(k - 1));
        assert(children.remove(k)[0] == children[0]);
    }
}

/// Two requesters are indistinguishable over an arena when every gate of
/// the arena decides them alike: the same effective permission set.
pub open spec fn senders_agree(nodes: Seq<Node>, s1: CommandSender, s2: CommandSender) -> bool {
    forall|i: int|
        0 <= i < nodes.len() ==> ((#[trigger] nodes[i]).node_type matches NodeType::Require {
            predicate,
        } ==> spec_allows(predicate, s1) == spec_allows(predicate, s2))
}

/// Compilation is a function of the arena and the effective permission set
/// alone: requesters that every gate decides alike receive identical
/// compiled levels.
pub proof fn lemma_compile_agrees(
    nodes: Seq<Node>,
    s1: CommandSender,
    s2: CommandSender,
    children: Seq<usize>,
    ub: int,
)
    requires
        senders_agree(nodes, s1, s2),
    ensures
        spec_compile(nodes, s1, children, ub) == spec_compile(nodes, s2, children, ub),
    decreases ub, children.len(),
{
    if children.len() > 0 {
        lemma_compile_agrees(nodes, s1, s2, children.drop_first(), ub);
        let c = children[0] as int;
        if 0 <= c < nodes.len() && c < ub {
            match nodes[c].node_type {
                NodeType::Literal { .. } => {
                    lemma_compile_agrees(nodes, s1, s2, nodes[c].children@, c);
                },
                NodeType::Argument { .. } => {
                    lemma_compile_agrees(nodes, s1, s2, nodes[c].children@, c);
                },
                NodeType::ExecuteLeaf => {},
                NodeType::Require { predicate } => {
                    assert(spec_allows(predicate, s1) == spec_allows(predicate, s2));
                    if spec_allows(predicate, s1) {
                        lemma_compile_agrees(nodes, s1, s2, nodes[c].children@, c);
                    }
                },
            }
        }
    }
}

/// Agreement over every arena of a dispatcher.
pub open spec fn dispatcher_agrees(
    commands: Seq<(String, CommandTree)>,
    s1: CommandSender,
    s2: CommandSender,
) -> bool {
    forall|i: int|
        0 <= i < commands.len() ==> senders_agree((#[trigger] commands[i]).1.nodes@, s1, s2)
}

/// Determinism of the whole packet: the same command registry compiled for
/// two requesters with the same effective permission set yields identical
/// output, node for node and index for index, for any fixed name order.
pub proof fn lemma_compile_commands_agree(
    commands: Seq<(String, CommandTree)>,
    s1: CommandSender,
    s2: CommandSender,
    names: Seq<Seq<char>>,
)
    requires
        dispatcher_agrees(commands, s1, s2),
    ensures
        spec_compile_commands(commands, s1, names) == spec_compile_commands(commands, s2, names),
    decreases names.len(),
{
    lemma_top_builders_agree(commands, s1, s2, names);
}

proof fn lemma_top_builders_agree(
    commands: Seq<(String, CommandTree)>,
    s1: CommandSender,
    s2: CommandSender,
    names: Seq<Seq<char>>,
)
    requires
        dispatcher_agrees(commands, s1, s2),
    ensures
        spec_top_builders(commands, s1, names) == spec_top_builders(commands, s2, names),
    decreases names.len(),
{
    if names.len() > 0 {
        lemma_top_builders_agree(commands, s1, s2, names.drop_first());
        match spec_lookup(commands, names[0]) {
            Some(tree) => {
                crate::dispatcher::lemma_lookup_props(commands, names[0]);
                let i = choose|i: int|
                    0 <= i < commands.len() && (#[trigger] commands[i]).0@ == names[0]
                        && spec_lookup(commands, names[0]) == Some(commands[i].1);
                assert(senders_agree(commands[i].1.nodes@, s1, s2));
                lemma_compile_agrees(tree.nodes@, s1, s2, tree.children@, tree.nodes@.len() as int);
            },
            None => {},
        }
    }
}

/// The console and a player of maximal permission level pass exactly the
/// same gates of any arena.
pub proof fn lemma_console_like_max_player(nodes: Seq<Node>)
    ensures
        senders_agree(
            nodes,
            CommandSender::Console,
            CommandSender::Player { permission_level: 255 },
        ),
{
}

} // verus!
