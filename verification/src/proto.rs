//! The wire-ready counterpart of the grammar: index-addressed nodes as they
//! are sent to a client, together with their mathematical views.

use vstd::prelude::*;

verus! {

/// The variant of a wire node.
#[derive(Debug, PartialEq, Eq)]
pub enum ProtoNodeType {
    /// The single root of the suggestion structure.
    Root,
    /// A fixed token the client may complete to.
    Literal { name: String, is_executable: bool },
    /// A typed argument slot, carrying the client-side parser identity and
    /// an optional suggestion-type override.
    Argument {
        name: String,
        is_executable: bool,
        parser_id: u32,
        override_suggestion_type: Option<u32>,
    },
}

/// One node of the flat output array; `children` are indices into the same
/// array, and always reference strictly earlier positions.
#[derive(Debug, PartialEq, Eq)]
pub struct ProtoNode {
    pub children: Vec<usize>,
    pub node_type: ProtoNodeType,
}

/// Mathematical view of a wire node variant: names as character sequences.
pub enum SpecProtoNodeType {
    Root,
    Literal { name: Seq<char>, is_executable: bool },
    Argument {
        name: Seq<char>,
        is_executable: bool,
        parser_id: u32,
        override_suggestion_type: Option<u32>,
    },
}

/// Mathematical view of a wire node.
pub struct SpecProtoNode {
    pub children: Seq<int>,
    pub node_type: SpecProtoNodeType,
}

impl View for ProtoNodeType {
    type V = SpecProtoNodeType;

    open spec fn view(&self) -> SpecProtoNodeType {
        match self {
            ProtoNodeType::Root => SpecProtoNodeType::Root,
            ProtoNodeType::Literal { name, is_executable } => SpecProtoNodeType::Literal {
                name: name@,
                is_executable: *is_executable,
            },
            ProtoNodeType::Argument {
                name,
                is_executable,
                parser_id,
                override_suggestion_type,
            } => SpecProtoNodeType::Argument {
                name: name@,
                is_executable: *is_executable,
                parser_id: *parser_id,
                override_suggestion_type: *override_suggestion_type,
            },
        }
    }
}

impl View for ProtoNode {
    type V = SpecProtoNode;

    open spec fn view(&self) -> SpecProtoNode {
        SpecProtoNode {
            children: indices_view(self.children@),
            node_type: self.node_type@,
        }
    }
}

impl ProtoNodeType {
    /// An explicit copy whose view equals the original's.
    pub fn duplicate(&self) -> (r: ProtoNodeType)
        ensures
            r@ == self@,
    {
        match self {
            ProtoNodeType::Root => ProtoNodeType::Root,
            ProtoNodeType::Literal { name, is_executable } => ProtoNodeType::Literal {
                name: name.clone(),
                is_executable: *is_executable,
            },
            ProtoNodeType::Argument {
                name,
                is_executable,
                parser_id,
                override_suggestion_type,
            } => ProtoNodeType::Argument {
                name: name.clone(),
                is_executable: *is_executable,
                parser_id: *parser_id,
                override_suggestion_type: *override_suggestion_type,
            },
        }
    }
}

/// View of a child-index list.
pub open spec fn indices_view(v: Seq<usize>) -> Seq<int> {
    v.map_values(|c: usize| c as int)
}

/// View of a whole output buffer.
pub open spec fn proto_seq_view(v: Seq<ProtoNode>) -> Seq<SpecProtoNode> {
    v.map_values(|n: ProtoNode| n@)
}

/// Every node of the buffer references only strictly smaller indices, so
/// the buffer encodes a forest without any pointer-like construct.
pub open spec fn buffer_closed(buf: Seq<SpecProtoNode>) -> bool {
    forall|i: int, k: int|
        0 <= i < buf.len() && 0 <= k < buf[i].children.len() ==> 0 <= #[trigger] buf[i].children[k]
            < i
}

} // verus!
