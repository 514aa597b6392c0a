use pumpkin::compile::compile_registered;
use pumpkin::compile::compile_commands;
use pumpkin::dispatcher::{CommandDispatcher, CommandError};
use pumpkin::proto::{ProtoNode, ProtoNodeType};
use pumpkin::tree::{ArgumentConsumer, CommandSender, CommandTree, Node, NodeType, Predicate};

fn leaf() -> Node {
    Node { node_type: NodeType::ExecuteLeaf, children: vec![] }
}

fn literal(s: &str, children: Vec<usize>) -> Node {
    Node { node_type: NodeType::Literal { string: s.to_string() }, children }
}

fn argument(name: &str, parser_id: u32, children: Vec<usize>) -> Node {
    Node {
        node_type: NodeType::Argument {
            name: name.to_string(),
            consumer: ArgumentConsumer { parser_id, override_suggestion_type: None },
        },
        children,
    }
}

fn require(p: Predicate, children: Vec<usize>) -> Node {
    Node { node_type: NodeType::Require { predicate: p }, children }
}

/// Arena for "gamemode": Argument("mode") carrying an ExecuteLeaf.
fn gamemode_tree() -> CommandTree {
    CommandTree { nodes: vec![leaf(), argument("mode", 7, vec![0])], children: vec![1] }
}

fn expect_literal(node: &ProtoNode, name: &str, executable: bool) {
    match &node.node_type {
        ProtoNodeType::Literal { name: n, is_executable } => {
            assert_eq!(n, name);
            assert_eq!(*is_executable, executable);
        },
        other => panic!("expected literal, got {:?}", other),
    }
}

fn expect_argument(node: &ProtoNode, name: &str, executable: bool, parser_id: u32) {
    match &node.node_type {
        ProtoNodeType::Argument { name: n, is_executable, parser_id: p, override_suggestion_type } => {
            assert_eq!(n, name);
            assert_eq!(*is_executable, executable);
            assert_eq!(*p, parser_id);
            assert_eq!(*override_suggestion_type, None);
        },
        other => panic!("expected argument, got {:?}", other),
    }
}

fn expect_root(node: &ProtoNode, children: &[usize]) {
    assert!(matches!(node.node_type, ProtoNodeType::Root));
    assert_eq!(node.children, children);
}

#[test]
fn gamemode_for_any_identity() {
    let mut d = CommandDispatcher::new();
    d.register("gamemode".to_string(), gamemode_tree()).unwrap();
    for sender in [
        CommandSender::Console,
        CommandSender::Player { permission_level: 0 },
        CommandSender::Player { permission_level: 255 },
    ] {
        let (nodes, root) = compile_registered(&d, &sender);
        assert_eq!(nodes.len(), 3);
        assert_eq!(root, 2);
        expect_argument(&nodes[0], "mode", true, 7);
        assert!(nodes[0].children.is_empty());
        expect_literal(&nodes[1], "gamemode", false);
        assert_eq!(nodes[1].children, vec![0]);
        expect_root(&nodes[2], &[1]);
    }
}

#[test]
fn refusing_gate_prunes_subtree() {
    // the same arena, with the argument behind a gate that always refuses
    let tree = CommandTree {
        nodes: vec![
            leaf(),
            argument("mode", 7, vec![0]),
            require(Predicate::AlwaysDeny, vec![1]),
        ],
        children: vec![2],
    };
    let mut d = CommandDispatcher::new();
    d.register("gamemode".to_string(), tree).unwrap();
    let (nodes, root) = compile_registered(&d, &CommandSender::Console);
    assert_eq!(nodes.len(), 2);
    assert_eq!(root, 1);
    expect_literal(&nodes[0], "gamemode", false);
    assert!(nodes[0].children.is_empty());
    expect_root(&nodes[1], &[0]);
}

#[test]
fn passing_gate_is_transparent() {
    let tree = CommandTree {
        nodes: vec![
            leaf(),
            argument("mode", 7, vec![0]),
            require(Predicate::AlwaysAllow, vec![1]),
        ],
        children: vec![2],
    };
    let mut d = CommandDispatcher::new();
    d.register("gamemode".to_string(), tree).unwrap();
    let (nodes, root) = compile_registered(&d, &CommandSender::Player { permission_level: 0 });
    assert_eq!(nodes.len(), 3);
    assert_eq!(root, 2);
    expect_argument(&nodes[0], "mode", true, 7);
    expect_literal(&nodes[1], "gamemode", false);
    assert_eq!(nodes[1].children, vec![0]);
    expect_root(&nodes[2], &[1]);
}

#[test]
fn gate_propagates_executability() {
    // an ExecuteLeaf behind a passing gate still marks the argument invocable
    let tree = CommandTree {
        nodes: vec![
            leaf(),
            require(Predicate::AlwaysAllow, vec![0]),
            argument("mode", 9, vec![1]),
        ],
        children: vec![2],
    };
    let mut d = CommandDispatcher::new();
    d.register("gamemode".to_string(), tree).unwrap();
    let (nodes, _) = compile_registered(&d, &CommandSender::Console);
    expect_argument(&nodes[0], "mode", true, 9);
}

#[test]
fn two_commands_root_is_last() {
    let mut d = CommandDispatcher::new();
    d.register("help".to_string(), CommandTree { nodes: vec![leaf()], children: vec![0] })
        .unwrap();
    d.register("stop".to_string(), CommandTree { nodes: vec![leaf()], children: vec![0] })
        .unwrap();
    let (nodes, root) = compile_registered(&d, &CommandSender::Console);
    assert_eq!(nodes.len(), 3);
    assert_eq!(root, 2);
    expect_literal(&nodes[0], "help", true);
    expect_literal(&nodes[1], "stop", true);
    expect_root(&nodes[2], &[0, 1]);
    // no node references an index at or above its own
    for (i, node) in nodes.iter().enumerate() {
        for &c in &node.children {
            assert!(c < i);
        }
    }
}

#[test]
fn unknown_name_is_silently_skipped() {
    let mut d = CommandDispatcher::new();
    d.register("help".to_string(), CommandTree { nodes: vec![leaf()], children: vec![0] })
        .unwrap();
    d.register("stop".to_string(), CommandTree { nodes: vec![leaf()], children: vec![0] })
        .unwrap();
    assert_eq!(d.get_tree(&"nonexistent".to_string()).unwrap_err(), CommandError::NotFound);
    let names = vec!["help".to_string(), "stop".to_string(), "nonexistent".to_string()];
    let (nodes, root) = compile_commands(&d, &CommandSender::Console, &names);
    // a root with one fewer child than the number of requested names
    assert_eq!(nodes.len(), 3);
    expect_root(&nodes[root], &[0, 1]);
}

#[test]
fn empty_dispatcher_yields_bare_root() {
    let d = CommandDispatcher::new();
    let (nodes, root) = compile_registered(&d, &CommandSender::Console);
    assert_eq!(nodes.len(), 1);
    assert_eq!(root, 0);
    expect_root(&nodes[0], &[]);
}

#[test]
fn permission_level_gates_visibility() {
    let tree = CommandTree {
        nodes: vec![
            leaf(),
            argument("target", 3, vec![0]),
            require(Predicate::RequireLevel { min_level: 2 }, vec![1]),
        ],
        children: vec![2],
    };
    let mut d = CommandDispatcher::new();
    d.register("ban".to_string(), tree).unwrap();

    // below the level: the whole gated subtree is absent
    let (low, _) = compile_registered(&d, &CommandSender::Player { permission_level: 1 });
    assert_eq!(low.len(), 2);
    expect_literal(&low[0], "ban", false);
    assert!(low[0].children.is_empty());

    // at the level, and for the console, the subtree is visible
    let (high, _) = compile_registered(&d, &CommandSender::Player { permission_level: 2 });
    assert_eq!(high.len(), 3);
    expect_argument(&high[0], "target", true, 3);
    let (console, _) = compile_registered(&d, &CommandSender::Console);
    assert_eq!(console, high);
}

#[test]
fn compilation_is_deterministic() {
    let mut d = CommandDispatcher::new();
    d.register("gamemode".to_string(), gamemode_tree()).unwrap();
    d.register("help".to_string(), CommandTree { nodes: vec![leaf()], children: vec![0] })
        .unwrap();
    let sender = CommandSender::Player { permission_level: 4 };
    let first = compile_registered(&d, &sender);
    let second = compile_registered(&d, &sender);
    assert_eq!(first, second);
    // the console and a maximal player share one effective permission set
    let console = compile_registered(&d, &CommandSender::Console);
    let maximal = compile_registered(&d, &CommandSender::Player { permission_level: 255 });
    assert_eq!(console, maximal);
}

#[test]
fn duplicate_registration_is_refused() {
    let mut d = CommandDispatcher::new();
    d.register("help".to_string(), CommandTree { nodes: vec![leaf()], children: vec![0] })
        .unwrap();
    let r = d.register("help".to_string(), CommandTree { nodes: vec![leaf()], children: vec![0] });
    assert_eq!(r.unwrap_err(), CommandError::DuplicateName);
    assert_eq!(d.commands.len(), 1);
    assert!(d.get_tree(&"help".to_string()).is_ok());
}
