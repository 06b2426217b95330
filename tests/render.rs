use render_as_tree::render;
use render_as_tree::BasicNode;
use render_as_tree::Node;

fn leaf(name: &str) -> BasicNode {
    BasicNode::new(String::from(name))
}

fn with_children(name: &str, children: Vec<BasicNode>) -> BasicNode {
    BasicNode { name: String::from(name), children }
}

fn sample_tree() -> BasicNode {
    BasicNode {
        name: String::from("root - selena"),
        children: vec![
            BasicNode {
                name: String::from("child 1 - sam"),
                children: vec![
                    BasicNode::new(String::from("grandchild 1A - burt")),
                    BasicNode::new(String::from("grandchild 1B - crabbod")),
                    BasicNode::new(String::from("grandchild 1C - mario")),
                ],
            },
            BasicNode {
                name: String::from("child 2 - dumptruck"),
                children: vec![
                    BasicNode::new(String::from("grandchild 2A - tilly")),
                    BasicNode::new(String::from("grandchild 2B - curling iron")),
                ],
            },
        ],
    }
}

#[test]
fn trivial_case() {
    assert_eq!(
        render(&BasicNode::new(String::from("beans"))),
        vec![String::from("beans")]
    )
}

#[test]
fn simple_case() {
    let root = BasicNode {
        name: String::from("root - selena"),
        children: vec![
            BasicNode {
                name: String::from("child 1 - sam"),
                children: vec![
                    BasicNode::new(String::from("grandchild 1A - burt")),
                    BasicNode::new(String::from("grandchild 1B - crabbod")),
                    BasicNode::new(String::from("grandchild 1C - mario")),
                ],
            },
            BasicNode {
                name: String::from("child 2 - dumptruck"),
                children: vec![
                    BasicNode::new(String::from("grandchild 2A - tilly")),
                    BasicNode::new(String::from("grandchild 2B - curling iron")),
                ],
            },
        ],
    };
    assert_eq!(
        render(&root),
        vec![
            String::from("root - selena"),
            String::from("├── child 1 - sam"),
            String::from("│   ├── grandchild 1A - burt"),
            String::from("│   ├── grandchild 1B - crabbod"),
            String::from("│   └── grandchild 1C - mario"),
            String::from("└── child 2 - dumptruck"),
            String::from("    ├── grandchild 2A - tilly"),
            String::from("    └── grandchild 2B - curling iron"),
        ]
    );
}

#[test]
fn root_line_is_the_name() {
    let lines = render(&sample_tree());
    assert_eq!(lines[0], "root - selena");
    let lines = render(&with_children("top", vec![leaf("a"), leaf("b")]));
    assert_eq!(lines[0], "top");
}

#[test]
fn one_line_per_node() {
    assert_eq!(render(&sample_tree()).len(), 8);
    let deep = with_children(
        "r",
        vec![with_children("a", vec![with_children("b", vec![leaf("c")])]), leaf("d")],
    );
    assert_eq!(render(&deep).len(), 5);
}

#[test]
fn only_the_last_child_gets_the_corner() {
    let lines = render(&with_children("r", vec![leaf("a"), leaf("b"), leaf("c")]));
    assert_eq!(lines, vec!["r", "├── a", "├── b", "└── c"]);
    let corners = lines.iter().filter(|l| l.starts_with("└── ")).count();
    assert_eq!(corners, 1);
}

#[test]
fn continuation_prefixes() {
    let tree = with_children(
        "r",
        vec![
            with_children("a", vec![leaf("a1"), with_children("a2", vec![leaf("a2x")])]),
            with_children("b", vec![leaf("b1")]),
        ],
    );
    assert_eq!(
        render(&tree),
        vec![
            "r",
            "├── a",
            "│   ├── a1",
            "│   └── a2",
            "│       └── a2x",
            "└── b",
            "    └── b1",
        ]
    );
}

#[test]
fn rendering_twice_gives_the_same_lines() {
    let tree = sample_tree();
    let first = render(&tree);
    let second = render(&tree);
    assert_eq!(first, second);
}

#[test]
fn single_child_path() {
    let tree = with_children("r", vec![with_children("c", vec![leaf("g")])]);
    assert_eq!(render(&tree), vec!["r", "└── c", "    └── g"]);
}

#[test]
fn single_child_is_last() {
    let tree = with_children("r", vec![leaf("only")]);
    assert_eq!(render(&tree), vec!["r", "└── only"]);
}

#[test]
fn empty_names_give_empty_lines() {
    assert_eq!(render(&leaf("")), vec![""]);
    let tree = with_children("", vec![leaf(""), leaf("")]);
    assert_eq!(render(&tree), vec!["", "├── ", "└── "]);
}

#[test]
fn names_are_not_sorted_or_deduplicated() {
    let tree = with_children("r", vec![leaf("z"), leaf("a"), leaf("z")]);
    assert_eq!(render(&tree), vec!["r", "├── z", "├── a", "└── z"]);
}

#[test]
fn new_node_has_no_children() {
    let node = BasicNode::new(String::from("x"));
    assert_eq!(node.name, "x");
    assert!(node.children.is_empty());
}

#[test]
fn basic_node_offers_name_and_children() {
    let tree = with_children("r", vec![leaf("a"), leaf("b")]);
    assert_eq!(Node::name(&tree), "r");
    let kids = Node::children(&tree);
    assert_eq!(kids.len(), 2);
    assert_eq!(Node::name(&kids[0]), "a");
    assert_eq!(Node::name(&kids[1]), "b");
    assert!(Node::children(&kids[1]).is_empty());
}
