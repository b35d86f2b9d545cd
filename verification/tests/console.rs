use cvar::console;
use cvar::{Action, List, Node, PropNode, Property, Value, Visit};

fn prop(name: &str, value: i64, default: i64) -> Node {
    Node::Prop(PropNode::Standard(Property::new(
        name,
        Value::Int(value),
        Value::Int(default),
    )))
}

fn sprop(name: &str, value: &str, default: &str) -> Node {
    Node::Prop(PropNode::Standard(Property::new(
        name,
        Value::Str(String::from(value)),
        Value::Str(String::from(default)),
    )))
}

/// A root with a `foo` list holding `int`, `float`, `string` and an action,
/// flanked by two pseudo-nested properties whose names contain the
/// separator.
fn root() -> Visit {
    let foo = Visit {
        nodes: vec![
            prop("int", 13, 42),
            prop("float", 0, 1),
            sprop("string", "groot", ""),
            Node::Action(Action::new("action")),
        ],
    };
    Visit {
        nodes: vec![
            prop("foo.before", 1, 1),
            Node::List(List::new("foo", foo)),
            prop("foo.after", 2, 2),
        ],
    }
}

#[test]
fn main() {
    let mut root = root();
    let mut writer = String::new();
    assert!(matches!(console::set(&mut root, "foo.float", "-1", &mut writer), true));
    assert_eq!(console::get_value(&root, "foo.float"), Some(Value::Int(-1)));
    assert!(matches!(console::set(&mut root, "foo.before", "11", &mut writer), true));
    assert!(matches!(console::set(&mut root, "foo.after", "22", &mut writer), true));
    assert!(matches!(console::set(&mut root, "foo.int", "parse error", &mut writer), false));
    assert!(matches!(console::set(&mut root, "foo.list.bar", "name error", &mut writer), false));
    assert!(matches!(console::set(&mut root, "foo.int.bar", "list error", &mut writer), false));
    assert!(matches!(console::set(&mut root, "foo.action.bar", "list error", &mut writer), false));
    assert!(matches!(console::set(&mut root, "foo.action", "prop error", &mut writer), false));

    assert!(console::set_value(&mut root, "foo.int", &Value::Int(42), &mut writer));
    assert_eq!(console::get_value(&root, "foo.int"), Some(Value::Int(42)));

    assert!(console::set(&mut root, "foo.string", "any", &mut writer));
    assert_eq!(
        console::get_value(&root, "foo.string"),
        Some(Value::Str(String::from("any")))
    );
}

#[test]
fn duplicate_names_invoke_both() {
    let mut root = Visit {
        nodes: vec![
            Node::Action(Action::new("ping")),
            Node::Action(Action::new("ping")),
        ],
    };
    let mut writer = String::new();
    assert!(console::invoke(&mut root, "ping", "x", &mut writer));
    let matched = console::find_nodes(&root, "ping");
    assert_eq!(matched.len(), 2);
    for node in &matched {
        match node {
            Node::Action(a) => {
                assert_eq!(a.calls().len(), 1);
                assert_eq!(a.calls()[0], "x");
            }
            _ => panic!("expected an action"),
        }
    }
}

#[test]
fn walk_reconstructs_paths() {
    let c = prop("c", 0, 0);
    let b = Node::List(List::new("b", Visit { nodes: vec![c] }));
    let a = Node::List(List::new("a", Visit { nodes: vec![b] }));
    let root = Visit { nodes: vec![a] };
    let items = console::walk(&root);
    assert_eq!(items.len(), 3);
    assert_eq!(items[0].path, "a");
    assert!(matches!(items[0].kind, console::NodeKind::List));
    assert_eq!(items[1].path, "a.b");
    assert!(matches!(items[1].kind, console::NodeKind::List));
    assert_eq!(items[2].path, "a.b.c");
    assert!(matches!(items[2].kind, console::NodeKind::Prop));
    assert_eq!(items[2].value, Some(Value::Int(0)));
    let hits = items.iter().filter(|it| it.path == "a.b.c").count();
    assert_eq!(hits, 1);
}

#[test]
fn end_to_end_number_and_action() {
    let mut root = Visit {
        nodes: vec![prop("number", 42, 42), Node::Action(Action::new("poke!"))],
    };
    let mut writer = String::new();
    assert!(console::set(&mut root, "number", "13", &mut writer));
    assert_eq!(console::get(&root, "number"), Some(String::from("13")));
    assert!(console::invoke(&mut root, "poke!", "the value is", &mut writer));

    // The host performs the action's effect from what the tree recorded.
    let matched = console::find_nodes(&root, "poke!");
    assert_eq!(matched.len(), 1);
    let args = match &matched[0] {
        Node::Action(a) => a.calls()[0].clone(),
        _ => panic!("expected an action"),
    };
    let text = format!("{}: {}", args, console::get(&root, "number").unwrap());
    assert_eq!(text, "the value is: 13");
}

#[test]
fn kind_mismatch_is_not_not_found() {
    let foo = Visit { nodes: vec![prop("int", 13, 42)] };
    let root = Visit { nodes: vec![Node::List(List::new("foo", foo))] };
    assert_eq!(
        console::resolve_error(&root, "foo.int.bar"),
        Some(console::ResolveError::KindMismatch)
    );
    assert_eq!(
        console::resolve_error(&root, "foo.missing"),
        Some(console::ResolveError::NotFound)
    );
    assert_eq!(console::resolve_error(&root, "foo.int"), None);
    assert_eq!(console::resolve_error(&root, "foo"), None);
}

#[test]
fn set_reports_errors_and_unknown_paths() {
    let mut root = Visit { nodes: vec![prop("int", 0, 0)] };
    let mut writer = String::new();
    assert!(!console::set(&mut root, "int", "abc", &mut writer));
    assert_eq!(writer, "error: int \"abc\": invalid value\n");
    writer.clear();
    assert!(!console::set(&mut root, "zzz", "1", &mut writer));
    assert_eq!(writer, "unknown: zzz\n");
    writer.clear();
    assert!(!console::set_value(&mut root, "int", &Value::Bool(true), &mut writer));
    assert_eq!(writer, "error: int \"true\": mismatched types\n");
}

#[test]
fn poke_reads_sets_and_lists() {
    let inner = Visit { nodes: vec![prop("int", 7, 7)] };
    let mut root = Visit {
        nodes: vec![
            prop("number", 42, 42),
            Node::List(List::new("sub", inner)),
            Node::Action(Action::new("run")),
        ],
    };
    let mut writer = String::new();
    assert!(console::poke(&mut root, "number", None, &mut writer));
    assert_eq!(writer, "number is \"42\"\n");
    writer.clear();
    assert!(console::poke(&mut root, "number", Some("5"), &mut writer));
    assert_eq!(writer, "number is \"5\"\n");
    writer.clear();
    // A failed set reports the error, still shows the unchanged value, and
    // the path did resolve to something actionable.
    assert!(console::poke(&mut root, "number", Some("oops"), &mut writer));
    assert_eq!(
        writer,
        "error: number \"oops\": invalid value\nnumber is \"5\"\n"
    );
    writer.clear();
    assert!(console::poke(&mut root, "sub", None, &mut writer));
    assert_eq!(writer, "sub.int is \"7\"\n");
    writer.clear();
    assert!(console::poke(&mut root, "run", Some("now"), &mut writer));
    assert_eq!(writer, "");
    writer.clear();
    assert!(!console::poke(&mut root, "nope", None, &mut writer));
    assert_eq!(writer, "unknown: nope\n");
    writer.clear();
    assert!(console::poke(&mut root, "", None, &mut writer));
    assert_eq!(
        writer,
        "number is \"5\"\nsub...\nrun\n"
    );
}

#[test]
fn print_lists_nodes() {
    let mut writer = String::new();
    let inner = Visit { nodes: vec![prop("int", 7, 7)] };
    let root = Visit {
        nodes: vec![
            prop("number", 42, 42),
            Node::List(List::new("sub", inner)),
            Node::Action(Action::new("run")),
        ],
    };
    console::print(&root, "", &mut writer);
    assert_eq!(writer, "number is \"42\"\nsub...\nrun\n");
    writer.clear();
    console::print(&root, "sub", &mut writer);
    assert_eq!(writer, "sub...\n");
    writer.clear();
    console::print(&root, "run", &mut writer);
    assert_eq!(writer, "run\n");
}

#[test]
fn reset_targets_props_and_whole_lists() {
    let inner = Visit { nodes: vec![prop("a", 5, 1), prop("b", 6, 2)] };
    let mut root = Visit {
        nodes: vec![prop("top", 9, 3), Node::List(List::new("sub", inner))],
    };
    assert!(console::reset(&mut root, "top"));
    assert_eq!(console::get_value(&root, "top"), Some(Value::Int(3)));
    assert!(console::reset(&mut root, "sub"));
    assert_eq!(console::get_value(&root, "sub.a"), Some(Value::Int(1)));
    assert_eq!(console::get_value(&root, "sub.b"), Some(Value::Int(2)));
    assert!(!console::reset(&mut root, "gone"));
}

#[test]
fn reset_all_resets_everything() {
    let inner = Visit { nodes: vec![prop("a", 5, 1)] };
    let mut root = Visit {
        nodes: vec![prop("top", 9, 3), Node::List(List::new("sub", inner))],
    };
    console::reset_all(&mut root);
    assert_eq!(console::get_value(&root, "top"), Some(Value::Int(3)));
    assert_eq!(console::get_value(&root, "sub.a"), Some(Value::Int(1)));
}

#[test]
fn find_reports_any_match() {
    let root = Visit { nodes: vec![prop("x", 0, 0)] };
    assert!(console::find(&root, "x"));
    assert!(!console::find(&root, "y"));
}

#[test]
fn last_matching_property_wins_on_read() {
    let root = Visit { nodes: vec![prop("x", 1, 1), prop("x", 2, 2)] };
    assert_eq!(console::get_value(&root, "x"), Some(Value::Int(2)));
    assert_eq!(console::get(&root, "x"), Some(String::from("2")));
}

#[test]
fn empty_names_are_ordinary() {
    let mut root = Visit { nodes: vec![prop("", 1, 1)] };
    let mut writer = String::new();
    assert!(console::find(&root, ""));
    assert!(console::set(&mut root, "", "7", &mut writer));
    assert_eq!(console::get_value(&root, ""), Some(Value::Int(7)));
    // An empty-named child inside a list is addressed by "list.".
    let inner = Visit { nodes: vec![prop("", 3, 3)] };
    let root2 = Visit { nodes: vec![Node::List(List::new("sub", inner))] };
    assert_eq!(console::get_value(&root2, "sub."), Some(Value::Int(3)));
}

#[test]
fn names_containing_separator_are_positional() {
    // A property named "foo.bar" is addressed by the path "foo.bar", yet no
    // "foo" list exists.
    let mut root = Visit { nodes: vec![prop("foo.bar", 0, 0)] };
    let mut writer = String::new();
    assert!(console::set(&mut root, "foo.bar", "8", &mut writer));
    assert_eq!(console::get_value(&root, "foo.bar"), Some(Value::Int(8)));
    assert!(!console::find(&root, "foo"));
}

#[test]
fn same_path_as_property_and_action() {
    // The same path may name both a property and an action: both handled.
    let mut root = Visit {
        nodes: vec![prop("go", 0, 0), Node::Action(Action::new("go"))],
    };
    let mut writer = String::new();
    assert!(console::set(&mut root, "go", "4", &mut writer));
    assert_eq!(console::get_value(&root, "go"), Some(Value::Int(4)));
    let matched = console::find_nodes(&root, "go");
    assert_eq!(matched.len(), 2);
    match &matched[1] {
        Node::Action(a) => assert_eq!(a.calls()[0], "4"),
        _ => panic!("expected an action"),
    }
}
