use edge_rules::node_data::{NodeData, NodeDataEnum};
use edge_rules::variables::{find_named_ancestor, variable_path_start, PathStart};

fn names(parts: &[&str]) -> Vec<String> {
    parts.iter().map(|p| p.to_string()).collect()
}

// root(0) <- calendar(1) <- config(2) <- #child(3)
fn tree() -> Vec<NodeData> {
    vec![
        NodeData::new(NodeDataEnum::Root),
        NodeData::new(NodeDataEnum::Child("calendar".to_string(), Some(0))),
        NodeData::new(NodeDataEnum::Child("config".to_string(), Some(1))),
        NodeData::new(NodeDataEnum::Internal(Some(2))),
    ]
}

#[test]
fn it_is_the_filter_item() {
    let nodes = tree();
    assert_eq!(
        variable_path_start(&names(&["it"]), &Vec::new(), &nodes, 3),
        PathStart::ContextVariable
    );
}

#[test]
fn self_qualified_paths_start_at_the_named_context() {
    let nodes = tree();
    assert_eq!(
        variable_path_start(&names(&["calendar", "shift"]), &Vec::new(), &nodes, 3),
        PathStart::Browse { node: 1, skipped: 1, find_root: false }
    );
    assert_eq!(
        variable_path_start(&names(&["config", "start"]), &Vec::new(), &nodes, 2),
        PathStart::Browse { node: 2, skipped: 1, find_root: false }
    );
}

#[test]
fn parameters_come_before_context_names() {
    let nodes = tree();
    assert_eq!(
        variable_path_start(&names(&["calendar", "shift"]), &names(&["calendar"]), &nodes, 3),
        PathStart::Browse { node: 3, skipped: 0, find_root: false }
    );
}

#[test]
fn other_paths_are_looked_up_from_the_root() {
    let nodes = tree();
    assert_eq!(
        variable_path_start(&names(&["input", "status"]), &Vec::new(), &nodes, 3),
        PathStart::Browse { node: 3, skipped: 0, find_root: true }
    );
    assert_eq!(
        variable_path_start(&Vec::new(), &Vec::new(), &nodes, 3),
        PathStart::Browse { node: 3, skipped: 0, find_root: true }
    );
    assert_eq!(
        variable_path_start(&names(&["it", "x"]), &Vec::new(), &nodes, 0),
        PathStart::Browse { node: 0, skipped: 0, find_root: true }
    );
}

#[test]
fn climbing_stops_at_the_nearest_match() {
    let mut nodes = tree();
    nodes.push(NodeData::new(NodeDataEnum::Child("calendar".to_string(), Some(3))));
    assert_eq!(find_named_ancestor(&nodes, 4, "calendar"), Some(4));
    assert_eq!(find_named_ancestor(&nodes, 3, "calendar"), Some(1));
    assert_eq!(find_named_ancestor(&nodes, 3, "missing"), None);
    assert_eq!(find_named_ancestor(&nodes, 0, "calendar"), None);
}
