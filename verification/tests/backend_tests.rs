use emanager::compositors::compositor::{colors, default_color, other_colors, pick_color, rand_color, AdapterError};
use emanager::compositors::hypr::{Hypr, Reaction, WorkspaceState};
use emanager::compositors::niri::niri_editor::{ConfigEntry, ConfigNode, ConfigValue, Edit, NiriEditor};
use emanager::compositors::niri::{Direction, Niri};
use emanager::layout::Layout;

fn layouts(items: &[&str]) -> Vec<Layout> {
    items.iter().map(|s| Layout::try_from(*s).unwrap()).collect()
}

fn path(items: &[&str]) -> Vec<String> {
    items.iter().map(|s| s.to_string()).collect()
}

fn document(layout: Option<&str>, variant: Option<&str>) -> NiriEditor {
    let mut doc = NiriEditor::new();
    let xkb = path(&["input", "keyboard", "xkb"]);
    if let Some(layout) = layout {
        doc.set(&xkb, &"layout".to_string(), vec![ConfigValue::Text(layout.to_string())]);
    }
    if let Some(variant) = variant {
        doc.set(&xkb, &"variant".to_string(), vec![ConfigValue::Text(variant.to_string())]);
    }
    doc
}

#[test]
fn stepping_forward_by_one() {
    let available = layouts(&["en", "fr", "de"]);
    let steps = Niri::set_layout(&available[2], &available, &available[1]).unwrap();
    assert_eq!(steps, vec![Direction::Next]);
}

#[test]
fn stepping_back_by_two_without_wrapping() {
    let available = layouts(&["en", "fr", "de"]);
    let steps = Niri::set_layout(&available[0], &available, &available[2]).unwrap();
    assert_eq!(steps, vec![Direction::Prev, Direction::Prev]);
}

#[test]
fn stepping_from_the_first_to_the_last_walks_the_whole_list() {
    let available = layouts(&["en", "fr", "de", "es"]);
    let steps = Niri::set_layout(&available[3], &available, &available[0]).unwrap();
    assert_eq!(steps, vec![Direction::Next, Direction::Next, Direction::Next]);
}

#[test]
fn stepping_to_the_current_layout_is_nothing() {
    let available = layouts(&["en", "fr", "de"]);
    assert_eq!(Niri::set_layout(&available[1], &available, &available[1]).unwrap(), vec![]);
    let other = Layout::new("zz", None);
    assert_eq!(Niri::set_layout(&other, &available, &other).unwrap(), vec![]);
}

#[test]
fn stepping_fails_for_a_layout_that_is_not_listed() {
    let available = layouts(&["en", "fr", "de"]);
    let other = Layout::new("es", None);
    assert_eq!(Niri::set_layout(&other, &available, &available[0]).unwrap_err(), AdapterError::NotFound);
    assert_eq!(Niri::set_layout(&available[0], &available, &other).unwrap_err(), AdapterError::NotFound);
}

#[test]
fn available_layouts_pair_identifiers_and_variants() {
    let doc = document(Some("us,fr,de"), Some(",azerty,"));
    assert_eq!(Niri::get_available_layouts(&doc).unwrap(), layouts(&["us", "fr:azerty", "de"]));
    assert_eq!(Niri::get_first_layout_sequence(&doc).unwrap(), Layout::new("us", None));
}

#[test]
fn available_layouts_without_variants() {
    let doc = document(Some("us,fr"), None);
    assert_eq!(Niri::get_available_layouts(&doc).unwrap(), layouts(&["us", "fr"]));
    let mut doc = document(Some("us,fr"), None);
    doc.set(&path(&["input", "keyboard", "xkb"]), &"variant".to_string(), vec![]);
    assert_eq!(Niri::get_available_layouts(&doc).unwrap(), layouts(&["us", "fr"]));
}

#[test]
fn available_layouts_are_malformed_when_the_counts_differ() {
    let doc = document(Some("us,fr,de"), Some(",azerty"));
    assert_eq!(Niri::get_available_layouts(&doc).unwrap_err(), AdapterError::Malformed);
}

#[test]
fn available_layouts_are_malformed_when_one_stands_twice() {
    let doc = document(Some("us,fr,us"), None);
    assert_eq!(Niri::get_available_layouts(&doc).unwrap_err(), AdapterError::Malformed);
    let doc = document(Some("fr,fr"), Some("azerty,bepo"));
    assert_eq!(Niri::get_available_layouts(&doc).unwrap(), layouts(&["fr:azerty", "fr:bepo"]));
}

#[test]
fn available_layouts_are_malformed_when_the_list_is_empty_or_no_text() {
    assert_eq!(Niri::get_available_layouts(&document(Some(""), None)).unwrap_err(), AdapterError::Malformed);
    let mut doc = NiriEditor::new();
    let xkb = path(&["input", "keyboard", "xkb"]);
    doc.set(&xkb, &"layout".to_string(), vec![ConfigValue::Integer(3)]);
    assert_eq!(Niri::get_available_layouts(&doc).unwrap_err(), AdapterError::Malformed);
    doc.set(&xkb, &"layout".to_string(), vec![]);
    assert_eq!(Niri::get_available_layouts(&doc).unwrap_err(), AdapterError::Malformed);
    doc.set(&xkb, &"layout".to_string(), vec![ConfigValue::Text("us".to_string())]);
    doc.set(&xkb, &"variant".to_string(), vec![ConfigValue::Boolean(false)]);
    assert_eq!(Niri::get_available_layouts(&doc).unwrap_err(), AdapterError::Malformed);
    let mut doc = NiriEditor::new();
    doc.set(&xkb, &"other".to_string(), vec![]);
    assert_eq!(Niri::get_available_layouts(&doc).unwrap_err(), AdapterError::Malformed);
}

#[test]
fn available_layouts_are_not_found_without_the_keyboard_settings() {
    assert_eq!(Niri::get_available_layouts(&NiriEditor::new()).unwrap_err(), AdapterError::NotFound);
    let mut doc = NiriEditor::new();
    doc.set(&path(&["input"]), &"keyboard".to_string(), vec![]);
    assert_eq!(Niri::get_first_layout_sequence(&doc).unwrap_err(), AdapterError::NotFound);
}

#[test]
fn the_step_call_names_the_direction() {
    let call = Niri::change_layout(Direction::Next);
    assert_eq!(call.program, "niri");
    assert_eq!(call.args, path(&["msg", "action", "switch-layout", "next"]));
    assert_eq!(Niri::change_layout(Direction::Prev).args[3], "prev");
}

#[test]
fn a_step_fails_when_the_tool_reports_an_error() {
    assert_eq!(Niri::check(b""), Ok(()));
    assert_eq!(Niri::check(b"no such action"), Err(AdapterError::CliFailure));
}

#[test]
fn the_focus_ring_colour_is_set_in_the_document() {
    let mut doc = NiriEditor::new();
    Niri::change_color(&mut doc, "9ece6a");
    let got = doc.get(&path(&["layout", "focus-ring"]), &"active-color".to_string()).unwrap().unwrap();
    assert_eq!(got.len(), 1);
    assert_eq!(got[0].as_string(), Some("#9ece6a"));
}

#[test]
fn keywords_put_the_target_first_and_drop_it_from_the_rest() {
    let configured = layouts(&["us", "fr:azerty", "de"]);
    let update = Hypr::set_layout(&configured[1], &configured);
    assert_eq!(update.layouts, "fr,us,de");
    assert_eq!(update.variants, "azerty,,");
    let update = Hypr::set_layout(&configured[0], &configured);
    assert_eq!(update.layouts, "us,fr,de");
    assert_eq!(update.variants, ",azerty,");
}

#[test]
fn keywords_of_a_lone_target_have_no_comma() {
    let configured = layouts(&["fr"]);
    let update = Hypr::set_layout(&configured[0], &configured);
    assert_eq!(update.layouts, "fr");
    assert_eq!(update.variants, "");
    let update = Hypr::set_layout(&Layout::new("fr", Some("azerty")), &[]);
    assert_eq!(update.layouts, "fr");
    assert_eq!(update.variants, "azerty");
}

#[test]
fn available_layouts_are_malformed_when_an_identifier_is_empty() {
    assert_eq!(Niri::get_available_layouts(&document(Some("us,,fr"), None)).unwrap_err(), AdapterError::Malformed);
    assert_eq!(Niri::get_available_layouts(&document(Some("us,"), Some(","))).unwrap_err(), AdapterError::Malformed);
    assert_eq!(Niri::get_available_layouts(&document(Some(",us"), Some("x,"))).unwrap_err(), AdapterError::Malformed);
}

fn apply(nodes: &mut Vec<ConfigNode>, edits: &[Edit]) {
    let Some((first, rest)) = edits.split_first() else {
        return;
    };
    match first {
        Edit::Enter { index } => apply(nodes[*index].children.get_or_insert_with(Vec::new), rest),
        Edit::Create { name } => {
            nodes.push(ConfigNode { name: name.clone(), entries: vec![], children: Some(vec![]) });
            apply(nodes.last_mut().unwrap().children.as_mut().unwrap(), rest)
        }
        Edit::Replace { index, values } => {
            nodes[*index].entries =
                values.iter().map(|v| ConfigEntry { name: None, value: v.clone() }).collect();
        }
        Edit::Append { name, values } => nodes.push(ConfigNode {
            name: name.clone(),
            entries: values.iter().map(|v| ConfigEntry { name: None, value: v.clone() }).collect(),
            children: None,
        }),
    }
}

fn shape(nodes: &[ConfigNode]) -> String {
    nodes
        .iter()
        .map(|n| {
            let entries: Vec<String> = n.entries.iter().map(|e| format!("{:?}", e.value)).collect();
            let below = match &n.children {
                Some(c) => format!("{{{}}}", shape(c)),
                None => String::new(),
            };
            format!("{}[{}]{}", n.name, entries.join(","), below)
        })
        .collect::<Vec<String>>()
        .join(" ")
}

#[test]
fn the_steps_of_a_change_leave_what_set_leaves() {
    let mut start = NiriEditor::new();
    start.set(&path(&["a"]), &"x".to_string(), vec![ConfigValue::Integer(1)]);
    start.set(&[], &"b".to_string(), vec![ConfigValue::Boolean(true)]);
    let cases: Vec<(Vec<String>, &str)> = vec![
        (path(&[]), "b"),
        (path(&[]), "c"),
        (path(&["a"]), "x"),
        (path(&["a"]), "y"),
        (path(&["b"]), "z"),
        (path(&["n", "m"]), "k"),
        (path(&["a", "x", "deep"]), "k"),
    ];
    for (paths, key) in cases {
        let values = || vec![ConfigValue::Text("v".to_string()), ConfigValue::Null];
        let edits = start.edits(&paths, &key.to_string(), values());
        assert_eq!(edits.len(), paths.len() + 1);
        let mut by_steps = NiriEditor { nodes: start.nodes.iter().map(copy).collect() };
        apply(&mut by_steps.nodes, &edits);
        let mut by_set = NiriEditor { nodes: start.nodes.iter().map(copy).collect() };
        by_set.set(&paths, &key.to_string(), values());
        assert_eq!(shape(&by_steps.nodes), shape(&by_set.nodes));
    }
}

fn copy(node: &ConfigNode) -> ConfigNode {
    ConfigNode {
        name: node.name.clone(),
        entries: node.entries.iter().map(|e| ConfigEntry { name: e.name.clone(), value: e.value.clone() }).collect(),
        children: node.children.as_ref().map(|c| c.iter().map(copy).collect()),
    }
}

#[test]
fn the_steps_of_a_change_name_places_and_new_nodes() {
    let mut doc = NiriEditor::new();
    doc.set(&path(&["layout"]), &"gaps".to_string(), vec![ConfigValue::Integer(8)]);
    let edits = Niri::color_edits(&doc, "9ece6a");
    assert_eq!(edits.len(), 3);
    assert!(matches!(edits[0], Edit::Enter { index: 0 }));
    assert!(matches!(&edits[1], Edit::Create { name } if name == "focus-ring"));
    match &edits[2] {
        Edit::Append { name, values } => {
            assert_eq!(name, "active-color");
            assert_eq!(values.len(), 1);
            assert_eq!(values[0].as_string(), Some("#9ece6a"));
        }
        other => panic!("not an append: {:?}", other),
    }
    Niri::change_color(&mut doc, "7aa2f7");
    let edits = Niri::color_edits(&doc, "9ece6a");
    assert!(matches!(edits[0], Edit::Enter { index: 0 }));
    assert!(matches!(edits[1], Edit::Enter { index: 1 }));
    assert!(matches!(edits[2], Edit::Replace { index: 0, .. }));
}

#[test]
fn keywords_for_a_target_that_is_not_configured_keep_all_configured() {
    let configured = layouts(&["us", "fr:azerty"]);
    let update = Hypr::set_layout(&Layout::new("fr", None), &configured);
    assert_eq!(update.layouts, "fr,us,fr");
    assert_eq!(update.variants, ",,azerty");
}

#[test]
fn the_active_layout_is_the_first_place_of_each_keyword() {
    assert_eq!(Hypr::get_first_layout_sequence(Some("fr,us"), Some("azerty,")).unwrap(), Layout::new("fr", Some("azerty")));
    assert_eq!(Hypr::get_first_layout_sequence(Some("us,fr"), Some(",azerty")).unwrap(), Layout::new("us", None));
    assert_eq!(Hypr::get_first_layout_sequence(Some("us"), None).unwrap(), Layout::new("us", None));
    assert_eq!(Hypr::get_first_layout_sequence(Some("us"), Some("")).unwrap(), Layout::new("us", None));
}

#[test]
fn the_active_layout_is_malformed_without_a_first_layout() {
    assert_eq!(Hypr::get_first_layout_sequence(None, Some("azerty")).unwrap_err(), AdapterError::Malformed);
    assert_eq!(Hypr::get_first_layout_sequence(Some(""), None).unwrap_err(), AdapterError::Malformed);
    assert_eq!(Hypr::get_first_layout_sequence(Some(",us"), None).unwrap_err(), AdapterError::Malformed);
}

#[test]
fn the_border_keyword_wraps_the_colour() {
    assert_eq!(Hypr::change_color("7aa2f7"), "rgba(7aa2f7ee)");
}

#[test]
fn workspaces_are_filled_up_to_five_and_sorted() {
    let reported = vec![WorkspaceState::new(7, 1, false), WorkspaceState::new(3, 2, true)];
    let shown = Hypr::change_workspace(reported);
    let ids: Vec<i32> = shown.iter().map(|s| s.id).collect();
    assert_eq!(ids, vec![1, 2, 3, 4, 5, 7]);
    assert_eq!(shown[2], WorkspaceState { id: 3, windows: 2, active: true });
    assert_eq!(shown[0], WorkspaceState { id: 1, windows: 0, active: false });
    assert_eq!(shown[5], WorkspaceState { id: 7, windows: 1, active: false });
}

#[test]
fn workspaces_with_one_number_keep_their_order() {
    let reported = vec![WorkspaceState::new(2, 9, false), WorkspaceState::new(-1, 0, false), WorkspaceState::new(2, 1, true)];
    let shown = Hypr::change_workspace(reported);
    let ids: Vec<i32> = shown.iter().map(|s| s.id).collect();
    assert_eq!(ids, vec![-1, 1, 2, 2, 3, 4, 5]);
    assert_eq!(shown[2].windows, 9);
    assert_eq!(shown[3].windows, 1);
}

#[test]
fn no_workspace_reported_shows_five_empty_ones() {
    let shown = Hypr::change_workspace(vec![]);
    assert_eq!(shown.len(), 5);
    for (i, s) in shown.iter().enumerate() {
        assert_eq!(*s, WorkspaceState { id: i as i32 + 1, windows: 0, active: false });
    }
}

#[test]
fn events_are_told_apart_by_their_names() {
    assert_eq!(Hypr::react("workspace>>3", false), Reaction::ChangeWorkspace);
    assert_eq!(Hypr::react("workspacev2>>3,3", true), Reaction::ChangeWorkspace);
    assert_eq!(Hypr::react("activewindowv2>>55fa", true), Reaction::ChangeColor);
    assert_eq!(Hypr::react("activewindowv2>>55fa", false), Reaction::Ignore);
    assert_eq!(Hypr::react("activewindow>>kitty,~", true), Reaction::Ignore);
    assert_eq!(Hypr::react("", true), Reaction::Ignore);
}

#[test]
fn the_stored_colour_wins_over_the_default() {
    assert_eq!(Hypr::get_color(Some("9ece6a".to_string())), "9ece6a");
    assert_eq!(Hypr::get_color(None), "7aa2f7");
    assert_eq!(default_color(), "7aa2f7");
}

#[test]
fn there_are_six_colours() {
    assert_eq!(colors(), path(&["7aa2f7", "9ece6a", "e0af68", "bb9af7", "7dcfff", "c0caf5"]));
}

#[test]
fn the_other_colours_leave_the_current_one_out() {
    assert_eq!(other_colors(&"e0af68".to_string()), path(&["7aa2f7", "9ece6a", "bb9af7", "7dcfff", "c0caf5"]));
    assert_eq!(other_colors(&"none".to_string()).len(), 6);
}

#[test]
fn a_colour_is_picked_by_its_place_among_the_others() {
    let current = "7aa2f7".to_string();
    assert_eq!(pick_color(&current, Some(0)), "9ece6a");
    assert_eq!(pick_color(&current, Some(4)), "c0caf5");
    assert_eq!(pick_color(&current, Some(5)), "7aa2f7");
    assert_eq!(pick_color(&current, None), "7aa2f7");
}

#[test]
fn a_random_colour_is_never_the_current_one() {
    let all = colors();
    for current in all.iter() {
        for _ in 0..50 {
            let picked = rand_color(current);
            assert_ne!(&picked, current);
            assert!(all.contains(&picked));
        }
    }
}

#[test]
fn a_random_colour_is_not_always_the_same() {
    let current = "7aa2f7".to_string();
    let first = rand_color(&current);
    assert!((0..200).any(|_| rand_color(&current) != first));
}

#[test]
fn a_failure_of_the_transport_is_a_failure_of_the_socket() {
    assert_eq!(Hypr::check(true), Ok(()));
    assert_eq!(Hypr::check(false), Err(AdapterError::Ipc));
}
