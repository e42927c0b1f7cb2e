use sway_launcher::tree::{get_apps, Node};
use sway_launcher::value::{Json, Number};

fn text(s: &str) -> Json {
    Json::Str(s.to_string())
}

fn object(members: Vec<(&str, Json)>) -> Json {
    Json::Object(members.into_iter().map(|(k, v)| (k.to_string(), v)).collect())
}

fn window(kind: &str, app_id: Json, name: Json, nodes: Vec<Json>, floating: Vec<Json>) -> Json {
    object(vec![
        ("type", text(kind)),
        ("app_id", app_id),
        ("name", name),
        ("nodes", Json::Array(nodes)),
        ("floating_nodes", Json::Array(floating)),
    ])
}

fn leaf(app_id: &str) -> Json {
    window("con", text(app_id), text("title"), vec![], vec![])
}

fn apps_of(tree: &Json) -> String {
    get_apps(Node::new(tree))
}

#[test]
fn bare_node_lists_nothing() {
    let n = object(vec![("type", text("con"))]);
    assert_eq!(apps_of(&n), "");
    assert_eq!(apps_of(&Json::Null), "");
}

#[test]
fn tree_is_listed_in_pre_order() {
    let workspace = window(
        "workspace",
        Json::Null,
        text("1"),
        vec![leaf("firefox"), window("con", text("foot"), Json::Null, vec![leaf("inner")], vec![])],
        vec![window("floating_con", text("mpv"), Json::Null, vec![], vec![])],
    );
    let output = window("output", Json::Null, text("eDP-1"), vec![workspace], vec![]);
    let root = window("root", Json::Null, text("root"), vec![output], vec![]);
    assert_eq!(apps_of(&root), "firefox\nfoot\ninner\nmpv");
}

#[test]
fn floating_children_come_after_tiled_ones() {
    let root = window(
        "con",
        text("top"),
        Json::Null,
        vec![leaf("a"), leaf("b")],
        vec![leaf("c")],
    );
    assert_eq!(apps_of(&root), "top\na\nb\nc");
    let floating_first_in_document = object(vec![
        ("floating_nodes", Json::Array(vec![leaf("c")])),
        ("nodes", Json::Array(vec![leaf("a")])),
    ]);
    assert_eq!(apps_of(&floating_first_in_document), "a\nc");
}

#[test]
fn name_is_used_when_app_id_is_null_or_empty() {
    let a = window("con", Json::Null, text("Firefox"), vec![], vec![]);
    assert_eq!(apps_of(&a), "Firefox");
    let b = window("con", text(""), text("Editor"), vec![], vec![]);
    assert_eq!(apps_of(&b), "Editor");
    let c = window("con", text(""), text(""), vec![], vec![]);
    assert_eq!(apps_of(&c), "");
}

#[test]
fn other_node_kinds_show_nothing() {
    let ws = window("workspace", text("x"), text("1"), vec![leaf("foot")], vec![]);
    assert_eq!(apps_of(&ws), "foot");
    let untyped = object(vec![("app_id", text("x")), ("nodes", Json::Array(vec![leaf("y")]))]);
    assert_eq!(apps_of(&untyped), "y");
}

#[test]
fn non_string_identifiers_use_their_json_text() {
    let num = |positive: bool, mantissa: u64, exponent: i16| Json::Num(Number { positive, mantissa, exponent });
    assert_eq!(apps_of(&window("con", num(true, 5, 0), Json::Null, vec![], vec![])), "5");
    assert_eq!(apps_of(&window("con", num(false, 15, -1), Json::Null, vec![], vec![])), "-1.5");
    assert_eq!(apps_of(&window("con", num(true, 0, 0), text("zero"), vec![], vec![])), "zero");
    assert_eq!(apps_of(&window("con", Json::Boolean(true), Json::Null, vec![], vec![])), "true");
    assert_eq!(apps_of(&window("con", Json::Boolean(false), text("no"), vec![], vec![])), "no");
    let arr = Json::Array(vec![num(true, 1, 0), text("a\"b"), Json::Null]);
    assert_eq!(apps_of(&window("con", arr, Json::Null, vec![], vec![])), "[1,\"a\\\"b\",null]");
    let obj = object(vec![("k", Json::Boolean(false)), ("l", Json::Array(vec![]))]);
    assert_eq!(apps_of(&window("con", obj, Json::Null, vec![], vec![])), "{\"k\":false,\"l\":[]}");
}

#[test]
fn leading_newlines_are_trimmed() {
    let root = window("con", text("\n\nx"), Json::Null, vec![leaf("y")], vec![]);
    assert_eq!(apps_of(&root), "x\ny");
}

#[test]
fn first_member_of_a_name_wins() {
    let n = object(vec![("a", text("one")), ("a", text("two"))]);
    match n.get("a") {
        Some(Json::Str(s)) => assert_eq!(s, "one"),
        _ => panic!("member not found"),
    }
    assert!(n.get("b").is_none());
    assert!(text("a").get("a").is_none());
}

#[test]
fn emptiness_follows_json() {
    assert!(Json::Null.is_empty());
    assert!(text("").is_empty());
    assert!(!text("a").is_empty());
    assert!(Json::Num(Number { positive: true, mantissa: 0, exponent: 3 }).is_empty());
    assert!(!Json::Boolean(true).is_empty());
    assert!(Json::Array(vec![]).is_empty());
    assert!(!object(vec![("a", Json::Null)]).is_empty());
    assert!(text("con").is_str("con"));
    assert!(!Json::Null.is_str("con"));
    assert_eq!(Json::Null.dump(), "null");
    assert_eq!(text("x").to_text(), "x");
    assert_eq!(text("x").dump(), "\"x\"");
}
