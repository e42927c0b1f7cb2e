//! The window tree as a tree of application identifiers, and its flattening
//! into the list that the menu shows.
use vstd::prelude::*;
use crate::value::{Json, lookup, member, field, members, is_string, is_empty_value, text};

verus! {

/// A node of the window tree: the identifier it shows in the menu (empty when
/// it shows none), its tiled children and its floating children.
pub struct Node {
    pub app_id: String,
    pub nodes: Vec<Node>,
    pub floating_nodes: Vec<Node>,
}

/// Whether a scene-graph node is a window container, tiled or floating.
pub open spec fn is_container(n: Json) -> bool {
    is_string(field(n, "type"@), "con"@) || is_string(field(n, "type"@), "floating_con"@)
}

/// The identifier that a scene-graph node shows: for a container, the text of
/// its `app_id` or, when that is null or empty, of its `name`; nothing when
/// both are null or empty, and nothing for any other kind of node.
pub open spec fn identifier_of(n: Json) -> Seq<char> {
    if !is_container(n) {
        Seq::empty()
    } else if !is_empty_value(field(n, "app_id"@)) {
        text(field(n, "app_id"@))
    } else if !is_empty_value(field(n, "name"@)) {
        text(field(n, "name"@))
    } else {
        Seq::empty()
    }
}

/// A value that `lookup` finds is the value of one of the entries.
pub proof fn lemma_lookup_found(m: Seq<(String, Json)>, key: Seq<char>)
    requires
        lookup(m, key) is Some,
    ensures
        exists|i: int| 0 <= i < m.len() && m[i].1 == lookup(m, key)->0,
    decreases m.len(),
{
    if m[0].0@ != key {
        let rest = m.subrange(1, m.len() as int);
        lemma_lookup_found(rest, key);
        let i = choose|i: int| 0 <= i < rest.len() && rest[i].1 == lookup(rest, key)->0;
        assert(m[i + 1] == rest[i]);
    } else {
        assert(m[0].1 == lookup(m, key)->0);
    }
}

/// The elements of the array under `key` lie strictly below `n` in the
/// document, so a walk that descends into them ends.
pub proof fn lemma_children_below(n: Json, key: Seq<char>)
    ensures
        forall|j: int|
            0 <= j < members(field(n, key)).len() ==> decreases_to!(n => members(field(n, key))[j]),
{
    if let Json::Object(m) = n {
        if let Some(x) = lookup(m@, key) {
            lemma_lookup_found(m@, key);
            let i = choose|i: int| 0 <= i < m@.len() && m@[i].1 == x;
            vstd::std_specs::vec::axiom_vec_index_decreases(m, i);
            assert(decreases_to!(n => n->Object_0));
            assert(decreases_to!(m[i] => m[i].1));
            if let Json::Array(a) = x {
                assert(decreases_to!(x => x->Array_0));
                assert forall|j: int| 0 <= j < a@.len() implies decreases_to!(n => a@[j]) by {
                    vstd::std_specs::vec::axiom_vec_index_decreases(a, j);
                }
            }
        }
    }
}

/// `node` is the tree built from the scene-graph node `n`: it carries the
/// identifier of `n`, and one child for each element of `n`'s `nodes` and
/// `floating_nodes` arrays, in order, built the same way.
pub open spec fn built_from(node: Node, n: Json) -> bool
    decreases n,
{
    proof {
        lemma_children_below(n, "nodes"@);
        lemma_children_below(n, "floating_nodes"@);
    }
    let tiled = members(field(n, "nodes"@));
    let floating = members(field(n, "floating_nodes"@));
    &&& node.app_id@ == identifier_of(n)
    &&& node.nodes@.len() == tiled.len()
    &&& forall|j: int| 0 <= j < tiled.len() ==> built_from(node.nodes@[j], tiled[j])
    &&& node.floating_nodes@.len() == floating.len()
    &&& forall|j: int| 0 <= j < floating.len() ==> built_from(node.floating_nodes@[j], floating[j])
}

/// The identifier that a scene-graph node shows (see `identifier_of`).
fn identifier(n: &Json) -> (r: String)
    ensures
        r@ == identifier_of(*n),
{
    let container = match n.get("type") {
        Some(t) => t.is_str("con") || t.is_str("floating_con"),
        None => false,
    };
    if !container {
        return String::new();
    }
    if let Some(app) = n.get("app_id") {
        if !app.is_empty() {
            return app.to_text();
        }
    }
    if let Some(name) = n.get("name") {
        if !name.is_empty() {
            return name.to_text();
        }
    }
    String::new()
}

/// The trees built from the elements of the array under `key`.
fn children(n: &Json, key: &str) -> (r: Vec<Node>)
    ensures
        r@.len() == members(field(*n, key@)).len(),
        forall|j: int| 0 <= j < r@.len() ==> built_from(#[trigger] r@[j], members(field(*n, key@))[j]),
    decreases *n, 0int,
{
    let mut out: Vec<Node> = Vec::new();
    if let Some(Json::Array(a)) = n.get(key) {
        proof {
            lemma_children_below(*n, key@);
        }
        let mut i: usize = 0;
        while i < a.len()
            invariant
                0 <= i <= a.len(),
                members(field(*n, key@)) == a@,
                forall|j: int| 0 <= j < a@.len() ==> decreases_to!(*n => a@[j]),
                out@.len() == i,
                forall|j: int| 0 <= j < i ==> built_from(#[trigger] out@[j], a@[j]),
            decreases a.len() - i,
        {
            let child = Node::new(&a[i]);
            out.push(child);
            i += 1;
        }
    }
    out
}

impl Node {
    /// Builds the tree of a scene-graph node: its identifier, and its tiled
    /// and floating children, each built the same way.
    pub fn new(n: &Json) -> (r: Node)
        ensures
            built_from(r, *n),
        decreases *n, 1int,
    {
        let app_id = identifier(n);
        let nodes = children(n, "nodes");
        let floating_nodes = children(n, "floating_nodes");
        let r = Node { app_id, nodes, floating_nodes };
        proof {
            reveal_with_fuel(built_from, 2);
        }
        r
    }
}

/// The identifiers of a tree in pre-order: the node's own, when it is not
/// empty, then those of its tiled children, then those of its floating
/// children.
pub open spec fn app_ids(node: Node) -> Seq<Seq<char>>
    decreases node,
{
    let own: Seq<Seq<char>> = if node.app_id@.len() == 0 {
        Seq::empty()
    } else {
        seq![node.app_id@]
    };
    own + app_ids_of_all(node.nodes@) + app_ids_of_all(node.floating_nodes@)
}

/// The identifiers of a sequence of trees, one tree after the other.
pub open spec fn app_ids_of_all(s: Seq<Node>) -> Seq<Seq<char>>
    decreases s,
{
    if s.len() == 0 {
        Seq::empty()
    } else {
        app_ids_of_all(s.subrange(0, s.len() - 1)) + app_ids(s[s.len() - 1])
    }
}

/// Each identifier preceded by a newline, all in one text.
pub open spec fn lines(ids: Seq<Seq<char>>) -> Seq<char>
    decreases ids.len(),
{
    if ids.len() == 0 {
        Seq::empty()
    } else {
        lines(ids.subrange(0, ids.len() - 1)) + "\n"@ + ids[ids.len() - 1]
    }
}

/// `s` without the newlines it starts with.
pub open spec fn trim_leading_newlines(s: Seq<char>) -> Seq<char>
    decreases s.len(),
{
    if s.len() > 0 && s[0] == '\n' {
        trim_leading_newlines(s.subrange(1, s.len() as int))
    } else {
        s
    }
}

/// The menu's list for a tree: its identifiers in pre-order, one per line.
pub open spec fn listing(node: Node) -> Seq<char> {
    trim_leading_newlines(lines(app_ids(node)))
}

/// The lines of two lists one after the other are the lines of the joined list.
pub proof fn lemma_lines_concat(a: Seq<Seq<char>>, b: Seq<Seq<char>>)
    ensures
        lines(a + b) == lines(a) + lines(b),
    decreases b.len(),
{
    if b.len() == 0 {
        assert(a + b =~= a);
        assert(lines(b) =~= Seq::<char>::empty());
        assert(lines(a) + lines(b) =~= lines(a));
    } else {
        let bl = b.subrange(0, b.len() - 1);
        lemma_lines_concat(a, bl);
        assert((a + b).subrange(0, (a + b).len() - 1) =~= a + bl);
        assert(lines(a) + lines(b) =~= lines(a) + lines(bl) + "\n"@ + b[b.len() - 1]);
    }
}

/// The lines of one identifier, and of none.
pub proof fn lemma_lines_short(id: Seq<char>)
    ensures
        lines(seq![id]) == "\n"@ + id,
        lines(Seq::empty()) == Seq::<char>::empty(),
{
    let one = seq![id];
    assert(one.subrange(0, 0) =~= Seq::<Seq<char>>::empty());
    assert(lines(one.subrange(0, 0)) == Seq::<char>::empty());
    assert(lines(one) == lines(one.subrange(0, 0)) + "\n"@ + one[0]);
    assert(Seq::<char>::empty() + "\n"@ + id =~= "\n"@ + id);
}

/// Appends the lines of every tree in `trees`.
fn push_apps(trees: &Vec<Node>, apps: &mut String)
    ensures
        final(apps)@ == old(apps)@ + lines(app_ids_of_all(trees@)),
    decreases *trees,
{
    let mut i: usize = 0;
    while i < trees.len()
        invariant
            0 <= i <= trees.len(),
            apps@ == old(apps)@ + lines(app_ids_of_all(trees@.subrange(0, i as int))),
        decreases trees.len() - i,
    {
        let c = &trees[i];
        let ghost before = apps@;
        let ghost own: Seq<Seq<char>> = if c.app_id@.len() == 0 {
            Seq::empty()
        } else {
            seq![c.app_id@]
        };
        if c.app_id.as_str().unicode_len() > 0 {
            apps.append("\n");
            apps.append(c.app_id.as_str());
        }
        proof {
            lemma_lines_short(c.app_id@);
            assert(apps@ =~= before + lines(own));
        }
        proof {
            vstd::std_specs::vec::axiom_vec_index_decreases(*trees, i as int);
        }
        push_apps(&c.nodes, apps);
        push_apps(&c.floating_nodes, apps);
        proof {
            let done = trees@.subrange(0, i as int);
            assert(trees@.subrange(0, i + 1).subrange(0, i as int) =~= done);
            lemma_lines_concat(app_ids_of_all(done), app_ids(*c));
            lemma_lines_concat(own + app_ids_of_all(c.nodes@), app_ids_of_all(c.floating_nodes@));
            lemma_lines_concat(own, app_ids_of_all(c.nodes@));
        }
        i += 1;
    }
    assert(trees@.subrange(0, trees.len() as int) =~= trees@);
}

/// Appends the lines of every descendant of `node`, tiled children first,
/// each before its own descendants.
fn recursive_node_apps(node: &Node, apps: &mut String)
    ensures
        final(apps)@ == old(apps)@ + lines(app_ids_of_all(node.nodes@) + app_ids_of_all(node.floating_nodes@)),
{
    push_apps(&node.nodes, apps);
    push_apps(&node.floating_nodes, apps);
    proof {
        lemma_lines_concat(app_ids_of_all(node.nodes@), app_ids_of_all(node.floating_nodes@));
    }
}

/// A tree built from a scene-graph node that shows no identifier and has no
/// children lists nothing.
pub proof fn lemma_bare_node_lists_nothing(node: Node, n: Json)
    requires
        built_from(node, n),
        identifier_of(n).len() == 0,
        members(field(n, "nodes"@)).len() == 0,
        members(field(n, "floating_nodes"@)).len() == 0,
    ensures
        listing(node) == Seq::<char>::empty(),
{
    assert(app_ids_of_all(node.nodes@) =~= Seq::empty());
    assert(app_ids_of_all(node.floating_nodes@) =~= Seq::empty());
    assert(app_ids(node) =~= Seq::empty());
    lemma_lines_short(Seq::empty());
}

/// `s` without the newlines it starts with.
fn trim_start_newlines(s: &str) -> (r: String)
    ensures
        r@ == trim_leading_newlines(s@),
{
    let len = s.unicode_len();
    let mut i: usize = 0;
    assert(s@.subrange(0, len as int) =~= s@);
    while i < len && s.get_char(i) == '\n'
        invariant
            0 <= i <= len,
            len == s@.len(),
            trim_leading_newlines(s@) == trim_leading_newlines(s@.subrange(i as int, len as int)),
        decreases len - i,
    {
        proof {
            let rest = s@.subrange(i as int, len as int);
            assert(rest.subrange(1, rest.len() as int) =~= s@.subrange(i + 1, len as int));
        }
        i += 1;
    }
    String::from_str(s.substring_char(i, len))
}

/// The menu's list for a tree: the identifiers of the tree in pre-order
/// (parent before children, tiled children before floating ones), one per
/// line, without leading newlines.
pub fn get_apps(node: Node) -> (r: String)
    ensures
        r@ == listing(node),
{
    let mut apps = String::new();
    if node.app_id.as_str().unicode_len() > 0 {
        apps.append("\n");
        apps.append(node.app_id.as_str());
    }
    let ghost own = apps@;
    recursive_node_apps(&node, &mut apps);
    proof {
        let o: Seq<Seq<char>> = if node.app_id@.len() == 0 {
            Seq::empty()
        } else {
            seq![node.app_id@]
        };
        lemma_lines_short(node.app_id@);
        assert(own =~= lines(o));
        lemma_lines_concat(o, app_ids_of_all(node.nodes@) + app_ids_of_all(node.floating_nodes@));
        assert(o + (app_ids_of_all(node.nodes@) + app_ids_of_all(node.floating_nodes@)) =~= app_ids(node));
    }
    trim_start_newlines(apps.as_str())
}

} // verus!
