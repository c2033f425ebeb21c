//! The tree of a walk as indented text and as a structured document.

use crate::json::{member, member_from, Json, JsonView, Member};
use crate::tree::{TreeNode, TreeNodeView};
use vstd::prelude::*;

verus! {

/// The glyph in front of a node: one for the last of its siblings, another
/// for the rest.
pub open spec fn branch_glyph(last: bool) -> Seq<char> {
    if last {
        "└── "@
    } else {
        "├── "@
    }
}

/// What the lines below a node are indented with: blanks below the last of
/// its siblings, a vertical bar below the rest.
pub open spec fn indent_glyph(last: bool) -> Seq<char> {
    if last {
        "    "@
    } else {
        "│   "@
    }
}

/// What a line says of its node: the name, and the path in brackets.
pub open spec fn label(name: Seq<char>, path: Seq<char>) -> Seq<char> {
    name + " ("@ + path + ")"@
}

/// The lines of the first `upto` of `nodes` and of all that is below them,
/// depth first. A node's line is the prefix, its glyph and its label; the
/// lines below it have the prefix one indent longer.
pub open spec fn tree_lines(nodes: Seq<TreeNodeView>, prefix: Seq<char>, upto: int) -> Seq<
    Seq<char>,
>
    decreases nodes, upto,
{
    if upto <= 0 || upto > nodes.len() {
        Seq::empty()
    } else {
        let node = nodes[upto - 1];
        let last = upto == nodes.len();
        tree_lines(nodes, prefix, upto - 1).push(
            prefix + branch_glyph(last) + label(node.name, node.path),
        ) + tree_lines(node.children, prefix + indent_glyph(last), node.children.len() as int)
    }
}

/// The text of some lines: each followed by a line feed.
pub open spec fn lines_text(lines: Seq<Seq<char>>) -> Seq<char>
    decreases lines.len(),
{
    if lines.len() == 0 {
        Seq::empty()
    } else {
        lines_text(lines.drop_last()) + lines.last() + seq!['\n']
    }
}

/// The text rendering of a tree.
pub open spec fn tree_text(nodes: Seq<TreeNodeView>, prefix: Seq<char>) -> Seq<char> {
    lines_text(tree_lines(nodes, prefix, nodes.len() as int))
}

/// The text of two runs of lines is the text of the first and then that of
/// the second.
pub proof fn lemma_lines_text_concat(first: Seq<Seq<char>>, second: Seq<Seq<char>>)
    ensures
        lines_text(first + second) == lines_text(first) + lines_text(second),
    decreases second.len(),
{
    if second.len() == 0 {
        assert(first + second =~= first);
        assert(lines_text(first) + lines_text(second) =~= lines_text(first));
    } else {
        lemma_lines_text_concat(first, second.drop_last());
        assert((first + second).drop_last() =~= first + second.drop_last());
        assert((first + second).last() == second.last());
        assert(lines_text(first + second) =~= lines_text(first) + lines_text(second));
    }
}

fn append_tree(nodes: &Vec<TreeNode>, prefix: &str, out: &mut String)
    ensures
        final(out)@ == old(out)@ + tree_text(nodes.deep_view(), prefix@),
    decreases nodes,
{
    let ghost start = out@;
    let ghost all = nodes.deep_view();
    let mut i: usize = 0;
    assert(out@ =~= start + lines_text(tree_lines(all, prefix@, 0)));
    while i < nodes.len()
        invariant
            i <= nodes.len(),
            all == nodes.deep_view(),
            out@ == start + lines_text(tree_lines(all, prefix@, i as int)),
        decreases nodes.len() - i,
    {
        let node = &nodes[i];
        let last = i + 1 == nodes.len();
        let ghost done = tree_lines(all, prefix@, i as int);
        let ghost line = prefix@ + branch_glyph(last) + label(node@.name, node@.path);
        let ghost deeper = prefix@ + indent_glyph(last);
        proof {
            reveal_strlit("\n");
            assert("\n"@ =~= seq!['\n']);
        }
        out.append(prefix);
        out.append(if last { "└── " } else { "├── " });
        out.append(node.name.as_str());
        out.append(" (");
        out.append(node.path.as_str());
        out.append(")");
        out.append("\n");
        assert(out@ =~= start + lines_text(done.push(line))) by {
            assert(done.push(line).drop_last() =~= done);
        }
        let inner = String::from_str(prefix).concat(if last { "    " } else { "│   " });
        append_tree(&node.children, inner.as_str(), out);
        proof {
            let below = tree_lines(node@.children, deeper, node@.children.len() as int);
            assert(node@.children =~= node.children.deep_view());
            assert(all[i as int] == node@);
            lemma_lines_text_concat(done.push(line), below);
            assert(tree_lines(all, prefix@, i as int + 1) == done.push(line) + below);
            assert(out@ =~= start + lines_text(tree_lines(all, prefix@, i as int + 1)));
        }
        i += 1;
    }
}

/// Renders a tree as indented text, one line for each node, depth first.
pub fn render_text(nodes: &Vec<TreeNode>, prefix: &str) -> (r: String)
    ensures
        r@ == tree_text(nodes.deep_view(), prefix@),
{
    let mut out = String::new();
    append_tree(nodes, prefix, &mut out);
    assert(out@ =~= tree_text(nodes.deep_view(), prefix@));
    out
}

/// The strings of `texts` as documents.
pub open spec fn text_documents(texts: Seq<Seq<char>>) -> Seq<JsonView> {
    Seq::new(texts.len(), |i: int| JsonView::Text(texts[i]))
}

/// The member `repo` of a structured node; none where the node has no remote.
pub open spec fn repo_member(repo: Option<Seq<char>>) -> Seq<(Seq<char>, JsonView)> {
    match repo {
        Some(url) => seq![("repo"@, JsonView::Text(url))],
        None => Seq::empty(),
    }
}

/// The member `tags` of a structured node; none where the node has no tags.
pub open spec fn tags_member(tags: Seq<Seq<char>>) -> Seq<(Seq<char>, JsonView)> {
    if tags.len() > 0 {
        seq![("tags"@, JsonView::Array(text_documents(tags)))]
    } else {
        Seq::empty()
    }
}

/// The member `children` of a structured node; none where nothing is below
/// the node.
pub open spec fn children_member(children: Seq<JsonView>) -> Seq<(Seq<char>, JsonView)> {
    if children.len() > 0 {
        seq![("children"@, JsonView::Array(children))]
    } else {
        Seq::empty()
    }
}

/// The structured form of a node: an object with the members `name`, `path`,
/// `repo`, `tags`, `is_meta` and `children` in this order, where `repo`,
/// `tags` and `children` are left out when there is nothing to put in them.
pub open spec fn structured_node(node: TreeNodeView) -> JsonView
    decreases node,
{
    JsonView::Object(
        seq![("name"@, JsonView::Text(node.name)), ("path"@, JsonView::Text(node.path))]
            + repo_member(node.repo) + tags_member(node.tags) + seq![
            ("is_meta"@, JsonView::Bool(node.is_meta)),
        ] + children_member(structured_nodes(node.children)),
    )
}

/// The structured forms of `nodes`, in their order.
pub open spec fn structured_nodes(nodes: Seq<TreeNodeView>) -> Seq<JsonView>
    decreases nodes,
{
    Seq::new(
        nodes.len(),
        |i: int|
            if 0 <= i < nodes.len() {
                structured_node(nodes[i])
            } else {
                JsonView::Null
            },
    )
}

/// What a rendering reports of one node: its name, its path, and how deep
/// it is nested.
pub ghost struct OutlineEntry {
    pub name: Seq<char>,
    pub path: Seq<char>,
    pub depth: nat,
}

/// The outline of the first `upto` of `nodes`, which are nested `depth`
/// deep, and of all that is below them, depth first.
pub open spec fn tree_outline(nodes: Seq<TreeNodeView>, depth: nat, upto: int) -> Seq<OutlineEntry>
    decreases nodes, upto,
{
    if upto <= 0 || upto > nodes.len() {
        Seq::empty()
    } else {
        let node = nodes[upto - 1];
        tree_outline(nodes, depth, upto - 1).push(
            OutlineEntry { name: node.name, path: node.path, depth },
        ) + tree_outline(node.children, depth + 1, node.children.len() as int)
    }
}

/// Whether `line` reports a node of this name and path behind an
/// indentation of `indent` characters.
pub open spec fn line_shows(line: Seq<char>, indent: int, name: Seq<char>, path: Seq<char>)
    -> bool {
    &&& line.len() == indent + label(name, path).len()
    &&& line.subrange(indent, line.len() as int) == label(name, path)
}

/// The text rendering has one line for each entry of the tree's outline, in
/// the same order; the line shows the entry's name and path, indented by
/// the prefix and one glyph for each level of nesting.
pub proof fn lemma_lines_follow_outline(
    nodes: Seq<TreeNodeView>,
    prefix: Seq<char>,
    depth: nat,
    upto: int,
)
    requires
        0 <= upto <= nodes.len(),
    ensures
        tree_lines(nodes, prefix, upto).len() == tree_outline(nodes, depth, upto).len(),
        forall|k: int|
            0 <= k < tree_outline(nodes, depth, upto).len() ==> (#[trigger] tree_outline(
                nodes,
                depth,
                upto,
            )[k]).depth >= depth,
        forall|k: int|
            0 <= k < tree_lines(nodes, prefix, upto).len() ==> {
                let entry = tree_outline(nodes, depth, upto)[k];
                line_shows(
                    #[trigger] tree_lines(nodes, prefix, upto)[k],
                    prefix.len() + 4 * (entry.depth - depth + 1),
                    entry.name,
                    entry.path,
                )
            },
    decreases nodes, upto,
{
    if upto > 0 {
        reveal_strlit("└── ");
        reveal_strlit("├── ");
        reveal_strlit("    ");
        reveal_strlit("│   ");
        let node = nodes[upto - 1];
        let last = upto == nodes.len();
        let line = prefix + branch_glyph(last) + label(node.name, node.path);
        let deeper = prefix + indent_glyph(last);
        let head_lines = tree_lines(nodes, prefix, upto - 1);
        let head_entries = tree_outline(nodes, depth, upto - 1);
        let below_lines = tree_lines(node.children, deeper, node.children.len() as int);
        let below_entries = tree_outline(node.children, depth + 1, node.children.len() as int);
        lemma_lines_follow_outline(nodes, prefix, depth, upto - 1);
        lemma_lines_follow_outline(node.children, deeper, depth + 1, node.children.len() as int);
        let lines = tree_lines(nodes, prefix, upto);
        let entries = tree_outline(nodes, depth, upto);
        assert(lines == head_lines.push(line) + below_lines);
        assert(entries == head_entries.push(
            OutlineEntry { name: node.name, path: node.path, depth },
        ) + below_entries);
        assert(line.subrange(prefix.len() as int + 4, line.len() as int) =~= label(
            node.name,
            node.path,
        ));
        assert forall|k: int| 0 <= k < entries.len() implies (#[trigger] entries[k]).depth
            >= depth by {
            if k < head_lines.len() {
                assert(entries[k] == head_entries[k]);
            } else if k > head_lines.len() {
                assert(entries[k] == below_entries[k - head_lines.len() - 1]);
            }
        }
        assert forall|k: int| 0 <= k < lines.len() implies {
            let entry = entries[k];
            line_shows(
                #[trigger] lines[k],
                prefix.len() + 4 * (entry.depth - depth + 1),
                entry.name,
                entry.path,
            )
        } by {
            if k < head_lines.len() {
                assert(lines[k] == head_lines[k]);
                assert(entries[k] == head_entries[k]);
            } else if k == head_lines.len() {
                assert(lines[k] == line);
            } else {
                let j = k - head_lines.len() - 1;
                assert(lines[k] == below_lines[j]);
                assert(entries[k] == below_entries[j]);
            }
        }
    }
}

/// The text that an object gives to `key`; empty where it gives none.
pub open spec fn text_member(item: JsonView, key: Seq<char>) -> Seq<char> {
    match item.get(key) {
        Some(JsonView::Text(text)) => text,
        _ => Seq::empty(),
    }
}

/// The outline that a structured rendering reports: for the first `upto` of
/// `items`, which are nested `depth` deep, the members `name` and `path` of
/// each, and the same of the items of its member `children`, depth first.
pub open spec fn document_outline(items: Seq<JsonView>, depth: nat, upto: int) -> Seq<OutlineEntry>
    decreases items, upto,
    via document_outline_terminates
{
    if upto <= 0 || upto > items.len() {
        Seq::empty()
    } else {
        let item = items[upto - 1];
        let below = match item.get("children"@) {
            Some(JsonView::Array(inner)) => document_outline(inner, depth + 1, inner.len() as int),
            _ => Seq::empty(),
        };
        document_outline(items, depth, upto - 1).push(
            OutlineEntry {
                name: text_member(item, "name"@),
                path: text_member(item, "path"@),
                depth,
            },
        ) + below
    }
}

#[via_fn]
proof fn document_outline_terminates(items: Seq<JsonView>, depth: nat, upto: int) {
    if 0 < upto <= items.len() {
        let item = items[upto - 1];
        match item {
            JsonView::Object(members) => {
                if member_from(members, "children"@, 0) is Some {
                    lemma_member_smaller(members, "children"@, 0);
                }
            },
            _ => {},
        }
    }
}

/// A member's value is a part of the object.
proof fn lemma_member_smaller(members: Seq<(Seq<char>, JsonView)>, key: Seq<char>, i: int)
    requires
        member_from(members, key, i) is Some,
    ensures
        decreases_to!(members => member_from(members, key, i)->0),
    decreases members.len() - i,
{
    if members[i].0 != key {
        lemma_member_smaller(members, key, i + 1);
    }
}

/// A search for `key` may start behind members that have other keys.
proof fn lemma_member_skip(members: Seq<(Seq<char>, JsonView)>, key: Seq<char>, i: int)
    requires
        0 <= i <= members.len(),
        forall|j: int| 0 <= j < i ==> (#[trigger] members[j]).0 != key,
    ensures
        member(members, key) == member_from(members, key, i),
    decreases i,
{
    if i > 0 {
        lemma_member_skip(members, key, i - 1);
    }
}

/// What the structured form of a node gives to `name`, `path` and
/// `children`.
proof fn lemma_structured_members(node: TreeNodeView)
    ensures
        text_member(structured_node(node), "name"@) == node.name,
        text_member(structured_node(node), "path"@) == node.path,
        structured_node(node).get("children"@) == (if node.children.len() > 0 {
            Some(JsonView::Array(structured_nodes(node.children)))
        } else {
            None
        }),
{
    reveal_strlit("name");
    reveal_strlit("path");
    reveal_strlit("repo");
    reveal_strlit("tags");
    reveal_strlit("is_meta");
    reveal_strlit("children");
    let members = structured_node(node)->Object_0;
    let front = seq![("name"@, JsonView::Text(node.name)), ("path"@, JsonView::Text(node.path))]
        + repo_member(node.repo) + tags_member(node.tags) + seq![
        ("is_meta"@, JsonView::Bool(node.is_meta)),
    ];
    let back = children_member(structured_nodes(node.children));
    assert(members == front + back);
    assert(members[0] == ("name"@, JsonView::Text(node.name)));
    assert(members[1] == ("path"@, JsonView::Text(node.path)));
    assert("name"@ != "path"@) by {
        assert("name"@[0] != "path"@[0]);
    }
    lemma_member_skip(members, "path"@, 1);
    assert forall|j: int| 0 <= j < front.len() implies (#[trigger] members[j]).0 != "children"@ by {
        assert(members[j] == front[j]);
        assert(front[j].0.len() != "children"@.len());
    }
    lemma_member_skip(members, "children"@, front.len() as int);
    assert(structured_nodes(node.children).len() == node.children.len());
    if node.children.len() > 0 {
        assert(members[front.len() as int] == back[0]);
    }
}

/// The structured rendering reports the outline of the tree: the members
/// `name`, `path` and `children` of its objects give back each node's name
/// and path at the node's depth.
pub proof fn lemma_document_outline(nodes: Seq<TreeNodeView>, depth: nat, upto: int)
    requires
        0 <= upto <= nodes.len(),
    ensures
        document_outline(structured_nodes(nodes), depth, upto) == tree_outline(nodes, depth, upto),
    decreases nodes, upto,
{
    let items = structured_nodes(nodes);
    assert(items.len() == nodes.len());
    if upto > 0 {
        let node = nodes[upto - 1];
        assert(items[upto - 1] == structured_node(node));
        lemma_structured_members(node);
        lemma_document_outline(nodes, depth, upto - 1);
        lemma_document_outline(node.children, depth + 1, node.children.len() as int);
        assert(structured_nodes(node.children).len() == node.children.len());
    }
}

/// The two renderings agree: the text has one line for each entry of the
/// outline that the structured document reports, in the same order; the
/// line shows the entry's name and path, and is indented by one glyph more
/// than the entry is nested deep.
pub proof fn lemma_renderings_agree(nodes: Seq<TreeNodeView>, prefix: Seq<char>)
    ensures
        ({
            let lines = tree_lines(nodes, prefix, nodes.len() as int);
            let outline = document_outline(structured_nodes(nodes), 0, nodes.len() as int);
            &&& lines.len() == outline.len()
            &&& forall|k: int|
                0 <= k < lines.len() ==> line_shows(
                    #[trigger] lines[k],
                    prefix.len() as int + 4 * (outline[k].depth + 1),
                    outline[k].name,
                    outline[k].path,
                )
        }),
{
    lemma_document_outline(nodes, 0, nodes.len() as int);
    lemma_lines_follow_outline(nodes, prefix, 0, nodes.len() as int);
}

fn texts_document(texts: &Vec<String>) -> (r: Json)
    ensures
        r@ == JsonView::Array(text_documents(texts.deep_view())),
{
    let mut items: Vec<Json> = Vec::new();
    let mut i: usize = 0;
    while i < texts.len()
        invariant
            i <= texts.len(),
            items.len() == i,
            forall|k: int| 0 <= k < i ==> items[k]@ == JsonView::Text(texts[k]@),
        decreases texts.len() - i,
    {
        items.push(Json::Text(texts[i].clone()));
        i += 1;
    }
    assert(items.deep_view() =~= text_documents(texts.deep_view()));
    Json::array(items)
}

fn node_document(node: &TreeNode) -> (r: Json)
    ensures
        r@ == structured_node(node@),
    decreases node, 0nat,
{
    let mut members: Vec<Member> = Vec::new();
    members.push(Member::new("name", Json::Text(node.name.clone())));
    members.push(Member::new("path", Json::Text(node.path.clone())));
    let ghost fixed = seq![
        ("name"@, JsonView::Text(node@.name)),
        ("path"@, JsonView::Text(node@.path)),
    ];
    assert(members.deep_view() =~= fixed);
    match &node.repo {
        Some(url) => {
            members.push(Member::new("repo", Json::Text(url.clone())));
        },
        None => {},
    }
    assert(members.deep_view() =~= fixed + repo_member(node@.repo));
    if node.tags.len() > 0 {
        members.push(Member::new("tags", texts_document(&node.tags)));
    }
    assert(members.deep_view() =~= fixed + repo_member(node@.repo) + tags_member(node@.tags));
    members.push(Member::new("is_meta", Json::Bool(node.is_meta)));
    assert(members.deep_view() =~= fixed + repo_member(node@.repo) + tags_member(node@.tags)
        + seq![("is_meta"@, JsonView::Bool(node@.is_meta))]);
    assert(node@.children =~= node.children.deep_view());
    if node.children.len() > 0 {
        members.push(Member::new("children", render_structured(&node.children)));
    }
    assert(members.deep_view() =~= fixed + repo_member(node@.repo) + tags_member(node@.tags)
        + seq![("is_meta"@, JsonView::Bool(node@.is_meta))] + children_member(
        structured_nodes(node@.children),
    ));
    Json::object(members)
}

/// Renders a tree as a structured document: an array with one object for
/// each node, the nodes below it nested in its `children`.
pub fn render_structured(nodes: &Vec<TreeNode>) -> (r: Json)
    ensures
        r@ == JsonView::Array(structured_nodes(nodes.deep_view())),
    decreases nodes, 1nat,
{
    let mut items: Vec<Json> = Vec::new();
    let mut i: usize = 0;
    while i < nodes.len()
        invariant
            i <= nodes.len(),
            items.len() == i,
            forall|k: int| 0 <= k < i ==> items[k]@ == structured_node(nodes[k]@),
        decreases nodes.len() - i,
    {
        items.push(node_document(&nodes[i]));
        i += 1;
    }
    assert(items.deep_view() =~= structured_nodes(nodes.deep_view()));
    Json::array(items)
}

} // verus!
