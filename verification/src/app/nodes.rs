//! What the joined rooms know about nodes, put together.

use vstd::prelude::*;
use vstd::string::StringExecFns;

use crate::json::{
    comma_separated, json_array, json_elements, json_member, optional_text, parse_elements,
    parse_member,
};
use crate::table::{lemma_entries_at, lemma_entries_dom, Table};
use crate::text::texts_of;

verus! {

/// The nodes known so far, by name, after one more description with the given
/// name was read. Descriptions without a name are left out; of two descriptions
/// of one node the later one stays.
pub open spec fn with_named(
    known: Map<Seq<char>, Seq<char>>,
    id: Option<Seq<char>>,
    description: Seq<char>,
) -> Map<Seq<char>, Seq<char>> {
    match id {
        Some(id) => known.insert(id, description),
        None => known,
    }
}

/// The nodes known so far after one more description was read; its name stands
/// under the key "id".
pub open spec fn with_node(
    known: Map<Seq<char>, Seq<char>>,
    description: Seq<char>,
) -> Map<Seq<char>, Seq<char>> {
    with_named(known, json_member(description, "id"@), description)
}

/// The nodes known so far after some more descriptions were read, in order.
pub open spec fn with_nodes(
    known: Map<Seq<char>, Seq<char>>,
    descriptions: Seq<Seq<char>>,
) -> Map<Seq<char>, Seq<char>>
    decreases descriptions.len(),
{
    if descriptions.len() == 0 {
        known
    } else {
        with_node(with_nodes(known, descriptions.drop_last()), descriptions.last())
    }
}

/// The nodes known so far after the list of one room was read. What is not a
/// list adds nothing.
pub open spec fn with_list(
    known: Map<Seq<char>, Seq<char>>,
    list: Seq<char>,
) -> Map<Seq<char>, Seq<char>> {
    match json_elements(list) {
        Some(descriptions) => with_nodes(known, descriptions),
        None => known,
    }
}

/// The nodes of some rooms' lists, each node once.
pub open spec fn merged_nodes(lists: Seq<Seq<char>>) -> Map<Seq<char>, Seq<char>>
    decreases lists.len(),
{
    if lists.len() == 0 {
        Map::empty()
    } else {
        with_list(merged_nodes(lists.drop_last()), lists.last())
    }
}

/// Whether `descriptions` are those of all `nodes`, each once, in whatever
/// order.
pub open spec fn describes_all(
    descriptions: Seq<Seq<char>>,
    nodes: Map<Seq<char>, Seq<char>>,
) -> bool {
    exists|ids: Seq<Seq<char>>|
        {
            &&& ids.no_duplicates()
            &&& #[trigger] ids.to_set() == nodes.dom()
            &&& descriptions == ids.map_values(|id: Seq<char>| nodes[id])
        }
}

/// Whether `text` is a JSON array of the descriptions of all `nodes`.
pub open spec fn is_node_list(text: Seq<char>, nodes: Map<Seq<char>, Seq<char>>) -> bool {
    exists|descriptions: Seq<Seq<char>>|
        describes_all(descriptions, nodes) && text == #[trigger] json_array(descriptions)
}

/// The view of the nodes that a table of descriptions holds.
pub open spec fn node_map(table: Table<String, String>) -> Map<Seq<char>, Seq<char>> {
    table@.map_values(|description: String| description@)
}

/// Takes the description of a node into `merged`.
pub fn merge_node(merged: &mut Table<String, String>, id: Option<String>, description: String)
    ensures
        node_map(*final(merged)) == with_named(
            node_map(*old(merged)),
            optional_text(id),
            description@,
        ),
{
    if let Some(id) = id {
        let _ = merged.insert(id, description);
        assert(node_map(*merged) =~= node_map(*old(merged)).insert(id@, description@));
    }
}

/// Reads one room's list of nodes into `merged`.
pub fn merge_json_array_by_id(merged: &mut Table<String, String>, json: &str)
    ensures
        node_map(*final(merged)) == with_list(node_map(*old(merged)), json@),
{
    let elements = match parse_elements(json) {
        Some(elements) => elements,
        None => {
            return ;
        },
    };
    let ghost texts = texts_of(elements@);
    let mut i: usize = 0;
    assert(texts.take(0) =~= Seq::empty());
    while i < elements.len()
        invariant
            i <= elements@.len(),
            texts == texts_of(elements@),
            node_map(*merged) == with_nodes(node_map(*old(merged)), texts.take(i as int)),
        decreases elements@.len() - i,
    {
        merge_node(merged, parse_member(elements[i].as_str(), "id"), elements[i].clone());
        proof {
            assert(texts.take(i + 1).drop_last() =~= texts.take(i as int));
            assert(texts.take(i + 1).last() == texts[i as int]);
        }
        i = i + 1;
    }
    assert(texts.take(i as int) =~= texts);
}

/// The JSON array of the descriptions that a table holds.
fn node_list(merged: &Table<String, String>) -> (text: String)
    ensures
        is_node_list(text@, node_map(*merged)),
{
    let entries = merged.entries();
    let ghost ids: Seq<Seq<char>> = entries@.map_values(|entry: (String, String)| entry.0@);
    let ghost descriptions: Seq<Seq<char>> = entries@.map_values(
        |entry: (String, String)| entry.1@,
    );
    let mut text = "[".to_string();
    let mut i: usize = 0;
    assert(descriptions.take(0) =~= Seq::empty());
    assert(text@ =~= "["@ + comma_separated(descriptions.take(0)));
    while i < entries.len()
        invariant
            i <= entries@.len(),
            descriptions == entries@.map_values(|entry: (String, String)| entry.1@),
            text@ == "["@ + comma_separated(descriptions.take(i as int)),
        decreases entries@.len() - i,
    {
        if i > 0 {
            text.append(",");
        }
        text.append(entries[i].1.as_str());
        proof {
            let more = descriptions.take(i + 1);
            assert(more.drop_last() =~= descriptions.take(i as int));
            assert(more.last() == descriptions[i as int]);
            if i > 0 {
                assert(text@ =~= "["@ + (comma_separated(descriptions.take(i as int)) + ","@
                    + descriptions[i as int]));
            } else {
                assert(text@ =~= "["@ + descriptions[0]);
            }
        }
        i = i + 1;
    }
    text.append("]");
    proof {
        assert(descriptions.take(i as int) =~= descriptions);
        assert(text@ =~= json_array(descriptions));
        lemma_entries_dom(entries@);
        let nodes = node_map(*merged);
        assert forall|a: int, b: int| 0 <= a < ids.len() && 0 <= b < ids.len() && a != b implies ids[a]
            != ids[b] by {
            if a < b {
                assert(entries@[a].0@ != entries@[b].0@);
            } else {
                assert(entries@[b].0@ != entries@[a].0@);
            }
        }
        assert(ids.to_set() =~= nodes.dom()) by {
            assert forall|id: Seq<char>| ids.to_set().contains(id) implies nodes.dom().contains(
                id,
            ) by {
                let at = choose|at: int| 0 <= at < ids.len() && ids[at] == id;
                assert(entries@[at].0@ == id);
            }
            assert forall|id: Seq<char>| nodes.dom().contains(id) implies ids.to_set().contains(
                id,
            ) by {
                let at = choose|at: int|
                    0 <= at < entries@.len() && (#[trigger] entries@[at]).0@ == id;
                assert(ids[at] == id);
            }
        }
        assert forall|at: int| 0 <= at < ids.len() implies descriptions[at] == nodes[ids[at]] by {
            lemma_entries_at(entries@, at);
        }
        assert(descriptions =~= ids.map_values(|id: Seq<char>| nodes[id]));
        assert(describes_all(descriptions, nodes));
    }
    text
}

fn merge_lists(lists: &Vec<String>) -> (text: String)
    ensures
        is_node_list(text@, merged_nodes(texts_of(lists@))),
{
    let mut merged: Table<String, String> = Table::new();
    let ghost texts = texts_of(lists@);
    let mut i: usize = 0;
    assert(texts.take(0) =~= Seq::empty());
    assert(node_map(merged) =~= Map::empty());
    while i < lists.len()
        invariant
            i <= lists@.len(),
            texts == texts_of(lists@),
            node_map(merged) == merged_nodes(texts.take(i as int)),
        decreases lists@.len() - i,
    {
        merge_json_array_by_id(&mut merged, lists[i].as_str());
        proof {
            assert(texts.take(i + 1).drop_last() =~= texts.take(i as int));
            assert(texts.take(i + 1).last() == texts[i as int]);
        }
        i = i + 1;
    }
    assert(texts.take(i as int) =~= texts);
    node_list(&merged)
}

/// The connected nodes of all rooms, from each room's list in join order. A
/// node that several rooms know occurs once.
pub fn get_neighbors(lists: &Vec<String>) -> (text: String)
    ensures
        is_node_list(text@, merged_nodes(texts_of(lists@))),
{
    merge_lists(lists)
}

/// All nodes that the rooms know of, from each room's list in join order. A
/// node that several rooms know occurs once.
pub fn get_all_nodes(lists: &Vec<String>) -> (text: String)
    ensures
        is_node_list(text@, merged_nodes(texts_of(lists@))),
{
    merge_lists(lists)
}

/// Of two descriptions of a node the later one stays, and other nodes are not
/// affected by it.
pub proof fn lemma_later_description_wins(
    known: Map<Seq<char>, Seq<char>>,
    first: Seq<char>,
    second: Seq<char>,
    other: Seq<char>,
)
    requires
        json_member(first, "id"@) is Some,
        json_member(first, "id"@) == json_member(second, "id"@),
    ensures
        with_node(with_node(known, first), second) == with_node(known, second),
        with_node(known, second)[json_member(second, "id"@)->Some_0] == second,
        other != json_member(second, "id"@)->Some_0 && known.dom().contains(other) ==> with_node(
            known,
            second,
        ).dom().contains(other) && with_node(known, second)[other] == known[other],
{
    assert(with_node(with_node(known, first), second) =~= with_node(known, second));
}

/// Reading descriptions adds the nodes that they name and no others. What is
/// kept of a node is the last description that names it, or what was known of it
/// if none does.
pub proof fn lemma_last_description_is_kept(
    known: Map<Seq<char>, Seq<char>>,
    descriptions: Seq<Seq<char>>,
    id: Seq<char>,
    at: int,
)
    requires
        -1 <= at < descriptions.len(),
        at >= 0 ==> json_member(descriptions[at], "id"@) == Some(id),
        forall|i: int|
            at < i < descriptions.len() ==> json_member(#[trigger] descriptions[i], "id"@) != Some(id),
    ensures
        at >= 0 ==> with_nodes(known, descriptions).dom().contains(id) && with_nodes(
            known,
            descriptions,
        )[id] == descriptions[at],
        at < 0 ==> with_nodes(known, descriptions).dom().contains(id) == known.dom().contains(id),
        at < 0 && known.dom().contains(id) ==> with_nodes(known, descriptions)[id] == known[id],
    decreases descriptions.len(),
{
    if descriptions.len() > 0 && at < descriptions.len() - 1 {
        let rest = descriptions.drop_last();
        assert forall|i: int| at < i < rest.len() implies json_member(#[trigger] rest[i], "id"@)
            != Some(id) by {
            assert(rest[i] == descriptions[i]);
        }
        lemma_last_description_is_kept(known, rest, id, at);
        assert(json_member(descriptions[descriptions.len() - 1], "id"@) != Some(id));
    }
}

/// The rooms' lists are read in order, each as a JSON array of descriptions; a
/// text that is no array adds nothing.
pub proof fn lemma_lists_are_merged_in_order(
    lists: Seq<Seq<char>>,
    list: Seq<char>,
    known: Map<Seq<char>, Seq<char>>,
)
    ensures
        merged_nodes(Seq::empty()) == Map::<Seq<char>, Seq<char>>::empty(),
        json_elements(list) is None ==> merged_nodes(lists.push(list)) == merged_nodes(lists)
            && with_list(known, list) == known,
        json_elements(list) is Some ==> merged_nodes(lists.push(list)) == with_nodes(
            merged_nodes(lists),
            json_elements(list)->Some_0,
        ) && with_list(known, list) == with_nodes(known, json_elements(list)->Some_0),
{
    assert(lists.push(list).drop_last() =~= lists);
}

/// A description is kept under the name that it gives; one without a name is
/// left out.
pub proof fn lemma_nodes_are_kept_by_name(
    known: Map<Seq<char>, Seq<char>>,
    id: Seq<char>,
    description: Seq<char>,
)
    ensures
        with_named(known, Some(id), description) == known.insert(id, description),
        with_named(known, None, description) == known,
{
}

/// A list of nodes has the description of each node once and nothing else; with
/// no nodes it is an empty array.
pub proof fn lemma_node_lists_are_complete(
    descriptions: Seq<Seq<char>>,
    nodes: Map<Seq<char>, Seq<char>>,
    text: Seq<char>,
)
    requires
        describes_all(descriptions, nodes),
        text == json_array(descriptions),
    ensures
        is_node_list(text, nodes),
        nodes.dom().finite(),
        descriptions.len() == nodes.len(),
        forall|id: Seq<char>| #[trigger]
            nodes.dom().contains(id) ==> descriptions.contains(nodes[id]),
        forall|i: int|
            0 <= i < descriptions.len() ==> exists|id: Seq<char>|
                nodes.dom().contains(id) && #[trigger] nodes[id] == #[trigger] descriptions[i],
        nodes.dom() == Set::<Seq<char>>::empty() ==> text == json_array(Seq::empty()),
{
    let ids = choose|ids: Seq<Seq<char>>|
        {
            &&& ids.no_duplicates()
            &&& #[trigger] ids.to_set() == nodes.dom()
            &&& descriptions == ids.map_values(|id: Seq<char>| nodes[id])
        };
    ids.unique_seq_to_set();
    assert forall|id: Seq<char>| #[trigger] nodes.dom().contains(id) implies descriptions.contains(
        nodes[id],
    ) by {
        assert(ids.to_set().contains(id));
        let i = choose|i: int| 0 <= i < ids.len() && ids[i] == id;
        assert(descriptions[i] == nodes[id]);
    }
    assert forall|i: int| 0 <= i < descriptions.len() implies exists|id: Seq<char>|
        nodes.dom().contains(id) && #[trigger] nodes[id] == #[trigger] descriptions[i] by {
        assert(ids.to_set().contains(ids[i]));
        assert(nodes[ids[i]] == descriptions[i]);
    }
    if nodes.dom() == Set::<Seq<char>>::empty() {
        assert(descriptions =~= Seq::empty());
    }
}

} // verus!
