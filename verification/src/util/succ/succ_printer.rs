//! A SUCC tree laid out as text, one line for each node.

use crate::util::error_handling::SuccError;
use crate::util::succ::succ_parser::{
    lemma_entry_trees, lemma_list_trees, parse_succ_file, spec_parse_succ_file,
};
use crate::util::succ::succ_types::{SuccTree, SuccType};
use vstd::prelude::*;
use vstd::string::*;

verus! {

/// The mark before a child: a corner before the last one, a fork before the
/// others.
pub open spec fn branch(last: bool) -> Seq<char> {
    if last {
        "└ "@
    } else {
        "├ "@
    }
}

/// What stands before the lines below a child: nothing below the last one,
/// a bar below the others.
pub open spec fn trunk(last: bool) -> Seq<char> {
    if last {
        "  "@
    } else {
        "│ "@
    }
}

/// The lines of the entries of a map from the number `from` on: each entry
/// behind its mark and its key.
pub open spec fn entries_text(
    entries: Seq<(Seq<char>, SuccTree)>,
    from: int,
    prefix: Seq<char>,
) -> Seq<char>
    decreases entries, entries.len() - from,
{
    if 0 <= from < entries.len() {
        let last = from == entries.len() - 1;
        tree_text(
            entries[from].1,
            prefix + branch(last) + entries[from].0 + ": "@,
            prefix + trunk(last),
        ) + entries_text(entries, from + 1, prefix)
    } else {
        Seq::empty()
    }
}

/// The lines of the entries of a list from the number `from` on: each entry
/// behind its mark.
pub open spec fn items_text(items: Seq<SuccTree>, from: int, prefix: Seq<char>) -> Seq<char>
    decreases items, items.len() - from,
{
    if 0 <= from < items.len() {
        let last = from == items.len() - 1;
        tree_text(items[from], prefix + branch(last), prefix + trunk(last)) + items_text(
            items,
            from + 1,
            prefix,
        )
    } else {
        Seq::empty()
    }
}

/// The lines of a tree, each with a line break behind it. The first line
/// stands behind `entry_prefix`, the lines of the children behind `prefix`
/// and their marks.
pub open spec fn tree_text(entry: SuccTree, entry_prefix: Seq<char>, prefix: Seq<char>) -> Seq<
    char,
>
    decreases entry, 0int,
{
    match entry {
        SuccTree::Any => entry_prefix + "---\n"@,
        SuccTree::Value(value) => entry_prefix + "'"@ + value + "'\n"@,
        SuccTree::Mapping(entries) => entry_prefix + "<map>\n"@ + entries_text(entries, 0, prefix),
        SuccTree::List(items) => entry_prefix + "<list>\n"@ + items_text(items, 0, prefix),
    }
}

fn branch_mark(last: bool) -> (mark: &'static str)
    ensures
        mark@ == branch(last),
{
    if last {
        "└ "
    } else {
        "├ "
    }
}

fn trunk_mark(last: bool) -> (mark: &'static str)
    ensures
        mark@ == trunk(last),
{
    if last {
        "  "
    } else {
        "│ "
    }
}

fn print_inner(entry: &SuccType, entry_prefix: &str, prefix: &str, text: &mut String)
    ensures
        final(text)@ == old(text)@ + tree_text(entry.tree(), entry_prefix@, prefix@),
    decreases entry,
{
    let ghost before = text@;
    text.append(entry_prefix);
    match entry {
        SuccType::Any => {
            text.append("---\n");
            assert(text@ =~= before + tree_text(entry.tree(), entry_prefix@, prefix@));
        },
        SuccType::Value(value) => {
            text.append("'");
            text.append(value.as_str());
            text.append("'\n");
            assert(text@ =~= before + tree_text(entry.tree(), entry_prefix@, prefix@));
        },
        SuccType::Mapping(entries) => {
            text.append("<map>\n");
            let ghost head = text@;
            let ghost trees = entry.tree()->Mapping_0;
            proof {
                lemma_entry_trees(*entries, entries@.len() as int);
            }
            let mut index: usize = 0;
            while index < entries.len()
                invariant
                    index <= entries@.len(),
                    *entry == SuccType::Mapping(*entries),
                    trees == Seq::new(
                        entries@.len(),
                        |i: int| (entries@[i].0@, entries@[i].1.tree()),
                    ),
                    text@ + entries_text(trees, index as int, prefix@) == head + entries_text(
                        trees,
                        0,
                        prefix@,
                    ),
                decreases entries@.len() - index,
            {
                let ghost so_far = text@;
                let last = index + 1 == entries.len();
                let mut child_entry = prefix.to_owned();
                child_entry.append(branch_mark(last));
                child_entry.append(entries[index].0.as_str());
                child_entry.append(": ");
                let mut child_prefix = prefix.to_owned();
                child_prefix.append(trunk_mark(last));
                proof {
                    assert(decreases_to!(*entries => entries[index as int]));
                    assert(decreases_to!(entries[index as int] => entries[index as int].1));
                    assert(entry->Mapping_0 == *entries);
                }
                print_inner(&entries[index].1, child_entry.as_str(), child_prefix.as_str(), text);
                assert(so_far + entries_text(trees, index as int, prefix@) =~= text@
                    + entries_text(trees, index + 1, prefix@));
                index += 1;
            }
            assert(text@ =~= before + tree_text(entry.tree(), entry_prefix@, prefix@));
        },
        SuccType::List(items) => {
            text.append("<list>\n");
            let ghost head = text@;
            let ghost trees = entry.tree()->List_0;
            proof {
                lemma_list_trees(*items, items@.len() as int);
            }
            let mut index: usize = 0;
            while index < items.len()
                invariant
                    index <= items@.len(),
                    *entry == SuccType::List(*items),
                    trees == Seq::new(items@.len(), |i: int| items@[i].tree()),
                    text@ + items_text(trees, index as int, prefix@) == head + items_text(
                        trees,
                        0,
                        prefix@,
                    ),
                decreases items@.len() - index,
            {
                let ghost so_far = text@;
                let last = index + 1 == items.len();
                let mut child_entry = prefix.to_owned();
                child_entry.append(branch_mark(last));
                let mut child_prefix = prefix.to_owned();
                child_prefix.append(trunk_mark(last));
                proof {
                    assert(decreases_to!(*items => items[index as int]));
                    assert(entry->List_0 == *items);
                }
                print_inner(&items[index], child_entry.as_str(), child_prefix.as_str(), text);
                assert(so_far + items_text(trees, index as int, prefix@) =~= text@ + items_text(
                    trees,
                    index + 1,
                    prefix@,
                ));
                index += 1;
            }
            assert(text@ =~= before + tree_text(entry.tree(), entry_prefix@, prefix@));
        },
    }
}

/// Lays a tree out as text: a line for each node, the children of a node
/// below it and behind marks that draw the branches.
pub fn debug_print(entry: &SuccType) -> (text: String)
    ensures
        text@ == tree_text(entry.tree(), "└ "@, "  "@),
{
    let mut text = "".to_owned();
    assert(text@ =~= Seq::empty()) by {
        reveal_strlit("");
    }
    print_inner(entry, "└ ", "  ", &mut text);
    assert(text@ =~= tree_text(entry.tree(), "└ "@, "  "@));
    text
}

/// Reads a SUCC file and lays its tree out as text.
pub fn debug_succ_file(bytes: &[u8]) -> (r: Result<String, SuccError>)
    ensures
        match spec_parse_succ_file(bytes@) {
            Ok(tree) => r is Ok && r->Ok_0@ == tree_text(tree, "└ "@, "  "@),
            Err(e) => r == Err::<String, SuccError>(e),
        },
{
    let root = parse_succ_file(bytes)?;
    Ok(debug_print(&root))
}

} // verus!
