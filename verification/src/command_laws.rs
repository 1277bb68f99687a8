//! Laws of option inheritance in the command tree.
use vstd::prelude::*;
use crate::command::{lemma_child_index, CommandView};
use crate::option_parser::option_parser::{
    lemma_last_long_in_range, lemma_last_short_in_range, RegistryView, SingleOptionView,
};

verus! {

/// Whether one of `options` is registered under `flag`, short or long.
pub open spec fn carries(options: Seq<SingleOptionView>, flag: Seq<char>) -> bool {
    exists|j: int|
        0 <= j < options.len() && (#[trigger] options[j].short_flag == flag || options[j].long_flag
            == flag)
}

/// A flag leads to an option exactly where some option is registered under
/// it.
pub proof fn lemma_has_option_iff_carries(registry: RegistryView, flag: Seq<char>)
    ensures
        registry.has_option(flag) <==> carries(registry.options, flag),
        registry.position(flag) matches Some(p) ==> 0 <= p < registry.options.len() && (
        registry.options[p].short_flag == flag || registry.options[p].long_flag == flag),
{
    lemma_last_short_in_range(registry.options, flag);
    lemma_last_long_in_range(registry.options, flag);
    if registry.has_option(flag) {
        let p = registry.position(flag)->0;
        assert(registry.options[p].short_flag == flag || registry.options[p].long_flag == flag);
    }
}

/// Marking keeps a registry well-formed, and the marked option is among the
/// inherited ones.
pub proof fn lemma_marked(registry: RegistryView, flag: Seq<char>)
    requires
        registry.wf(),
        registry.has_option(flag),
    ensures
        registry.marked(flag).wf(),
        registry.marked(flag).options == registry.options,
        registry.marked(flag).inheritable.contains(registry.position(flag)->0),
{
    lemma_has_option_iff_carries(registry, flag);
    let p = registry.position(flag)->0;
    let after = registry.marked(flag);
    if !registry.inheritable.contains(p) {
        assert(after.inheritable == registry.inheritable.push(p));
        assert(after.inheritable[registry.inheritable.len() as int] == p);
        assert forall|j: int, k: int| 0 <= j < k < after.inheritable.len() implies after.inheritable[j]
            != after.inheritable[k] by {
            if k == registry.inheritable.len() {
                assert(registry.inheritable[j] == after.inheritable[j]);
                assert(registry.inheritable.contains(registry.inheritable[j]));
            }
        }
        assert forall|k: int| 0 <= k < after.inheritable.len() implies 0
            <= #[trigger] after.inheritable[k] < after.options.len() by {
            if k < registry.inheritable.len() {
                assert(after.inheritable[k] == registry.inheritable[k]);
            }
        }
    }
}

/// An option that is marked inheritable on a command before a subcommand
/// is made is found in that subcommand's registry under the same flag.
pub proof fn law_marked_option_is_inherited(
    parent: RegistryView,
    flag: Seq<char>,
    name: Seq<char>,
    description: Seq<char>,
)
    requires
        parent.wf(),
        parent.has_option(flag),
    ensures
        CommandView::fresh(
            name,
            description,
            parent.marked(flag).inherited_registry(),
        ).registry.has_option(flag),
{
    lemma_marked(parent, flag);
    lemma_has_option_iff_carries(parent, flag);
    let marked = parent.marked(flag);
    let p = parent.position(flag)->0;
    let k = choose|k: int| 0 <= k < marked.inheritable.len() && marked.inheritable[k] == p;
    let inherited = marked.inherited();
    assert(inherited[k] == parent.options[p]);
    let child = CommandView::fresh(name, description, marked.inherited_registry());
    assert(child.registry.options.len() == inherited.len() + 1);
    assert(child.registry.options[k] == inherited[k]);
    assert(child.registry.options[k].short_flag == flag || child.registry.options[k].long_flag
        == flag);
    assert(carries(child.registry.options, flag));
    lemma_has_option_iff_carries(child.registry, flag);
}

/// A subcommand has none of the options that were not marked inheritable
/// when it was made: a flag that no marked option is registered under, and
/// that is not a help flag, leads nowhere in the subcommand's registry.
/// Marking the option on the parent afterwards changes nothing below it.
pub proof fn law_unmarked_option_not_inherited(
    parent: CommandView,
    flag: Seq<char>,
    name: Seq<char>,
    description: Seq<char>,
)
    requires
        parent.registry.wf(),
        !carries(parent.registry.inherited(), flag),
        flag != "-h"@,
        flag != "--help"@,
    ensures
        ({
            let child = CommandView::fresh(name, description, parent.registry.inherited_registry());
            let with_child = parent.with_child_named(name, child);
            let marked_later = CommandView {
                registry: with_child.registry.marked(flag),
                ..with_child
            };
            &&& !child.registry.has_option(flag)
            &&& marked_later.children == with_child.children
            &&& marked_later.children[parent.child_slot(name)] == child
        }),
{
    let child = CommandView::fresh(name, description, parent.registry.inherited_registry());
    let inherited = parent.registry.inherited();
    lemma_has_option_iff_carries(child.registry, flag);
    let help = SingleOptionView {
        name: "help"@,
        description: "Display help information"@,
        short_flag: "-h"@,
        long_flag: "--help"@,
        value: crate::option_parser::value_types::ValueTypesView::Flag,
    };
    let options = child.registry.options;
    assert(options == inherited.push(help));
    assert forall|j: int| 0 <= j < options.len() implies !(#[trigger] options[j].short_flag == flag
        || options[j].long_flag == flag) by {
        if j < inherited.len() {
            assert(options[j] == inherited[j]);
            assert(!(inherited[j].short_flag == flag || inherited[j].long_flag == flag));
        } else {
            assert(options[j] == help);
        }
    }
    assert(!carries(options, flag));
    lemma_child_index(parent.children, name);
}

/// Options added to one subcommand never appear on its siblings: where
/// the subcommand at `k` gets an option, every other subcommand stays as
/// it is.
pub proof fn law_sibling_untouched(
    parent: CommandView,
    k: int,
    j: int,
    name: Seq<char>,
    description: Seq<char>,
    short_flag: Seq<char>,
    long_flag: Seq<char>,
    value: crate::option_parser::value_types::ValueTypesView,
)
    requires
        0 <= k < parent.children.len(),
        0 <= j < parent.children.len(),
        j != k,
    ensures
        parent.children.update(
            k,
            parent.children[k].with_option(name, description, short_flag, long_flag, value),
        )[j] == parent.children[j],
{
}

/// A subcommand that is put below a command leaves the other subcommands
/// as they are.
pub proof fn law_new_child_leaves_siblings(
    parent: CommandView,
    name: Seq<char>,
    child: CommandView,
    j: int,
)
    requires
        0 <= j < parent.children.len(),
        j != parent.child_slot(name),
    ensures
        parent.with_child_named(name, child).children[j] == parent.children[j],
        parent.with_child_named(name, child).children[parent.child_slot(name)] == child,
{
    lemma_child_index(parent.children, name);
}

} // verus!
