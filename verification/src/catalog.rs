//! The catalog: which of the available actions the palette offers, and
//! under what display names.

use crate::command::{Action, ActionView, Command, CommandView};
use crate::humanize::{humanize_action_name, humanized};
use std::collections::HashSet;
use vstd::hash_set::StringHashSet;
use vstd::prelude::*;
use vstd::string::StringExecFns;

verus! {

broadcast use vstd::std_specs::hash::group_hash_axioms;

/// The namespace given to an action whose name has no `::` in it.
pub const MALFORMED_NAMESPACE: &'static str = "malformed action name";

/// Whether the separator `::` stands at position `i` of `name`.
pub open spec fn separator_at(name: Seq<char>, i: int) -> bool {
    &&& 0 <= i
    &&& i + 1 < name.len()
    &&& name[i] == ':'
    &&& name[i + 1] == ':'
}

/// Whether the first separator of `name` stands at position `i`.
pub open spec fn first_separator_at(name: Seq<char>, i: int) -> bool {
    &&& separator_at(name, i)
    &&& forall|j: int| 0 <= j < i ==> !separator_at(name, j)
}

/// The namespace of a raw action name: what stands before its first `::`,
/// or [`MALFORMED_NAMESPACE`] where the name has no `::`.
pub open spec fn namespace_of(name: Seq<char>) -> Seq<char> {
    if exists|i: int| first_separator_at(name, i) {
        name.take(choose|i: int| first_separator_at(name, i))
    } else {
        MALFORMED_NAMESPACE@
    }
}

/// The namespace of a raw action name.
pub fn action_namespace(name: &str) -> (namespace: String)
    ensures
        namespace@ == namespace_of(name@),
{
    let mut namespace = String::new();
    let mut pending = false;
    let chars = name.chars();
    for c in it: chars
        invariant
            it.seq() == name@,
            namespace@ + (if pending {
                seq![':']
            } else {
                Seq::<char>::empty()
            }) == name@.take(it.index()),
            pending <==> it.index() > 0 && name@[it.index() - 1] == ':',
            forall|j: int| 0 <= j && j + 1 < it.index() ==> !separator_at(name@, j),
    {
        let ghost k = it.index();
        if c == ':' {
            if pending {
                proof {
                    assert(first_separator_at(name@, k - 1));
                    let chosen = choose|i: int| first_separator_at(name@, i);
                    assert(chosen == k - 1);
                    assert(name@.take(k).drop_last() =~= name@.take(k - 1));
                    assert(namespace@ =~= (namespace@ + seq![':']).drop_last());
                }
                return namespace;
            }
            pending = true;
            assert(namespace@ + seq![':'] =~= name@.take(k + 1));
        } else {
            let ghost read = name@.take(k);
            if pending {
                assert(namespace@.push(':') =~= read);
                namespace.push(':');
                pending = false;
            } else {
                assert(namespace@ =~= read);
            }
            namespace.push(c);
            assert(read.push(c) =~= name@.take(k + 1));
            assert(namespace@ + Seq::<char>::empty() =~= name@.take(k + 1));
        }
    }
    assert(forall|i: int| !first_separator_at(name@, i));
    String::from_str(MALFORMED_NAMESPACE)
}

/// Which actions the palette must not offer.
pub struct CommandPaletteFilter {
    /// The namespaces whose actions are hidden.
    pub hidden_namespaces: StringHashSet,
    /// The types of action that are hidden.
    pub hidden_action_types: HashSet<u64>,
}

/// The mathematical model of a [`CommandPaletteFilter`].
pub struct FilterView {
    pub hidden_namespaces: Set<Seq<char>>,
    pub hidden_action_types: Set<u64>,
}

impl View for CommandPaletteFilter {
    type V = FilterView;

    open spec fn view(&self) -> FilterView {
        FilterView {
            hidden_namespaces: self.hidden_namespaces@,
            hidden_action_types: self.hidden_action_types@,
        }
    }
}

impl DeepView for CommandPaletteFilter {
    type V = FilterView;

    open spec fn deep_view(&self) -> FilterView {
        self@
    }
}

impl CommandPaletteFilter {
    /// A filter that hides nothing.
    pub fn new() -> (filter: Self)
        ensures
            filter@.hidden_namespaces == Set::<Seq<char>>::empty(),
            filter@.hidden_action_types == Set::<u64>::empty(),
    {
        CommandPaletteFilter {
            hidden_namespaces: StringHashSet::new(),
            hidden_action_types: HashSet::new(),
        }
    }

    /// Hides every action of `namespace`.
    pub fn hide_namespace(&mut self, namespace: String)
        ensures
            final(self)@.hidden_namespaces == old(self)@.hidden_namespaces.insert(namespace@),
            final(self)@.hidden_action_types == old(self)@.hidden_action_types,
    {
        self.hidden_namespaces.insert(namespace);
    }

    /// Hides every action of the type `type_id`.
    pub fn hide_action_type(&mut self, type_id: u64)
        ensures
            final(self)@.hidden_action_types == old(self)@.hidden_action_types.insert(type_id),
            final(self)@.hidden_namespaces == old(self)@.hidden_namespaces,
    {
        self.hidden_action_types.insert(type_id);
    }

    /// Whether this filter hides `action`.
    pub fn hides(&self, action: &Action) -> (hidden: bool)
        ensures
            hidden == is_hidden(self@, action@),
    {
        let namespace = action_namespace(action.name.as_str());
        self.hidden_namespaces.contains(namespace.as_str()) || self.hidden_action_types.contains(
            &action.type_id,
        )
    }
}

impl Default for CommandPaletteFilter {
    fn default() -> (filter: Self)
        ensures
            filter@.hidden_namespaces == Set::<Seq<char>>::empty(),
            filter@.hidden_action_types == Set::<u64>::empty(),
    {
        CommandPaletteFilter::new()
    }
}

/// Whether `filter` hides `action`: by its namespace, or by its type.
pub open spec fn is_hidden(filter: FilterView, action: ActionView) -> bool {
    filter.hidden_namespaces.contains(namespace_of(action.name))
        || filter.hidden_action_types.contains(action.type_id)
}

/// Whether the palette offers `action`: no filter is set, or the filter
/// does not hide it.
pub open spec fn is_offered(filter: Option<FilterView>, action: ActionView) -> bool {
    match filter {
        Some(filter) => !is_hidden(filter, action),
        None => true,
    }
}

/// [`is_offered`] as a predicate on actions.
pub open spec fn offered(filter: Option<FilterView>) -> spec_fn(ActionView) -> bool {
    |action: ActionView| is_offered(filter, action)
}

/// The command that offers `action`, shown under its humanized name.
pub open spec fn command_for(action: ActionView) -> CommandView {
    CommandView { name: humanized(action.name), action }
}

/// The catalog for `actions`: one command for each action that is offered,
/// in the order of the actions.
pub open spec fn catalog_of(actions: Seq<ActionView>, filter: Option<FilterView>) -> Seq<
    CommandView,
> {
    actions.filter(offered(filter)).map_values(|action: ActionView| command_for(action))
}

/// Every command of the catalog offers, under its humanized name, an
/// action that is available and that the filter does not hide.
pub proof fn lemma_catalog_offers_no_hidden_action(
    actions: Seq<ActionView>,
    filter: Option<FilterView>,
    command: CommandView,
)
    requires
        catalog_of(actions, filter).contains(command),
    ensures
        actions.contains(command.action),
        is_offered(filter, command.action),
        command == command_for(command.action),
{
    let kept = actions.filter(offered(filter));
    let catalog = catalog_of(actions, filter);
    let i = choose|i: int| 0 <= i < catalog.len() && catalog[i] == command;
    assert(catalog[i] == command_for(kept[i]));
    actions.lemma_filter_pred(offered(filter), i);
    assert(kept.contains(kept[i]));
    actions.lemma_filter_contains_rev(offered(filter), kept[i]);
}

/// Builds the catalog for the actions that are available.
pub fn available_commands(actions: Vec<Action>, filter: Option<&CommandPaletteFilter>) -> (commands:
    Vec<Command>)
    ensures
        commands.deep_view() == catalog_of(actions.deep_view(), filter.deep_view()),
{
    let ghost all = actions.deep_view();
    let ghost keep = offered(filter.deep_view());
    let ghost moved = actions@;
    let mut commands: Vec<Command> = Vec::new();
    proof {
        reveal(Seq::filter);
        assert(all.take(0) =~= Seq::<ActionView>::empty());
        assert(commands.deep_view() =~= all.take(0).filter(keep).map_values(
            |action: ActionView| command_for(action),
        ));
    }
    let iter = actions.into_iter();
    for action in it: iter
        invariant
            it.seq() == moved,
            moved.len() == all.len(),
            forall|j: int| 0 <= j < moved.len() ==> (#[trigger] moved[j])@ == all[j],
            keep == offered(filter.deep_view()),
            commands.deep_view() == all.take(it.index()).filter(keep).map_values(
                |action: ActionView| command_for(action),
            ),
    {
        let ghost k = it.index();
        let ghost before = commands.deep_view();
        proof {
            reveal(Seq::filter);
            assert(action@ == all[k]);
            assert(all.take(k + 1).drop_last() =~= all.take(k));
            assert(all.take(k + 1).last() == all[k]);
        }
        let hidden = match filter {
            Some(filter) => filter.hides(&action),
            None => false,
        };
        if !hidden {
            let name = humanize_action_name(action.name.as_str());
            commands.push(Command { name, action });
            assert(commands.deep_view() =~= before.push(command_for(all[k])));
            assert(all.take(k + 1).filter(keep).map_values(
                |action: ActionView| command_for(action),
            ) =~= before.push(command_for(all[k])));
        }
    }
    assert(all.take(all.len() as int) =~= all);
    commands
}

} // verus!
