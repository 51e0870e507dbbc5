//! The order of the catalog: commands that were confirmed more often come
//! first, and commands confirmed equally often are ordered by display name.

use crate::command::{Command, CommandView};
use crate::history::{hits, HitCounts, HitMap};
use crate::text::{
    lemma_lex_lt_asymmetric, lemma_lex_lt_irreflexive, lemma_lex_lt_total,
    lemma_lex_lt_transitive, lex_lt, str_less,
};
use vstd::prelude::*;

verus! {

/// Whether `a` must stand before `b`: it was confirmed more often, or
/// equally often and its display name is the smaller one.
pub open spec fn ranks_before(history: HitMap, a: CommandView, b: CommandView) -> bool {
    let hits_a = hits(history, a.name);
    let hits_b = hits(history, b.name);
    hits_a > hits_b || (hits_a == hits_b && lex_lt(a.name, b.name))
}

/// Whether no command of `catalog` stands behind one that it must precede.
pub open spec fn usage_sorted(history: HitMap, catalog: Seq<CommandView>) -> bool {
    forall|i: int, j: int|
        0 <= i < j < catalog.len() ==> !ranks_before(
            history,
            #[trigger] catalog[j],
            #[trigger] catalog[i],
        )
}

/// `sorted` with `command` added behind every command that it need not
/// precede.
pub open spec fn placed_by_usage(
    history: HitMap,
    sorted: Seq<CommandView>,
    command: CommandView,
) -> Seq<CommandView>
    decreases sorted.len(),
{
    if sorted.len() > 0 && ranks_before(history, command, sorted.last()) {
        placed_by_usage(history, sorted.drop_last(), command).push(sorted.last())
    } else {
        sorted.push(command)
    }
}

/// The catalog in usage order. Commands that neither precedes the other
/// keep the order in which the catalog lists them.
pub open spec fn sorted_by_usage(history: HitMap, catalog: Seq<CommandView>) -> Seq<
    CommandView,
>
    decreases catalog.len(),
{
    if catalog.len() == 0 {
        catalog
    } else {
        placed_by_usage(history, sorted_by_usage(history, catalog.drop_last()), catalog.last())
    }
}

/// Whether `at` is where `command` belongs in `sorted`: it need not precede
/// anything in front of `at`, and must precede everything from `at` on.
pub open spec fn is_place_of(
    history: HitMap,
    sorted: Seq<CommandView>,
    command: CommandView,
    at: int,
) -> bool {
    &&& 0 <= at <= sorted.len()
    &&& forall|j: int| 0 <= j < at ==> !ranks_before(history, command, #[trigger] sorted[j])
    &&& forall|j: int|
        at <= j < sorted.len() ==> ranks_before(history, command, #[trigger] sorted[j])
}

/// No command precedes itself, nor one of the same display name.
pub proof fn lemma_ranks_before_irreflexive(
    history: HitMap,
    a: CommandView,
    b: CommandView,
)
    requires
        a.name == b.name,
    ensures
        !ranks_before(history, a, b),
{
    lemma_lex_lt_irreflexive(a.name);
}

/// Two commands never precede each other.
pub proof fn lemma_ranks_before_asymmetric(
    history: HitMap,
    a: CommandView,
    b: CommandView,
)
    requires
        ranks_before(history, a, b),
    ensures
        !ranks_before(history, b, a),
{
    if lex_lt(a.name, b.name) {
        lemma_lex_lt_asymmetric(a.name, b.name);
    }
}

/// Of two commands with different display names, one precedes the other.
pub proof fn lemma_ranks_before_total(history: HitMap, a: CommandView, b: CommandView)
    requires
        a.name != b.name,
    ensures
        ranks_before(history, a, b) || ranks_before(history, b, a),
{
    lemma_lex_lt_total(a.name, b.name);
}

/// What precedes a command precedes everything that does not precede that
/// command.
pub proof fn lemma_ranks_before_extends(
    history: HitMap,
    a: CommandView,
    b: CommandView,
    c: CommandView,
)
    requires
        ranks_before(history, a, b),
        !ranks_before(history, c, b),
    ensures
        ranks_before(history, a, c),
{
    if hits(history, a.name) == hits(history, c.name) {
        lemma_lex_lt_total(b.name, c.name);
        if lex_lt(b.name, c.name) {
            lemma_lex_lt_transitive(a.name, b.name, c.name);
        }
    }
}

/// If `a` need not follow `b`, nor `b` follow `c`, then `a` need not follow
/// `c`.
pub proof fn lemma_not_before_transitive(
    history: HitMap,
    a: CommandView,
    b: CommandView,
    c: CommandView,
)
    requires
        !ranks_before(history, b, a),
        !ranks_before(history, c, b),
    ensures
        !ranks_before(history, c, a),
{
    if ranks_before(history, c, a) {
        lemma_ranks_before_extends(history, c, a, b);
    }
}

/// Adding a command at its place is what [`placed_by_usage`] does.
pub proof fn lemma_placed_at(
    history: HitMap,
    sorted: Seq<CommandView>,
    command: CommandView,
    at: int,
)
    requires
        is_place_of(history, sorted, command, at),
    ensures
        placed_by_usage(history, sorted, command) == sorted.insert(at, command),
    decreases sorted.len(),
{
    if at < sorted.len() {
        let front = sorted.drop_last();
        assert(ranks_before(history, command, sorted[sorted.len() - 1]));
        assert forall|j: int| at <= j < front.len() implies ranks_before(
            history,
            command,
            #[trigger] front[j],
        ) by {
            assert(front[j] == sorted[j]);
        }
        assert forall|j: int| 0 <= j < at implies !ranks_before(
            history,
            command,
            #[trigger] front[j],
        ) by {
            assert(front[j] == sorted[j]);
        }
        lemma_placed_at(history, front, command, at);
        assert(front.insert(at, command).push(sorted.last()) =~= sorted.insert(at, command));
    } else {
        if sorted.len() > 0 {
            assert(!ranks_before(history, command, sorted[sorted.len() - 1]));
        }
        assert(sorted.push(command) =~= sorted.insert(at, command));
    }
}

/// Adding a command at its place keeps a sorted catalog sorted.
pub proof fn lemma_placed_sorted(
    history: HitMap,
    sorted: Seq<CommandView>,
    command: CommandView,
    at: int,
)
    requires
        usage_sorted(history, sorted),
        is_place_of(history, sorted, command, at),
    ensures
        usage_sorted(history, sorted.insert(at, command)),
{
    let grown = sorted.insert(at, command);
    assert forall|i: int, j: int| 0 <= i < j < grown.len() implies !ranks_before(
        history,
        #[trigger] grown[j],
        #[trigger] grown[i],
    ) by {
        if j < at {
            assert(grown[i] == sorted[i] && grown[j] == sorted[j]);
        } else if j == at {
            assert(grown[i] == sorted[i]);
            assert(!ranks_before(history, command, sorted[i]));
        } else if i == at {
            assert(grown[j] == sorted[j - 1]);
            assert(ranks_before(history, command, sorted[j - 1]));
            lemma_ranks_before_asymmetric(history, command, sorted[j - 1]);
        } else if i < at {
            assert(grown[i] == sorted[i] && grown[j] == sorted[j - 1]);
        } else {
            assert(grown[i] == sorted[i - 1] && grown[j] == sorted[j - 1]);
        }
    }
}

/// Every command has a place in a catalog that is in usage order.
pub proof fn lemma_place_exists(
    history: HitMap,
    sorted: Seq<CommandView>,
    command: CommandView,
) -> (at: int)
    requires
        usage_sorted(history, sorted),
    ensures
        is_place_of(history, sorted, command, at),
    decreases sorted.len(),
{
    if sorted.len() == 0 {
        0
    } else if ranks_before(history, command, sorted.last()) {
        let front = sorted.drop_last();
        assert forall|i: int, j: int| 0 <= i < j < front.len() implies !ranks_before(
            history,
            #[trigger] front[j],
            #[trigger] front[i],
        ) by {
            assert(front[i] == sorted[i] && front[j] == sorted[j]);
        }
        let at = lemma_place_exists(history, front, command);
        assert forall|j: int| 0 <= j < at implies !ranks_before(
            history,
            command,
            #[trigger] sorted[j],
        ) by {
            assert(front[j] == sorted[j]);
        }
        assert forall|j: int| at <= j < sorted.len() implies ranks_before(
            history,
            command,
            #[trigger] sorted[j],
        ) by {
            if j < front.len() {
                assert(front[j] == sorted[j]);
            }
        }
        at
    } else {
        let last = sorted.len() - 1;
        assert forall|j: int| 0 <= j < sorted.len() implies !ranks_before(
            history,
            command,
            #[trigger] sorted[j],
        ) by {
            if j < last {
                assert(!ranks_before(history, sorted[last], sorted[j]));
                lemma_not_before_transitive(history, sorted[j], sorted[last], command);
            }
        }
        sorted.len() as int
    }
}

/// Sorting neither adds nor drops a command.
pub proof fn lemma_sorted_by_usage_len(history: HitMap, catalog: Seq<CommandView>)
    ensures
        sorted_by_usage(history, catalog).len() == catalog.len(),
    decreases catalog.len(),
{
    if catalog.len() > 0 {
        lemma_sorted_by_usage_len(history, catalog.drop_last());
        lemma_sorted_by_usage_sorted(history, catalog.drop_last());
        let front = sorted_by_usage(history, catalog.drop_last());
        let at = lemma_place_exists(history, front, catalog.last());
        lemma_placed_at(history, front, catalog.last(), at);
    }
}

/// The sorted catalog is in usage order: no command stands behind one that
/// it must precede.
pub proof fn lemma_sorted_by_usage_sorted(history: HitMap, catalog: Seq<CommandView>)
    ensures
        usage_sorted(history, sorted_by_usage(history, catalog)),
    decreases catalog.len(),
{
    if catalog.len() > 0 {
        lemma_sorted_by_usage_sorted(history, catalog.drop_last());
        let front = sorted_by_usage(history, catalog.drop_last());
        let at = lemma_place_exists(history, front, catalog.last());
        lemma_placed_at(history, front, catalog.last(), at);
        lemma_placed_sorted(history, front, catalog.last(), at);
    }
}

/// The sorted catalog holds exactly the commands of the catalog, each as
/// often as the catalog does.
pub proof fn lemma_sorted_by_usage_permutes(
    history: HitMap,
    catalog: Seq<CommandView>,
)
    ensures
        sorted_by_usage(history, catalog).to_multiset() == catalog.to_multiset(),
    decreases catalog.len(),
{
    broadcast use vstd::seq_lib::group_to_multiset_ensures;

    if catalog.len() > 0 {
        let front = catalog.drop_last();
        let last = catalog.last();
        lemma_sorted_by_usage_permutes(history, front);
        lemma_placed_permutes(history, sorted_by_usage(history, front), last);
        assert(catalog =~= front.push(last));
        assert(front.push(last).to_multiset() =~= front.to_multiset().insert(last));
    } else {
        assert(sorted_by_usage(history, catalog) =~= catalog);
    }
}

/// Placing a command adds it, and nothing else, to the commands held.
pub proof fn lemma_placed_permutes(
    history: HitMap,
    sorted: Seq<CommandView>,
    command: CommandView,
)
    ensures
        placed_by_usage(history, sorted, command).to_multiset() == sorted.to_multiset().insert(
            command,
        ),
    decreases sorted.len(),
{
    broadcast use vstd::seq_lib::group_to_multiset_ensures;

    if sorted.len() > 0 && ranks_before(history, command, sorted.last()) {
        let front = sorted.drop_last();
        let last = sorted.last();
        lemma_placed_permutes(history, front, command);
        assert(sorted =~= front.push(last));
        assert(front.push(last).to_multiset() =~= front.to_multiset().insert(last));
        assert(placed_by_usage(history, front, command).push(last).to_multiset()
            =~= placed_by_usage(history, front, command).to_multiset().insert(last));
        assert(front.to_multiset().insert(command).insert(last) =~= front.to_multiset().insert(
            last,
        ).insert(command));
    }
}

/// The predicate of the commands shown as `name`.
pub open spec fn shown_as(name: Seq<char>) -> spec_fn(CommandView) -> bool {
    |command: CommandView| command.name == name
}

/// Placing a command leaves it behind the commands of the same display
/// name.
pub proof fn lemma_placed_is_stable(
    history: HitMap,
    sorted: Seq<CommandView>,
    command: CommandView,
    name: Seq<char>,
)
    ensures
        placed_by_usage(history, sorted, command).filter(shown_as(name)) == sorted.push(
            command,
        ).filter(shown_as(name)),
    decreases sorted.len(),
{
    broadcast use Seq::lemma_filter_push;

    if sorted.len() > 0 && ranks_before(history, command, sorted.last()) {
        let front = sorted.drop_last();
        let last = sorted.last();
        lemma_placed_is_stable(history, front, command, name);
        assert(sorted =~= front.push(last));
        if command.name == name && last.name == name {
            lemma_ranks_before_irreflexive(history, command, last);
        }
    }
}

/// Sorting is stable: the commands of one display name stand in the sorted
/// catalog in the order in which the catalog lists them.
pub proof fn lemma_sorted_by_usage_is_stable(
    history: HitMap,
    catalog: Seq<CommandView>,
    name: Seq<char>,
)
    ensures
        sorted_by_usage(history, catalog).filter(shown_as(name)) == catalog.filter(shown_as(name)),
    decreases catalog.len(),
{
    broadcast use Seq::lemma_filter_push;

    if catalog.len() > 0 {
        let front = catalog.drop_last();
        let last = catalog.last();
        lemma_sorted_by_usage_is_stable(history, front, name);
        lemma_placed_is_stable(history, sorted_by_usage(history, front), last, name);
        assert(catalog =~= front.push(last));
    }
}

/// The commands shown as `name`, with and without the first command of a
/// catalog.
proof fn lemma_shown_as_first(catalog: Seq<CommandView>, name: Seq<char>)
    requires
        catalog.len() > 0,
    ensures
        catalog.filter(shown_as(name)) == (if catalog[0].name == name {
            seq![catalog[0]]
        } else {
            Seq::empty()
        }) + catalog.drop_first().filter(shown_as(name)),
{
    catalog.drop_first().lemma_filter_prepend(catalog[0], shown_as(name));
    assert(seq![catalog[0]] + catalog.drop_first() =~= catalog);
}

/// A catalog that lists the commands of every display name as the empty
/// catalog does is empty.
proof fn lemma_names_of_nothing(nothing: Seq<CommandView>, catalog: Seq<CommandView>)
    requires
        nothing.len() == 0,
        forall|name: Seq<char>| #[trigger]
            nothing.filter(shown_as(name)) == catalog.filter(shown_as(name)),
    ensures
        catalog.len() == 0,
{
    if catalog.len() > 0 {
        let name = catalog[0].name;
        lemma_shown_as_first(catalog, name);
        nothing.lemma_filter_len(shown_as(name));
        assert(nothing.filter(shown_as(name)) == catalog.filter(shown_as(name)));
    }
}

/// The usage order is unique: two catalogs in usage order that list the
/// commands of every display name alike are the same catalog.
pub proof fn lemma_usage_order_is_unique(
    history: HitMap,
    a: Seq<CommandView>,
    b: Seq<CommandView>,
)
    requires
        usage_sorted(history, a),
        usage_sorted(history, b),
        forall|name: Seq<char>| #[trigger] a.filter(shown_as(name)) == b.filter(shown_as(name)),
    ensures
        a == b,
    decreases a.len() + b.len(),
{
    if a.len() == 0 || b.len() == 0 {
        if a.len() > 0 {
            lemma_names_of_nothing(b, a);
        } else if b.len() > 0 {
            lemma_names_of_nothing(a, b);
        }
        assert(a =~= b);
    } else {
        let n = a[0].name;
        let m = b[0].name;
        if n != m {
            lemma_shown_as_first(a, n);
            lemma_shown_as_first(b, m);
            assert(a.filter(shown_as(n)) == b.filter(shown_as(n)));
            assert(a.filter(shown_as(m)) == b.filter(shown_as(m)));
            assert(a.filter(shown_as(n))[0] == a[0]);
            assert(b.filter(shown_as(m))[0] == b[0]);
            assert(b.filter(shown_as(n)).contains(a[0]));
            assert(a.filter(shown_as(m)).contains(b[0]));
            b.lemma_filter_contains_rev(shown_as(n), a[0]);
            a.lemma_filter_contains_rev(shown_as(m), b[0]);
            let i = choose|i: int| 0 <= i < a.len() && a[i] == b[0];
            let j = choose|j: int| 0 <= j < b.len() && b[j] == a[0];
            assert(i > 0 && j > 0);
            assert(!ranks_before(history, a[i], a[0]));
            assert(!ranks_before(history, b[j], b[0]));
            lemma_ranks_before_total(history, a[0], b[0]);
        }
        let rest_a = a.drop_first();
        let rest_b = b.drop_first();
        lemma_shown_as_first(a, n);
        lemma_shown_as_first(b, n);
        assert(a.filter(shown_as(n)) == b.filter(shown_as(n)));
        assert(a.filter(shown_as(n))[0] == a[0]);
        assert(b.filter(shown_as(n))[0] == b[0]);
        assert forall|name: Seq<char>| #[trigger]
            rest_a.filter(shown_as(name)) == rest_b.filter(shown_as(name)) by {
            lemma_shown_as_first(a, name);
            lemma_shown_as_first(b, name);
            assert(a.filter(shown_as(name)) == b.filter(shown_as(name)));
            if name == n {
                assert((seq![a[0]] + rest_a.filter(shown_as(name))).drop_first()
                    =~= rest_a.filter(shown_as(name)));
                assert((seq![b[0]] + rest_b.filter(shown_as(name))).drop_first()
                    =~= rest_b.filter(shown_as(name)));
            } else {
                assert(Seq::<CommandView>::empty() + rest_a.filter(shown_as(name))
                    =~= rest_a.filter(shown_as(name)));
                assert(Seq::<CommandView>::empty() + rest_b.filter(shown_as(name))
                    =~= rest_b.filter(shown_as(name)));
            }
        }
        assert forall|i: int, j: int| 0 <= i < j < rest_a.len() implies !ranks_before(
            history,
            #[trigger] rest_a[j],
            #[trigger] rest_a[i],
        ) by {
            assert(rest_a[i] == a[i + 1] && rest_a[j] == a[j + 1]);
        }
        assert forall|i: int, j: int| 0 <= i < j < rest_b.len() implies !ranks_before(
            history,
            #[trigger] rest_b[j],
            #[trigger] rest_b[i],
        ) by {
            assert(rest_b[i] == b[i + 1] && rest_b[j] == b[j + 1]);
        }
        lemma_usage_order_is_unique(history, rest_a, rest_b);
        assert(a =~= seq![a[0]] + rest_a);
        assert(b =~= seq![b[0]] + rest_b);
    }
}

/// The sorted catalog is the only catalog in usage order that lists the
/// commands of every display name as the catalog does.
pub proof fn lemma_sorted_by_usage_is_the_usage_order(
    history: HitMap,
    catalog: Seq<CommandView>,
    ordered: Seq<CommandView>,
)
    requires
        usage_sorted(history, ordered),
        forall|name: Seq<char>| #[trigger]
            ordered.filter(shown_as(name)) == catalog.filter(shown_as(name)),
    ensures
        ordered == sorted_by_usage(history, catalog),
{
    let sorted = sorted_by_usage(history, catalog);
    lemma_sorted_by_usage_sorted(history, catalog);
    assert forall|name: Seq<char>| #[trigger]
        ordered.filter(shown_as(name)) == sorted.filter(shown_as(name)) by {
        lemma_sorted_by_usage_is_stable(history, catalog, name);
    }
    lemma_usage_order_is_unique(history, ordered, sorted);
}

/// A catalog that is in usage order is its own sorted catalog.
pub proof fn lemma_sorted_stays(history: HitMap, catalog: Seq<CommandView>)
    requires
        usage_sorted(history, catalog),
    ensures
        sorted_by_usage(history, catalog) == catalog,
    decreases catalog.len(),
{
    if catalog.len() > 0 {
        let front = catalog.drop_last();
        let last = catalog.last();
        assert forall|i: int, j: int| 0 <= i < j < front.len() implies !ranks_before(
            history,
            #[trigger] front[j],
            #[trigger] front[i],
        ) by {
            assert(front[i] == catalog[i] && front[j] == catalog[j]);
        }
        lemma_sorted_stays(history, front);
        if front.len() > 0 {
            assert(front.last() == catalog[front.len() - 1]);
            assert(!ranks_before(history, catalog[catalog.len() - 1], catalog[front.len() - 1]));
        }
        assert(front.push(last) =~= catalog);
    }
}

/// Sorting twice is sorting once.
pub proof fn lemma_sorted_by_usage_idempotent(
    history: HitMap,
    catalog: Seq<CommandView>,
)
    ensures
        sorted_by_usage(history, sorted_by_usage(history, catalog)) == sorted_by_usage(
            history,
            catalog,
        ),
{
    lemma_sorted_by_usage_sorted(history, catalog);
    lemma_sorted_stays(history, sorted_by_usage(history, catalog));
}

/// Every command of the sorted catalog is a command of the catalog.
pub proof fn lemma_sorted_by_usage_holds(
    history: HitMap,
    catalog: Seq<CommandView>,
    i: int,
)
    requires
        0 <= i < sorted_by_usage(history, catalog).len(),
    ensures
        catalog.contains(sorted_by_usage(history, catalog)[i]),
{
    broadcast use vstd::seq_lib::group_to_multiset_ensures;

    let sorted = sorted_by_usage(history, catalog);
    lemma_sorted_by_usage_permutes(history, catalog);
    assert(sorted.contains(sorted[i]));
    assert(sorted.to_multiset().count(sorted[i]) > 0);
}

/// Whether `a` must stand before `b`.
pub fn command_ranks_before(history: &HitCounts, a: &Command, b: &Command) -> (before: bool)
    ensures
        before == ranks_before(history@, a@, b@),
{
    let hits_a = history.count(a.name.as_str());
    let hits_b = history.count(b.name.as_str());
    hits_a > hits_b || (hits_a == hits_b && str_less(a.name.as_str(), b.name.as_str()))
}

/// Where `command` belongs in a catalog that is in usage order.
fn place_by_usage(history: &HitCounts, sorted: &Vec<Command>, command: &Command) -> (at: usize)
    requires
        usage_sorted(history@, sorted.deep_view()),
    ensures
        is_place_of(history@, sorted.deep_view(), command@, at as int),
{
    let ghost list = sorted.deep_view();
    let mut low: usize = 0;
    let mut high: usize = sorted.len();
    while low < high
        invariant
            low <= high <= sorted.len(),
            list == sorted.deep_view(),
            usage_sorted(history@, list),
            forall|j: int| 0 <= j < low ==> !ranks_before(history@, command@, #[trigger] list[j]),
            forall|j: int|
                high <= j < list.len() ==> ranks_before(history@, command@, #[trigger] list[j]),
        decreases high - low,
    {
        let middle = low + (high - low) / 2;
        assert(list[middle as int] == sorted[middle as int]@);
        if command_ranks_before(history, command, &sorted[middle]) {
            assert forall|j: int| middle <= j < list.len() implies ranks_before(
                history@,
                command@,
                #[trigger] list[j],
            ) by {
                if j > middle {
                    lemma_ranks_before_extends(history@, command@, list[middle as int], list[j]);
                }
            }
            high = middle;
        } else {
            assert forall|j: int| 0 <= j < middle + 1 implies !ranks_before(
                history@,
                command@,
                #[trigger] list[j],
            ) by {
                if j < middle {
                    lemma_not_before_transitive(history@, list[j], list[middle as int], command@);
                }
            }
            low = middle + 1;
        }
    }
    low
}

/// The catalog in usage order: most often confirmed first, then by display
/// name, and otherwise as the catalog lists them.
pub fn sort_by_usage(history: &HitCounts, catalog: &Vec<Command>) -> (sorted: Vec<Command>)
    ensures
        sorted.deep_view() == sorted_by_usage(history@, catalog.deep_view()),
        usage_sorted(history@, sorted.deep_view()),
        sorted.deep_view().to_multiset() == catalog.deep_view().to_multiset(),
        sorted.len() == catalog.len(),
{
    let ghost all = catalog.deep_view();
    let mut sorted: Vec<Command> = Vec::new();
    assert(all.take(0) =~= Seq::<CommandView>::empty());
    assert(sorted.deep_view() =~= Seq::<CommandView>::empty());
    for i in 0..catalog.len()
        invariant
            all == catalog.deep_view(),
            sorted.deep_view() == sorted_by_usage(history@, all.take(i as int)),
            usage_sorted(history@, sorted.deep_view()),
    {
        let command = catalog[i].clone();
        let at = place_by_usage(history, &sorted, &command);
        let ghost before = sorted.deep_view();
        sorted.insert(at, command);
        proof {
            assert(command@ == all[i as int]);
            assert(sorted.deep_view() =~= before.insert(at as int, command@));
            lemma_placed_at(history@, before, command@, at as int);
            lemma_placed_sorted(history@, before, command@, at as int);
            assert(all.take(i + 1).drop_last() =~= all.take(i as int));
            assert(all.take(i + 1).last() == all[i as int]);
        }
    }
    proof {
        assert(all.take(catalog.len() as int) =~= all);
        lemma_sorted_by_usage_permutes(history@, all);
        lemma_sorted_by_usage_len(history@, all);
    }
    sorted
}

} // verus!
