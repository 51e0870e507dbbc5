//! Interception: a query that is recognised as something special, such as a
//! pasted link, is answered by one synthetic command that is shown ahead of
//! everything the search found.

use crate::command::{Action, ActionView, Command, CommandView};
use crate::matches::{matches_fit, MatchView, StringMatch};
use vstd::prelude::*;
use vstd::string::StringExecFns;

verus! {

/// What an interceptor answers for a query that it recognises: the action to
/// offer, the text to show for it, and the positions in that text to
/// highlight.
#[derive(Debug, PartialEq, Eq)]
pub struct CommandInterceptResult {
    pub action: Action,
    pub string: String,
    pub positions: Vec<usize>,
}

/// The mathematical model of a [`CommandInterceptResult`].
pub struct InterceptView {
    pub action: ActionView,
    pub string: Seq<char>,
    pub positions: Seq<usize>,
}

impl View for CommandInterceptResult {
    type V = InterceptView;

    open spec fn view(&self) -> InterceptView {
        InterceptView { action: self.action@, string: self.string@, positions: self.positions@ }
    }
}

impl DeepView for CommandInterceptResult {
    type V = InterceptView;

    open spec fn deep_view(&self) -> InterceptView {
        self@
    }
}

/// An interceptor: the function by which a host recognises special
/// queries. It is asked on every change of the query, so it has to be quick
/// and must not change anything.
pub struct CommandPaletteInterceptor<F>(pub F);

/// The place where the active interceptor is registered. It holds at most
/// one: registering another replaces it.
pub struct InterceptorSlot<F> {
    active: Option<CommandPaletteInterceptor<F>>,
}

impl<F> View for InterceptorSlot<F> {
    type V = Option<F>;

    closed spec fn view(&self) -> Option<F> {
        match self.active {
            Some(interceptor) => Some(interceptor.0),
            None => None,
        }
    }
}

impl<F> InterceptorSlot<F> {
    /// A slot with no interceptor registered.
    pub fn new() -> (slot: Self)
        ensures
            slot@ is None,
    {
        InterceptorSlot { active: None }
    }

    /// Registers `interceptor` as the active one, and returns the one that
    /// it replaces.
    pub fn register(&mut self, interceptor: CommandPaletteInterceptor<F>) -> (replaced: Option<
        CommandPaletteInterceptor<F>,
    >)
        ensures
            final(self)@ == Some(interceptor.0),
            match replaced {
                Some(previous) => old(self)@ == Some(previous.0),
                None => old(self)@ is None,
            },
    {
        let mut replaced = Some(interceptor);
        core::mem::swap(&mut self.active, &mut replaced);
        replaced
    }

    /// Removes the active interceptor, and returns it.
    pub fn unregister(&mut self) -> (removed: Option<CommandPaletteInterceptor<F>>)
        ensures
            final(self)@ is None,
            match removed {
                Some(previous) => old(self)@ == Some(previous.0),
                None => old(self)@ is None,
            },
    {
        let mut removed = None;
        core::mem::swap(&mut self.active, &mut removed);
        removed
    }

    /// Whether an interceptor is registered.
    pub fn is_registered(&self) -> (registered: bool)
        ensures
            registered == (self@ is Some),
    {
        self.active.is_some()
    }

    /// Asks the active interceptor about `query`, in the context `cx`. With
    /// no interceptor registered the answer is `None`; otherwise it is
    /// whatever the interceptor answers.
    pub fn intercept<C, R>(&self, query: &str, cx: &C) -> (answer: Option<R>) where
        F: Fn(&str, &C) -> Option<R>,

        requires
            self@ matches Some(interceptor) ==> call_requires(interceptor, (query, cx)),
        ensures
            match self@ {
                Some(interceptor) => call_ensures(interceptor, (query, cx), answer),
                None => answer is None,
            },
    {
        match &self.active {
            Some(interceptor) => (interceptor.0)(query, cx),
            None => None,
        }
    }
}

/// The interception that offers to open `query` as a link, with nothing
/// highlighted.
pub open spec fn link_interception(query: Seq<char>, open_link: ActionView) -> InterceptView {
    InterceptView { action: open_link, string: query, positions: Seq::empty() }
}

/// The interception that counts for a query. On the development channel a
/// query that is a link of the editor's own kind is answered by
/// [`link_interception`], whatever the registered interceptor said;
/// otherwise the interceptor's answer stands.
pub open spec fn resolved_interception(
    intercepted: Option<InterceptView>,
    dev_channel: bool,
    is_link: bool,
    query: Seq<char>,
    open_link: ActionView,
) -> Option<InterceptView> {
    if dev_channel && is_link {
        Some(link_interception(query, open_link))
    } else {
        intercepted
    }
}

/// Decides which interception counts for `query`.
///
/// `intercepted` is the registered interceptor's answer, if there is one;
/// `dev_channel` says whether this is a development build; `is_link` says
/// whether `query` is a link of the editor's own kind; `open_link` is the
/// action that opens `query`.
pub fn resolve_interception(
    intercepted: Option<CommandInterceptResult>,
    dev_channel: bool,
    is_link: bool,
    query: &str,
    open_link: Action,
) -> (resolved: Option<CommandInterceptResult>)
    ensures
        resolved.deep_view() == resolved_interception(
            intercepted.deep_view(),
            dev_channel,
            is_link,
            query@,
            open_link@,
        ),
{
    if dev_channel && is_link {
        Some(
            CommandInterceptResult {
                action: open_link,
                string: String::from_str(query),
                positions: Vec::new(),
            },
        )
    } else {
        intercepted
    }
}

/// The command that an interception adds to the command list.
pub open spec fn intercepted_command(hit: InterceptView) -> CommandView {
    CommandView { name: hit.string, action: hit.action }
}

/// The match that shows an interception, where `index` is the position of
/// its command: score zero, highlighted as the interceptor asked.
pub open spec fn intercepted_match(index: int, hit: InterceptView) -> MatchView {
    MatchView {
        candidate_id: index as usize,
        score_bits: 0,
        positions: hit.positions,
        string: hit.string,
    }
}

/// Whether the command that `found` refers to is of another type than
/// `type_id`.
pub open spec fn shows_other_type(
    commands: Seq<CommandView>,
    type_id: u64,
    found: MatchView,
) -> bool {
    commands[found.candidate_id as int].action.type_id != type_id
}

/// [`shows_other_type`] as a predicate on matches.
pub open spec fn other_type(commands: Seq<CommandView>, type_id: u64) -> spec_fn(
    MatchView,
) -> bool {
    |found: MatchView| shows_other_type(commands, type_id, found)
}

/// The command list after an interception: the intercepted command is
/// added at the end.
pub open spec fn spliced_commands(commands: Seq<CommandView>, hit: InterceptView) -> Seq<
    CommandView,
> {
    commands.push(intercepted_command(hit))
}

/// The result list after an interception: the intercepted match comes
/// first, followed by the matches found, in their order, without those
/// whose command is of the intercepted action's type.
pub open spec fn spliced_matches(
    commands: Seq<CommandView>,
    matches: Seq<MatchView>,
    hit: InterceptView,
) -> Seq<MatchView> {
    seq![intercepted_match(commands.len() as int, hit)] + matches.filter(
        other_type(commands, hit.action.type_id),
    )
}

/// The matches of `matches` whose command is of another type than
/// `type_id`, in their order.
pub fn retain_other_types(
    commands: &Vec<Command>,
    matches: Vec<StringMatch>,
    type_id: u64,
) -> (kept: Vec<StringMatch>)
    requires
        matches_fit(matches.deep_view(), commands.len() as int),
    ensures
        kept.deep_view() == matches.deep_view().filter(other_type(commands.deep_view(), type_id)),
{
    let ghost all = matches.deep_view();
    let ghost list = commands.deep_view();
    let ghost keep = other_type(list, type_id);
    let mut kept: Vec<StringMatch> = Vec::new();
    proof {
        reveal(Seq::filter);
        assert(all.take(0) =~= Seq::<MatchView>::empty());
        assert(kept.deep_view() =~= Seq::<MatchView>::empty());
    }
    let ghost moved = matches@;
    let iter = matches.into_iter();
    for found in it: iter
        invariant
            it.seq() == moved,
            moved.len() == all.len(),
            forall|j: int| 0 <= j < moved.len() ==> (#[trigger] moved[j])@ == all[j],
            list == commands.deep_view(),
            keep == other_type(list, type_id),
            matches_fit(all, commands.len() as int),
            kept.deep_view() == all.take(it.index()).filter(keep),
    {
        let ghost k = it.index();
        let ghost before = kept.deep_view();
        proof {
            reveal(Seq::filter);
            assert(found@ == all[k]);
            assert(all.take(k + 1).drop_last() =~= all.take(k));
            assert(all.take(k + 1).last() == all[k]);
            assert(list[found.candidate_id as int] == commands[found.candidate_id as int]@);
        }
        if commands[found.candidate_id].action.type_id != type_id {
            kept.push(found);
            assert(kept.deep_view() =~= before.push(all[k]));
        }
    }
    assert(all.take(all.len() as int) =~= all);
    kept
}

/// Puts an interception ahead of the matches found: its command is added
/// to `commands`, and the returned list shows it first, followed by the
/// matches found that are not of its action's type.
pub fn splice_interception(
    commands: &mut Vec<Command>,
    matches: Vec<StringMatch>,
    hit: CommandInterceptResult,
) -> (spliced: Vec<StringMatch>)
    requires
        matches_fit(matches.deep_view(), old(commands).len() as int),
    ensures
        final(commands).deep_view() == spliced_commands(old(commands).deep_view(), hit@),
        spliced.deep_view() == spliced_matches(
            old(commands).deep_view(),
            matches.deep_view(),
            hit@,
        ),
{
    let ghost list = commands.deep_view();
    let ghost found = matches.deep_view();
    let mut spliced = retain_other_types(commands, matches, hit.action.type_id);
    let ghost kept = spliced.deep_view();
    let index = commands.len();
    let CommandInterceptResult { action, string, positions } = hit;
    commands.push(Command { name: string.clone(), action });
    spliced.insert(0, StringMatch { candidate_id: index, score_bits: 0, positions, string });
    proof {
        assert(commands.deep_view() =~= spliced_commands(list, hit@));
        assert(spliced.deep_view() =~= seq![intercepted_match(list.len() as int, hit@)] + kept);
    }
    spliced
}

/// An interception adds at most one entry to the result list.
pub proof fn lemma_spliced_len(
    commands: Seq<CommandView>,
    matches: Seq<MatchView>,
    hit: InterceptView,
)
    ensures
        1 <= spliced_matches(commands, matches, hit).len() <= matches.len() + 1,
{
    matches.lemma_filter_len(other_type(commands, hit.action.type_id));
}

/// After an interception the first entry of the result list shows the
/// intercepted command, and every other entry shows a command that was
/// there before and whose action is of another type.
pub proof fn lemma_interception_leads(
    commands: Seq<CommandView>,
    matches: Seq<MatchView>,
    hit: InterceptView,
)
    requires
        matches_fit(matches, commands.len() as int),
        commands.len() < usize::MAX,
    ensures
        ({
            let list = spliced_commands(commands, hit);
            let shown = spliced_matches(commands, matches, hit);
            &&& shown[0] == intercepted_match(commands.len() as int, hit)
            &&& list[shown[0].candidate_id as int] == intercepted_command(hit)
            &&& forall|i: int|
                1 <= i < shown.len() ==> {
                    &&& (#[trigger] shown[i]).candidate_id < commands.len()
                    &&& matches.contains(shown[i])
                    &&& list[shown[i].candidate_id as int] == commands[shown[i].candidate_id as int]
                    &&& list[shown[i].candidate_id as int].action.type_id != hit.action.type_id
                }
        }),
{
    let keep = other_type(commands, hit.action.type_id);
    let kept = matches.filter(keep);
    let shown = spliced_matches(commands, matches, hit);
    assert forall|i: int| 1 <= i < shown.len() implies {
        &&& (#[trigger] shown[i]).candidate_id < commands.len()
        &&& matches.contains(shown[i])
        &&& spliced_commands(commands, hit)[shown[i].candidate_id as int]
            == commands[shown[i].candidate_id as int]
        &&& spliced_commands(commands, hit)[shown[i].candidate_id as int].action.type_id
            != hit.action.type_id
    } by {
        assert(shown[i] == kept[i - 1]);
        matches.lemma_filter_pred(keep, i - 1);
        assert(kept.contains(kept[i - 1]));
        matches.lemma_filter_contains_rev(keep, kept[i - 1]);
        let j = choose|j: int| 0 <= j < matches.len() && matches[j] == kept[i - 1];
        assert(matches[j].candidate_id < commands.len());
    }
}

/// After an interception every entry of the result list still refers to a
/// command of the list.
pub proof fn lemma_spliced_fit(
    commands: Seq<CommandView>,
    matches: Seq<MatchView>,
    hit: InterceptView,
)
    requires
        matches_fit(matches, commands.len() as int),
        commands.len() < usize::MAX,
    ensures
        matches_fit(
            spliced_matches(commands, matches, hit),
            spliced_commands(commands, hit).len() as int,
        ),
{
    lemma_interception_leads(commands, matches, hit);
    let shown = spliced_matches(commands, matches, hit);
    assert forall|i: int| 0 <= i < shown.len() implies (#[trigger] shown[i]).candidate_id
        < commands.len() + 1 by {
        if i >= 1 {
            assert(shown[i].candidate_id < commands.len());
        }
    }
}

} // verus!
