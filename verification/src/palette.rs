//! The palette's state and protocol: a query starts a ranking pass, the
//! answer to a pass becomes the visible result list if no later pass has
//! been started meanwhile, and confirming the selected entry yields the
//! command to run and counts its use.

use crate::catalog::{
    catalog_of, is_hidden, lemma_catalog_offers_no_hidden_action, namespace_of, FilterView,
};
use crate::command::{Action, ActionView, Command, CommandView};
use crate::history::{hits, HitCounts, HitMap};
use crate::intercept::{
    intercepted_command, intercepted_match, lemma_interception_leads, lemma_spliced_fit,
    lemma_spliced_len, other_type, resolved_interception, splice_interception,
    spliced_commands, spliced_matches, CommandInterceptResult, InterceptView,
};
use crate::matches::{
    browse_all, lemma_distinct_matches_len, lemma_plain_matches_fit, matches_distinct,
    matches_fit, plain_matches, search_for, search_query, MatchQuery, MatchQueryView, MatchView,
    StringMatch,
};
use crate::ranking::{
    lemma_sorted_by_usage_holds, lemma_sorted_by_usage_len, lemma_sorted_by_usage_sorted,
    sort_by_usage, sorted_by_usage, usage_sorted,
};
use vstd::prelude::*;

verus! {

/// The name under which confirmations are reported to telemetry.
pub const TELEMETRY_SOURCE: &'static str = "command palette";

/// A ranking pass in flight: the catalog in usage order, and the search to
/// run on it, if the query asks for one.
pub struct RankingPass {
    generation: u64,
    commands: Vec<Command>,
    search: Option<MatchQuery>,
}

/// The mathematical model of a [`RankingPass`].
pub struct PassView {
    /// The number of the pass: that of the palette when the pass started.
    pub generation: u64,
    /// The catalog in usage order.
    pub commands: Seq<CommandView>,
    /// The search to run, or `None` where the query is empty.
    pub search: Option<MatchQueryView>,
}

impl View for RankingPass {
    type V = PassView;

    closed spec fn view(&self) -> PassView {
        PassView {
            generation: self.generation,
            commands: self.commands.deep_view(),
            search: self.search.deep_view(),
        }
    }
}

impl DeepView for RankingPass {
    type V = PassView;

    open spec fn deep_view(&self) -> PassView {
        self@
    }
}

impl RankingPass {
    /// The catalog in usage order, to which the matches of this pass refer.
    pub fn commands(&self) -> (commands: &Vec<Command>)
        ensures
            commands.deep_view() == self@.commands,
    {
        &self.commands
    }

    /// The search to run for this pass, or `None` where the query is empty
    /// and every command is shown.
    pub fn search(&self) -> (search: Option<&MatchQuery>)
        ensures
            search.deep_view() == self@.search,
    {
        self.search.as_ref()
    }
}

/// The state of a palette.
pub struct CommandPaletteDelegate {
    all_commands: Vec<Command>,
    commands: Vec<Command>,
    matches: Vec<StringMatch>,
    selected_ix: usize,
    generation: u64,
}

/// The mathematical model of a [`CommandPaletteDelegate`].
pub struct PaletteView {
    /// The catalog, as it was given when the palette opened.
    pub all_commands: Seq<CommandView>,
    /// The commands to which the visible matches refer.
    pub commands: Seq<CommandView>,
    /// The visible result list.
    pub matches: Seq<MatchView>,
    /// The selected position in the result list.
    pub selected_ix: usize,
    /// The number of the latest ranking pass that was started.
    pub generation: u64,
}

impl View for CommandPaletteDelegate {
    type V = PaletteView;

    closed spec fn view(&self) -> PaletteView {
        PaletteView {
            all_commands: self.all_commands.deep_view(),
            commands: self.commands.deep_view(),
            matches: self.matches.deep_view(),
            selected_ix: self.selected_ix,
            generation: self.generation,
        }
    }
}

/// The number of the pass that follows pass `generation`.
pub open spec fn next_generation(generation: u64) -> u64 {
    if generation == u64::MAX {
        0
    } else {
        (generation + 1) as u64
    }
}

/// The pass that a palette in state `state` starts for `query`.
pub open spec fn started_pass(
    state: PaletteView,
    history: HitMap,
    query: Seq<char>,
) -> PassView {
    let sorted = sorted_by_usage(history, state.all_commands);
    PassView {
        generation: next_generation(state.generation),
        commands: sorted,
        search: if query.len() == 0 {
            None
        } else {
            Some(search_for(sorted, query))
        },
    }
}

/// The matches that a pass starts from: what the search found, or every
/// command where nothing was searched for.
pub open spec fn base_matches(pass: PassView, found: Seq<MatchView>) -> Seq<MatchView> {
    if pass.search is Some {
        found
    } else {
        plain_matches(pass.commands)
    }
}

/// The commands that a pass ends with: the catalog in usage order,
/// followed by the intercepted command, if there is one.
pub open spec fn ranked_commands(pass: PassView, hit: Option<InterceptView>) -> Seq<CommandView> {
    match hit {
        Some(hit) => spliced_commands(pass.commands, hit),
        None => pass.commands,
    }
}

/// The result list that a pass ends with.
pub open spec fn ranked_matches(
    pass: PassView,
    found: Seq<MatchView>,
    hit: Option<InterceptView>,
) -> Seq<MatchView> {
    match hit {
        Some(hit) => spliced_matches(pass.commands, base_matches(pass, found), hit),
        None => base_matches(pass, found),
    }
}

/// The selection after the result list has changed to `count` entries:
/// where it was, but no further than the last entry.
pub open spec fn clamped_selection(selected_ix: usize, count: nat) -> usize {
    if count == 0 {
        0
    } else if selected_ix < count {
        selected_ix
    } else {
        (count - 1) as usize
    }
}

/// The state of a palette after the answer to `pass` has been applied.
pub open spec fn applied_state(
    state: PaletteView,
    pass: PassView,
    found: Seq<MatchView>,
    hit: Option<InterceptView>,
) -> PaletteView {
    let matches = ranked_matches(pass, found, hit);
    PaletteView {
        commands: ranked_commands(pass, hit),
        matches,
        selected_ix: clamped_selection(state.selected_ix, matches.len()),
        ..state
    }
}

/// Whether the palette in state `state` has an entry selected.
pub open spec fn has_selection(state: PaletteView) -> bool {
    state.selected_ix < state.matches.len()
}

/// The command that the selected entry of `state` refers to.
pub open spec fn selected_command(state: PaletteView) -> CommandView {
    state.commands[state.matches[state.selected_ix as int].candidate_id as int]
}

/// Whether the palette in state `state` can be confirmed: its result list
/// is empty, or an entry of it is selected and the count of its command's
/// uses can still grow.
pub open spec fn confirmable(state: PaletteView, history: HitMap) -> bool {
    state.matches.len() > 0 ==> has_selection(state) && hits(
        history,
        selected_command(state).name,
    ) < usize::MAX
}

/// The state of a palette after it was dismissed: the lists stay, but no
/// pass that was started before is applied any more.
pub open spec fn dismissed_state(state: PaletteView) -> PaletteView {
    PaletteView { generation: next_generation(state.generation), ..state }
}

/// The state of a palette after a confirmation: it is dismissed, and the
/// result list and its commands are gone.
pub open spec fn confirmed_state(state: PaletteView) -> PaletteView {
    PaletteView { commands: Seq::empty(), matches: Seq::empty(), ..dismissed_state(state) }
}

/// How many entries an interception adds to the result list at most.
pub open spec fn entries_added(hit: Option<InterceptView>) -> int {
    if hit is Some {
        1
    } else {
        0
    }
}

/// The result list never has more entries than the catalog has commands,
/// plus one where the query was intercepted. This holds of every search
/// answer that names no command twice.
pub proof fn lemma_result_list_is_bounded(
    state: PaletteView,
    history: HitMap,
    query: Seq<char>,
    found: Seq<MatchView>,
    hit: Option<InterceptView>,
)
    requires
        state.all_commands.len() <= usize::MAX,
        query.len() > 0 ==> matches_fit(found, state.all_commands.len() as int)
            && matches_distinct(found),
    ensures
        ranked_matches(started_pass(state, history, query), found, hit).len()
            <= state.all_commands.len() + entries_added(hit),
{
    let pass = started_pass(state, history, query);
    lemma_sorted_by_usage_len(history, state.all_commands);
    let base = base_matches(pass, found);
    if query.len() > 0 {
        lemma_distinct_matches_len(found, state.all_commands.len() as int);
    } else {
        lemma_plain_matches_fit(pass.commands);
    }
    if let Some(hit) = hit {
        lemma_spliced_len(pass.commands, base, hit);
    }
}

/// For an empty query that is not intercepted, the result list is the
/// catalog in usage order: entry by entry it shows the command at the same
/// position, under its display name, with nothing highlighted.
pub proof fn lemma_empty_query_lists_catalog(
    state: PaletteView,
    history: HitMap,
    found: Seq<MatchView>,
)
    requires
        state.all_commands.len() <= usize::MAX,
    ensures
        ({
            let sorted = sorted_by_usage(history, state.all_commands);
            let pass = started_pass(state, history, Seq::empty());
            let shown = ranked_matches(pass, found, None);
            &&& ranked_commands(pass, None) == sorted
            &&& usage_sorted(history, sorted)
            &&& shown.len() == sorted.len()
            &&& forall|i: int|
                0 <= i < shown.len() ==> {
                    &&& (#[trigger] shown[i]).candidate_id == i
                    &&& shown[i].string == sorted[i].name
                    &&& shown[i].positions.len() == 0
                    &&& shown[i].score_bits == 0
                }
        }),
{
    lemma_sorted_by_usage_len(history, state.all_commands);
    lemma_sorted_by_usage_sorted(history, state.all_commands);
}

/// For an empty query that is intercepted, the result list is the
/// interception followed by the catalog in usage order, without the
/// commands of the intercepted action's type.
pub proof fn lemma_empty_query_keeps_usage_order(
    state: PaletteView,
    history: HitMap,
    found: Seq<MatchView>,
    hit: InterceptView,
)
    ensures
        ({
            let sorted = sorted_by_usage(history, state.all_commands);
            let pass = started_pass(state, history, Seq::empty());
            ranked_matches(pass, found, Some(hit)).drop_first() == plain_matches(sorted).filter(
                other_type(sorted, hit.action.type_id),
            )
        }),
{
    let sorted = sorted_by_usage(history, state.all_commands);
    let pass = started_pass(state, history, Seq::empty());
    let kept = plain_matches(sorted).filter(other_type(sorted, hit.action.type_id));
    assert((seq![intercepted_match(sorted.len() as int, hit)] + kept).drop_first() =~= kept);
}

/// Unless a link is opened in its place, the interceptor's answer is the
/// interception that counts: it is shown first, and no other entry shows a
/// command whose action is of its action's type.
pub proof fn lemma_interceptor_answer_is_first_and_alone(
    state: PaletteView,
    history: HitMap,
    query: Seq<char>,
    found: Seq<MatchView>,
    answer: InterceptView,
    dev_channel: bool,
    is_link: bool,
    open_link: ActionView,
)
    requires
        !(dev_channel && is_link),
        state.all_commands.len() < usize::MAX,
        query.len() > 0 ==> matches_fit(found, state.all_commands.len() as int),
    ensures
        ({
            let hit = resolved_interception(Some(answer), dev_channel, is_link, query, open_link);
            let pass = started_pass(state, history, query);
            let commands = ranked_commands(pass, hit);
            let shown = ranked_matches(pass, found, hit);
            &&& hit == Some(answer)
            &&& shown.len() >= 1
            &&& shown[0].string == answer.string
            &&& shown[0].positions == answer.positions
            &&& commands[shown[0].candidate_id as int] == intercepted_command(answer)
            &&& forall|i: int|
                1 <= i < shown.len() ==> {
                    let command = commands[(#[trigger] shown[i]).candidate_id as int];
                    command.action.type_id != answer.action.type_id
                }
        }),
{
    lemma_interception_is_first_and_alone(state, history, query, found, answer);
}

/// Where the query was intercepted, the first entry of the result list
/// shows the intercepted command, and no other entry shows a command whose
/// action is of the intercepted action's type.
pub proof fn lemma_interception_is_first_and_alone(
    state: PaletteView,
    history: HitMap,
    query: Seq<char>,
    found: Seq<MatchView>,
    hit: InterceptView,
)
    requires
        state.all_commands.len() < usize::MAX,
        query.len() > 0 ==> matches_fit(found, state.all_commands.len() as int),
    ensures
        ({
            let pass = started_pass(state, history, query);
            let commands = ranked_commands(pass, Some(hit));
            let shown = ranked_matches(pass, found, Some(hit));
            &&& shown.len() >= 1
            &&& shown[0].string == hit.string
            &&& shown[0].positions == hit.positions
            &&& shown[0].score_bits == 0
            &&& commands[shown[0].candidate_id as int] == intercepted_command(hit)
            &&& forall|i: int|
                1 <= i < shown.len() ==> {
                    &&& (#[trigger] shown[i]).candidate_id < commands.len()
                    &&& commands[shown[i].candidate_id as int].action.type_id != hit.action.type_id
                }
        }),
{
    let pass = started_pass(state, history, query);
    lemma_sorted_by_usage_len(history, state.all_commands);
    if query.len() == 0 {
        lemma_plain_matches_fit(pass.commands);
    }
    lemma_spliced_len(pass.commands, base_matches(pass, found), hit);
    lemma_interception_leads(pass.commands, base_matches(pass, found), hit);
}

/// The state of a palette after a pass for `query` was started and its
/// answer applied.
pub open spec fn ranked_state(
    state: PaletteView,
    history: HitMap,
    query: Seq<char>,
    found: Seq<MatchView>,
    hit: Option<InterceptView>,
) -> PaletteView {
    let pass = started_pass(state, history, query);
    applied_state(PaletteView { generation: pass.generation, ..state }, pass, found, hit)
}

/// Ranking is repeatable. A second pass for the same query, over the same
/// history, asks the same search; and where the search and the interceptor
/// answer as before, it leaves the same commands, the same result list and
/// the same selection as the first.
pub proof fn lemma_ranking_is_repeatable(
    state: PaletteView,
    history: HitMap,
    query: Seq<char>,
    found: Seq<MatchView>,
    hit: Option<InterceptView>,
)
    ensures
        ({
            let once = ranked_state(state, history, query, found, hit);
            let twice = ranked_state(once, history, query, found, hit);
            &&& started_pass(once, history, query).search == started_pass(
                state,
                history,
                query,
            ).search
            &&& twice.all_commands == once.all_commands
            &&& twice.commands == once.commands
            &&& twice.matches == once.matches
            &&& twice.selected_ix == once.selected_ix
        }),
{
}

/// A command that the filter hides is never shown: every entry of the
/// result list, but for the interception, shows a command of the catalog,
/// and the catalog offers no action that the filter hides.
pub proof fn lemma_hidden_actions_are_never_shown(
    actions: Seq<ActionView>,
    filter: FilterView,
    state: PaletteView,
    history: HitMap,
    query: Seq<char>,
    found: Seq<MatchView>,
    hit: Option<InterceptView>,
)
    requires
        state.all_commands == catalog_of(actions, Some(filter)),
        state.all_commands.len() < usize::MAX,
        query.len() > 0 ==> matches_fit(found, state.all_commands.len() as int),
    ensures
        ({
            let pass = started_pass(state, history, query);
            let commands = ranked_commands(pass, hit);
            let shown = ranked_matches(pass, found, hit);
            forall|i: int|
                entries_added(hit) <= i < shown.len() ==> {
                    let command = commands[(#[trigger] shown[i]).candidate_id as int];
                    &&& !is_hidden(filter, command.action)
                    &&& !filter.hidden_namespaces.contains(namespace_of(command.action.name))
                    &&& !filter.hidden_action_types.contains(command.action.type_id)
                }
        }),
{
    let pass = started_pass(state, history, query);
    let commands = ranked_commands(pass, hit);
    let shown = ranked_matches(pass, found, hit);
    let base = base_matches(pass, found);
    let first = entries_added(hit);
    lemma_sorted_by_usage_len(history, state.all_commands);
    if query.len() == 0 {
        lemma_plain_matches_fit(pass.commands);
    }
    if let Some(hit) = hit {
        lemma_interception_leads(pass.commands, base, hit);
    }
    assert forall|i: int| first <= i < shown.len() implies !is_hidden(
        filter,
        commands[(#[trigger] shown[i]).candidate_id as int].action,
    ) by {
        let at = shown[i].candidate_id as int;
        assert(0 <= at < pass.commands.len());
        assert(commands[at] == pass.commands[at]);
        lemma_sorted_by_usage_holds(history, state.all_commands, at);
        lemma_catalog_offers_no_hidden_action(actions, Some(filter), pass.commands[at]);
    }
}

/// The number of the pass that follows pass `generation`.
fn following(generation: u64) -> (next: u64)
    ensures
        next == next_generation(generation),
{
    if generation == u64::MAX {
        0
    } else {
        generation + 1
    }
}

/// What one entry of the result list shows.
#[derive(Debug, PartialEq, Eq)]
pub struct RenderedMatch {
    /// The command's display name.
    pub label: String,
    /// The positions of `label` to highlight.
    pub positions: Vec<usize>,
    /// The command's action, for which a key binding may be shown.
    pub action: Action,
}

impl CommandPaletteDelegate {
    #[verifier::type_invariant]
    spec fn matches_refer_to_commands(self) -> bool {
        matches_fit(self.matches.deep_view(), self.commands.len() as int)
    }

    /// A palette over the catalog `commands`, with an empty result list.
    pub fn new(commands: Vec<Command>) -> (palette: Self)
        ensures
            palette@ == (PaletteView {
                all_commands: commands.deep_view(),
                commands: commands.deep_view(),
                matches: Seq::empty(),
                selected_ix: 0,
                generation: 0,
            }),
    {
        let all_commands = commands.clone();
        assert(all_commands.deep_view() =~= commands.deep_view());
        let matches: Vec<StringMatch> = Vec::new();
        assert(matches.deep_view() =~= Seq::<MatchView>::empty());
        CommandPaletteDelegate { all_commands, commands, matches, selected_ix: 0, generation: 0 }
    }

    /// The text shown while the query is empty.
    pub fn placeholder_text(&self) -> (text: &'static str)
        ensures
            text@ == "Execute a command..."@,
    {
        "Execute a command..."
    }

    /// The number of entries in the result list.
    pub fn match_count(&self) -> (count: usize)
        ensures
            count == self@.matches.len(),
    {
        self.matches.len()
    }

    /// The selected position in the result list.
    pub fn selected_index(&self) -> (ix: usize)
        ensures
            ix == self@.selected_ix,
    {
        self.selected_ix
    }

    /// Selects position `ix` of the result list.
    pub fn set_selected_index(&mut self, ix: usize)
        ensures
            final(self)@ == (PaletteView { selected_ix: ix, ..old(self)@ }),
    {
        proof {
            use_type_invariant(&*self);
        }
        self.selected_ix = ix;
    }

    /// The catalog, as it was given when the palette opened.
    pub fn all_commands(&self) -> (commands: &Vec<Command>)
        ensures
            commands.deep_view() == self@.all_commands,
    {
        &self.all_commands
    }

    /// The commands to which the visible matches refer.
    pub fn commands(&self) -> (commands: &Vec<Command>)
        ensures
            commands.deep_view() == self@.commands,
    {
        &self.commands
    }

    /// The visible result list.
    pub fn matches(&self) -> (matches: &Vec<StringMatch>)
        ensures
            matches.deep_view() == self@.matches,
            matches_fit(self@.matches, self@.commands.len() as int),
    {
        proof {
            use_type_invariant(self);
        }
        &self.matches
    }

    /// What the entry at position `ix` of the result list shows, or `None`
    /// where the list has no such entry.
    pub fn render_match(&self, ix: usize) -> (rendered: Option<RenderedMatch>)
        ensures
            rendered is Some <==> ix < self@.matches.len(),
            rendered matches Some(entry) ==> {
                let shown = self@.matches[ix as int];
                let command = self@.commands[shown.candidate_id as int];
                &&& entry.label@ == command.name
                &&& entry.positions@ == shown.positions
                &&& entry.action@ == command.action
            },
    {
        proof {
            use_type_invariant(self);
        }
        if ix >= self.matches.len() {
            return None;
        }
        let shown = &self.matches[ix];
        assert(self.matches.deep_view()[ix as int] == shown@);
        let command = &self.commands[shown.candidate_id];
        assert(self.commands.deep_view()[shown.candidate_id as int] == command@);
        Some(
            RenderedMatch {
                label: command.name.clone(),
                positions: shown.positions.clone(),
                action: command.action.clone(),
            },
        )
    }

    /// Starts a ranking pass for `query`. The pass holds the catalog in
    /// usage order and, unless `query` is empty, the search to run on it.
    /// The palette's lists stay as they are until the pass is applied.
    pub fn update_matches(&mut self, query: &str, hit_counts: &HitCounts) -> (pass: RankingPass)
        ensures
            final(self)@ == (PaletteView {
                generation: next_generation(old(self)@.generation),
                ..old(self)@
            }),
            pass@ == started_pass(old(self)@, hit_counts@, query@),
    {
        proof {
            use_type_invariant(&*self);
        }
        let generation = following(self.generation);
        self.generation = generation;
        let commands = sort_by_usage(hit_counts, &self.all_commands);
        let search = if query.is_empty() {
            None
        } else {
            Some(search_query(&commands, query))
        };
        RankingPass { generation, commands, search }
    }

    /// Applies the answer to a ranking pass: `found` is what the search of
    /// the pass returned (it is not read where the pass has no search), and
    /// `hit` is the interception for the query, if there is one.
    ///
    /// The answer is applied only if no later pass has been started
    /// meanwhile; otherwise the palette stays as it is.
    pub fn apply_matches(
        &mut self,
        pass: RankingPass,
        found: Vec<StringMatch>,
        hit: Option<CommandInterceptResult>,
    ) -> (applied: bool)
        requires
            pass@.search is Some ==> matches_fit(found.deep_view(), pass@.commands.len() as int),
        ensures
            applied == (pass@.generation == old(self)@.generation),
            final(self)@ == (if applied {
                applied_state(old(self)@, pass@, found.deep_view(), hit.deep_view())
            } else {
                old(self)@
            }),
    {
        proof {
            use_type_invariant(&*self);
        }
        if pass.generation != self.generation {
            return false;
        }
        let ghost plan = pass@;
        let RankingPass { generation: _, commands, search } = pass;
        let mut commands = commands;
        let base = match search {
            Some(_) => found,
            None => browse_all(&commands),
        };
        assert(base.deep_view() == base_matches(plan, found.deep_view()));
        assert(matches_fit(base.deep_view(), commands.len() as int));
        let matches = match hit {
            Some(hit) => {
                let ghost sorted = commands.deep_view();
                let ghost shown = base.deep_view();
                let ghost answer = hit@;
                let spliced = splice_interception(&mut commands, base, hit);
                proof {
                    assert(commands.deep_view().len() == commands.len());
                    assert(sorted.len() + 1 == commands.len());
                    lemma_spliced_fit(sorted, shown, answer);
                }
                spliced
            },
            None => base,
        };
        let selected_ix = if matches.len() == 0 {
            0
        } else if self.selected_ix < matches.len() {
            self.selected_ix
        } else {
            matches.len() - 1
        };
        self.matches = Vec::new();
        assert(self.matches.deep_view() =~= Seq::<MatchView>::empty());
        self.commands = commands;
        self.matches = matches;
        self.selected_ix = selected_ix;
        true
    }

    /// Dismisses the palette: a pass that was started before is not applied
    /// any more.
    pub fn dismissed(&mut self)
        ensures
            final(self)@ == dismissed_state(old(self)@),
    {
        proof {
            use_type_invariant(&*self);
        }
        self.generation = following(self.generation);
    }

    /// Whether [`confirm`](Self::confirm) may be called: the result list is
    /// empty, or an entry of it is selected and one more use of its command
    /// can be counted.
    pub fn can_confirm(&self, hit_counts: &HitCounts) -> (ok: bool)
        ensures
            ok == confirmable(self@, hit_counts@),
    {
        proof {
            use_type_invariant(self);
        }
        if self.matches.len() == 0 {
            return true;
        }
        if self.selected_ix >= self.matches.len() {
            return false;
        }
        let shown = &self.matches[self.selected_ix];
        assert(self.matches.deep_view()[self.selected_ix as int] == shown@);
        let command = &self.commands[shown.candidate_id];
        assert(self.commands.deep_view()[shown.candidate_id as int] == command@);
        hit_counts.can_record(command.name.as_str())
    }

    /// Confirms the selected entry. With an empty result list this is a
    /// dismissal, and `None` is returned. Otherwise the selected command is
    /// returned for its action to be run, one more use of its display name
    /// is counted, the result list and its commands are cleared, and the
    /// palette is dismissed.
    pub fn confirm(&mut self, hit_counts: &mut HitCounts) -> (confirmed: Option<Command>)
        requires
            confirmable(old(self)@, old(hit_counts)@),
        ensures
            match confirmed {
                None => {
                    &&& old(self)@.matches.len() == 0
                    &&& final(self)@ == dismissed_state(old(self)@)
                    &&& final(hit_counts)@ == old(hit_counts)@
                },
                Some(command) => {
                    &&& old(self)@.matches.len() > 0
                    &&& command@ == selected_command(old(self)@)
                    &&& final(self)@ == confirmed_state(old(self)@)
                    &&& final(hit_counts)@ == old(hit_counts)@.insert(
                        command@.name,
                        (hits(old(hit_counts)@, command@.name) + 1) as usize,
                    )
                    &&& hits(final(hit_counts)@, command@.name) == hits(
                        old(hit_counts)@,
                        command@.name,
                    ) + 1
                    &&& forall|other: Seq<char>|
                        other != command@.name ==> hits(final(hit_counts)@, other) == hits(
                            old(hit_counts)@,
                            other,
                        )
                },
            },
    {
        proof {
            use_type_invariant(&*self);
        }
        self.generation = following(self.generation);
        if self.matches.is_empty() {
            return None;
        }
        let shown = &self.matches[self.selected_ix];
        assert(self.matches.deep_view()[self.selected_ix as int] == shown@);
        let action_ix = shown.candidate_id;
        assert(self.commands.deep_view()[action_ix as int] == self.commands[action_ix as int]@);
        self.matches = Vec::new();
        assert(self.matches.deep_view() =~= Seq::<MatchView>::empty());
        let mut commands: Vec<Command> = Vec::new();
        assert(commands.deep_view() =~= Seq::<CommandView>::empty());
        core::mem::swap(&mut self.commands, &mut commands);
        let command = commands.swap_remove(action_ix);
        hit_counts.record(command.name.clone());
        Some(command)
    }
}

} // verus!
