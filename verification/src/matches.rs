//! Matches: the entries of the palette's result list, and what a string
//! matcher is asked and answers.

use crate::command::{Command, CommandView};
use vstd::prelude::*;
use vstd::string::StringExecFns;

verus! {

/// How many matches a search may return at most: more than any catalog
/// holds in practice.
pub const MAX_MATCHES: usize = 10000;

/// A string offered to the matcher, with the position by which a match
/// refers back to it.
#[derive(Debug, PartialEq, Eq)]
pub struct StringMatchCandidate {
    pub id: usize,
    pub string: String,
}

/// The mathematical model of a [`StringMatchCandidate`].
pub struct CandidateView {
    pub id: usize,
    pub string: Seq<char>,
}

impl View for StringMatchCandidate {
    type V = CandidateView;

    open spec fn view(&self) -> CandidateView {
        CandidateView { id: self.id, string: self.string@ }
    }
}

impl DeepView for StringMatchCandidate {
    type V = CandidateView;

    open spec fn deep_view(&self) -> CandidateView {
        self@
    }
}

/// One entry of the result list.
#[derive(Debug, PartialEq, Eq)]
pub struct StringMatch {
    /// The position, in the palette's command list, of the command shown.
    pub candidate_id: usize,
    /// The matcher's score, as the bit pattern of a 64-bit float. Zero
    /// stands for the score `0.0`.
    pub score_bits: u64,
    /// The positions in `string` to highlight.
    pub positions: Vec<usize>,
    /// The text shown.
    pub string: String,
}

/// The mathematical model of a [`StringMatch`].
pub struct MatchView {
    pub candidate_id: usize,
    pub score_bits: u64,
    pub positions: Seq<usize>,
    pub string: Seq<char>,
}

impl View for StringMatch {
    type V = MatchView;

    open spec fn view(&self) -> MatchView {
        MatchView {
            candidate_id: self.candidate_id,
            score_bits: self.score_bits,
            positions: self.positions@,
            string: self.string@,
        }
    }
}

impl DeepView for StringMatch {
    type V = MatchView;

    open spec fn deep_view(&self) -> MatchView {
        self@
    }
}

impl Clone for StringMatch {
    fn clone(&self) -> (copy: Self)
        ensures
            copy@ == self@,
    {
        StringMatch {
            candidate_id: self.candidate_id,
            score_bits: self.score_bits,
            positions: self.positions.clone(),
            string: self.string.clone(),
        }
    }
}

/// What a string matcher is asked: the candidates to search, the text to
/// search them for, and how.
#[derive(Debug, PartialEq, Eq)]
pub struct MatchQuery {
    /// The strings to search, each with the position of its command.
    pub candidates: Vec<StringMatchCandidate>,
    /// The text to search for; never empty.
    pub query: String,
    /// Whether case matters only where the query has an uppercase letter.
    pub smart_case: bool,
    /// How many matches to return at most.
    pub max_results: usize,
}

/// The mathematical model of a [`MatchQuery`].
pub struct MatchQueryView {
    pub candidates: Seq<CandidateView>,
    pub query: Seq<char>,
    pub smart_case: bool,
    pub max_results: usize,
}

impl View for MatchQuery {
    type V = MatchQueryView;

    open spec fn view(&self) -> MatchQueryView {
        MatchQueryView {
            candidates: self.candidates.deep_view(),
            query: self.query@,
            smart_case: self.smart_case,
            max_results: self.max_results,
        }
    }
}

impl DeepView for MatchQuery {
    type V = MatchQueryView;

    open spec fn deep_view(&self) -> MatchQueryView {
        self@
    }
}

/// The candidate that stands for the command at `index`.
pub open spec fn candidate_for(index: int, command: CommandView) -> CandidateView {
    CandidateView { id: index as usize, string: command.name }
}

/// One candidate per command, in order, each carrying its command's
/// position and display name.
pub open spec fn candidates_of(commands: Seq<CommandView>) -> Seq<CandidateView> {
    Seq::new(commands.len(), |i: int| candidate_for(i, commands[i]))
}

/// The search that finds `query` among `commands`: smart-case, and
/// returning up to [`MAX_MATCHES`] matches.
pub open spec fn search_for(commands: Seq<CommandView>, query: Seq<char>) -> MatchQueryView {
    MatchQueryView {
        candidates: candidates_of(commands),
        query,
        smart_case: true,
        max_results: MAX_MATCHES,
    }
}

/// The match that shows the command at `index` when nothing was searched
/// for: score zero, nothing highlighted.
pub open spec fn plain_match(index: int, command: CommandView) -> MatchView {
    MatchView {
        candidate_id: index as usize,
        score_bits: 0,
        positions: Seq::empty(),
        string: command.name,
    }
}

/// One plain match per command, in the order of the commands.
pub open spec fn plain_matches(commands: Seq<CommandView>) -> Seq<MatchView> {
    Seq::new(commands.len(), |i: int| plain_match(i, commands[i]))
}

/// Whether every match refers to one of `count` commands.
pub open spec fn matches_fit(matches: Seq<MatchView>, count: int) -> bool {
    forall|i: int| 0 <= i < matches.len() ==> (#[trigger] matches[i]).candidate_id < count
}

/// Whether no two matches refer to the same command.
pub open spec fn matches_distinct(matches: Seq<MatchView>) -> bool {
    forall|i: int, j: int|
        0 <= i < j < matches.len() ==> (#[trigger] matches[i]).candidate_id != (
        #[trigger] matches[j]).candidate_id
}

/// Matches that refer to different commands, each among `count` commands,
/// are at most `count` in number.
pub proof fn lemma_distinct_matches_len(matches: Seq<MatchView>, count: int)
    requires
        0 <= count,
        matches_fit(matches, count),
        matches_distinct(matches),
    ensures
        matches.len() <= count,
{
    let ids = matches.map_values(|found: MatchView| found.candidate_id as int);
    assert(ids.no_duplicates()) by {
        assert forall|i: int, j: int|
            0 <= i < ids.len() && 0 <= j < ids.len() && i != j implies ids[i] != ids[j] by {
            if i < j {
                assert(matches[i].candidate_id != matches[j].candidate_id);
            } else {
                assert(matches[j].candidate_id != matches[i].candidate_id);
            }
        }
    }
    ids.unique_seq_to_set();
    vstd::set_lib::lemma_int_range(0, count);
    assert(ids.to_set().subset_of(vstd::set_lib::set_int_range(0, count))) by {
        assert forall|id: int| ids.to_set().contains(id) implies vstd::set_lib::set_int_range(
            0,
            count,
        ).contains(id) by {
            let k = choose|k: int| 0 <= k < ids.len() && ids[k] == id;
            assert(matches[k].candidate_id < count);
        }
    }
    vstd::set_lib::lemma_len_subset(ids.to_set(), vstd::set_lib::set_int_range(0, count));
}

/// The plain matches refer to different commands, each of them one of the
/// commands shown.
pub proof fn lemma_plain_matches_fit(commands: Seq<CommandView>)
    requires
        commands.len() <= usize::MAX,
    ensures
        matches_fit(plain_matches(commands), commands.len() as int),
        matches_distinct(plain_matches(commands)),
        plain_matches(commands).len() == commands.len(),
{
}

/// The candidates to hand to a string matcher for `commands`.
pub fn match_candidates(commands: &Vec<Command>) -> (candidates: Vec<StringMatchCandidate>)
    ensures
        candidates.deep_view() == candidates_of(commands.deep_view()),
{
    let mut candidates: Vec<StringMatchCandidate> = Vec::new();
    for i in 0..commands.len()
        invariant
            candidates.len() == i,
            forall|j: int|
                0 <= j < i ==> (#[trigger] candidates[j])@ == candidate_for(j, commands[j]@),
    {
        candidates.push(StringMatchCandidate { id: i, string: commands[i].name.clone() });
    }
    assert(candidates.deep_view() =~= candidates_of(commands.deep_view()));
    candidates
}

/// The search that finds `query` among `commands`.
pub fn search_query(commands: &Vec<Command>, query: &str) -> (search: MatchQuery)
    ensures
        search@ == search_for(commands.deep_view(), query@),
{
    MatchQuery {
        candidates: match_candidates(commands),
        query: String::from_str(query),
        smart_case: true,
        max_results: MAX_MATCHES,
    }
}

/// The result list for an empty query: every command, in order.
pub fn browse_all(commands: &Vec<Command>) -> (matches: Vec<StringMatch>)
    ensures
        matches.deep_view() == plain_matches(commands.deep_view()),
{
    let mut matches: Vec<StringMatch> = Vec::new();
    for i in 0..commands.len()
        invariant
            matches.len() == i,
            forall|j: int| 0 <= j < i ==> (#[trigger] matches[j])@ == plain_match(j, commands[j]@),
    {
        matches.push(
            StringMatch {
                candidate_id: i,
                score_bits: 0,
                positions: Vec::new(),
                string: commands[i].name.clone(),
            },
        );
    }
    assert(matches.deep_view() =~= plain_matches(commands.deep_view()));
    matches
}

/// Whether every match refers to one of `count` commands.
pub fn matches_fit_within(matches: &Vec<StringMatch>, count: usize) -> (fit: bool)
    ensures
        fit == matches_fit(matches.deep_view(), count as int),
{
    let ghost all = matches.deep_view();
    for i in 0..matches.len()
        invariant
            all == matches.deep_view(),
            forall|j: int| 0 <= j < i ==> (#[trigger] all[j]).candidate_id < count,
    {
        if matches[i].candidate_id >= count {
            assert(all[i as int].candidate_id >= count);
            return false;
        }
        assert(all[i as int] == matches[i as int]@);
    }
    true
}

} // verus!
