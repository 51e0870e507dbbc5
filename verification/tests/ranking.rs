use command_palette::command::{Action, Command};
use command_palette::history::HitCounts;
use command_palette::matches::{
    browse_all, match_candidates, matches_fit_within, search_query, StringMatch, MAX_MATCHES,
};
use command_palette::ranking::{command_ranks_before, sort_by_usage};

fn command(name: &str, id: u64) -> Command {
    Command {
        name: name.to_string(),
        action: Action {
            id,
            type_id: id,
            name: name.to_string(),
        },
    }
}

fn names(commands: &Vec<Command>) -> Vec<&str> {
    commands.iter().map(|c| c.name.as_str()).collect()
}

fn ids(commands: &Vec<Command>) -> Vec<u64> {
    commands.iter().map(|c| c.action.id).collect()
}

#[test]
fn history_counts_each_record_once() {
    let mut history = HitCounts::new();
    assert_eq!(history.count("editor: backspace"), 0);
    assert!(history.can_record("editor: backspace"));
    history.record("editor: backspace".to_string());
    assert_eq!(history.count("editor: backspace"), 1);
    history.record("editor: backspace".to_string());
    history.record("editor: copy".to_string());
    assert_eq!(history.count("editor: backspace"), 2);
    assert_eq!(history.count("editor: copy"), 1);
    assert_eq!(history.count("editor: cut"), 0);
}

#[test]
fn default_history_is_empty() {
    let history = HitCounts::default();
    assert_eq!(history.count(""), 0);
    assert_eq!(history.count("anything"), 0);
}

#[test]
fn unused_commands_are_sorted_by_name() {
    let history = HitCounts::new();
    let catalog = vec![
        command("workspace: save", 0),
        command("editor: copy", 1),
        command("editor: backspace", 2),
        command("zed: quit", 3),
        command("editor", 4),
    ];
    let sorted = sort_by_usage(&history, &catalog);
    assert_eq!(
        names(&sorted),
        vec![
            "editor",
            "editor: backspace",
            "editor: copy",
            "workspace: save",
            "zed: quit"
        ]
    );
    assert_eq!(ids(&sorted), vec![4, 2, 1, 0, 3]);
}

#[test]
fn names_are_ordered_by_code_point() {
    let history = HitCounts::new();
    let catalog = vec![
        command("b", 0),
        command("a", 1),
        command("B", 2),
        command("é", 3),
        command("ab", 4),
        command("", 5),
    ];
    let sorted = sort_by_usage(&history, &catalog);
    assert_eq!(names(&sorted), vec!["", "B", "a", "ab", "b", "é"]);
}

#[test]
fn used_commands_come_first() {
    let mut history = HitCounts::new();
    history.record("zed: quit".to_string());
    history.record("zed: quit".to_string());
    history.record("workspace: save".to_string());
    history.record("editor: paste".to_string());
    let catalog = vec![
        command("editor: backspace", 0),
        command("editor: paste", 1),
        command("workspace: save", 2),
        command("zed: quit", 3),
        command("editor: copy", 4),
    ];
    let sorted = sort_by_usage(&history, &catalog);
    assert_eq!(
        names(&sorted),
        vec![
            "zed: quit",
            "editor: paste",
            "workspace: save",
            "editor: backspace",
            "editor: copy"
        ]
    );
}

#[test]
fn commands_of_one_name_keep_their_order() {
    let mut history = HitCounts::new();
    history.record("b".to_string());
    let catalog = vec![
        command("a", 10),
        command("b", 11),
        command("a", 12),
        command("b", 13),
        command("a", 14),
    ];
    let sorted = sort_by_usage(&history, &catalog);
    assert_eq!(names(&sorted), vec!["b", "b", "a", "a", "a"]);
    assert_eq!(ids(&sorted), vec![11, 13, 10, 12, 14]);
}

#[test]
fn sorting_twice_is_sorting_once() {
    let mut history = HitCounts::new();
    history.record("c".to_string());
    let catalog = vec![
        command("d", 0),
        command("c", 1),
        command("b", 2),
        command("a", 3),
    ];
    let once = sort_by_usage(&history, &catalog);
    let twice = sort_by_usage(&history, &once);
    assert_eq!(once, twice);
    assert_eq!(names(&once), vec!["c", "a", "b", "d"]);
    assert_eq!(catalog.len(), 4);
}

#[test]
fn sorting_nothing_gives_nothing() {
    let history = HitCounts::new();
    assert_eq!(sort_by_usage(&history, &Vec::new()), Vec::new());
}

#[test]
fn a_command_ranks_before_a_less_used_or_later_named_one() {
    let mut history = HitCounts::new();
    history.record("b".to_string());
    let a = command("a", 0);
    let b = command("b", 1);
    let c = command("c", 2);
    assert!(command_ranks_before(&history, &b, &a));
    assert!(!command_ranks_before(&history, &a, &b));
    assert!(command_ranks_before(&history, &a, &c));
    assert!(!command_ranks_before(&history, &c, &a));
    assert!(!command_ranks_before(&history, &a, &a));
}

#[test]
fn a_command_is_placed_behind_its_equals() {
    let history = HitCounts::new();
    let catalog = vec![
        command("a", 0),
        command("c", 1),
        command("c", 2),
        command("e", 3),
        command("c", 9),
        command("b", 8),
        command("", 7),
        command("z", 6),
    ];
    let sorted = sort_by_usage(&history, &catalog);
    assert_eq!(ids(&sorted), vec![7, 0, 8, 1, 2, 9, 3, 6]);
}

#[test]
fn candidates_carry_position_and_name() {
    let commands = vec![command("x", 7), command("y", 8)];
    let candidates = match_candidates(&commands);
    assert_eq!(candidates.len(), 2);
    assert_eq!(candidates[0].id, 0);
    assert_eq!(candidates[0].string, "x");
    assert_eq!(candidates[1].id, 1);
    assert_eq!(candidates[1].string, "y");
}

#[test]
fn a_search_is_smart_case_and_all_but_unbounded() {
    let commands = vec![command("x", 7), command("y", 8)];
    let search = search_query(&commands, "Xy");
    assert_eq!(search.query, "Xy");
    assert!(search.smart_case);
    assert_eq!(search.max_results, 10000);
    assert_eq!(MAX_MATCHES, 10000);
    assert_eq!(search.candidates, match_candidates(&commands));
}

#[test]
fn browsing_shows_every_command_unscored() {
    let commands = vec![command("x", 7), command("y", 8), command("z", 9)];
    let matches = browse_all(&commands);
    assert_eq!(matches.len(), 3);
    for (i, found) in matches.iter().enumerate() {
        assert_eq!(found.candidate_id, i);
        assert_eq!(found.string, commands[i].name);
        assert!(found.positions.is_empty());
        assert_eq!(found.score_bits, 0);
        assert_eq!(f64::from_bits(found.score_bits), 0.0);
    }
    assert!(browse_all(&Vec::new()).is_empty());
}

#[test]
fn matches_fit_when_each_refers_to_a_command() {
    let found = |candidate_id: usize| StringMatch {
        candidate_id,
        score_bits: 0,
        positions: vec![],
        string: String::new(),
    };
    assert!(matches_fit_within(&vec![], 0));
    assert!(matches_fit_within(&vec![found(0), found(2), found(1)], 3));
    assert!(!matches_fit_within(&vec![found(0), found(3)], 3));
    assert!(!matches_fit_within(&vec![found(0)], 0));
}
