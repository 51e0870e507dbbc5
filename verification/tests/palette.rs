use command_palette::catalog::{available_commands, CommandPaletteFilter};
use command_palette::command::{Action, Command};
use command_palette::history::HitCounts;
use command_palette::intercept::{
    resolve_interception, retain_other_types, splice_interception, CommandInterceptResult,
};
use command_palette::matches::{matches_fit_within, MatchQuery, StringMatch};
use command_palette::palette::{CommandPaletteDelegate, TELEMETRY_SOURCE};

fn action(name: &str, type_id: u64) -> Action {
    Action {
        id: 100 + type_id,
        type_id,
        name: name.to_string(),
    }
}

fn editor_actions() -> Vec<Action> {
    vec![
        action("editor::Backspace", 0),
        action("editor::GoToDefinition", 1),
    ]
}

fn mixed_actions() -> Vec<Action> {
    vec![
        action("workspace::NewFile", 0),
        action("editor::Backspace", 1),
        action("go_to_line::Toggle", 2),
        action("editor::GoToDefinition", 3),
        action("command_palette::Toggle", 4),
        action("Backspace", 5),
    ]
}

/// Stands in for the string matcher: every candidate that holds the query as
/// a subsequence, letter case aside, in the order of the candidates.
fn subsequence_matches(search: &MatchQuery) -> Vec<StringMatch> {
    let mut found = Vec::new();
    for candidate in &search.candidates {
        let mut positions = Vec::new();
        let mut wanted = search.query.chars().peekable();
        for (at, c) in candidate.string.chars().enumerate() {
            if let Some(w) = wanted.peek() {
                if c.to_lowercase().eq(w.to_lowercase()) {
                    positions.push(at);
                    wanted.next();
                }
            }
        }
        if wanted.peek().is_none() && found.len() < search.max_results {
            found.push(StringMatch {
                candidate_id: candidate.id,
                score_bits: 1.0f64.to_bits(),
                positions,
                string: candidate.string.clone(),
            });
        }
    }
    found
}

fn rank(
    palette: &mut CommandPaletteDelegate,
    history: &HitCounts,
    query: &str,
    hit: Option<CommandInterceptResult>,
) -> bool {
    let pass = palette.update_matches(query, history);
    let found = match pass.search() {
        Some(search) => subsequence_matches(search),
        None => Vec::new(),
    };
    assert!(matches_fit_within(&found, pass.commands().len()));
    palette.apply_matches(pass, found, hit)
}

fn shown(palette: &CommandPaletteDelegate) -> Vec<&str> {
    palette.matches().iter().map(|m| m.string.as_str()).collect()
}

fn open_link(url: &str) -> Action {
    Action {
        id: 900,
        type_id: 77,
        name: format!("zed::OpenZedUrl({url})"),
    }
}

#[test]
fn a_new_palette_shows_nothing() {
    let commands = available_commands(editor_actions(), None);
    let palette = CommandPaletteDelegate::new(commands);
    assert_eq!(palette.match_count(), 0);
    assert_eq!(palette.selected_index(), 0);
    assert_eq!(palette.commands().len(), 2);
    assert_eq!(palette.all_commands().len(), 2);
    assert_eq!(palette.placeholder_text(), "Execute a command...");
    assert_eq!(palette.render_match(0), None);
}

#[test]
fn the_catalog_shows_actions_under_humanized_names() {
    let commands = available_commands(editor_actions(), None);
    assert_eq!(commands.len(), 2);
    assert_eq!(commands[0].name, "editor: backspace");
    assert_eq!(commands[0].action, action("editor::Backspace", 0));
    assert_eq!(commands[1].name, "editor: go to definition");
    assert_eq!(commands[1].action, action("editor::GoToDefinition", 1));
}

#[test]
fn bcksp_finds_backspace_first() {
    let commands = available_commands(editor_actions(), None);
    let mut palette = CommandPaletteDelegate::new(commands);
    let history = HitCounts::new();
    assert!(rank(&mut palette, &history, "bcksp", None));
    assert_eq!(palette.matches()[0].string, "editor: backspace");
    assert_eq!(palette.matches()[0].positions, vec![8, 10, 11, 12, 13]);
    assert_eq!(palette.match_count(), 1);
}

#[test]
fn a_hidden_namespace_yields_no_matches() {
    let mut filter = CommandPaletteFilter::default();
    filter.hidden_namespaces.insert("editor".to_string());
    let commands = available_commands(editor_actions(), Some(&filter));
    assert!(commands.is_empty());
    let mut palette = CommandPaletteDelegate::new(commands);
    let history = HitCounts::new();
    assert!(rank(&mut palette, &history, "bcksp", None));
    assert!(palette.matches().is_empty());
    assert!(rank(&mut palette, &history, "", None));
    assert!(palette.matches().is_empty());
}

#[test]
fn a_filter_hides_by_namespace_and_by_type() {
    let mut filter = CommandPaletteFilter::new();
    filter.hidden_namespaces.insert("editor".to_string());
    filter.hidden_action_types.insert(4);
    assert!(filter.hides(&action("editor::Backspace", 1)));
    assert!(filter.hides(&action("x::Y", 4)));
    assert!(!filter.hides(&action("editor", 1)));
    assert!(!filter.hides(&action("editors::Backspace", 1)));
    let commands = available_commands(mixed_actions(), Some(&filter));
    let names: Vec<&str> = commands.iter().map(|c| c.name.as_str()).collect();
    assert_eq!(
        names,
        vec!["workspace: new file", "go to line: toggle", " backspace"]
    );
    let mut palette = CommandPaletteDelegate::new(commands);
    let history = HitCounts::new();
    for query in ["", "e", "bcksp", "toggle", "o"] {
        assert!(rank(&mut palette, &history, query, None));
        for found in palette.matches() {
            let command = &palette.commands()[found.candidate_id];
            assert!(!command.action.name.starts_with("editor::"));
            assert_ne!(command.action.type_id, 4);
        }
    }
}

#[test]
fn a_filter_is_built_by_hiding_namespaces_and_types() {
    let mut filter = CommandPaletteFilter::new();
    assert!(!filter.hides(&action("editor::Backspace", 1)));
    filter.hide_namespace("editor".to_string());
    filter.hide_namespace("editor".to_string());
    filter.hide_action_type(0);
    assert!(filter.hides(&action("editor::Backspace", 1)));
    assert!(filter.hides(&action("workspace::NewFile", 0)));
    assert!(!filter.hides(&action("workspace::NewFile", 2)));
    let commands = available_commands(mixed_actions(), Some(&filter));
    let names: Vec<&str> = commands.iter().map(|c| c.name.as_str()).collect();
    assert_eq!(
        names,
        vec!["go to line: toggle", "command palette: toggle", " backspace"]
    );
    let nothing_hidden = CommandPaletteFilter::default();
    assert_eq!(
        available_commands(mixed_actions(), Some(&nothing_hidden)),
        available_commands(mixed_actions(), None)
    );
}

#[test]
fn names_without_separator_share_the_fallback_namespace() {
    let mut filter = CommandPaletteFilter::new();
    filter
        .hidden_namespaces
        .insert("malformed action name".to_string());
    let commands = available_commands(mixed_actions(), Some(&filter));
    assert_eq!(commands.len(), 5);
    assert!(commands.iter().all(|c| c.action.name != "Backspace"));
    let mut by_name = CommandPaletteFilter::new();
    by_name.hidden_namespaces.insert("Backspace".to_string());
    assert_eq!(available_commands(mixed_actions(), Some(&by_name)).len(), 6);
}

#[test]
fn an_empty_query_lists_the_catalog_in_usage_order() {
    let commands = available_commands(mixed_actions(), None);
    let mut palette = CommandPaletteDelegate::new(commands);
    let mut history = HitCounts::new();
    history.record("go to line: toggle".to_string());
    history.record("go to line: toggle".to_string());
    history.record("workspace: new file".to_string());
    assert!(rank(&mut palette, &history, "", None));
    assert_eq!(
        shown(&palette),
        vec![
            "go to line: toggle",
            "workspace: new file",
            " backspace",
            "command palette: toggle",
            "editor: backspace",
            "editor: go to definition",
        ]
    );
    for (i, found) in palette.matches().iter().enumerate() {
        assert_eq!(found.candidate_id, i);
        assert_eq!(found.string, palette.commands()[i].name);
        assert!(found.positions.is_empty());
        assert_eq!(found.score_bits, 0);
    }
    assert_eq!(palette.all_commands()[0].name, "workspace: new file");
}

#[test]
fn the_result_list_is_no_longer_than_the_catalog() {
    let commands = available_commands(mixed_actions(), None);
    let mut palette = CommandPaletteDelegate::new(commands);
    let history = HitCounts::new();
    for query in ["", "e", "o", "toggle", "zzz"] {
        assert!(rank(&mut palette, &history, query, None));
        assert!(palette.match_count() <= 6);
        let hit = CommandInterceptResult {
            action: action("vim::Command", 50),
            string: query.to_string(),
            positions: vec![],
        };
        assert!(rank(&mut palette, &history, query, Some(hit)));
        assert!(palette.match_count() <= 7);
        assert!(palette.match_count() >= 1);
    }
    assert!(rank(&mut palette, &history, "zzz", None));
    assert_eq!(palette.match_count(), 0);
}

#[test]
fn an_interception_comes_first_and_replaces_its_own_kind() {
    let commands = available_commands(mixed_actions(), None);
    let mut palette = CommandPaletteDelegate::new(commands);
    let history = HitCounts::new();
    let hit = CommandInterceptResult {
        action: action("go_to_line::Toggle", 2),
        string: ":42".to_string(),
        positions: vec![0, 2],
    };
    assert!(rank(&mut palette, &history, "toggle", Some(hit)));
    assert_eq!(shown(&palette), vec![":42", "command palette: toggle"]);
    let first = &palette.matches()[0];
    assert_eq!(first.candidate_id, 6);
    assert_eq!(first.positions, vec![0, 2]);
    assert_eq!(first.score_bits, 0);
    assert_eq!(palette.commands().len(), 7);
    assert_eq!(palette.commands()[6].name, ":42");
    assert_eq!(palette.commands()[6].action, action("go_to_line::Toggle", 2));
    for found in &palette.matches()[1..] {
        assert_ne!(palette.commands()[found.candidate_id].action.type_id, 2);
    }
    assert_eq!(palette.all_commands().len(), 6);
}

#[test]
fn an_interception_removes_every_match_of_its_type() {
    let mut commands = vec![
        Command {
            name: "a".to_string(),
            action: action("x::A", 1),
        },
        Command {
            name: "b".to_string(),
            action: action("x::B", 2),
        },
        Command {
            name: "c".to_string(),
            action: action("x::C", 1),
        },
    ];
    let found = |candidate_id: usize, string: &str| StringMatch {
        candidate_id,
        score_bits: 3.5f64.to_bits(),
        positions: vec![0],
        string: string.to_string(),
    };
    let matches = vec![found(2, "c"), found(1, "b"), found(0, "a")];
    let kept = retain_other_types(&commands, matches.clone(), 1);
    assert_eq!(kept, vec![found(1, "b")]);
    let kept = retain_other_types(&commands, matches.clone(), 2);
    assert_eq!(kept, vec![found(2, "c"), found(0, "a")]);
    let hit = CommandInterceptResult {
        action: action("x::A", 1),
        string: "hit".to_string(),
        positions: vec![1],
    };
    let spliced = splice_interception(&mut commands, matches, hit);
    assert_eq!(
        spliced,
        vec![
            StringMatch {
                candidate_id: 3,
                score_bits: 0,
                positions: vec![1],
                string: "hit".to_string(),
            },
            found(1, "b"),
        ]
    );
    assert_eq!(commands.len(), 4);
    assert_eq!(commands[3].name, "hit");
    assert_eq!(commands[3].action, action("x::A", 1));
}

#[test]
fn a_link_overrides_the_interceptor_on_the_development_channel() {
    let intercepted = || {
        Some(CommandInterceptResult {
            action: action("vim::Command", 50),
            string: "w".to_string(),
            positions: vec![0],
        })
    };
    let link = "zed://channel/1";
    let resolved = resolve_interception(intercepted(), true, true, link, open_link(link));
    assert_eq!(
        resolved,
        Some(CommandInterceptResult {
            action: open_link(link),
            string: link.to_string(),
            positions: vec![],
        })
    );
    let resolved = resolve_interception(None, true, true, link, open_link(link));
    assert_eq!(resolved.map(|hit| hit.string), Some(link.to_string()));
    assert_eq!(
        resolve_interception(intercepted(), false, true, link, open_link(link)),
        intercepted()
    );
    assert_eq!(
        resolve_interception(intercepted(), true, false, link, open_link(link)),
        intercepted()
    );
    assert_eq!(
        resolve_interception(None, false, true, link, open_link(link)),
        None
    );
    assert_eq!(
        resolve_interception(None, true, false, link, open_link(link)),
        None
    );
}

#[test]
fn confirming_counts_one_use_and_clears_the_lists() {
    let commands = available_commands(editor_actions(), None);
    let mut palette = CommandPaletteDelegate::new(commands);
    let mut history = HitCounts::new();
    history.record("editor: go to definition".to_string());
    assert!(rank(&mut palette, &history, "", None));
    assert_eq!(
        shown(&palette),
        vec!["editor: go to definition", "editor: backspace"]
    );
    palette.set_selected_index(1);
    assert!(palette.can_confirm(&history));
    let confirmed = palette.confirm(&mut history);
    assert_eq!(
        confirmed,
        Some(Command {
            name: "editor: backspace".to_string(),
            action: action("editor::Backspace", 0),
        })
    );
    assert_eq!(history.count("editor: backspace"), 1);
    assert_eq!(history.count("editor: go to definition"), 1);
    assert!(palette.matches().is_empty());
    assert!(palette.commands().is_empty());
    assert_eq!(palette.match_count(), 0);
    assert_eq!(palette.all_commands().len(), 2);
    assert_eq!(TELEMETRY_SOURCE, "command palette");
}

#[test]
fn confirming_an_empty_list_does_nothing() {
    let commands = available_commands(editor_actions(), None);
    let mut palette = CommandPaletteDelegate::new(commands);
    let mut history = HitCounts::new();
    assert!(palette.can_confirm(&history));
    assert_eq!(palette.confirm(&mut history), None);
    assert_eq!(palette.commands().len(), 2);
    assert_eq!(history.count("editor: backspace"), 0);
    assert!(rank(&mut palette, &history, "zzz", None));
    palette.set_selected_index(3);
    assert!(palette.can_confirm(&history));
    assert_eq!(palette.confirm(&mut history), None);
    assert_eq!(palette.selected_index(), 3);
    assert_eq!(palette.commands().len(), 2);
}

#[test]
fn a_selection_beyond_the_list_cannot_be_confirmed() {
    let commands = available_commands(editor_actions(), None);
    let mut palette = CommandPaletteDelegate::new(commands);
    let history = HitCounts::new();
    assert!(rank(&mut palette, &history, "", None));
    palette.set_selected_index(2);
    assert!(!palette.can_confirm(&history));
    palette.set_selected_index(1);
    assert!(palette.can_confirm(&history));
}

#[test]
fn a_confirmed_command_ranks_first_afterwards() {
    let commands = available_commands(mixed_actions(), None);
    let mut palette = CommandPaletteDelegate::new(commands);
    let mut history = HitCounts::new();
    assert!(rank(&mut palette, &history, "toggle", None));
    assert_eq!(
        shown(&palette),
        vec!["command palette: toggle", "go to line: toggle"]
    );
    palette.set_selected_index(1);
    let confirmed = palette.confirm(&mut history).unwrap();
    assert_eq!(confirmed.name, "go to line: toggle");
    assert_eq!(confirmed.action.id, 102);
    assert!(rank(&mut palette, &history, "toggle", None));
    assert_eq!(
        shown(&palette),
        vec!["go to line: toggle", "command palette: toggle"]
    );
}

#[test]
fn ranking_twice_gives_the_same_list() {
    let commands = available_commands(mixed_actions(), None);
    let mut palette = CommandPaletteDelegate::new(commands);
    let mut history = HitCounts::new();
    history.record("editor: go to definition".to_string());
    for query in ["", "e", "toggle"] {
        assert!(rank(&mut palette, &history, query, None));
        let once: Vec<StringMatch> = palette.matches().clone();
        let commands_once: Vec<Command> = palette.commands().clone();
        assert!(rank(&mut palette, &history, query, None));
        assert_eq!(palette.matches(), &once);
        assert_eq!(palette.commands(), &commands_once);
    }
    assert_eq!(history.count("editor: go to definition"), 1);
}

#[test]
fn a_pass_is_not_applied_after_a_dismissal() {
    let commands = available_commands(mixed_actions(), None);
    let mut palette = CommandPaletteDelegate::new(commands);
    let history = HitCounts::new();
    let pass = palette.update_matches("", &history);
    palette.dismissed();
    assert!(!palette.apply_matches(pass, Vec::new(), None));
    assert_eq!(palette.match_count(), 0);
    assert_eq!(palette.commands().len(), 6);
}

#[test]
fn a_pass_is_not_applied_after_a_confirmation() {
    let commands = available_commands(mixed_actions(), None);
    let mut palette = CommandPaletteDelegate::new(commands);
    let mut history = HitCounts::new();
    assert!(rank(&mut palette, &history, "", None));
    let pass = palette.update_matches("toggle", &history);
    let found = subsequence_matches(pass.search().unwrap());
    assert!(palette.confirm(&mut history).is_some());
    assert!(!palette.apply_matches(pass, found, None));
    assert!(palette.matches().is_empty());
    assert!(palette.commands().is_empty());
    let pass = palette.update_matches("", &history);
    assert_eq!(palette.confirm(&mut history), None);
    assert!(!palette.apply_matches(pass, Vec::new(), None));
    assert!(palette.matches().is_empty());
}

#[test]
fn a_superseded_pass_is_not_applied() {
    let commands = available_commands(mixed_actions(), None);
    let mut palette = CommandPaletteDelegate::new(commands);
    let history = HitCounts::new();
    let first = palette.update_matches("", &history);
    let second = palette.update_matches("bcksp", &history);
    let found = subsequence_matches(second.search().unwrap());
    assert!(!palette.apply_matches(first, Vec::new(), None));
    assert_eq!(palette.match_count(), 0);
    assert!(palette.apply_matches(second, found, None));
    assert_eq!(shown(&palette), vec![" backspace", "editor: backspace"]);
}

#[test]
fn a_pass_asks_a_search_unless_the_query_is_empty() {
    let commands = available_commands(editor_actions(), None);
    let mut palette = CommandPaletteDelegate::new(commands);
    let mut history = HitCounts::new();
    history.record("editor: go to definition".to_string());
    let pass = palette.update_matches("", &history);
    assert!(pass.search().is_none());
    assert_eq!(pass.commands()[0].name, "editor: go to definition");
    let pass = palette.update_matches("def", &history);
    let search = pass.search().unwrap();
    assert_eq!(search.query, "def");
    assert!(search.smart_case);
    assert_eq!(search.max_results, 10000);
    assert_eq!(search.candidates.len(), 2);
    assert_eq!(search.candidates[0].id, 0);
    assert_eq!(search.candidates[0].string, "editor: go to definition");
    assert_eq!(search.candidates[1].id, 1);
    assert_eq!(search.candidates[1].string, "editor: backspace");
    assert_eq!(palette.match_count(), 0);
}

#[test]
fn the_selection_stays_within_the_list() {
    let commands = available_commands(mixed_actions(), None);
    let mut palette = CommandPaletteDelegate::new(commands);
    let history = HitCounts::new();
    assert!(rank(&mut palette, &history, "", None));
    palette.set_selected_index(5);
    assert!(rank(&mut palette, &history, "toggle", None));
    assert_eq!(palette.match_count(), 2);
    assert_eq!(palette.selected_index(), 1);
    assert!(rank(&mut palette, &history, "", None));
    assert_eq!(palette.selected_index(), 1);
    assert!(rank(&mut palette, &history, "zzz", None));
    assert_eq!(palette.selected_index(), 0);
}

#[test]
fn an_entry_renders_its_command_and_highlights() {
    let commands = available_commands(editor_actions(), None);
    let mut palette = CommandPaletteDelegate::new(commands);
    let history = HitCounts::new();
    assert!(rank(&mut palette, &history, "bcksp", None));
    let entry = palette.render_match(0).unwrap();
    assert_eq!(entry.label, "editor: backspace");
    assert_eq!(entry.positions, vec![8, 10, 11, 12, 13]);
    assert_eq!(entry.action, action("editor::Backspace", 0));
    assert_eq!(palette.render_match(1), None);
}

fn workspace_actions() -> Vec<Action> {
    vec![
        action("workspace::NewFile", 0),
        action("menu::Confirm", 1),
        action("command_palette::Toggle", 2),
        action("editor::Backspace", 3),
        action("editor::GoToDefinition", 4),
        action("go_to_line::Toggle", 5),
        action("editor::Copy", 6),
    ]
}

#[test]
fn test_command_palette() {
    let mut history = HitCounts::new();
    let mut palette = CommandPaletteDelegate::new(available_commands(workspace_actions(), None));
    assert!(rank(&mut palette, &history, "", None));
    assert!(palette.commands().len() > 5);
    let is_sorted =
        |actions: &[Command]| actions.windows(2).all(|pair| pair[0].name <= pair[1].name);
    assert!(is_sorted(palette.commands()));

    assert!(rank(&mut palette, &history, "bcksp", None));
    assert_eq!(palette.matches()[0].string, "editor: backspace");

    let confirmed = palette.confirm(&mut history).unwrap();
    assert_eq!(confirmed.action, action("editor::Backspace", 3));
    assert_eq!(palette.match_count(), 0);

    // Add namespace filter, and redeploy the palette
    let mut filter = CommandPaletteFilter::default();
    filter.hidden_namespaces.insert("editor".to_string());
    let commands = available_commands(workspace_actions(), Some(&filter));
    let mut palette = CommandPaletteDelegate::new(commands);
    assert!(rank(&mut palette, &history, "bcksp", None));
    assert!(palette.matches().is_empty());
}

#[test]
fn test_go_to_line() {
    let mut history = HitCounts::new();
    let mut palette = CommandPaletteDelegate::new(available_commands(workspace_actions(), None));
    assert!(rank(&mut palette, &history, "go to line: Toggle", None));
    assert_eq!(palette.match_count(), 1);
    let confirmed = palette.confirm(&mut history).unwrap();
    assert_eq!(confirmed.name, "go to line: toggle");
    assert_eq!(confirmed.action, action("go_to_line::Toggle", 5));
    assert_eq!(history.count("go to line: toggle"), 1);
}
