use command_palette::catalog::{action_namespace, MALFORMED_NAMESPACE};
use command_palette::humanize::{humanize_action_name, push_humanized};

#[test]
fn test_humanize_action_name() {
    assert_eq!(
        humanize_action_name("editor::GoToDefinition"),
        "editor: go to definition"
    );
    assert_eq!(
        humanize_action_name("editor::Backspace"),
        "editor: backspace"
    );
    assert_eq!(
        humanize_action_name("go_to_line::Deploy"),
        "go to line: deploy"
    );
}

#[test]
fn humanize_keeps_a_lone_colon() {
    assert_eq!(humanize_action_name("a:b"), "a:b");
    assert_eq!(humanize_action_name(":"), ":");
    assert_eq!(humanize_action_name(":::"), ": :");
}

#[test]
fn humanize_of_nothing_is_nothing() {
    assert_eq!(humanize_action_name(""), "");
}

#[test]
fn humanize_puts_one_space_before_an_uppercase_letter() {
    assert_eq!(humanize_action_name("Toggle"), " toggle");
    assert_eq!(humanize_action_name("a_B"), "a b");
    assert_eq!(humanize_action_name("aB"), "a b");
    assert_eq!(humanize_action_name("ABC"), " a b c");
    assert_eq!(humanize_action_name("pane::SplitUp"), "pane: split up");
}

#[test]
fn humanize_copies_other_characters() {
    assert_eq!(humanize_action_name("vim::2x-y.z"), "vim: 2x-y.z");
    assert_eq!(humanize_action_name("a__b"), "a  b");
}

#[test]
fn humanize_lowercases_beyond_ascii() {
    assert_eq!(humanize_action_name("x::Émile"), "x: émile");
    assert_eq!(humanize_action_name("\u{130}"), " i\u{307}");
}

#[test]
fn push_humanized_uses_the_case_data_it_is_given() {
    let mut out = String::from("ab");
    push_humanized(&mut out, 'x', true, &vec!['y', 'z']);
    assert_eq!(out, "ab yz");
    push_humanized(&mut out, 'Q', false, &vec!['q']);
    assert_eq!(out, "ab yzQ");
    push_humanized(&mut out, '_', true, &vec!['q']);
    assert_eq!(out, "ab yzQ ");
    push_humanized(&mut out, 'W', true, &vec!['w']);
    assert_eq!(out, "ab yzQ w");
    push_humanized(&mut out, ':', true, &vec![]);
    push_humanized(&mut out, ':', false, &vec![]);
    assert_eq!(out, "ab yzQ w: ");
}

#[test]
fn namespace_is_what_stands_before_the_first_separator() {
    assert_eq!(action_namespace("editor::Backspace"), "editor");
    assert_eq!(action_namespace("go_to_line::Deploy"), "go_to_line");
    assert_eq!(action_namespace("a::b::c"), "a");
    assert_eq!(action_namespace("a:b::c"), "a:b");
    assert_eq!(action_namespace("a:::b"), "a");
    assert_eq!(action_namespace("::b"), "");
}

#[test]
fn namespace_of_a_name_without_separator_is_the_fallback() {
    assert_eq!(MALFORMED_NAMESPACE, "malformed action name");
    assert_eq!(action_namespace("Backspace"), "malformed action name");
    assert_eq!(action_namespace(""), "malformed action name");
    assert_eq!(action_namespace("a:b"), "malformed action name");
    assert_eq!(action_namespace("a:"), "malformed action name");
}
