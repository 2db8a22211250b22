use gitdiff_view::diff::{Diff, Line};
use gitdiff_view::nav::{command_of, Command, ControllingSection, KeyInput, State};

fn files(names: &[&str]) -> Vec<Diff> {
    names
        .iter()
        .map(|n| Diff {
            file_name: n.to_string(),
            removed: vec![Line { line_number: Some(1), content: format!("old {}", n) }],
            added: vec![Line { line_number: Some(2), content: format!("new {}", n) }],
        })
        .collect()
}

#[test]
fn starts_on_first_file_with_list_focused() {
    let s = State::new(files(&["a", "b"]));
    assert_eq!(s.controlling_section(), ControllingSection::File);
    assert_eq!(s.file_index(), 0);
    assert_eq!(s.file_count(), 2);
}

#[test]
fn move_up_from_first_wraps_to_last() {
    let mut s = State::new(files(&["a", "b", "c"]));
    s.up();
    assert_eq!(s.file_index(), 2);
}

#[test]
fn move_down_from_last_wraps_to_first() {
    let mut s = State::new(files(&["a", "b", "c"]));
    s.up();
    s.down();
    assert_eq!(s.file_index(), 0);
    s.down();
    s.down();
    assert_eq!(s.file_index(), 2);
    s.down();
    assert_eq!(s.file_index(), 0);
}

#[test]
fn down_then_up_returns_across_wrap() {
    let mut s = State::new(files(&["a", "b", "c", "d"]));
    s.up();
    assert_eq!(s.file_index(), 3);
    s.down();
    s.up();
    assert_eq!(s.file_index(), 3);
    s.up();
    s.down();
    assert_eq!(s.file_index(), 3);
    s.down();
    s.down();
    s.up();
    assert_eq!(s.file_index(), 0);
}

#[test]
fn empty_snapshot_is_inert() {
    let mut s = State::new(vec![]);
    s.down();
    s.up();
    s.switch_focus();
    assert_eq!(s.controlling_section(), ControllingSection::Text);
    assert_eq!(s.file_index(), 0);
    assert_eq!(s.highlighted(), None);
    assert!(s.file_names().is_empty());
    assert!(s.removed_lines().is_empty());
    assert!(s.added_lines().is_empty());
}

#[test]
fn switch_focus_twice_restores() {
    let mut s = State::new(files(&["a"]));
    s.switch_focus();
    assert_eq!(s.controlling_section(), ControllingSection::Text);
    s.switch_focus();
    assert_eq!(s.controlling_section(), ControllingSection::File);
}

#[test]
fn moves_ignored_in_text_pane() {
    let mut s = State::new(files(&["a", "b", "c"]));
    s.down();
    s.switch_focus();
    s.up();
    s.up();
    assert_eq!(s.file_index(), 1);
    s.down();
    assert_eq!(s.file_index(), 1);
}

#[test]
fn apply_runs_commands_and_quit_ends() {
    let mut s = State::new(files(&["a", "b"]));
    assert!(s.apply(Command::MoveDown));
    assert_eq!(s.file_index(), 1);
    assert!(s.apply(Command::Ignored));
    assert_eq!(s.file_index(), 1);
    assert!(s.apply(Command::SwitchFocus));
    assert_eq!(s.controlling_section(), ControllingSection::Text);
    assert!(s.apply(Command::MoveUp));
    assert_eq!(s.file_index(), 1);
    assert!(!s.apply(Command::Quit));
    assert_eq!(s.file_index(), 1);
    assert_eq!(s.controlling_section(), ControllingSection::Text);
}

#[test]
fn render_shows_selected_file() {
    let mut s = State::new(files(&["a", "b", "c"]));
    s.down();
    assert_eq!(s.file_names(), vec!["a".to_string(), "b".to_string(), "c".to_string()]);
    assert_eq!(s.highlighted(), Some(1));
    assert_eq!(s.removed_lines(), vec![Line { line_number: Some(1), content: "old b".to_string() }]);
    assert_eq!(s.added_lines(), vec![Line { line_number: Some(2), content: "new b".to_string() }]);
}

#[test]
fn keys_map_to_commands() {
    assert_eq!(command_of(KeyInput::Char('\t')), Command::SwitchFocus);
    assert_eq!(command_of(KeyInput::Char('q')), Command::Quit);
    assert_eq!(command_of(KeyInput::Char('k')), Command::MoveUp);
    assert_eq!(command_of(KeyInput::Up), Command::MoveUp);
    assert_eq!(command_of(KeyInput::Char('j')), Command::MoveDown);
    assert_eq!(command_of(KeyInput::Down), Command::MoveDown);
    assert_eq!(command_of(KeyInput::Char('x')), Command::Ignored);
    assert_eq!(command_of(KeyInput::Other), Command::Ignored);
}
