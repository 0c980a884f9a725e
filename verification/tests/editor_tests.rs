use canticlec_churn::program_editor::{char_of_key, CharKey, EditKey, ProgramEditor};

fn lines(e: &ProgramEditor) -> Vec<String> {
    e.get_program_text()
}

#[test]
fn a_new_editor_holds_a_starting_program() {
    let e = ProgramEditor::new();
    assert_eq!(lines(&e), vec!["def my_program".to_string(), "".to_string()]);
    assert_eq!((e.cursor_line, e.cursor_col), (0, 14));
    let e = ProgramEditor::new_empty();
    assert_eq!(lines(&e), vec!["def my_program".to_string(), "".to_string()]);
}

#[test]
fn an_editor_on_text_starts_at_the_end_of_its_first_line() {
    let e = ProgramEditor::new_with_text(vec!["def abc".to_string(), "bounce".to_string()]);
    assert_eq!(lines(&e), vec!["def abc".to_string(), "bounce".to_string()]);
    assert_eq!((e.cursor_line, e.cursor_col), (0, 7));
}

#[test]
fn typing_inserts_at_the_cursor() {
    let mut e = ProgramEditor::new_with_text(vec!["def ab".to_string()]);
    e.cursor_col = 5;
    e.insert_character('x');
    assert_eq!(lines(&e), vec!["def axb".to_string()]);
    assert_eq!(e.cursor_col, 6);
    e.handle_character_input(Some(CharKey::Letter(25)), true);
    assert_eq!(lines(&e), vec!["def axZb".to_string()]);
    e.handle_character_input(None, false);
    assert_eq!(lines(&e), vec!["def axZb".to_string()]);
}

#[test]
fn keys_give_their_characters() {
    assert_eq!(char_of_key(CharKey::Letter(0), false), 'a');
    assert_eq!(char_of_key(CharKey::Letter(0), true), 'A');
    assert_eq!(char_of_key(CharKey::Digit(1), false), '1');
    assert_eq!(char_of_key(CharKey::Digit(1), true), '!');
    assert_eq!(char_of_key(CharKey::Digit(0), true), ')');
    assert_eq!(char_of_key(CharKey::Space, true), ' ');
    assert_eq!(char_of_key(CharKey::Equals, true), '+');
    assert_eq!(char_of_key(CharKey::Slash, false), '/');
}

#[test]
fn backspace_undoes_typing() {
    let mut e = ProgramEditor::new();
    let before = lines(&e);
    e.insert_character('q');
    assert_ne!(lines(&e), before);
    e.apply_key(EditKey::Back);
    assert_eq!(lines(&e), before);
    assert_eq!((e.cursor_line, e.cursor_col), (0, 14));
}

#[test]
fn return_splits_the_line_and_backspace_joins_it_again() {
    let mut e = ProgramEditor::new_with_text(vec!["set speed 2".to_string()]);
    e.cursor_col = 3;
    e.apply_key(EditKey::Return);
    assert_eq!(lines(&e), vec!["set".to_string(), " speed 2".to_string()]);
    assert_eq!((e.cursor_line, e.cursor_col), (1, 0));
    e.apply_key(EditKey::Back);
    assert_eq!(lines(&e), vec!["set speed 2".to_string()]);
    assert_eq!((e.cursor_line, e.cursor_col), (0, 3));
}

#[test]
fn arrows_move_the_cursor_within_the_text() {
    let mut e = ProgramEditor::new_with_text(vec!["abcdef".to_string(), "xy".to_string()]);
    e.apply_key(EditKey::Down);
    assert_eq!((e.cursor_line, e.cursor_col), (1, 2));
    e.apply_key(EditKey::Right);
    assert_eq!((e.cursor_line, e.cursor_col), (1, 2));
    e.apply_key(EditKey::Up);
    assert_eq!((e.cursor_line, e.cursor_col), (0, 2));
    e.cursor_col = 0;
    e.apply_key(EditKey::Left);
    assert_eq!((e.cursor_line, e.cursor_col), (0, 0));
    e.cursor_col = 6;
    e.apply_key(EditKey::Right);
    assert_eq!((e.cursor_line, e.cursor_col), (1, 0));
    e.apply_key(EditKey::Left);
    assert_eq!((e.cursor_line, e.cursor_col), (0, 6));
}

#[test]
fn delete_removes_the_character_or_joins_the_next_line() {
    let mut e = ProgramEditor::new_with_text(vec!["ab".to_string(), "cd".to_string()]);
    e.cursor_col = 0;
    e.apply_key(EditKey::Delete);
    assert_eq!(lines(&e), vec!["b".to_string(), "cd".to_string()]);
    e.cursor_col = 1;
    e.apply_key(EditKey::Delete);
    assert_eq!(lines(&e), vec!["bcd".to_string()]);
}

#[test]
fn the_editor_reads_its_program() {
    let text = vec!["def hop".to_string(), "set speed 3".to_string(), "end".to_string()];
    let e = ProgramEditor::new_with_text(text.clone());
    let p = e.get_program();
    assert_eq!(p.name, "hop");
    assert_eq!(p.instructions.len(), 2);
    assert_eq!(p.source_text, Some(text));
    let all = e.get_all_programs();
    assert_eq!(all.len(), 1);
    assert_eq!(all[0].name, "hop");
}

#[test]
fn a_program_that_does_not_parse_keeps_its_text() {
    let e = ProgramEditor::new_with_text(vec!["def oops".to_string(), "fly".to_string()]);
    let p = e.get_program();
    assert_eq!(p.name, "oops");
    assert!(p.instructions.is_empty());
    assert_eq!(p.source_text, Some(vec!["def oops".to_string(), "fly".to_string()]));
    let all = e.get_all_programs();
    assert_eq!(all.len(), 1);
    assert_eq!(all[0].name, "oops");
    assert!(all[0].instructions.is_empty());
    assert_eq!(
        all[0].source_text,
        Some(vec![
            "// SYNTAX ERROR: Failed to parse line: fly".to_string(),
            "// Fix the error above to make this code functional".to_string(),
            "".to_string(),
            "def oops".to_string(),
            "fly".to_string(),
        ])
    );
}
