use mkchoice::{Chooser, Key, Step};

fn chooser_of(options: &[&str], start: usize, vanish: bool) -> Chooser {
    Chooser {
        vanish,
        prompt: "Choose one:".to_string(),
        choices: options.iter().map(|s| s.to_string()).collect(),
        current_choice: start,
    }
}

#[test]
fn test_new_defaults() {
    let c = Chooser::new(&["a".to_string(), "b".to_string()]);
    assert!(c.vanish);
    assert_eq!(c.prompt, "Choose one:".to_string());
    assert_eq!(c.choices, vec!["a".to_string(), "b".to_string()]);
    assert_eq!(c.current_choice, 0);
}

#[test]
fn test_set_choice_finds_first_match() {
    let mut c = chooser_of(&["a", "b", "b"], 0, true);
    assert!(c.set_choice("b"));
    assert_eq!(c.current_choice, 1);
    assert!(!c.set_choice("z"));
    assert_eq!(c.current_choice, 1);
}

#[test]
fn test_down_down_enter_selects_third() {
    let c = chooser_of(&["a", "b", "c"], 0, true);
    let keys = vec![Key::Down, Key::Down, Key::Char('\n')];
    assert_eq!(c.select(&keys), Some((2, "c".to_string())));
}

#[test]
fn test_up_stops_at_first() {
    let c = chooser_of(&["a", "b", "c"], 2, true);
    let keys = vec![Key::Up, Key::Up, Key::Up, Key::Char('\n')];
    assert_eq!(c.select(&keys), Some((0, "a".to_string())));
}

#[test]
fn test_single_option_navigation_is_a_noop() {
    let c = chooser_of(&["only"], 0, true);
    let keys = vec![Key::Up, Key::Down, Key::Char('\n')];
    assert_eq!(c.select(&keys), Some((0, "only".to_string())));
}

#[test]
fn test_space_confirms_too() {
    let c = chooser_of(&["a", "b"], 0, true);
    let keys = vec![Key::Char('j'), Key::Char(' ')];
    assert_eq!(c.select(&keys), Some((1, "b".to_string())));
}

#[test]
fn test_escape_cancels() {
    let c = chooser_of(&["a", "b"], 1, true);
    assert_eq!(c.select(&vec![Key::Esc]), None);
}

#[test]
fn test_q_cancels() {
    let c = chooser_of(&["a", "b"], 0, true);
    assert_eq!(c.select(&vec![Key::Down, Key::Char('q')]), None);
}

#[test]
fn test_ctrl_c_cancels() {
    let c = chooser_of(&["a", "b"], 0, true);
    assert_eq!(c.select(&vec![Key::Ctrl('c')]), None);
}

#[test]
fn test_unknown_keys_are_ignored() {
    let c = chooser_of(&["a", "b"], 0, true);
    let keys = vec![Key::Other, Key::Char('x'), Key::Down, Key::Char('\n')];
    assert_eq!(c.select(&keys), Some((1, "b".to_string())));
}

#[test]
fn test_handle_key_down_at_last_is_a_noop() {
    let mut c = chooser_of(&["a", "b"], 1, true);
    assert_eq!(c.handle_key(Key::Down), Step::Stay);
    assert_eq!(c.current_choice, 1);
    assert_eq!(c.handle_key(Key::Char('j')), Step::Stay);
    assert_eq!(c.current_choice, 1);
}

#[test]
fn test_handle_key_up_at_first_is_a_noop() {
    let mut c = chooser_of(&["a", "b"], 0, true);
    assert_eq!(c.handle_key(Key::Up), Step::Stay);
    assert_eq!(c.current_choice, 0);
    assert_eq!(c.handle_key(Key::Char('k')), Step::Stay);
    assert_eq!(c.current_choice, 0);
}

#[test]
fn test_handle_key_moves_and_reports() {
    let mut c = chooser_of(&["a", "b"], 0, true);
    assert_eq!(c.handle_key(Key::Down), Step::Moved);
    assert_eq!(c.current_choice, 1);
    assert_eq!(c.handle_key(Key::Char('k')), Step::Moved);
    assert_eq!(c.current_choice, 0);
}

#[test]
fn test_frame_marks_the_current_option() {
    let c = chooser_of(&["a", "b"], 0, true);
    assert_eq!(
        c.choice_str(),
        "\u{1b}[38;5;2m> a\u{1b}[39m\r\n  b\r\n".to_string()
    );
    let c2 = chooser_of(&["a", "b"], 1, true);
    assert_eq!(
        c2.choice_str(),
        "  a\r\n\u{1b}[38;5;2m> b\u{1b}[39m\r\n".to_string()
    );
}

#[test]
fn test_redraw_moves_up_over_the_list() {
    let c = chooser_of(&["a", "b"], 1, true);
    let expected = format!("\r\u{1b}[2A{}", c.choice_str());
    assert_eq!(c.redraw_str(80), Some(expected));
}

#[test]
fn test_finish_with_vanish_erases_everything() {
    // One prompt row plus three option rows: the cursor climbs back to
    // where the prompt began and clears to the end of the screen.
    let c = chooser_of(&["a", "b", "c"], 1, true);
    assert_eq!(c.finish_str(80), Some("\r\u{1b}[4A\u{1b}[J".to_string()));
}

#[test]
fn test_finish_without_vanish_writes_nothing() {
    let c = chooser_of(&["a", "b", "c"], 1, false);
    assert_eq!(c.finish_str(80), Some(String::new()));
}

#[test]
fn test_finish_counts_wrapped_rows() {
    // The prompt "Choose one:" is 11 columns: at width 5 it wraps into
    // 1 + 11/5 = 3 rows; the two-line option adds 2 more.
    let c = chooser_of(&["a\nb"], 0, true);
    assert_eq!(c.finish_str(5), Some("\r\u{1b}[5A\u{1b}[J".to_string()));
}

#[test]
fn test_prompt_line() {
    let c = chooser_of(&["a"], 0, true);
    assert_eq!(c.prompt_line(), "\rChoose one:\n".to_string());
}

#[test]
fn test_heights_too_tall_for_a_redraw() {
    let tall = "\n".repeat(70000);
    let c = chooser_of(&[tall.as_str()], 0, true);
    assert_eq!(c.choice_height(80), None);
    assert_eq!(c.redraw_str(80), None);
    assert_eq!(c.finish_str(80), None);
}

#[test]
fn test_heights_of_options() {
    let c = chooser_of(&["a\nb", "c"], 0, true);
    assert_eq!(c.choice_height(80), Some(3));
    assert_eq!(c.height(80), Some(4));
}
