use mkchoice::Args;

#[test]
fn test_arg_parse() {
    let args = vec![
        "-s=master", "a", "-", "--vanish", "b", "-p", "Which one?", "-n", "12", "--", "-p", "-h",
        "-", "--", "master", "z",
    ]
    .into_iter()
    .map(String::from)
    .collect();
    assert_eq!(
        Args::parse(args),
        Ok(Args {
            help: false,
            vanish: true,
            prompt: Some("Which one?".to_string()),
            selection: Some("master".to_string()),
            selected_index: Some(12),
            stdin_index: Some(2),
            choices: vec!["a", "b", "-p", "-h", "-", "--", "master", "z"]
                .into_iter()
                .map(String::from)
                .collect(),
        })
    );
}

#[test]
fn test_index_parse_error() {
    let args = vec!["--index", "abc"].into_iter().map(String::from).collect();
    assert_eq!(
        Args::parse(args).unwrap_err(),
        usize::from_str_radix("abc", 10).unwrap_err()
    );
}

#[test]
fn test_inline_index_parse_error() {
    let args = vec!["-n=0x10".to_string()];
    assert!(Args::parse(args).is_err());
}

#[test]
fn test_index_overflow_is_an_error() {
    let args = vec!["--index".to_string(), "99999999999999999999999999".to_string()];
    assert!(Args::parse(args).is_err());
}

#[test]
fn test_parse_defaults_to_stdin_when_no_choices() {
    let parsed = Args::parse(Vec::new()).unwrap();
    assert_eq!(parsed.stdin_index, Some(0));
    assert!(parsed.choices.is_empty());
    assert!(!parsed.help);
    assert!(!parsed.vanish);
    assert_eq!(parsed.prompt, None);
    assert_eq!(parsed.selection, None);
    assert_eq!(parsed.selected_index, None);
}

#[test]
fn test_parse_inline_forms() {
    let args = vec!["--prompt=Pick:", "--selection=b", "a", "b"]
        .into_iter()
        .map(String::from)
        .collect();
    let parsed = Args::parse(args).unwrap();
    assert_eq!(parsed.prompt, Some("Pick:".to_string()));
    assert_eq!(parsed.selection, Some("b".to_string()));
    assert_eq!(parsed.choices, vec!["a".to_string(), "b".to_string()]);
    assert_eq!(parsed.stdin_index, None);
}

#[test]
fn test_parse_flag_without_value_is_ignored() {
    let args = vec!["a", "--prompt"].into_iter().map(String::from).collect();
    let parsed = Args::parse(args).unwrap();
    assert_eq!(parsed.prompt, None);
    assert_eq!(parsed.choices, vec!["a".to_string()]);
}

#[test]
fn test_into_chooser_splices_stdin_lines() {
    let args = vec!["a", "-", "b"].into_iter().map(String::from).collect();
    let parsed = Args::parse(args).unwrap();
    assert_eq!(parsed.stdin_index, Some(1));
    let chooser = parsed.into_chooser(vec!["1".to_string(), "2".to_string()]);
    assert_eq!(
        chooser.choices,
        vec!["a".to_string(), "1".to_string(), "2".to_string(), "b".to_string()]
    );
    assert_eq!(chooser.prompt, "Choose one:".to_string());
    assert_eq!(chooser.current_choice, 0);
}

#[test]
fn test_into_chooser_clamps_index_to_last() {
    let args = vec!["--index", "10", "a", "b", "c"]
        .into_iter()
        .map(String::from)
        .collect();
    let chooser = Args::parse(args).unwrap().into_chooser(Vec::new());
    assert_eq!(chooser.current_choice, 2);
}

#[test]
fn test_into_chooser_selection_overrides_index() {
    let args = vec!["-s", "b", "-n", "2", "a", "b", "c"]
        .into_iter()
        .map(String::from)
        .collect();
    let chooser = Args::parse(args).unwrap().into_chooser(Vec::new());
    assert_eq!(chooser.current_choice, 1);
}

#[test]
fn test_into_chooser_missing_selection_keeps_index() {
    let args = vec!["-s", "zzz", "-n", "1", "a", "b", "c"]
        .into_iter()
        .map(String::from)
        .collect();
    let chooser = Args::parse(args).unwrap().into_chooser(Vec::new());
    assert_eq!(chooser.current_choice, 1);
}
