use eilmeldung::utils::{expanded_words, ShellEnv};

fn no_env() -> ShellEnv {
    ShellEnv { vars: Vec::new(), home: None }
}
use eilmeldung::style::{StyledSpan, TermColor, TextStyle, MODIFIER_BOLD, MODIFIER_REVERSED};
use eilmeldung::utils::{
    command_from_words, html_sanitize, narrow_ampersands, patch_text_style, prepare_command,
    to_bubble, CommandError,
};

#[test]
fn no_variables_unchanged() {
    let (cmd, args) = prepare_command("pwsh -NoProfile -File /some/script.ps1", &no_env()).unwrap();
    assert_eq!(cmd, "pwsh");
    assert_eq!(vec!["-NoProfile", "-File", "/some/script.ps1"], args);
}

#[test]
fn no_variables_unchanged_quotes() {
    let (cmd, args) = prepare_command("pwsh \"-NoProfile -File\" /some/script.ps1", &no_env()).unwrap();
    assert_eq!(cmd, "pwsh");
    assert_eq!(vec!["-NoProfile -File", "/some/script.ps1"], args);
}

#[test]
fn leaves_unknown_variable_intact() {
    let result = prepare_command("$EILMELDUNG_UNDEFINED_VAR", &no_env());
    assert!(matches!(result, Err(CommandError::Expansion(_))));
}

#[test]
fn malformed_quoting_is_a_split_error() {
    assert!(matches!(prepare_command("echo \"unterminated", &no_env()), Err(CommandError::Split(_))));
}

#[test]
fn an_empty_command_line_is_invalid() {
    match prepare_command("   ", &no_env()) {
        Err(CommandError::Invalid(m)) => assert_eq!("Invalid command:     (expanded: [])", m),
        other => panic!("expected an invalid command, got {other:?}"),
    }
}

#[test]
fn words_become_program_and_arguments() {
    let (program, args) = command_from_words("x", vec!["a".to_owned(), "b".to_owned()]).unwrap();
    assert_eq!("a", program);
    assert_eq!(vec!["b"], args);
    assert!(matches!(command_from_words("x", vec![]), Err(CommandError::Invalid(_))));
}

#[test]
fn html_entities_are_decoded() {
    assert_eq!("Tom & Jerry", html_sanitize("Tom &amp; Jerry"));
    assert_eq!("<b>", html_sanitize("&lt;b&gt;"));
}

#[test]
fn a_bare_ampersand_is_kept_as_it_is() {
    assert_eq!("AT&T", html_sanitize("AT&T"));
    assert_eq!("Arts & Sciences", html_sanitize("Arts & Sciences"));
}

#[test]
fn wide_ampersands_start_entities() {
    assert_eq!("a&b", narrow_ampersands("a\u{FF06}b"));
    assert_eq!("Tom & Jerry", html_sanitize("Tom \u{FF06}amp; Jerry"));
}

#[test]
fn a_bubble_reverses_its_text_between_the_edges() {
    let style = TextStyle::new().fg(TermColor::Red);
    let line = to_bubble(StyledSpan::styled("tag".to_owned(), style), '<', ' ');
    assert_eq!(3, line.len());
    assert_eq!("<", line[0].content);
    assert_eq!(style, line[0].style);
    assert_eq!("tag", line[1].content);
    assert_eq!(MODIFIER_REVERSED, line[1].style.add_modifier);
    assert_eq!(" ", line[2].content);
    assert_eq!(MODIFIER_REVERSED, line[2].style.add_modifier & MODIFIER_REVERSED);
}

#[test]
fn patching_a_text_lays_the_style_over_every_span() {
    let mut text = vec![
        vec![StyledSpan::styled("a".to_owned(), TextStyle::new().fg(TermColor::Red))],
        vec![
            StyledSpan::styled("b".to_owned(), TextStyle::new()),
            StyledSpan::styled("c".to_owned(), TextStyle::new().fg(TermColor::Blue)),
        ],
    ];
    let over = TextStyle::new().add_modifier(MODIFIER_BOLD).fg(TermColor::Green);
    patch_text_style(&mut text, over);
    assert_eq!(2, text.len());
    assert_eq!("a", text[0][0].content);
    for line in &text {
        for span in line {
            assert_eq!(Some(TermColor::Green), span.style.fg);
            assert_eq!(MODIFIER_BOLD, span.style.add_modifier);
        }
    }
}

#[test]
fn the_first_word_that_cannot_be_expanded_is_the_error() {
    let ok = expanded_words(vec![
        ("ls".to_owned(), Some("ls".to_owned())),
        ("~/x".to_owned(), Some("/home/u/x".to_owned())),
    ]);
    assert_eq!(vec!["ls".to_owned(), "/home/u/x".to_owned()], ok.unwrap());
    let err = expanded_words(vec![
        ("echo".to_owned(), Some("echo".to_owned())),
        ("$NOPE".to_owned(), None),
        ("$ALSO_NOT".to_owned(), None),
    ]);
    match err {
        Err(CommandError::Expansion(w)) => assert_eq!("$NOPE", w),
        _ => panic!("expected an expansion error"),
    }
}

#[test]
fn expands_known_variable() {
    let env = ShellEnv { vars: vec![("EILMELDUNG_TEST_VAR".to_owned(), r"C:/Users/test".to_owned())], home: None };
    let (command, rest) = prepare_command("prefix/$EILMELDUNG_TEST_VAR/suffix", &env).unwrap();
    assert_eq!(r"prefix/C:/Users/test/suffix", command);
    assert_eq!(Vec::<String>::new(), rest);
}

#[test]
fn cmd_secret_expands_and_splits_correctly() {
    let env = ShellEnv { vars: vec![("EILMELDUNG_TEST_HOME".to_owned(), r"C:/Users/test".to_owned())], home: None };
    let (cmd, args) =
        prepare_command(r"pwsh -NoProfile -File $EILMELDUNG_TEST_HOME/.config/get-pass.ps1", &env).unwrap();
    assert_eq!(cmd, "pwsh");
    assert_eq!(args, vec!["-NoProfile", "-File", "C:/Users/test/.config/get-pass.ps1"]);
}

#[test]
fn a_leading_tilde_is_the_home_directory() {
    let env = ShellEnv { vars: Vec::new(), home: Some("/home/u".to_owned()) };
    let (cmd, args) = prepare_command("~/bin/run ~x a~b", &env).unwrap();
    assert_eq!("/home/u/bin/run", cmd);
    assert_eq!(vec!["~x", "a~b"], args);
}

#[test]
fn variables_are_looked_up_by_name() {
    let vars = vec![("A".to_owned(), "1".to_owned()), ("B".to_owned(), "2".to_owned())];
    assert_eq!(Ok(Some("2".to_owned())), eilmeldung::utils::env_lookup(&vars, "B"));
    assert_eq!(Err(()), eilmeldung::utils::env_lookup(&vars, "C"));
}
