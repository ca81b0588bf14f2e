use llamagpt::cli::{classify_input, Cli, LoopAction};

fn base_cli() -> Cli {
    Cli {
        prompt: String::new(),
        chat: None,
        headless: false,
        no_animations: false,
        model: String::from("llama3-8b-q4"),
        voice: false,
        temperature_milli: 700,
        debug: false,
    }
}

#[test]
fn a_bare_prompt_selects_one_shot_mode() {
    let mut cli = base_cli();
    cli.prompt = String::from("hello");
    assert!(cli.one_shot_mode());
    assert!(!cli.chat_mode());
}

#[test]
fn a_session_key_selects_chat_mode_even_with_a_prompt() {
    let mut cli = base_cli();
    cli.prompt = String::from("hello");
    cli.chat = Some(String::from("work"));
    assert!(!cli.one_shot_mode());
    assert!(cli.chat_mode());
}

#[test]
fn no_prompt_and_no_session_selects_neither_mode() {
    let cli = base_cli();
    assert!(!cli.one_shot_mode());
    assert!(!cli.chat_mode());
}

#[test]
fn blank_lines_are_ignored() {
    assert!(matches!(classify_input(""), LoopAction::Ignore));
    assert!(matches!(classify_input("   \t"), LoopAction::Ignore));
}

#[test]
fn exit_keywords_end_the_loop_in_any_ascii_case() {
    assert!(matches!(classify_input("exit"), LoopAction::Exit));
    assert!(matches!(classify_input("QUIT"), LoopAction::Exit));
    assert!(matches!(classify_input("  eXiT "), LoopAction::Exit));
    assert!(matches!(classify_input("Quit\n"), LoopAction::Exit));
}

#[test]
fn ordinary_input_is_processed_in_normalized_form() {
    match classify_input("  tell me a story  ") {
        LoopAction::Process(text) => assert_eq!(text, String::from("tell me a story")),
        _ => panic!("expected the line to be processed"),
    }
    // Words containing an exit keyword are not exits.
    assert!(matches!(classify_input("exit strategy"), LoopAction::Process(_)));
    assert!(matches!(classify_input("quite"), LoopAction::Process(_)));
}
