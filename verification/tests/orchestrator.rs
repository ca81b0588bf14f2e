use llamagpt::cache::{Fingerprint, ResponseCache};
use llamagpt::message::Role;
use llamagpt::orchestrator::{
    finish_inference, record_turn, route, GenerationParams, InferenceError, Route,
};
use llamagpt::registry::{Action, Command, CommandRegistry, Matcher};
use llamagpt::session::ChatSession;

fn params(model: &str, temperature_milli: u32) -> GenerationParams {
    GenerationParams { model: String::from(model), temperature_milli }
}

fn registry_with_help() -> CommandRegistry {
    let mut reg = CommandRegistry::new();
    assert!(reg.register(Command {
        matcher: Matcher::Exact(String::from("help")),
        action: Action::Reply(String::from("Available commands: help")),
    }));
    reg
}

#[test]
fn help_command_hit_is_returned_not_cached_and_recorded() {
    let reg = registry_with_help();
    let mut cache = ResponseCache::new();
    let p = params("llama3-8b-q4", 700);
    let text = match route(&reg, &cache, "help", &p) {
        Route::Command { handle, output } => {
            assert_eq!(handle, 0);
            output.unwrap()
        },
        _ => panic!("expected a command hit"),
    };
    assert_eq!(text, String::from("Available commands: help"));
    // Command outputs are never cached.
    let fp = Fingerprint {
        prompt: String::from("help"),
        model: String::from("llama3-8b-q4"),
        temperature_milli: 700,
    };
    assert_eq!(cache.get(&fp), None);
    // The turn still lands in the session as user + assistant messages.
    let mut session = ChatSession::new(String::from("s"));
    record_turn(&mut session, String::from("help"), text.clone(), 1, 2);
    let history = session.history();
    assert_eq!(history.len(), 2);
    assert_eq!(history[0].role, Role::User);
    assert_eq!(history[0].content, String::from("help"));
    assert_eq!(history[1].role, Role::Assistant);
    assert_eq!(history[1].content, text);
}

#[test]
fn inference_miss_then_repeat_is_a_cache_hit_with_identical_text() {
    let reg = CommandRegistry::new();
    let mut cache = ResponseCache::new();
    let p = params("llama3-8b-q4", 700);
    let input = "what is the capital of France?";
    // Cache empty: the gateway must be invoked, once.
    let prompt = match route(&reg, &cache, input, &p) {
        Route::Inference { prompt } => prompt,
        _ => panic!("expected an inference decision"),
    };
    assert_eq!(prompt, String::from(input));
    let answered = finish_inference(&mut cache, prompt, &p, Ok(String::from("Paris")));
    assert_eq!(answered, Ok(String::from("Paris")));
    // The identical input and parameters now answer from the cache: zero
    // additional gateway invocations.
    match route(&reg, &cache, input, &p) {
        Route::Cached { text } => assert_eq!(text, String::from("Paris")),
        _ => panic!("expected a cache hit"),
    }
}

#[test]
fn changed_parameters_do_not_reuse_the_cached_response() {
    let reg = CommandRegistry::new();
    let mut cache = ResponseCache::new();
    let p = params("llama3-8b-q4", 700);
    let prompt = match route(&reg, &cache, "same text", &p) {
        Route::Inference { prompt } => prompt,
        _ => panic!("expected an inference decision"),
    };
    finish_inference(&mut cache, prompt, &p, Ok(String::from("cached"))).unwrap();
    // Different temperature: routed to inference again.
    let hotter = params("llama3-8b-q4", 900);
    assert!(matches!(route(&reg, &cache, "same text", &hotter), Route::Inference { .. }));
    // Different model: routed to inference again.
    let other_model = params("llama3-70b-q4", 700);
    assert!(matches!(route(&reg, &cache, "same text", &other_model), Route::Inference { .. }));
}

#[test]
fn gateway_timeout_yields_error_text_and_no_cache_entry() {
    let reg = CommandRegistry::new();
    let mut cache = ResponseCache::new();
    let p = params("llama3-8b-q4", 700);
    let input = "summarize the meeting";
    let prompt = match route(&reg, &cache, input, &p) {
        Route::Inference { prompt } => prompt,
        _ => panic!("expected an inference decision"),
    };
    let outcome = finish_inference(&mut cache, prompt, &p, Err(InferenceError::Timeout));
    let error_text = match outcome {
        Err(text) => text,
        Ok(_) => panic!("a timeout is not a success"),
    };
    assert_eq!(error_text, String::from("AI Error: inference timed out"));
    // Nothing was cached for that fingerprint.
    let fp = Fingerprint {
        prompt: String::from(input),
        model: String::from("llama3-8b-q4"),
        temperature_milli: 700,
    };
    assert_eq!(cache.get(&fp), None);
    // The session receives the user message and the error as the assistant turn.
    let mut session = ChatSession::new(String::from("s"));
    record_turn(&mut session, String::from(input), error_text.clone(), 1, 2);
    let history = session.history();
    assert_eq!(history.len(), 2);
    assert_eq!(history[0].content, String::from(input));
    assert_eq!(history[1].content, error_text);
    assert_eq!(history[1].role, Role::Assistant);
}

#[test]
fn other_gateway_failures_have_their_own_error_text() {
    let mut cache = ResponseCache::new();
    let p = params("m", 0);
    let r1 = finish_inference(&mut cache, String::from("q"), &p, Err(InferenceError::ModelNotFound));
    assert_eq!(r1, Err(String::from("AI Error: model not found")));
    let r2 =
        finish_inference(&mut cache, String::from("q"), &p, Err(InferenceError::BackendFailure));
    assert_eq!(r2, Err(String::from("AI Error: inference backend failure")));
}

#[test]
fn empty_and_whitespace_input_is_a_no_op() {
    let reg = registry_with_help();
    let cache = ResponseCache::new();
    let p = params("m", 0);
    assert!(matches!(route(&reg, &cache, "", &p), Route::Empty));
    assert!(matches!(route(&reg, &cache, "   \t \n", &p), Route::Empty));
}

#[test]
fn input_is_normalized_before_routing() {
    let reg = registry_with_help();
    let cache = ResponseCache::new();
    let p = params("m", 0);
    // Surrounding whitespace is trimmed, so the exact matcher still hits.
    assert!(matches!(route(&reg, &cache, "  help \n", &p), Route::Command { .. }));
}

#[test]
fn a_command_shadows_an_identical_cached_response() {
    let reg = registry_with_help();
    let mut cache = ResponseCache::new();
    let p = params("llama3-8b-q4", 700);
    cache.put(
        Fingerprint {
            prompt: String::from("help"),
            model: String::from("llama3-8b-q4"),
            temperature_milli: 700,
        },
        String::from("a stale generated answer"),
    );
    match route(&reg, &cache, "help", &p) {
        Route::Command { output, .. } => {
            assert_eq!(output, Ok(String::from("Available commands: help")));
        },
        _ => panic!("the registered command must win over the cache"),
    }
}

#[test]
fn command_failure_is_recoverable_display_text() {
    let mut reg = CommandRegistry::new();
    assert!(reg.register(Command {
        matcher: Matcher::Prefix(String::from("files")),
        action: Action::Fail(String::from("listing unavailable")),
    }));
    let cache = ResponseCache::new();
    let p = params("m", 0);
    match route(&reg, &cache, "files /tmp", &p) {
        Route::Command { output, .. } => assert_eq!(output, Err(String::from("listing unavailable"))),
        _ => panic!("expected the prefix command to match"),
    }
}
