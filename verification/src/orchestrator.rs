//! The orchestrator: for every input line it decides, deterministically,
//! whether a registered command answers it, whether a cached response can be
//! reused, or whether the inference gateway must be invoked; afterwards it
//! records the turn in the session log. Command matching always takes
//! precedence over cache and inference, and only inference outputs are ever
//! cached.
//!
//! The slow, fallible inference call itself is the caller's suspension
//! point: [`route`] says what to do, the caller performs any gateway call,
//! and [`finish_inference`] folds the outcome back in. Every decision here
//! is a function of plain values, so the surrounding loop stays responsive
//! and nothing below can corrupt session or cache state on a failure.
use vstd::prelude::*;
use crate::cache::{spec_lookup, Fingerprint, FingerprintView, ResponseCache};
use crate::message::Role;
use crate::registry::{action_output, is_first_match, matcher_accepts, Command, CommandRegistry};
use crate::session::ChatSession;
use crate::text::{trim, trim_spec};
use vstd::string::StringExecFns;

verus! {

/// Generation inputs that affect the produced text; temperature in
/// thousandths, as the cache fingerprints carry it.
pub struct GenerationParams {
    pub model: String,
    pub temperature_milli: u32,
}

/// The gateway's failure modes; the orchestrator treats each as "inference
/// unavailable for this turn", recoverable at the turn level.
#[derive(Clone, Copy, PartialEq, Eq, Structural, Debug)]
pub enum InferenceError {
    ModelNotFound,
    BackendFailure,
    Timeout,
}

/// The cache key for a normalized prompt under the given parameters.
pub open spec fn fingerprint_of(prompt: Seq<char>, model: Seq<char>, temp: u32) -> FingerprintView {
    (prompt, model, temp)
}

/// The routing decision, mathematically.
pub enum RouteSpec {
    /// The input was empty after normalization: a no-op.
    Empty,
    /// The highest-priority matching command, with what executing it yields.
    Command { index: int, output: Result<Seq<char>, Seq<char>> },
    /// A previously generated response for this exact fingerprint.
    Cached { text: Seq<char> },
    /// No command and no cache entry: the gateway must generate from this
    /// normalized prompt.
    Inference { prompt: Seq<char> },
}

/// The routing policy: normalize, try commands in priority order, then the
/// cache, then inference.
pub open spec fn spec_route(
    cmds: Seq<Command>,
    cache: Seq<(FingerprintView, Seq<char>)>,
    input: Seq<char>,
    model: Seq<char>,
    temp: u32,
) -> RouteSpec {
    let norm = trim_spec(input);
    if norm.len() == 0 {
        RouteSpec::Empty
    } else if exists|i: int| is_first_match(cmds, norm, i) {
        let i = choose|i: int| is_first_match(cmds, norm, i);
        RouteSpec::Command { index: i, output: action_output(cmds[i].action) }
    } else if spec_lookup(cache, fingerprint_of(norm, model, temp)) is Some {
        RouteSpec::Cached { text: spec_lookup(cache, fingerprint_of(norm, model, temp))->0 }
    } else {
        RouteSpec::Inference { prompt: norm }
    }
}

/// At most one command is the first match for an input.
pub proof fn lemma_first_match_unique(cmds: Seq<Command>, input: Seq<char>, i: int, j: int)
    requires
        is_first_match(cmds, input, i),
        is_first_match(cmds, input, j),
    ensures
        i == j,
{
    if i < j {
        assert(!matcher_accepts(cmds[i].matcher, input));
    }
    if j < i {
        assert(!matcher_accepts(cmds[j].matcher, input));
    }
}

/// The runtime routing decision.
pub enum Route {
    Empty,
    Command { handle: usize, output: Result<String, String> },
    Cached { text: String },
    Inference { prompt: String },
}

/// What a runtime route outcome states mathematically.
pub open spec fn route_view(r: Route) -> RouteSpec {
    match r {
        Route::Empty => RouteSpec::Empty,
        Route::Command { handle, output } => RouteSpec::Command {
            index: handle as int,
            output: match output {
                Ok(t) => Ok(t@),
                Err(t) => Err(t@),
            },
        },
        Route::Cached { text } => RouteSpec::Cached { text: text@ },
        Route::Inference { prompt } => RouteSpec::Inference { prompt: prompt@ },
    }
}

/// Decides one turn: a definite routing answer for every input, with no side
/// effect on any component. Commands shadow both cache and inference; a
/// cache miss never fails the request, it only hands the caller the
/// normalized prompt to generate from.
pub fn route(
    registry: &CommandRegistry,
    cache: &ResponseCache,
    input: &str,
    params: &GenerationParams,
) -> (r: Route)
    ensures
        route_view(r) == spec_route(
            registry.commands_view(),
            cache@,
            input@,
            params.model@,
            params.temperature_milli,
        ),
{
    let norm = trim(input);
    if norm.as_str().is_empty() {
        return Route::Empty;
    }
    match registry.find(norm.as_str()) {
        Some(handle) => {
            let output = registry.execute(handle, "{}");
            proof {
                let cmds = registry.commands_view();
                let picked = choose|i: int| is_first_match(cmds, norm@, i);
                lemma_first_match_unique(cmds, norm@, picked, handle as int);
            }
            Route::Command { handle, output }
        },
        None => {
            let fp = Fingerprint {
                prompt: norm.clone(),
                model: params.model.clone(),
                temperature_milli: params.temperature_milli,
            };
            match cache.get(&fp) {
                Some(text) => Route::Cached { text },
                None => Route::Inference { prompt: norm },
            }
        },
    }
}

/// The user-visible text for a failed gateway call.
pub open spec fn inference_error_text(e: InferenceError) -> Seq<char> {
    match e {
        InferenceError::ModelNotFound => "AI Error: model not found"@,
        InferenceError::BackendFailure => "AI Error: inference backend failure"@,
        InferenceError::Timeout => "AI Error: inference timed out"@,
    }
}

/// Folds a gateway outcome back in. Success stores the response under the
/// exact fingerprint that was routed on and hands the text back unchanged;
/// failure yields the user-visible error text and writes nothing to the
/// cache, leaving it exactly as it was.
pub fn finish_inference(
    cache: &mut ResponseCache,
    prompt: String,
    params: &GenerationParams,
    outcome: Result<String, InferenceError>,
) -> (text: Result<String, String>)
    ensures
        match outcome {
            Ok(generated) => {
                &&& text == Ok::<String, String>(generated)
                &&& final(cache)@ == old(cache)@.insert(
                    0,
                    (fingerprint_of(prompt@, params.model@, params.temperature_milli), generated@),
                )
                &&& spec_lookup(
                    final(cache)@,
                    fingerprint_of(prompt@, params.model@, params.temperature_milli),
                ) == Some(generated@)
                &&& forall|k2: FingerprintView|
                    k2 != fingerprint_of(prompt@, params.model@, params.temperature_milli)
                        ==> #[trigger] spec_lookup(final(cache)@, k2) == spec_lookup(
                        old(cache)@,
                        k2,
                    )
            },
            Err(e) => {
                &&& text is Err
                &&& text->Err_0@ == inference_error_text(e)
                &&& final(cache)@ == old(cache)@
            },
        },
{
    match outcome {
        Ok(generated) => {
            let fp = Fingerprint {
                prompt,
                model: params.model.clone(),
                temperature_milli: params.temperature_milli,
            };
            cache.put(fp, generated.clone());
            Ok(generated)
        },
        Err(e) => {
            let msg = match e {
                InferenceError::ModelNotFound => String::from_str("AI Error: model not found"),
                InferenceError::BackendFailure => String::from_str(
                    "AI Error: inference backend failure",
                ),
                InferenceError::Timeout => String::from_str("AI Error: inference timed out"),
            };
            Err(msg)
        },
    }
}

/// Records a completed turn: the user's input and the produced text as an
/// assistant message, appended in that order, whatever path produced the
/// text.
pub fn record_turn(
    session: &mut ChatSession,
    user_text: String,
    assistant_text: String,
    user_ts: u64,
    assistant_ts: u64,
)
    requires
        old(session).wf(),
    ensures
        final(session).wf(),
        final(session)@.key == old(session)@.key,
        final(session)@.messages == old(session)@.messages.push(
            crate::message::MessageView {
                role: Role::User,
                content: user_text@,
                timestamp: user_ts,
            },
        ).push(
            crate::message::MessageView {
                role: Role::Assistant,
                content: assistant_text@,
                timestamp: assistant_ts,
            },
        ),
{
    session.add_message(Role::User, user_text, user_ts);
    session.add_message(Role::Assistant, assistant_text, assistant_ts);
}

/// Memoization law: when routing sent an input to inference and the
/// generated response was cached, routing the identical input under the
/// identical parameters afterwards is a cache hit yielding that very text,
/// so no second gateway invocation happens.
pub proof fn lemma_repeat_input_hits_cache(
    cmds: Seq<Command>,
    cache: Seq<(FingerprintView, Seq<char>)>,
    input: Seq<char>,
    model: Seq<char>,
    temp: u32,
    response: Seq<char>,
)
    requires
        spec_route(cmds, cache, input, model, temp) == (RouteSpec::Inference {
            prompt: trim_spec(input),
        }),
    ensures
        spec_route(
            cmds,
            cache.insert(0, (fingerprint_of(trim_spec(input), model, temp), response)),
            input,
            model,
            temp,
        ) == (RouteSpec::Cached { text: response }),
{
    let norm = trim_spec(input);
    let fp = fingerprint_of(norm, model, temp);
    let stored = cache.insert(0, (fp, response));
    assert(norm.len() > 0);
    assert(!(exists|i: int| is_first_match(cmds, norm, i)));
    assert(stored[0].0 == fp);
    assert(spec_lookup(stored, fp) == Some(response));
}

} // verus!
