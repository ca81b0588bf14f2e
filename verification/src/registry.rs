//! The command registry: an ordered collection of commands, each owning a
//! matcher, dispatched by a deterministic first-match-wins lookup.
//! Registration order is priority order; lookup is total (a definite hit or
//! miss for every input) and free of side effects.
use vstd::prelude::*;
use crate::text::{str_eq, str_is_prefix};

verus! {

/// How a command decides whether it applies to an input line.
pub enum Matcher {
    /// Accepts exactly the given text.
    Exact(String),
    /// Accepts any input the given text is a prefix of.
    Prefix(String),
}

/// What a command does when executed. Commands are stateless or hold only
/// configuration injected at construction; they return text for the
/// orchestrator to append rather than mutating session state themselves.
pub enum Action {
    /// Produce the configured text.
    Reply(String),
    /// Fail with the configured displayable error message.
    Fail(String),
}

/// A registered command: a matcher plus the behavior it selects.
pub struct Command {
    pub matcher: Matcher,
    pub action: Action,
}

/// The pattern text a matcher was built from.
pub open spec fn matcher_pattern(m: Matcher) -> Seq<char> {
    match m {
        Matcher::Exact(p) => p@,
        Matcher::Prefix(p) => p@,
    }
}

/// Whether matcher `m` accepts `input`. Matching is case-sensitive and works
/// on the already-normalized input text.
pub open spec fn matcher_accepts(m: Matcher, input: Seq<char>) -> bool {
    match m {
        Matcher::Exact(p) => input == p@,
        Matcher::Prefix(p) => p@.is_prefix_of(input),
    }
}

/// The text (or error text) executing a command produces; the argument
/// payload does not influence configuration-only commands.
pub open spec fn action_output(a: Action) -> Result<Seq<char>, Seq<char>> {
    match a {
        Action::Reply(t) => Ok(t@),
        Action::Fail(t) => Err(t@),
    }
}

/// `i` is the highest-priority (earliest registered) command accepting
/// `input`.
pub open spec fn is_first_match(cmds: Seq<Command>, input: Seq<char>, i: int) -> bool {
    &&& 0 <= i < cmds.len()
    &&& matcher_accepts(cmds[i].matcher, input)
    &&& forall|j: int| 0 <= j < i ==> !matcher_accepts(#[trigger] cmds[j].matcher, input)
}

impl Matcher {
    /// Runtime matching decision for one matcher.
    pub fn accepts(&self, input: &str) -> (r: bool)
        ensures
            r == matcher_accepts(*self, input@),
    {
        match self {
            Matcher::Exact(p) => str_eq(input, p.as_str()),
            Matcher::Prefix(p) => str_is_prefix(p.as_str(), input),
        }
    }
}

/// The ordered command collection. Invariant: no command registers an empty
/// pattern, so the empty input never matches any command.
pub struct CommandRegistry {
    commands: Vec<Command>,
}

impl CommandRegistry {
    /// The registered commands, in priority order.
    pub closed spec fn commands_view(&self) -> Seq<Command> {
        self.commands@
    }

    /// No registered matcher has an empty pattern.
    pub open spec fn wf(&self) -> bool {
        forall|i: int|
            0 <= i < self.commands_view().len() ==> matcher_pattern(
                #[trigger] self.commands_view()[i].matcher,
            ).len() > 0
    }

    /// An empty registry.
    pub fn new() -> (r: CommandRegistry)
        ensures
            r.commands_view().len() == 0,
            r.wf(),
    {
        CommandRegistry { commands: Vec::new() }
    }

    /// Appends a command at the lowest priority. A command with an empty
    /// matcher pattern is rejected and the registry is left unchanged.
    pub fn register(&mut self, cmd: Command) -> (accepted: bool)
        requires
            old(self).wf(),
        ensures
            final(self).wf(),
            accepted == (matcher_pattern(cmd.matcher).len() > 0),
            accepted ==> final(self).commands_view() == old(self).commands_view().push(cmd),
            !accepted ==> final(self).commands_view() == old(self).commands_view(),
    {
        let empty = match &cmd.matcher {
            Matcher::Exact(p) => p.as_str().is_empty(),
            Matcher::Prefix(p) => p.as_str().is_empty(),
        };
        if empty {
            return false;
        }
        self.commands.push(cmd);
        true
    }

    /// Deterministic total lookup: the first registered command whose matcher
    /// accepts `input`, or a definite miss when none does.
    #[verifier::loop_isolation(false)]
    pub fn find(&self, input: &str) -> (r: Option<usize>)
        ensures
            match r {
                Some(i) => is_first_match(self.commands_view(), input@, i as int),
                None => forall|j: int|
                    0 <= j < self.commands_view().len() ==> !matcher_accepts(
                        #[trigger] self.commands_view()[j].matcher,
                        input@,
                    ),
            },
    {
        let n = self.commands.len();
        let mut i: usize = 0;
        while i < n
            invariant
                i <= n,
                forall|j: int|
                    0 <= j < i ==> !matcher_accepts(#[trigger] self.commands@[j].matcher, input@),
            decreases n - i,
        {
            if self.commands[i].matcher.accepts(input) {
                return Some(i);
            }
            i = i + 1;
        }
        None
    }

    /// Executes the command behind `handle` with a JSON-like argument payload
    /// (ignored by configuration-only commands); execution failures come back
    /// as displayable text, recoverable by the caller.
    pub fn execute(&self, handle: usize, args: &str) -> (r: Result<String, String>)
        requires
            (handle as int) < self.commands_view().len(),
        ensures
            match r {
                Ok(t) => action_output(self.commands_view()[handle as int].action) == Ok::<
                    Seq<char>,
                    Seq<char>,
                >(t@),
                Err(t) => action_output(self.commands_view()[handle as int].action) == Err::<
                    Seq<char>,
                    Seq<char>,
                >(t@),
            },
    {
        let _ = args;
        match &self.commands[handle].action {
            Action::Reply(t) => Ok(t.clone()),
            Action::Fail(t) => Err(t.clone()),
        }
    }

    /// First-match-wins dispatch law: a lookup hit accepts the input, every
    /// higher-priority command rejects it, and whenever any registered
    /// command accepts the input the lookup cannot miss.
    pub proof fn lemma_first_match_wins(cmds: Seq<Command>, input: Seq<char>, i: int, k: int)
        requires
            is_first_match(cmds, input, i),
            0 <= k < cmds.len(),
            matcher_accepts(cmds[k].matcher, input),
        ensures
            i <= k,
            matcher_accepts(cmds[i].matcher, input),
    {
    }

    /// The empty input never matches any command of a well-formed registry.
    pub proof fn lemma_empty_input_never_matches(&self, input: Seq<char>)
        requires
            self.wf(),
            input.len() == 0,
        ensures
            forall|j: int|
                0 <= j < self.commands_view().len() ==> !matcher_accepts(
                    #[trigger] self.commands_view()[j].matcher,
                    input,
                ),
    {
        assert forall|j: int| 0 <= j < self.commands_view().len() implies !matcher_accepts(
            #[trigger] self.commands_view()[j].matcher,
            input,
        ) by {
            let m = self.commands_view()[j].matcher;
            match m {
                Matcher::Exact(p) => {
                    assert(p@.len() > 0);
                },
                Matcher::Prefix(p) => {
                    assert(p@.len() > 0);
                },
            }
        }
    }
}

} // verus!
