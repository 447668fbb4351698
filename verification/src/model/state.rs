//! Lifecycle states of a version and the transitions between them.

use vstd::prelude::*;
use crate::text::{ascii_lowercase, str_eq, string_of, to_lowercase, unicode_lowercase};
use vstd::utf8::is_ascii_chars;

verus! {

/// Lifecycle state of a version.
#[derive(Debug, Clone, Copy, PartialEq, Eq, Structural)]
pub enum State {
    /// Default state for new versions.
    Draft,
    /// Pending review.
    Review,
    /// Accepted/vetted version.
    Approved,
    /// Set when a draft is superseded by a new version.
    Discarded,
    /// Locks the object against further updates (terminal).
    Sealed,
    /// Deprecated version (terminal).
    Archived,
}

/// The transition relation between states.
pub open spec fn transition_allowed(from: State, to: State) -> bool {
    from == to || match (from, to) {
        (State::Draft, State::Review) => true,
        (State::Draft, State::Discarded) => true,
        (State::Draft, State::Sealed) => true,
        (State::Draft, State::Archived) => true,
        (State::Review, State::Approved) => true,
        (State::Review, State::Draft) => true,
        (State::Review, State::Discarded) => true,
        (State::Review, State::Sealed) => true,
        (State::Review, State::Archived) => true,
        (State::Approved, State::Sealed) => true,
        (State::Approved, State::Archived) => true,
        (State::Discarded, State::Archived) => true,
        _ => false,
    }
}

/// The states reachable in one step, in the order the library lists them.
pub open spec fn next_states(s: State) -> Seq<State> {
    match s {
        State::Draft => seq![State::Draft, State::Review, State::Discarded, State::Sealed, State::Archived],
        State::Review => seq![State::Review, State::Draft, State::Approved, State::Discarded, State::Sealed, State::Archived],
        State::Approved => seq![State::Approved, State::Sealed, State::Archived],
        State::Discarded => seq![State::Discarded, State::Archived],
        State::Sealed => seq![State::Sealed],
        State::Archived => seq![State::Archived],
    }
}

/// The lowercase name of a state.
pub open spec fn state_name(s: State) -> Seq<char> {
    match s {
        State::Draft => "draft"@,
        State::Review => "review"@,
        State::Approved => "approved"@,
        State::Discarded => "discarded"@,
        State::Sealed => "sealed"@,
        State::Archived => "archived"@,
    }
}

/// The name of a state as written in the source (what `Debug` prints).
pub open spec fn state_debug_name(s: State) -> Seq<char> {
    match s {
        State::Draft => "Draft"@,
        State::Review => "Review"@,
        State::Approved => "Approved"@,
        State::Discarded => "Discarded"@,
        State::Sealed => "Sealed"@,
        State::Archived => "Archived"@,
    }
}

/// The state named by an already lowercased name.
pub open spec fn state_from_lower(lower: Seq<char>) -> Option<State> {
    if lower == "draft"@ {
        Some(State::Draft)
    } else if lower == "review"@ {
        Some(State::Review)
    } else if lower == "approved"@ {
        Some(State::Approved)
    } else if lower == "discarded"@ {
        Some(State::Discarded)
    } else if lower == "sealed"@ {
        Some(State::Sealed)
    } else if lower == "archived"@ {
        Some(State::Archived)
    } else {
        None
    }
}

impl State {
    /// Whether moving from this state to `target` is a valid transition.
    pub fn can_transition_to(&self, target: &State) -> (r: bool)
        ensures
            r == transition_allowed(*self, *target),
    {
        match (self, target) {
            (State::Draft, State::Review) => true,
            (State::Draft, State::Discarded) => true,
            (State::Draft, State::Sealed) => true,
            (State::Draft, State::Archived) => true,
            (State::Review, State::Approved) => true,
            (State::Review, State::Draft) => true,
            (State::Review, State::Discarded) => true,
            (State::Review, State::Sealed) => true,
            (State::Review, State::Archived) => true,
            (State::Approved, State::Sealed) => true,
            (State::Approved, State::Archived) => true,
            (State::Discarded, State::Archived) => true,
            (a, b) if *a == *b => true,
            _ => false,
        }
    }

    /// All states reachable from this one in one step (itself included).
    pub fn valid_next_states(&self) -> (r: Vec<State>)
        ensures
            r@ == next_states(*self),
    {
        match self {
            State::Draft => vec![State::Draft, State::Review, State::Discarded, State::Sealed, State::Archived],
            State::Review => vec![State::Review, State::Draft, State::Approved, State::Discarded, State::Sealed, State::Archived],
            State::Approved => vec![State::Approved, State::Sealed, State::Archived],
            State::Discarded => vec![State::Discarded, State::Archived],
            State::Sealed => vec![State::Sealed],
            State::Archived => vec![State::Archived],
        }
    }

    /// The lowercase name of this state (what `Display` prints).
    pub fn to_string(&self) -> (r: String)
        ensures
            r@ == state_name(*self),
    {
        match self {
            State::Draft => string_of("draft"),
            State::Review => string_of("review"),
            State::Approved => string_of("approved"),
            State::Discarded => string_of("discarded"),
            State::Sealed => string_of("sealed"),
            State::Archived => string_of("archived"),
        }
    }

    /// The capitalised name of this state (what `Debug` prints).
    pub fn debug_name(&self) -> (r: String)
        ensures
            r@ == state_debug_name(*self),
    {
        match self {
            State::Draft => string_of("Draft"),
            State::Review => string_of("Review"),
            State::Approved => string_of("Approved"),
            State::Discarded => string_of("Discarded"),
            State::Sealed => string_of("Sealed"),
            State::Archived => string_of("Archived"),
        }
    }

    /// Parse a state name, ignoring case; the error names the rejected input.
    pub fn from_name(s: &str) -> (r: Result<State, String>)
        ensures
            state_from_lower(unicode_lowercase(s@)) matches Some(st) ==> r == Ok::<State, String>(st),
            state_from_lower(unicode_lowercase(s@)) is None ==> (r matches Err(e) && e@ == "Invalid state: "@ + s@),
    {
        let lower = to_lowercase(s);
        let lc = lower.as_str();
        if str_eq(lc, "draft") {
            Ok(State::Draft)
        } else if str_eq(lc, "review") {
            Ok(State::Review)
        } else if str_eq(lc, "approved") {
            Ok(State::Approved)
        } else if str_eq(lc, "discarded") {
            Ok(State::Discarded)
        } else if str_eq(lc, "sealed") {
            Ok(State::Sealed)
        } else if str_eq(lc, "archived") {
            Ok(State::Archived)
        } else {
            let mut msg = string_of("Invalid state: ");
            msg.append(s);
            Err(msg)
        }
    }
}

impl std::str::FromStr for State {
    type Err = String;

    fn from_str(s: &str) -> Result<State, String> {
        State::from_name(s)
    }
}

/// Every state may stay where it is.
pub proof fn lemma_self_transition(s: State)
    ensures
        transition_allowed(s, s),
{
}

/// Sealed and Archived are terminal: no transition leaves them.
pub proof fn lemma_terminal_states(s: State, t: State)
    requires
        s == State::Sealed || s == State::Archived,
        transition_allowed(s, t),
    ensures
        t == s,
{
}

/// The listed next states are exactly the allowed transitions.
pub proof fn lemma_next_states_agree(s: State, t: State)
    ensures
        next_states(s).contains(t) <==> transition_allowed(s, t),
{
    let ns = next_states(s);
    if transition_allowed(s, t) {
        match s {
            State::Draft => { assert(ns[0] == State::Draft && ns[1] == State::Review && ns[2] == State::Discarded && ns[3] == State::Sealed && ns[4] == State::Archived); }
            State::Review => { assert(ns[0] == State::Review && ns[1] == State::Draft && ns[2] == State::Approved && ns[3] == State::Discarded && ns[4] == State::Sealed && ns[5] == State::Archived); }
            State::Approved => { assert(ns[0] == State::Approved && ns[1] == State::Sealed && ns[2] == State::Archived); }
            State::Discarded => { assert(ns[0] == State::Discarded && ns[1] == State::Archived); }
            State::Sealed => { assert(ns[0] == State::Sealed); }
            State::Archived => { assert(ns[0] == State::Archived); }
        }
    }
}

/// Parsing the printed name of a state gives the state back.
pub proof fn lemma_name_roundtrip(s: State)
    ensures
        is_ascii_chars(state_name(s)),
        ascii_lowercase(state_name(s)) == state_name(s),
        state_from_lower(state_name(s)) == Some(s),
{
    reveal_strlit("draft");
    reveal_strlit("review");
    reveal_strlit("approved");
    reveal_strlit("discarded");
    reveal_strlit("sealed");
    reveal_strlit("archived");
    assert(ascii_lowercase(state_name(s)) =~= state_name(s));
    assert("draft"@ != "review"@ && "draft"@ != "approved"@ && "draft"@ != "discarded"@
        && "draft"@ != "sealed"@ && "draft"@ != "archived"@) by {
        assert("draft"@.len() == 5);
    }
    assert("review"@.len() == 6 && "approved"@.len() == 8 && "discarded"@.len() == 9
        && "archived"@.len() == 8 && "sealed"@.len() == 6);
    assert("review"@ != "approved"@ && "review"@ != "discarded"@ && "review"@ != "archived"@);
    assert("review"@ != "sealed"@) by {
        assert("review"@[0] != "sealed"@[0]);
    }
    assert("approved"@ != "discarded"@ && "approved"@ != "sealed"@) by {
        assert("approved"@[0] != "discarded"@[0]);
    }
    assert("approved"@ != "archived"@) by {
        assert("approved"@[1] != "archived"@[1]);
    }
    assert("discarded"@ != "sealed"@ && "discarded"@ != "archived"@);
    assert("sealed"@ != "archived"@);
}

} // verus!
