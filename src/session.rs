//! Session tokens and the stores that map them to game states and to
//! authenticated administrators.
use vstd::prelude::*;
use std::collections::{HashMap, HashSet};
use uuid::Uuid;
use crate::game::GameState;

verus! {

broadcast use vstd::std_specs::hash::group_hash_axioms;

/// An opaque identifier of one session: 128 random bits.
#[derive(Debug, Clone, Copy, PartialEq, Eq, Structural, Hash, PartialOrd, Ord)]
pub struct SessionToken(pub u128);

#[derive(Debug, Clone, Copy, PartialEq, Eq, Structural)]
pub enum SessionError {
    /// No session with this token: unknown, expired or ended.
    Unauthenticated,
    /// The store cannot be reached.
    StoreUnavailable,
}

/// Relies on `Uuid::new_v4` and `Uuid::as_u128` (uuid): 128 bits from the
/// operating system's random source, as a version 4 UUID.
#[verifier::external_body]
fn random_token_bits() -> u128 {
    Uuid::new_v4().as_u128()
}

/// Name of the cookie that carries the session token.
pub const SESSION_COOKIE: &'static str = "session";

/// The text form of the UUID with the 128 bits `v`.
pub uninterp spec fn uuid_text(v: u128) -> Seq<char>;

/// The 128 bits of the UUID written in `s`; `None` where `s` is no UUID.
pub uninterp spec fn uuid_parsed(s: Seq<char>) -> Option<u128>;

/// Relies on `Uuid::from_u128` and uuid's `Display`: the hyphenated lower-case
/// form of the UUID with these bits.
#[verifier::external_body]
fn uuid_to_text(v: u128) -> (r: String)
    ensures
        r@ == uuid_text(v),
{
    Uuid::from_u128(v).to_string()
}

/// Relies on `Uuid::parse_str` and `Uuid::as_u128`: the bits of the UUID
/// written in `s`, in any of the forms that uuid reads.
#[verifier::external_body]
fn uuid_from_text(s: &str) -> (r: Option<u128>)
    ensures
        r == uuid_parsed(s@),
{
    Uuid::parse_str(s).ok().map(|u| u.as_u128())
}

impl SessionToken {
    /// The value of the session cookie for this token.
    pub fn cookie_value(&self) -> (r: String)
        ensures
            r@ == uuid_text(self.0),
    {
        uuid_to_text(self.0)
    }

    /// The token that a session cookie carries; `None` when the value is no UUID.
    pub fn from_cookie(value: &str) -> (r: Option<SessionToken>)
        ensures
            r == match uuid_parsed(value@) {
                Some(v) => Some(SessionToken(v)),
                None => None::<SessionToken>,
            },
    {
        match uuid_from_text(value) {
            Some(v) => Some(SessionToken(v)),
            None => None,
        }
    }
}

/// What looking up `token` in `states` gives.
pub open spec fn lookup(states: Map<u128, GameState>, token: SessionToken) -> Result<GameState, SessionError> {
    if states.contains_key(token.0) {
        Ok(states[token.0])
    } else {
        Err(SessionError::Unauthenticated)
    }
}

/// The game states of all live sessions, by token.
#[derive(Debug)]
pub struct SessionStore {
    states: HashMap<u128, GameState>,
}

impl View for SessionStore {
    type V = Map<u128, GameState>;

    closed spec fn view(&self) -> Map<u128, GameState> {
        self.states@
    }
}

impl SessionStore {
    pub fn new() -> (r: SessionStore)
        ensures
            r@ == Map::<u128, GameState>::empty(),
    {
        SessionStore { states: HashMap::new() }
    }

    pub fn contains(&self, token: SessionToken) -> (r: bool)
        ensures
            r == self@.contains_key(token.0),
    {
        self.states.contains_key(&token.0)
    }

    /// A token that no session of the store holds. It is drawn at random; in
    /// the unlikely event that it is taken, the smallest free number is used.
    /// Nothing is inserted yet.
    pub fn create(&self) -> (r: SessionToken)
        ensures
            !self@.contains_key(r.0),
    {
        let drawn = random_token_bits();
        if !self.states.contains_key(&drawn) {
            return SessionToken(drawn);
        }
        let n = self.states.len();
        let mut candidate: u128 = 0;
        let ghost mut taken: Set<u128> = Set::empty();
        while candidate <= n as u128
            invariant
                n == self@.len(),
                candidate <= n as u128 + 1,
                taken.finite(),
                taken.len() == candidate,
                taken.subset_of(self@.dom()),
                forall|k: u128| #[trigger] taken.contains(k) <==> k < candidate,
            decreases n as u128 + 1 - candidate,
        {
            if !self.states.contains_key(&candidate) {
                return SessionToken(candidate);
            }
            proof {
                assert(!taken.contains(candidate));
                taken = taken.insert(candidate);
            }
            candidate = candidate + 1;
        }
        proof {
            vstd::set_lib::lemma_len_subset(taken, self@.dom());
            assert(false);
        }
        SessionToken(0)
    }

    /// Sets the game state of `token`, replacing any earlier one.
    pub fn insert(&mut self, token: SessionToken, state: GameState)
        ensures
            final(self)@ == old(self)@.insert(token.0, state),
    {
        self.states.insert(token.0, state);
    }

    /// Runs `f` on the game state of `token` and returns what it returns, with
    /// the state that `f` leaves behind stored in its place.
    /// `Unauthenticated` when the store has no session with this token.
    pub fn with_state<R, F: FnOnce(GameState) -> (GameState, R)>(&mut self, token: SessionToken, f: F) -> (r: Result<R, SessionError>)
        requires
            old(self)@.contains_key(token.0) ==> f.requires((old(self)@[token.0],)),
        ensures
            lookup(old(self)@, token) is Err ==> r is Err && r->Err_0 == lookup(old(self)@, token)->Err_0
                && final(self)@ == old(self)@,
            old(self)@.contains_key(token.0) ==> r is Ok && exists|after: GameState|
                #[trigger] f.ensures((old(self)@[token.0],), (after, r->Ok_0))
                && final(self)@ == old(self)@.insert(token.0, after),
    {
        let ghost before = self@;
        match self.states.remove(&token.0) {
            None => Err(SessionError::Unauthenticated),
            Some(state) => {
                let (after, result) = f(state);
                self.states.insert(token.0, after);
                assert(self@ =~= before.insert(token.0, after));
                let r: Result<R, SessionError> = Ok(result);
                assert(f.ensures((before[token.0],), (after, r->Ok_0)));
                r
            },
        }
    }

    /// Detaches and returns the game state of `token`, ending its session.
    /// `Unauthenticated` when the store has no session with this token.
    pub fn remove(&mut self, token: SessionToken) -> (r: Result<GameState, SessionError>)
        ensures
            final(self)@ == old(self)@.remove(token.0),
            r == lookup(old(self)@, token),
    {
        match self.states.remove(&token.0) {
            None => Err(SessionError::Unauthenticated),
            Some(state) => Ok(state),
        }
    }

    /// Number of live sessions.
    pub fn len(&self) -> (r: usize)
        ensures
            r == self@.len(),
    {
        self.states.len()
    }
}

/// Once a session is removed, looking it up is refused with `Unauthenticated`,
/// so `with_state` on its token fails that way and changes nothing.
pub proof fn removal_ends_session(states: Map<u128, GameState>, token: SessionToken)
    ensures
        lookup(states.remove(token.0), token) == Err::<GameState, SessionError>(SessionError::Unauthenticated),
{
}

/// The tokens of the sessions whose holder has logged in as administrator.
#[derive(Debug)]
pub struct AdminSessionStore {
    tokens: HashSet<u128>,
}

impl View for AdminSessionStore {
    type V = Set<u128>;

    closed spec fn view(&self) -> Set<u128> {
        self.tokens@
    }
}

impl AdminSessionStore {
    pub fn new() -> (r: AdminSessionStore)
        ensures
            r@ == Set::<u128>::empty(),
    {
        AdminSessionStore { tokens: HashSet::new() }
    }

    pub fn insert(&mut self, token: SessionToken)
        ensures
            final(self)@ == old(self)@.insert(token.0),
    {
        self.tokens.insert(token.0);
    }

    pub fn contains(&self, token: SessionToken) -> (r: bool)
        ensures
            r == self@.contains(token.0),
    {
        self.tokens.contains(&token.0)
    }
}

} // verus!
