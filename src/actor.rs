//! The actor: it owns the current state of its component and records every
//! state transition in its hash chain, apply-or-nothing.
//!
//! The component itself runs outside this module. A caller holds the actor
//! under one exclusive lock for a whole transition: it reads the current state,
//! runs the component on it, and hands the outcome to `start` or `handle`,
//! which decide what is recorded.

use crate::chain::{ChainView, EntryView, HashChain, entry_hash, genesis_entry};
use crate::component::WasmComponentError;
use vstd::prelude::*;

verus! {

/// A failure of the actor.
#[derive(Debug, Clone, PartialEq, Eq)]
pub enum ActorError {
    /// The component's initializer failed.
    WasmInitError(String),
    /// The component's handler failed.
    WasmHandleError(String),
    /// A message could not be handled.
    HandleError(String),
    /// Reading the component or another input failed.
    IoError(String),
    /// The connection layer failed.
    ServerError(String),
    /// A validation hook of the component rejected the message or the state.
    ContractViolation(String),
    /// A message arrived before the actor was started.
    Uninitialized,
    /// The actor was started a second time.
    AlreadyStarted,
    /// The new state's entry hashes to a key that is already stored.
    KeyCollision,
    /// The component's bytes are unreadable or not a valid module.
    LoadError(String),
    /// A required export or import of the component cannot be resolved.
    LinkError(String),
}

impl ActorError {
    /// Whether the caller is at fault (a rejected message, or a message before
    /// the actor was started) rather than the component or the host.
    pub fn is_client_error(&self) -> (r: bool)
        ensures
            r <==> (self is ContractViolation || self is Uninitialized),
    {
        match self {
            ActorError::ContractViolation(_) => true,
            ActorError::Uninitialized => true,
            _ => false,
        }
    }
}

/// A message as the connection layer receives it.
#[derive(Debug, Clone, PartialEq, Eq)]
pub struct ActorMessage {
    pub from: String,
    pub content: String,
    pub state: String,
}

/// How an error of the component surfaces from the actor.
pub open spec fn actor_error_of(e: WasmComponentError) -> ActorError {
    match e {
        WasmComponentError::InitError(m) => ActorError::WasmInitError(m),
        WasmComponentError::HandleError(m) => ActorError::WasmHandleError(m),
        WasmComponentError::ContractViolation(m) => ActorError::ContractViolation(m),
    }
}

/// Maps an error of the component to the actor's error.
pub fn from_component_error(e: WasmComponentError) -> (r: ActorError)
    ensures
        r == actor_error_of(e),
{
    match e {
        WasmComponentError::InitError(m) => ActorError::WasmInitError(m),
        WasmComponentError::HandleError(m) => ActorError::WasmHandleError(m),
        WasmComponentError::ContractViolation(m) => ActorError::ContractViolation(m),
    }
}

/// An actor, as values.
pub struct ActorView {
    pub chain: ChainView,
    pub state: Option<Seq<char>>,
    pub name: Seq<char>,
    pub address: Seq<char>,
}

impl ActorView {
    /// The chain is intact and starts with its genesis entry, and the current
    /// state, once there is one, is the data of the head entry.
    pub open spec fn wf(self) -> bool {
        &&& self.chain.wf()
        &&& self.chain.intact()
        &&& self.chain.len() > 0
        &&& match self.state {
            Some(s) => self.chain.entries.last().data == s,
            None => true,
        }
    }

    /// The entry that a transition to state `s` appends.
    pub open spec fn next_entry(self, s: Seq<char>) -> EntryView {
        EntryView { parent: self.chain.head, data: s }
    }

    /// The actor after a recorded transition to state `s`.
    pub open spec fn advanced(self, s: Seq<char>) -> ActorView {
        ActorView {
            chain: self.chain.appended(entry_hash(self.next_entry(s)), self.next_entry(s)),
            state: Some(s),
            ..self
        }
    }
}

/// One actor: a name, an address, a hash chain and the component's current state.
pub struct Actor {
    hash_chain: HashChain,
    actor_name: String,
    address: String,
    current_state: Option<String>,
}

impl View for Actor {
    type V = ActorView;

    closed spec fn view(&self) -> ActorView {
        ActorView {
            chain: self.hash_chain@,
            state: match self.current_state {
                Some(s) => Some(s@),
                None => None,
            },
            name: self.actor_name@,
            address: self.address@,
        }
    }
}

impl Actor {
    /// A new, not yet started actor whose chain holds the genesis entry for the
    /// component with provenance digest `component_hash`.
    pub fn new(actor_name: String, address: String, component_hash: &str) -> (r: Actor)
        ensures
            r@.wf(),
            r@.chain == ChainView::empty().appended(
                entry_hash(genesis_entry(component_hash@)),
                genesis_entry(component_hash@),
            ),
            r@.state is None,
            r@.name == actor_name@,
            r@.address == address@,
    {
        let mut hash_chain = HashChain::new();
        let _genesis = hash_chain.initialize(component_hash);
        Actor { hash_chain, actor_name, address, current_state: None }
    }

    /// Records the component's initial state: `init_outcome` is what its
    /// initializer returned. On success returns the new head's key; on any
    /// failure nothing changes.
    pub fn start(&mut self, init_outcome: Result<String, WasmComponentError>) -> (r: Result<
        String,
        ActorError,
    >)
        requires
            old(self)@.wf(),
        ensures
            final(self)@.wf(),
            old(self)@.state is Some ==> r == Err::<String, ActorError>(ActorError::AlreadyStarted)
                && final(self)@ == old(self)@,
            old(self)@.state is None ==> match init_outcome {
                Err(e) => r == Err::<String, ActorError>(actor_error_of(e)) && final(self)@ == old(self)@,
                Ok(s) => if old(self)@.chain.has_key(entry_hash(old(self)@.next_entry(s@))) {
                    r == Err::<String, ActorError>(ActorError::KeyCollision) && final(self)@
                        == old(self)@
                } else {
                    &&& r matches Ok(h) && h@ == entry_hash(old(self)@.next_entry(s@))
                    &&& final(self)@ == old(self)@.advanced(s@)
                },
            },
    {
        if self.current_state.is_some() {
            return Err(ActorError::AlreadyStarted);
        }
        match init_outcome {
            Err(e) => Err(from_component_error(e)),
            Ok(s) => self.record(s),
        }
    }

    /// Appends `s` to the chain and makes it the current state, unless its entry
    /// collides with a stored key; then nothing changes.
    fn record(&mut self, s: String) -> (r: Result<String, ActorError>)
        requires
            old(self)@.wf(),
        ensures
            final(self)@.wf(),
            if old(self)@.chain.has_key(entry_hash(old(self)@.next_entry(s@))) {
                r == Err::<String, ActorError>(ActorError::KeyCollision) && final(self)@ == old(self)@
            } else {
                &&& r matches Ok(h) && h@ == entry_hash(old(self)@.next_entry(s@))
                &&& final(self)@ == old(self)@.advanced(s@)
            },
    {
        let before = self.hash_chain.len();
        let h = self.hash_chain.add(s.clone());
        if self.hash_chain.len() == before {
            return Err(ActorError::KeyCollision);
        }
        self.current_state = Some(s);
        Ok(h)
    }

    /// The current state, which the component is to be run on next.
    pub fn current_state(&self) -> (r: Result<String, ActorError>)
        ensures
            match self@.state {
                Some(s) => r matches Ok(t) && t@ == s,
                None => r == Err::<String, ActorError>(ActorError::Uninitialized),
            },
    {
        match &self.current_state {
            Some(s) => Ok(s.clone()),
            None => Err(ActorError::Uninitialized),
        }
    }

    /// Completes a transition: `outcome` is what the component's handler
    /// returned for the current state. On success the new state is appended to
    /// the chain and becomes current, and its key and the state are returned;
    /// on any failure the chain and the current state are left as they were.
    pub fn handle(&mut self, outcome: Result<String, WasmComponentError>) -> (r: Result<
        (String, String),
        ActorError,
    >)
        requires
            old(self)@.wf(),
        ensures
            final(self)@.wf(),
            old(self)@.state is None ==> r == Err::<(String, String), ActorError>(
                ActorError::Uninitialized,
            ) && final(self)@ == old(self)@,
            old(self)@.state is Some ==> match outcome {
                Err(e) => r == Err::<(String, String), ActorError>(actor_error_of(e)) && final(self)@ == old(self)@,
                Ok(s) => if old(self)@.chain.has_key(entry_hash(old(self)@.next_entry(s@))) {
                    r == Err::<(String, String), ActorError>(ActorError::KeyCollision) && final(self)@ == old(self)@
                } else {
                    &&& r matches Ok((h, t)) && h@ == entry_hash(old(self)@.next_entry(s@)) && t@
                        == s@
                    &&& final(self)@ == old(self)@.advanced(s@)
                },
            },
            r matches Ok((h, t)) ==> {
                &&& final(self)@.chain.head == Some(h@)
                &&& final(self)@.chain.len() == old(self)@.chain.len() + 1
                &&& final(self)@.state == Some(t@)
            },
            r is Err ==> final(self)@ == old(self)@,
    {
        if self.current_state.is_none() {
            return Err(ActorError::Uninitialized);
        }
        match outcome {
            Err(e) => Err(from_component_error(e)),
            Ok(s) => {
                let t = s.clone();
                match self.record(s) {
                    Ok(h) => Ok((h, t)),
                    Err(e) => Err(e),
                }
            },
        }
    }

    /// The keys of the chain's entries, from the genesis entry to the head.
    pub fn get_chain(&self) -> (r: Vec<String>)
        ensures
            r@.map_values(|s: String| s@) == self@.chain.keys,
    {
        self.hash_chain.hashes()
    }

    /// The key of the chain's head.
    pub fn get_last_hash(&self) -> (r: Option<&str>)
        ensures
            match r {
                Some(h) => self@.chain.head == Some(h@),
                None => self@.chain.head is None,
            },
    {
        self.hash_chain.get_head()
    }

    pub fn get_name(&self) -> (r: &str)
        ensures
            r@ == self@.name,
    {
        self.actor_name.as_str()
    }

    pub fn get_address(&self) -> (r: &str)
        ensures
            r@ == self@.address,
    {
        self.address.as_str()
    }

    /// The actor's hash chain, for reading.
    pub fn hash_chain(&self) -> (r: &HashChain)
        ensures
            r@ == self@.chain,
    {
        &self.hash_chain
    }
}

} // verus!
