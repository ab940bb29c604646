//! What the core needs to know of the sandboxed component: its errors, and
//! the decision that its optional validation hooks make before a message may
//! enter it.

use vstd::prelude::*;

verus! {

/// A failure of the component.
#[derive(Debug, Clone, PartialEq, Eq)]
pub enum WasmComponentError {
    /// The initializer trapped or returned a malformed state.
    InitError(String),
    /// The handler trapped or returned a malformed state.
    HandleError(String),
    /// A validation hook of the component rejected the message or the state.
    ContractViolation(String),
}

/// Whether a message may be handed to the component, given the answers of its
/// validation hooks: `message_ok` from `validateMessage`, `state_ok` from
/// `validateState`, each `None` where the component exports no such hook.
pub fn check_contract(message_ok: Option<bool>, state_ok: Option<bool>) -> (r: Result<
    (),
    WasmComponentError,
>)
    ensures
        r is Ok <==> (message_ok != Some(false) && state_ok != Some(false)),
        r is Err ==> r matches Err(WasmComponentError::ContractViolation(_)),
{
    if message_ok == Some(false) {
        Err(WasmComponentError::ContractViolation("the component rejected the message".to_owned()))
    } else if state_ok == Some(false) {
        Err(WasmComponentError::ContractViolation("the component rejected the state".to_owned()))
    } else {
        Ok(())
    }
}

} // verus!
