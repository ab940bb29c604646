use runtime::actor::{from_component_error, Actor, ActorError, ActorMessage};
use runtime::component::{check_contract, WasmComponentError};

const G: &str = "8b01f5c667a534957cb2a3cef902193549e22d95d6445ab1418ed6272fc634b2";
const H1: &str = "82af21564342c46c15e4108d99336b0178d718545e3e84850924b20fb659afc1";
const H2: &str = "9a16deb5784b225ca8a559db2da85584d43c3686cb90e1435988724768bbc014";

fn started() -> Actor {
    let mut actor = Actor::new(
        "actor1".to_string(),
        "127.0.0.1:8080".to_string(),
        "component-digest-abc",
    );
    assert_eq!(actor.start(Ok("{\"count\":0}".to_string())), Ok(H1.to_string()));
    actor
}

#[test]
fn new_actor_holds_genesis_only() {
    let actor = Actor::new(
        "actor1".to_string(),
        "127.0.0.1:8080".to_string(),
        "component-digest-abc",
    );
    assert_eq!(actor.get_name(), "actor1");
    assert_eq!(actor.get_address(), "127.0.0.1:8080");
    assert_eq!(actor.get_chain(), vec![G.to_string()]);
    assert_eq!(actor.get_last_hash(), Some(G));
    assert_eq!(actor.current_state(), Err(ActorError::Uninitialized));
}

#[test]
fn handle_before_start_is_uninitialized() {
    let mut actor = Actor::new("a".to_string(), "addr".to_string(), "component-digest-abc");
    assert_eq!(
        actor.handle(Ok("{\"count\":1}".to_string())),
        Err(ActorError::Uninitialized)
    );
    assert_eq!(actor.get_chain().len(), 1);
}

#[test]
fn start_records_initial_state() {
    let actor = started();
    assert_eq!(actor.current_state(), Ok("{\"count\":0}".to_string()));
    assert_eq!(actor.get_last_hash(), Some(H1));
    assert_eq!(actor.get_chain(), vec![G.to_string(), H1.to_string()]);
    assert!(actor.hash_chain().verify());
}

#[test]
fn start_twice_fails() {
    let mut actor = started();
    assert_eq!(
        actor.start(Ok("{\"count\":5}".to_string())),
        Err(ActorError::AlreadyStarted)
    );
    assert_eq!(actor.get_last_hash(), Some(H1));
}

#[test]
fn failed_init_leaves_actor_unstarted() {
    let mut actor = Actor::new("a".to_string(), "addr".to_string(), "component-digest-abc");
    assert_eq!(
        actor.start(Err(WasmComponentError::InitError("trap".to_string()))),
        Err(ActorError::WasmInitError("trap".to_string()))
    );
    assert_eq!(actor.current_state(), Err(ActorError::Uninitialized));
    assert_eq!(actor.get_last_hash(), Some(G));
}

#[test]
fn successful_handle_advances_head_and_state() {
    let mut actor = started();
    let before = actor.get_chain().len();
    let (h, s) = actor.handle(Ok("{\"count\":1}".to_string())).unwrap();
    assert_eq!(h, H2);
    assert_eq!(s, "{\"count\":1}");
    assert_eq!(actor.get_last_hash(), Some(h.as_str()));
    assert_eq!(actor.get_chain().len(), before + 1);
    assert_eq!(actor.current_state(), Ok(s));
    assert!(actor.hash_chain().verify());
}

#[test]
fn trapping_handler_changes_nothing() {
    let mut actor = started();
    for _ in 0..3 {
        let head = actor.get_last_hash().map(|h| h.to_string());
        let len = actor.get_chain().len();
        let r = actor.handle(Err(WasmComponentError::HandleError("trap".to_string())));
        assert_eq!(r, Err(ActorError::WasmHandleError("trap".to_string())));
        assert_eq!(actor.get_last_hash().map(|h| h.to_string()), head);
        assert_eq!(actor.get_chain().len(), len);
        assert_eq!(actor.current_state(), Ok("{\"count\":0}".to_string()));
    }
}

#[test]
fn rejected_contract_changes_nothing() {
    let mut actor = started();
    let verdict = check_contract(Some(false), Some(true));
    let r = actor.handle(verdict.map(|_| String::new()));
    assert!(matches!(r, Err(ActorError::ContractViolation(_))));
    assert_eq!(actor.get_last_hash(), Some(H1));
}

#[test]
fn repeated_state_is_a_new_entry() {
    let mut actor = started();
    let (h2, _) = actor.handle(Ok("{\"count\":0}".to_string())).unwrap();
    assert_ne!(h2, H1);
    assert_eq!(actor.get_chain().len(), 3);
}

#[test]
fn contract_check_outcomes() {
    assert_eq!(check_contract(None, None), Ok(()));
    assert_eq!(check_contract(Some(true), Some(true)), Ok(()));
    assert_eq!(check_contract(Some(true), None), Ok(()));
    assert!(matches!(
        check_contract(Some(false), None),
        Err(WasmComponentError::ContractViolation(_))
    ));
    assert!(matches!(
        check_contract(None, Some(false)),
        Err(WasmComponentError::ContractViolation(_))
    ));
}

#[test]
fn component_errors_map_to_actor_errors() {
    assert_eq!(
        from_component_error(WasmComponentError::InitError("x".to_string())),
        ActorError::WasmInitError("x".to_string())
    );
    assert_eq!(
        from_component_error(WasmComponentError::HandleError("y".to_string())),
        ActorError::WasmHandleError("y".to_string())
    );
    assert_eq!(
        from_component_error(WasmComponentError::ContractViolation("z".to_string())),
        ActorError::ContractViolation("z".to_string())
    );
}

#[test]
fn message_fields() {
    let m = ActorMessage {
        from: "a".to_string(),
        content: "hi".to_string(),
        state: "{}".to_string(),
    };
    assert_eq!(m.clone(), m);
    assert_ne!(ActorError::LoadError("x".to_string()), ActorError::LinkError("x".to_string()));
}

#[test]
fn client_errors_are_rejections_and_early_messages() {
    assert!(ActorError::ContractViolation("no".to_string()).is_client_error());
    assert!(ActorError::Uninitialized.is_client_error());
    assert!(!ActorError::WasmHandleError("trap".to_string()).is_client_error());
    assert!(!ActorError::KeyCollision.is_client_error());
    assert!(!ActorError::LoadError("bad".to_string()).is_client_error());
}
