//! The connection registry, the keep-alive worker decisions, and the
//! dispatcher's routing.
use serveros::connection::ConnEvent;
use serveros::connection::ConnState;
use serveros::connection::conn_step;
use serveros::error::ErrorCategory;
use serveros::error::ServerError;
use serveros::event::ServerEvent;
use serveros::registry::Registry;
use serveros::registry::TickerAction;
use serveros::response::HttpResponse;
use serveros::server::Flag;
use serveros::server::HandleAction;
use serveros::server::RouteTable;
use serveros::server::handle_outcome;
use serveros::server::respond_static;
use serveros::server::route_decision;
use serveros::status::HttpStatus;

#[test]
fn first_add_spawns_exactly_one_worker() {
    let mut registry = Registry::new();
    assert!(registry.add_stream(1));
    assert_eq!(registry.len(), 1);
}

#[test]
fn two_adds_on_an_empty_registry_spawn_one_worker() {
    let mut registry = Registry::new();
    let first_spawn = registry.add_stream(1);
    let second_spawn = registry.add_stream(2);
    assert!(first_spawn);
    assert!(!second_spawn);
    assert_eq!(registry.len(), 2);
}

#[test]
fn broadcast_keeps_only_successful_writes() {
    let mut registry = Registry::new();
    registry.add_stream(10);
    registry.add_stream(20);
    registry.add_stream(30);
    registry.apply_write_results(&vec![true, false, true]);
    assert_eq!(registry.len(), 2);
}

#[test]
fn successful_write_keeps_the_connection_registered() {
    let mut registry = Registry::new();
    registry.add_stream(7);
    let action = registry.worker_step(false, true, &vec![true]);
    assert_eq!(action, TickerAction::Broadcast);
    assert_eq!(registry.len(), 1);
}

#[test]
fn worker_idles_when_no_broadcast_is_due() {
    let mut registry = Registry::new();
    registry.add_stream(7);
    let action = registry.worker_step(false, false, &vec![true]);
    assert_eq!(action, TickerAction::Idle);
    assert_eq!(registry.len(), 1);
}

#[test]
fn worker_exits_within_one_quantum_of_the_last_removal() {
    let mut registry = Registry::new();
    registry.add_stream(7);
    // the peer went away: the keep-alive write fails
    let action = registry.worker_step(false, true, &vec![false]);
    assert_eq!(action, TickerAction::Exit);
    assert_eq!(registry.len(), 0);
    // a later add on the drained registry spawns a fresh worker
    assert!(registry.add_stream(8));
}

#[test]
fn broadcast_on_an_empty_registry_is_a_no_op() {
    let mut registry = Registry::new();
    registry.apply_write_results(&Vec::new());
    assert_eq!(registry.len(), 0);
    let action = registry.worker_step(false, true, &Vec::new());
    assert_eq!(action, TickerAction::Exit);
}

#[test]
fn worker_exits_on_a_stop_signal() {
    let mut registry = Registry::new();
    registry.add_stream(7);
    let action = registry.worker_step(true, true, &vec![true]);
    assert_eq!(action, TickerAction::Exit);
}

#[test]
fn routes_overwrite_and_look_up_exactly() {
    let mut table = RouteTable::new();
    let root = table.route("/");
    let info = table.route("/info");
    let root_again = table.route("/");
    assert_eq!(root, root_again);
    assert_ne!(root, info);
    assert_eq!(table.len(), 2);
    assert_eq!(table.lookup("/"), Some(root));
    assert_eq!(table.lookup("/info"), Some(info));
    assert_eq!(table.lookup("/missing"), None);
}

#[test]
fn registered_route_is_invoked_once_and_never_falls_through() {
    let mut table = RouteTable::new();
    let slot = table.route("/");
    let mut handlers_run = [0usize; 1];
    match route_decision(&table, "/") {
        Some(i) => {
            assert_eq!(i, slot);
            handlers_run[i] += 1;
        }
        None => panic!("a registered route must never fall through to a file"),
    }
    assert_eq!(handlers_run[slot], 1);
}

#[test]
fn unregistered_route_falls_through_to_static_files() {
    let mut table = RouteTable::new();
    table.route("/api");
    assert!(route_decision(&table, "/missing.html").is_none());
}

#[test]
fn missing_static_file_yields_a_404_response() {
    // GET /missing.html against a server with no such static file
    let mut table = RouteTable::new();
    assert!(route_decision(&table, "/missing.html").is_none());
    let not_found_doc = b"<html>not found</html>".to_vec();
    let mut response = respond_static(None, not_found_doc);
    assert_eq!(response.status.code(), 404);
    let bytes = response.prepare();
    let text = String::from_utf8(bytes).unwrap();
    assert!(text.contains(" 404 Not Found\r\n"));
    assert!(table.route("/later") == 0);
}

#[test]
fn resolved_static_file_yields_a_200_response() {
    let file = (b"body".to_vec(), "text/html; charset=utf-8".to_string());
    let response = respond_static(Some(file), Vec::new());
    assert_eq!(response.status.code(), 200);
    assert_eq!(response.body, Some(b"body".to_vec()));
}

#[test]
fn handler_outcomes_drive_the_dispatcher() {
    assert_eq!(handle_outcome(&Ok(Flag::StaticFile)), HandleAction::Done);
    assert_eq!(handle_outcome(&Ok(Flag::DynamicRoute)), HandleAction::Done);
    assert_eq!(
        handle_outcome(&Ok(Flag::EventStream)),
        HandleAction::AddToRegistry
    );
    assert_eq!(
        handle_outcome(&Err(ServerError::error("boom"))),
        HandleAction::Send404
    );
}

#[test]
fn promotion_then_broadcast_reaches_the_connection() {
    // promote: the response head announces an event stream
    let mut response = HttpResponse::new();
    let flag = response.start_event_stream().unwrap();
    assert_eq!(handle_outcome(&Ok(flag)), HandleAction::AddToRegistry);

    // the connection is handed to the registry
    let mut registry = Registry::new();
    let spawn = registry.add_stream(1);
    assert!(spawn);

    // broadcasting a data event produces exactly these bytes for the peer
    let event = ServerEvent::data("hello");
    assert_eq!(event.to_bytes(), b"data: hello\n\n".to_vec());

    // the write succeeded, so the connection stays registered
    registry.apply_write_results(&vec![true]);
    assert_eq!(registry.len(), 1);
}

#[test]
fn connection_lifecycle_follows_the_state_machine() {
    let s = ConnState::Accepted;
    let s = conn_step(s, ConnEvent::ReadHeaders).unwrap();
    assert_eq!(s, ConnState::HeadersRead);
    let s = conn_step(s, ConnEvent::Route).unwrap();
    assert_eq!(s, ConnState::Routed);

    // an ordinary response closes the connection
    let responded = conn_step(s, ConnEvent::Respond).unwrap();
    assert_eq!(
        conn_step(responded, ConnEvent::Close),
        Some(ConnState::Closed)
    );

    // a promoted connection lives until a write fails
    let promoted = conn_step(s, ConnEvent::Promote).unwrap();
    assert_eq!(promoted, ConnState::Promoted);
    assert_eq!(
        conn_step(promoted, ConnEvent::WriteFailed),
        Some(ConnState::Closed)
    );

    // closed is terminal
    assert_eq!(conn_step(ConnState::Closed, ConnEvent::ReadHeaders), None);
}

#[test]
fn error_constructors_carry_their_category() {
    assert_eq!(
        ServerError::file_not_found("a").kind,
        ErrorCategory::NotFound
    );
    assert_eq!(
        ServerError::failed_to_read_file("b").kind,
        ErrorCategory::InvalidInput
    );
    assert_eq!(ServerError::error("c").kind, ErrorCategory::Other);
    assert_eq!(ServerError::error("c").message, "c");
}
