//! End-to-end checks of the catalog, the text primitives, the navigator,
//! the request pipeline, the session cache and the dispatch step, on
//! concrete values.

use openapi_tui::action::{Action, EventResponse, Key};
use openapi_tui::app::App;
use openapi_tui::openapi::{In, ParameterInfo, ResponseInfo, Server, ServerVariable};
use openapi_tui::phone::Phone;
use openapi_tui::response::Response;
use openapi_tui::schema::{render, SchemaValue};
use openapi_tui::schema_viewer::SchemaViewer;
use openapi_tui::state::{InputMode, OperationItem, OperationItemType, State};
use openapi_tui::text;

fn simple_op(path: &str, method: &str, id: Option<&str>, tags: &[&str]) -> OperationItem {
    OperationItem::new(
        path.to_string(),
        method.to_string(),
        id.map(|s| s.to_string()),
        None,
        tags.iter().map(|s| s.to_string()).collect(),
        Vec::new(),
        Vec::new(),
        Vec::new(),
    )
}

fn pets_state() -> State {
    let ops = vec![
        simple_op("/pets", "GET", Some("listPets"), &["pets"]),
        simple_op("/pets/{id}", "GET", Some("getPet"), &["pets"]),
        simple_op("/owners", "GET", Some("listOwners"), &["owners"]),
        simple_op("/stores", "GET", Some("listStores"), &[]),
        simple_op("/orders", "POST", Some("createOrder"), &["orders"]),
    ];
    State::new(
        "petstore.yaml".to_string(),
        ops,
        Vec::new(),
        vec!["pets".to_string(), "owners".to_string()],
        Vec::new(),
    )
}

#[test]
fn contains_and_prefix() {
    assert!(text::str_contains("hello world", "lo wo"));
    assert!(!text::str_contains("hello", "world"));
    assert!(text::str_contains("anything", ""));
    assert!(text::str_starts_with("/pets", "/"));
    assert!(!text::str_starts_with("pets", "/"));
}

#[test]
fn replace_and_trim() {
    assert_eq!(text::str_replace("/pets/{id}/toys/{id}", "{id}", "7"), "/pets/7/toys/7");
    assert_eq!(text::str_replace("abc", "{x}", "y"), "abc");
    assert_eq!(text::str_trim_trailing("http://localhost///", '/'), "http://localhost");
    assert_eq!(text::str_trim_trailing("///", '/'), "");
}

#[test]
fn word_splitting() {
    let words = text::split_words("  query   add  token ");
    assert_eq!(words, vec!["query".to_string(), "add".to_string(), "token".to_string()]);
    let empty = text::split_words("   ");
    assert_eq!(empty.len(), 0);
}

#[test]
fn webhook_classification() {
    let path_op = simple_op("/pets", "GET", None, &[]);
    assert!(matches!(path_op.kind, OperationItemType::Path));
    let hook_op = simple_op("petArrived", "POST", None, &[]);
    assert!(matches!(hook_op.kind, OperationItemType::Webhook));
}

#[test]
fn tag_membership() {
    let op = simple_op("/pets", "GET", None, &["pets", "animals"]);
    assert!(op.has_tag(&"pets".to_string()));
    assert!(!op.has_tag(&"stores".to_string()));
}

#[test]
fn filter_narrows_visible_operations() {
    let mut state = pets_state();
    assert_eq!(state.operations_len(), 5);
    state.set_filter("pets".to_string());
    assert_eq!(state.operations_len(), 2);
    assert_eq!(state.active_operation_index, 0);
    let active = state.active_operation().expect("an operation should be visible");
    assert_eq!(active.path, "/pets");
}

#[test]
fn filter_cycle_returns_to_start() {
    let mut state = pets_state();
    state.set_filter("pets".to_string());
    assert_eq!(state.operations_len(), 2);
    state.next_operation();
    assert_eq!(state.active_operation_index, 1);
    state.next_operation();
    assert_eq!(state.active_operation_index, 0);
}

#[test]
fn prev_undoes_next() {
    let mut state = pets_state();
    state.next_operation();
    state.prev_operation();
    assert_eq!(state.active_operation_index, 0);
    state.prev_operation();
    assert_eq!(state.active_operation_index, 4);
    state.next_operation();
    assert_eq!(state.active_operation_index, 0);
}

#[test]
fn tag_filter_combines_with_text_filter() {
    let mut state = pets_state();
    state.set_tag(Some("pets".to_string()));
    assert_eq!(state.operations_len(), 2);
    state.set_filter("{id}".to_string());
    assert_eq!(state.operations_len(), 1);
    let active = state.active_operation().expect("one operation left");
    assert_eq!(active.path, "/pets/{id}");
    state.set_tag(None);
    assert_eq!(state.operations_len(), 1);
}

#[test]
fn lookup_by_identifier() {
    let state = pets_state();
    let found = state.get_operation(Some("createOrder".to_string()));
    assert_eq!(found.expect("known id").method, "POST");
    assert!(state.get_operation(Some("missing".to_string())).is_none());
}

#[test]
fn empty_catalog_reports_no_active_operation() {
    let mut state = pets_state();
    state.set_filter("no-such-path".to_string());
    assert_eq!(state.operations_len(), 0);
    assert!(state.active_operation().is_none());
}

#[test]
fn server_url_defaults() {
    let mut server = Server::new("https://{host}/v1/".to_string());
    server.variables = Some(vec![(
        "host".to_string(),
        ServerVariable::new("api.example.com".to_string()),
    )]);
    assert_eq!(State::default_url(&server), "https://api.example.com/v1");
    let mut state = pets_state();
    state.servers = vec![server];
    let urls = state.default_server_urls(&None, &None);
    assert_eq!(urls, vec!["https://api.example.com/v1".to_string()]);
    state.servers = Vec::new();
    let fallback = state.default_server_urls(&None, &None);
    assert_eq!(fallback, vec!["http://localhost".to_string()]);
}

#[test]
fn response_store_overwrites() {
    let mut state = pets_state();
    let first = Response {
        status: 200,
        version: "HTTP/1.1".to_string(),
        headers: Vec::new(),
        content_length: Some(2),
        body: "ok".to_string(),
    };
    let second = Response {
        status: 404,
        version: "HTTP/1.1".to_string(),
        headers: Vec::new(),
        content_length: None,
        body: "gone".to_string(),
    };
    state.insert_response("getPet".to_string(), first);
    state.insert_response("getPet".to_string(), second);
    assert_eq!(state.responses.len(), 1);
    let kept = state.get_response("getPet").expect("a record");
    assert_eq!(kept.status, 404);
    assert_eq!(kept.body, "gone");
    assert!(state.get_response("listPets").is_none());
}

fn pet_components() -> Vec<(String, SchemaValue)> {
    let owner = SchemaValue::Object(vec![(
        "name".to_string(),
        SchemaValue::Scalar("string".to_string()),
    )]);
    vec![("Owner".to_string(), owner)]
}

fn pet_schema() -> SchemaValue {
    SchemaValue::Object(vec![(
        "owner".to_string(),
        SchemaValue::Object(vec![(
            "$ref".to_string(),
            SchemaValue::Scalar("#/components/schemas/Owner".to_string()),
        )]),
    )])
}

#[test]
fn drill_into_reference_and_back() {
    let mut viewer = SchemaViewer::new();
    viewer.set_components(&pet_components());
    let pet = pet_schema();
    viewer.set(&pet);
    let pet_lines: Vec<Vec<String>> =
        viewer.lines.iter().map(|l| l.tokens.clone()).collect();
    assert_eq!(pet_lines[0], vec!["owner".to_string()]);
    assert_eq!(
        pet_lines[1],
        vec!["$ref".to_string(), "#/components/schemas/Owner".to_string()]
    );
    viewer.down();
    assert_eq!(viewer.line_offset, 1);
    viewer.go();
    assert_eq!(viewer.schema_path(), vec!["Owner".to_string()]);
    let owner_lines: Vec<Vec<String>> =
        viewer.lines.iter().map(|l| l.tokens.clone()).collect();
    assert_eq!(owner_lines, vec![vec!["name".to_string(), "string".to_string()]]);
    assert_eq!(viewer.line_offset, 0);
    viewer.back(render(&pet));
    assert_eq!(viewer.schema_path().len(), 0);
    assert_eq!(viewer.line_offset, 1);
    let restored: Vec<Vec<String>> =
        viewer.lines.iter().map(|l| l.tokens.clone()).collect();
    assert_eq!(restored, pet_lines);
}

#[test]
fn unresolved_reference_is_ignored() {
    let mut viewer = SchemaViewer::new();
    let pet = SchemaValue::Object(vec![(
        "$ref".to_string(),
        SchemaValue::Scalar("#/components/schemas/Missing".to_string()),
    )]);
    viewer.set(&pet);
    viewer.go();
    assert_eq!(viewer.schema_path().len(), 0);
    assert_eq!(viewer.line_offset, 0);
}

#[test]
fn cursor_clamps_at_both_ends() {
    let mut viewer = SchemaViewer::new();
    let two_lines = SchemaValue::Object(vec![
        ("a".to_string(), SchemaValue::Scalar("1".to_string())),
        ("b".to_string(), SchemaValue::Scalar("2".to_string())),
    ]);
    viewer.set(&two_lines);
    viewer.up();
    assert_eq!(viewer.line_offset, 0);
    viewer.down();
    viewer.down();
    viewer.down();
    assert_eq!(viewer.line_offset, 1);
}

fn pets_get_op() -> OperationItem {
    OperationItem::new(
        "/pets/{id}".to_string(),
        "GET".to_string(),
        Some("getPet".to_string()),
        None,
        vec!["pets".to_string()],
        vec![
            ParameterInfo {
                name: "id".to_string(),
                location: In::Path,
                required: true,
                default_value: Some("7".to_string()),
                schema: None,
            },
            ParameterInfo {
                name: "limit".to_string(),
                location: In::Query,
                required: false,
                default_value: None,
                schema: None,
            },
        ],
        Vec::new(),
        Vec::new(),
    )
}

#[test]
fn built_url_substitutes_path_and_omits_unset_query() {
    let op = pets_get_op();
    let phone = Phone::new(&op, vec!["http://api.test".to_string()]);
    let built = phone.build_request();
    assert_eq!(built.method, "GET");
    assert_eq!(built.url, "http://api.test/pets/7");
    assert!(built.query.iter().all(|(name, _)| name != "limit"));
    assert!(built.body.is_none());
}

#[test]
fn required_unset_query_is_sent_empty() {
    let op = OperationItem::new(
        "/search".to_string(),
        "GET".to_string(),
        None,
        None,
        Vec::new(),
        vec![ParameterInfo {
            name: "q".to_string(),
            location: In::Query,
            required: true,
            default_value: None,
            schema: None,
        }],
        Vec::new(),
        Vec::new(),
    );
    let phone = Phone::new(&op, Vec::new());
    let built = phone.build_request();
    assert_eq!(built.query, vec![("q".to_string(), "".to_string())]);
}

#[test]
fn post_body_carries_content_type_and_text() {
    let op = OperationItem::new(
        "/orders".to_string(),
        "POST".to_string(),
        Some("createOrder".to_string()),
        None,
        Vec::new(),
        Vec::new(),
        vec![("application/json".to_string(), None)],
        vec![ResponseInfo {
            status: "200".to_string(),
            media_type: "application/json".to_string(),
            schema: SchemaValue::Scalar("object".to_string()),
        }],
    );
    let mut phone = Phone::new(&op, vec!["http://api.test".to_string()]);
    phone.body.set_text("{\"name\":\"rex\"}".to_string());
    let built = phone.build_request();
    assert_eq!(built.method, "POST");
    assert_eq!(built.url, "http://api.test/orders");
    assert!(built
        .headers
        .contains(&("content-type".to_string(), "application/json".to_string())));
    assert!(built
        .headers
        .contains(&("accept".to_string(), "application/json".to_string())));
    assert_eq!(built.body, Some("{\"name\":\"rex\"}".to_string()));
}

#[test]
fn identical_drafts_build_identical_requests() {
    let op = pets_get_op();
    let a = Phone::new(&op, vec!["http://api.test".to_string()]);
    let mut b = Phone::new(&op, vec!["http://api.test".to_string()]);
    // focus and fullscreen differences do not matter
    b.focused_pane_index = 3;
    b.fullscreen_pane_index = Some(2);
    let ra = a.build_request();
    let rb = b.build_request();
    assert_eq!(ra.method, rb.method);
    assert_eq!(ra.url, rb.url);
    assert_eq!(ra.query, rb.query);
    assert_eq!(ra.headers, rb.headers);
    assert_eq!(ra.body, rb.body);
}

#[test]
fn editing_a_parameter_through_keys() {
    let op = pets_get_op();
    let mut state = pets_state();
    let mut phone = Phone::new(&op, vec!["http://api.test".to_string()]);
    // enter insert mode on the focused parameter editor
    phone.update(&Action::Submit, &mut state);
    assert_eq!(state.input_mode, InputMode::Insert);
    phone.handle_key(Key::Backspace, &state);
    phone.handle_key(Key::Char('9'), &state);
    // commit
    phone.update(&Action::Submit, &mut state);
    assert_eq!(state.input_mode, InputMode::Normal);
    let built = phone.build_request();
    assert_eq!(built.url, "http://api.test/pets/9");
}

#[test]
fn footer_commands_parse() {
    let op = pets_get_op();
    let phone = Phone::new(&op, Vec::new());
    assert!(matches!(phone.handle_commands(&"q".to_string()), Some(Action::Quit)));
    assert!(matches!(phone.handle_commands(&"send".to_string()), Some(Action::Dial)));
    match phone.handle_commands(&"query add token".to_string()) {
        Some(Action::AddQuery(name)) => assert_eq!(name, "token"),
        other => panic!("unexpected parse: {:?}", other),
    }
    match phone.handle_commands(&"header rm x-trace".to_string()) {
        Some(Action::RemoveHeader(name)) => assert_eq!(name, "x-trace"),
        other => panic!("unexpected parse: {:?}", other),
    }
    match phone.handle_commands(&"request open body.json".to_string()) {
        Some(Action::OpenRequestPayload(p)) => assert_eq!(p, "body.json"),
        other => panic!("unexpected parse: {:?}", other),
    }
    match phone.handle_commands(&"s save out.json".to_string()) {
        Some(Action::SaveResponsePayload(p)) => assert_eq!(p, "out.json"),
        other => panic!("unexpected parse: {:?}", other),
    }
    assert!(matches!(
        phone.handle_commands(&"frobnicate".to_string()),
        Some(Action::TimedStatusLine(_, 3))
    ));
}

fn app_with_call() -> App {
    let ops = vec![
        simple_op("/pets", "GET", Some("listPets"), &["pets"]),
        simple_op("/pets/{id}", "GET", Some("getPet"), &["pets"]),
    ];
    let state = State::new(
        "petstore.yaml".to_string(),
        ops,
        Vec::new(),
        Vec::new(),
        Vec::new(),
    );
    let mut app = App::new(state, None);
    app.new_call(&Some("getPet".to_string()));
    assert_eq!(app.calls.len(), 1);
    app
}

#[test]
fn hang_up_then_new_call_restores_the_session() {
    let mut app = app_with_call();
    app.calls[0].body.set_text("draft in progress".to_string());
    app.state.insert_response(
        "getPet".to_string(),
        Response {
            status: 200,
            version: "HTTP/1.1".to_string(),
            headers: vec![("content-type".to_string(), "application/json".to_string())],
            content_length: Some(2),
            body: "{}".to_string(),
        },
    );
    app.hang_up(&Some("getPet".to_string()));
    assert_eq!(app.calls.len(), 0);
    assert_eq!(app.history.len(), 1);
    app.new_call(&Some("getPet".to_string()));
    assert_eq!(app.calls.len(), 1);
    assert_eq!(app.history.len(), 0);
    assert_eq!(app.calls[0].body.text, "draft in progress");
    let kept = app.state.get_response("getPet").expect("record survives");
    assert_eq!(kept.status, 200);
    assert_eq!(kept.body, "{}");
}

#[test]
fn hang_up_without_identifier_discards() {
    let mut app = app_with_call();
    app.hang_up(&None);
    assert_eq!(app.calls.len(), 0);
    assert_eq!(app.history.len(), 0);
}

#[test]
fn new_call_ignores_webhooks_and_unknown_ids() {
    let ops = vec![simple_op("petArrived", "POST", Some("hook"), &[])];
    let state = State::new("x.yaml".to_string(), ops, Vec::new(), Vec::new(), Vec::new());
    let mut app = App::new(state, None);
    app.new_call(&Some("hook".to_string()));
    assert_eq!(app.calls.len(), 0);
    app.new_call(&Some("missing".to_string()));
    assert_eq!(app.calls.len(), 0);
}

#[test]
fn dial_answers_the_built_request() {
    let mut app = app_with_call();
    let (_, outbound) = app.update(&Action::Dial, 0);
    let req = outbound.expect("a dialled request");
    assert_eq!(req.operation_id, "getPet");
    assert_eq!(req.request.method, "GET");
    assert_eq!(req.request.url, "http://localhost/pets/{id}");
}

#[test]
fn quit_only_in_normal_mode() {
    let mut app = app_with_call();
    app.state.input_mode = InputMode::Command;
    app.update(&Action::Quit, 0);
    assert!(!app.should_quit);
    app.state.input_mode = InputMode::Normal;
    app.update(&Action::Quit, 0);
    assert!(app.should_quit);
}

#[test]
fn history_popup_lists_suspended_sessions() {
    let mut app = app_with_call();
    app.hang_up(&Some("getPet".to_string()));
    app.update(&Action::History, 0);
    let popup = app.popup.as_ref().expect("popup open");
    assert_eq!(popup.history.len(), 1);
    assert_eq!(popup.history[0].operation_id, "getPet");
    assert_eq!(popup.history[0].path, "/pets/{id}");
    // while the popup is open, keys go to it
    let resp = app.handle_key(Key::Enter);
    assert!(matches!(
        resp,
        Some(EventResponse::Stop(Action::NewCall(Some(ref id)))) if id == "getPet"
    ));
    app.update(&Action::CloseHistory, 0);
    assert!(app.popup.is_none());
}

#[test]
fn home_keys_map_to_actions() {
    let app = app_with_call();
    let ops = vec![simple_op("/pets", "GET", Some("listPets"), &[])];
    let state = State::new("x.yaml".to_string(), ops, Vec::new(), Vec::new(), Vec::new());
    let mut plain = App::new(state, None);
    let resp = plain.handle_key(Key::Char('l'));
    assert!(matches!(resp, Some(EventResponse::Stop(Action::FocusNext))));
    let resp = plain.handle_key(Key::Enter);
    assert!(matches!(
        resp,
        Some(EventResponse::Stop(Action::NewCall(Some(ref id)))) if id == "listPets"
    ));
    // a session is open in the other app: escape hangs it up
    let mut app = app;
    let resp = app.handle_key(Key::Esc);
    assert!(matches!(
        resp,
        Some(EventResponse::Stop(Action::HangUp(Some(ref id)))) if id == "getPet"
    ));
}

#[test]
fn footer_commits_and_cycles_history() {
    let mut app = app_with_call();
    app.update(
        &Action::FocusFooter(":".to_string(), None),
        0,
    );
    assert_eq!(app.state.input_mode, InputMode::Command);
    // in command mode the key chain falls through to the footer
    app.handle_key(Key::Char('s'));
    let resp = app.handle_key(Key::Enter);
    match resp {
        Some(EventResponse::Stop(Action::FooterResult(cmd, Some(line)))) => {
            assert_eq!(cmd, ":");
            assert_eq!(line, "s");
        },
        other => panic!("unexpected footer response: {:?}", other),
    }
    assert_eq!(app.footer.command_history, vec!["s".to_string()]);
    app.handle_key(Key::Up);
    assert_eq!(app.footer.input, "s");
}

// drain one action and its follow-ups through the dispatch step, the way
// the event loop does, and collect any dialled request
fn drain(app: &mut App, first: Action) -> Option<openapi_tui::request::Request> {
    let mut queue = vec![first];
    let mut sent = None;
    let mut at = 0;
    while at < queue.len() {
        let action = queue[at].clone();
        at += 1;
        let (followups, outbound) = app.update(&action, 0);
        queue.extend(followups);
        if outbound.is_some() {
            sent = outbound;
        }
    }
    sent
}

#[test]
fn colon_send_dials_through_the_full_chain() {
    let mut app = app_with_call();
    // ':' is consumed by the session and hands focus to the footer
    let resp = app.handle_key(Key::Char(':'));
    let focus_footer = match resp {
        Some(EventResponse::Stop(action)) => action,
        other => panic!("expected a footer hand-off, got {:?}", other),
    };
    drain(&mut app, focus_footer);
    assert_eq!(app.state.input_mode, InputMode::Command);
    // "send" typed into the footer, then committed
    for c in "send".chars() {
        assert!(app.handle_key(Key::Char(c)).is_none());
    }
    let committed = match app.handle_key(Key::Enter) {
        Some(EventResponse::Stop(action)) => action,
        other => panic!("expected a footer result, got {:?}", other),
    };
    let sent = drain(&mut app, committed);
    assert_eq!(app.state.input_mode, InputMode::Normal);
    let req = sent.expect("the send command dials the session");
    assert_eq!(req.operation_id, "getPet");
    assert_eq!(req.request.url, "http://localhost/pets/{id}");
}

#[test]
fn footer_query_add_applies_once() {
    let mut app = app_with_call();
    drain(&mut app, Action::FocusFooter(":".to_string(), None));
    for c in "query add token".chars() {
        app.handle_key(Key::Char(c));
    }
    let committed = match app.handle_key(Key::Enter) {
        Some(EventResponse::Stop(action)) => action,
        other => panic!("expected a footer result, got {:?}", other),
    };
    drain(&mut app, committed);
    let named: usize = app.calls[0]
        .editor
        .parameters
        .iter()
        .flat_map(|tab| tab.items.iter())
        .filter(|item| item.name == "token")
        .count();
    assert_eq!(named, 1);
    // and the matching removal empties it again
    drain(&mut app, Action::FocusFooter(":".to_string(), None));
    for c in "query rm token".chars() {
        app.handle_key(Key::Char(c));
    }
    let committed = match app.handle_key(Key::Enter) {
        Some(EventResponse::Stop(action)) => action,
        other => panic!("expected a footer result, got {:?}", other),
    };
    drain(&mut app, committed);
    let named: usize = app.calls[0]
        .editor
        .parameters
        .iter()
        .flat_map(|tab| tab.items.iter())
        .filter(|item| item.name == "token")
        .count();
    assert_eq!(named, 0);
}
