//! Flow checks across panes: tag cycling, the address ring, the filter
//! footer round trip, schema rendering shapes and the request pane's tabs.

use openapi_tui::action::{Action, EventResponse, Key};
use openapi_tui::address::AddressPane;
use openapi_tui::app::App;
use openapi_tui::openapi::{In, ParameterInfo};
use openapi_tui::schema::{render, SchemaValue};
use openapi_tui::state::{InputMode, OperationItem, State};
use openapi_tui::tags::TagsPane;

fn small_state() -> State {
    let ops = vec![
        OperationItem::new(
            "/pets".to_string(),
            "GET".to_string(),
            Some("listPets".to_string()),
            Some("List pets".to_string()),
            vec!["pets".to_string()],
            Vec::new(),
            Vec::new(),
            Vec::new(),
        ),
        OperationItem::new(
            "/stores".to_string(),
            "GET".to_string(),
            Some("listStores".to_string()),
            None,
            vec!["stores".to_string()],
            Vec::new(),
            Vec::new(),
            Vec::new(),
        ),
    ];
    State::new(
        "doc.yaml".to_string(),
        ops,
        Vec::new(),
        vec!["pets".to_string(), "stores".to_string()],
        Vec::new(),
    )
}

#[test]
fn tag_cycle_wraps_through_all_entry() {
    let mut state = small_state();
    let mut tags = TagsPane::new(true);
    tags.update(&Action::Down, &mut state);
    assert_eq!(state.active_tag_name, Some("pets".to_string()));
    assert_eq!(state.operations_len(), 1);
    tags.update(&Action::Down, &mut state);
    assert_eq!(state.active_tag_name, Some("stores".to_string()));
    tags.update(&Action::Down, &mut state);
    assert_eq!(state.active_tag_name, None);
    assert_eq!(state.operations_len(), 2);
    tags.update(&Action::Up, &mut state);
    assert_eq!(state.active_tag_name, Some("stores".to_string()));
}

#[test]
fn address_ring_rotates_both_ways() {
    let mut address = AddressPane::new(false);
    address.set_base_urls(vec![
        "http://a".to_string(),
        "http://b".to_string(),
        "http://c".to_string(),
    ]);
    address.rotate_up();
    assert_eq!(address.base_urls[0], "http://b");
    address.rotate_down();
    assert_eq!(address.base_urls[0], "http://a");
    assert_eq!(address.path("/pets"), "http://a/pets");
}

#[test]
fn slash_filter_round_trip_through_the_footer() {
    let mut app = App::new(small_state(), None);
    app.update(&Action::FocusFooter("/".to_string(), None), 0);
    assert_eq!(app.state.input_mode, InputMode::Command);
    for c in "stores".chars() {
        // command-mode keys fall through the chain to the footer
        assert!(app.handle_key(Key::Char(c)).is_none());
    }
    let committed = app.handle_key(Key::Enter);
    let result = match committed {
        Some(EventResponse::Stop(action)) => action,
        other => panic!("expected a footer result, got {:?}", other),
    };
    app.update(&result, 0);
    assert_eq!(app.state.input_mode, InputMode::Normal);
    assert_eq!(app.state.active_filter, "stores");
    assert_eq!(app.state.operations_len(), 1);
    assert_eq!(app.state.active_operation().expect("one left").path, "/stores");
}

#[test]
fn footer_escape_cancels() {
    let mut app = App::new(small_state(), None);
    app.update(&Action::FocusFooter(":".to_string(), None), 0);
    let cancelled = app.handle_key(Key::Esc);
    match cancelled {
        Some(EventResponse::Stop(Action::FooterResult(cmd, arg))) => {
            assert_eq!(cmd, ":");
            assert!(arg.is_none());
        },
        other => panic!("expected a cancelled footer result, got {:?}", other),
    }
}

#[test]
fn arrays_render_with_dashes() {
    let value = SchemaValue::Array(vec![
        SchemaValue::Scalar("one".to_string()),
        SchemaValue::Object(vec![(
            "name".to_string(),
            SchemaValue::Scalar("two".to_string()),
        )]),
    ]);
    let lines = render(&value);
    let tokens: Vec<Vec<String>> = lines.iter().map(|l| l.tokens.clone()).collect();
    assert_eq!(tokens[0], vec!["-".to_string(), "one".to_string()]);
    assert_eq!(tokens[1], vec!["-".to_string()]);
    assert_eq!(tokens[2], vec!["name".to_string(), "two".to_string()]);
    assert_eq!(lines[2].indent, 1);
}

#[test]
fn request_pane_builds_location_tabs() {
    let op = OperationItem::new(
        "/pets/{id}".to_string(),
        "PUT".to_string(),
        Some("updatePet".to_string()),
        None,
        Vec::new(),
        vec![
            ParameterInfo {
                name: "id".to_string(),
                location: In::Path,
                required: true,
                default_value: None,
                schema: Some(SchemaValue::Scalar("integer".to_string())),
            },
            ParameterInfo {
                name: "verbose".to_string(),
                location: In::Query,
                required: false,
                default_value: None,
                schema: None,
            },
        ],
        vec![(
            "application/json".to_string(),
            Some(SchemaValue::Scalar("object".to_string())),
        )],
        Vec::new(),
    );
    let state = State::new(
        "doc.yaml".to_string(),
        vec![op],
        Vec::new(),
        Vec::new(),
        Vec::new(),
    );
    let mut pane = openapi_tui::request_pane::RequestPane::new(false);
    pane.init_schema(&state);
    let titles: Vec<String> = pane.schemas.iter().map(|t| t.title.clone()).collect();
    assert_eq!(
        titles,
        vec!["Body".to_string(), "Query".to_string(), "Path".to_string()]
    );
    let body_tokens: Vec<Vec<String>> =
        pane.schemas[0].lines.iter().map(|l| l.tokens.clone()).collect();
    assert_eq!(
        body_tokens,
        vec![vec!["application/json".to_string(), "object".to_string()]]
    );
    // the missing query schema renders as a null marker
    let query_tokens: Vec<Vec<String>> =
        pane.schemas[1].lines.iter().map(|l| l.tokens.clone()).collect();
    assert_eq!(query_tokens, vec![vec!["verbose".to_string(), "null".to_string()]]);
}

#[test]
fn fullscreen_toggles_on_the_session() {
    let ops = vec![OperationItem::new(
        "/pets".to_string(),
        "GET".to_string(),
        Some("listPets".to_string()),
        None,
        Vec::new(),
        Vec::new(),
        Vec::new(),
        Vec::new(),
    )];
    let state = State::new("doc.yaml".to_string(), ops, Vec::new(), Vec::new(), Vec::new());
    let mut app = App::new(state, None);
    app.new_call(&Some("listPets".to_string()));
    app.update(&Action::ToggleFullScreen, 0);
    assert_eq!(app.calls[0].fullscreen_pane_index, Some(1));
    app.update(&Action::ToggleFullScreen, 0);
    assert_eq!(app.calls[0].fullscreen_pane_index, None);
}

#[test]
fn keymap_chords_accumulate_until_tick() {
    let state = small_state();
    let mut app = App::new(state, None);
    let keymap: Vec<(Vec<Key>, Action)> = vec![
        (vec![Key::Char('q')], Action::Quit),
        (vec![Key::Char('g'), Key::Char('g')], Action::Go),
    ];
    assert!(app.translate_key_chord(Key::Char('g'), &keymap).is_none());
    let hit = app.translate_key_chord(Key::Char('g'), &keymap);
    assert!(matches!(hit, Some(Action::Go)));
    // a single-key binding fires without joining the chord
    let quit = app.translate_key_chord(Key::Char('q'), &keymap);
    assert!(matches!(quit, Some(Action::Quit)));
    // a tick clears the accumulated chord
    app.update(&Action::Tick, 0);
    assert!(app.translate_key_chord(Key::Char('g'), &keymap).is_none());
}
