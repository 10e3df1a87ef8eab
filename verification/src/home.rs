//! The home page: the catalog, tags, address, request and response panes in
//! a fixed order, one focused at a time, with key handling, footer command
//! results and per-pane action routing.

use vstd::prelude::*;
use vstd::string::*;
use crate::action::{Action, EventResponse, Key};
use crate::address::{AddressPane, AddressModel, addr_step};
use crate::apis::{ApisPane, ApisModel, apis_step};
use crate::request_pane::{RequestPane, RequestPaneModel, rq_step};
use crate::response_pane::{ResponsePane, ResponsePaneModel, rs_step};
use crate::state::{InputMode, State, opt_str_view, dial_urls};
use crate::tags::{TagsPane, TagsModel, tags_step};

verus! {

/// The number of panes the home page shows: operations, tags, address,
/// request schemas and response schemas.
pub const HOME_PANE_COUNT: usize = 5;

/// The home page.
#[derive(Debug)]
pub struct Home {
    pub focused_pane_index: usize,
    pub fullscreen_pane_index: Option<usize>,
    pub apis: ApisPane,
    pub tags: TagsPane,
    pub address: AddressPane,
    pub request: RequestPane,
    pub response: ResponsePane,
}

/// Spec image of the home page.
#[verifier::ext_equal]
pub struct HomeModel {
    pub focused: int,
    pub fullscreen: Option<int>,
    pub apis: ApisModel,
    pub tags: TagsModel,
    pub address: AddressModel,
    pub request: RequestPaneModel,
    pub response: ResponsePaneModel,
}

impl View for Home {
    type V = HomeModel;

    open spec fn view(&self) -> HomeModel {
        HomeModel {
            focused: self.focused_pane_index as int,
            fullscreen: match self.fullscreen_pane_index {
                Option::None => None,
                Option::Some(i) => Some(i as int),
            },
            apis: self.apis@,
            tags: self.tags@,
            address: self.address@,
            request: self.request@,
            response: self.response@,
        }
    }
}

/// The identifier of the catalog's active operation, when there is one.
pub open spec fn active_op_id(st: State) -> Option<Seq<char>> {
    if st.active_operation_index < st.visible().len() {
        opt_str_view(st.visible()[st.active_operation_index as int].operation_id)
    } else {
        None
    }
}

/// The home-page state after one action is handed to the pane at `at`.
pub open spec fn route_pane(m: HomeModel, a: Action, st: State, at: int) -> (HomeModel, State) {
    if at == 0 {
        let s = apis_step(m.apis, a, st);
        (HomeModel { apis: s.0, ..m }, s.1)
    } else if at == 1 {
        let s = tags_step(m.tags, a, st);
        (HomeModel { tags: s.0, ..m }, s.1)
    } else if at == 2 {
        (HomeModel { address: addr_step(m.address, a), ..m }, st)
    } else if at == 3 {
        (HomeModel { request: rq_step(m.request, a, st), ..m }, st)
    } else if at == 4 {
        (HomeModel { response: rs_step(m.response, a, st), ..m }, st)
    } else {
        (m, st)
    }
}

/// One home-page step: focus movement with its unfocus/focus hooks, a
/// refresh handed to every pane, fullscreen toggling, footer hand-off and
/// command results, and everything else handed to the focused pane.
pub open spec fn home_step(m: HomeModel, a: Action, st: State) -> (HomeModel, State) {
    match a {
        Action::Tick => (m, st),
        Action::FocusNext => {
            let s1 = route_pane(m, Action::UnFocus, st, m.focused);
            let next = if m.focused + 1 < HOME_PANE_COUNT as int { m.focused + 1 } else { 0 };
            route_pane(HomeModel { focused: next, ..s1.0 }, Action::Focus, s1.1, next)
        },
        Action::FocusPrev => {
            let s1 = route_pane(m, Action::UnFocus, st, m.focused);
            let prev = if m.focused > 0 { m.focused - 1 } else { HOME_PANE_COUNT as int - 1 };
            route_pane(HomeModel { focused: prev, ..s1.0 }, Action::Focus, s1.1, prev)
        },
        Action::Update => {
            let s1 = route_pane(m, Action::Update, st, 0);
            let s2 = route_pane(s1.0, Action::Update, s1.1, 1);
            let s3 = route_pane(s2.0, Action::Update, s2.1, 2);
            let s4 = route_pane(s3.0, Action::Update, s3.1, 3);
            route_pane(s4.0, Action::Update, s4.1, 4)
        },
        Action::ToggleFullScreen => {
            (HomeModel {
                fullscreen: match m.fullscreen {
                    Option::Some(_) => None,
                    Option::None => Some(m.focused),
                },
                ..m
            }, st)
        },
        Action::FocusFooter(_, _) => route_pane(m, Action::UnFocus, st, m.focused),
        Action::FooterResult(cmd, arg) => {
            if cmd@ == "/"@ && arg is Some {
                let s1 = route_pane(m, Action::Focus, st, m.focused);
                (s1.0, State {
                    active_filter: arg->0,
                    active_operation_index: 0,
                    ..s1.1
                })
            } else {
                route_pane(m, Action::Focus, st, m.focused)
            }
        },
        _ => route_pane(m, a, st, m.focused),
    }
}

/// What the home page emits on a colon command: quit, a new call on the
/// active operation, the history popup, or a transient unknown-command
/// note.
pub open spec fn home_command_matches(s: Seq<char>, aid: Option<Seq<char>>, r: Action) -> bool {
    if s == "q"@ {
        r == Action::Quit
    } else if s == "request"@ || s == "r"@ {
        match r {
            Action::NewCall(x) => opt_str_view(x) == aid,
            _ => false,
        }
    } else if s == "history"@ {
        r == Action::History
    } else {
        r matches Action::TimedStatusLine(_, t) && t == 1
    }
}

/// What the home page answers to one key press: nothing outside normal
/// mode; in normal mode the navigation table, with enter dialling the
/// active operation and the slash and colon keys handing focus to the
/// footer.
pub open spec fn home_key_matches(st: State, key: Key, r: Option<EventResponse<Action>>) -> bool {
    if st.input_mode != InputMode::Normal {
        r is None
    } else {
        match key {
            Key::Right => r == Some(EventResponse::Stop(Action::FocusNext)),
            Key::Left => r == Some(EventResponse::Stop(Action::FocusPrev)),
            Key::Down => r == Some(EventResponse::Stop(Action::Down)),
            Key::Up => r == Some(EventResponse::Stop(Action::Up)),
            Key::Backspace => r == Some(EventResponse::Stop(Action::Back)),
            Key::Enter => (r matches Some(EventResponse::Stop(Action::NewCall(x)))
                && opt_str_view(x) == active_op_id(st)),
            Key::Char(c) => {
                if c == 'l' || c == 'L' {
                    r == Some(EventResponse::Stop(Action::FocusNext))
                } else if c == 'h' || c == 'H' {
                    r == Some(EventResponse::Stop(Action::FocusPrev))
                } else if c == 'j' || c == 'J' {
                    r == Some(EventResponse::Stop(Action::Down))
                } else if c == 'k' || c == 'K' {
                    r == Some(EventResponse::Stop(Action::Up))
                } else if c == 'g' || c == 'G' {
                    r == Some(EventResponse::Stop(Action::Go))
                } else if c == 'b' || c == 'B' {
                    r == Some(EventResponse::Stop(Action::Back))
                } else if c == 'f' || c == 'F' {
                    r == Some(EventResponse::Stop(Action::ToggleFullScreen))
                } else if c == ']' {
                    r == Some(EventResponse::Stop(Action::TabNext))
                } else if c == '[' {
                    r == Some(EventResponse::Stop(Action::TabPrev))
                } else if c == '/' {
                    (r matches Some(EventResponse::Stop(Action::FocusFooter(cname, arg)))
                        && cname@ == "/"@
                        && (arg matches Some(f) && f@ == st.active_filter@))
                } else if c == ':' {
                    (r matches Some(EventResponse::Stop(Action::FocusFooter(cname, arg)))
                        && cname@ == ":"@ && arg is None)
                } else if '1' <= c && c <= '9' {
                    r == Some(EventResponse::Stop(Action::Tab(((c as u32) - 49) as u32)))
                } else {
                    r is None
                }
            },
            _ => r is None,
        }
    }
}

/// Whether the home page consumes a key press: every normal-mode key of
/// its table, nothing elsewhere.
pub open spec fn home_key_consumes(st: State, key: Key) -> bool {
    if st.input_mode != InputMode::Normal {
        false
    } else {
        match key {
            Key::Right | Key::Left | Key::Down | Key::Up | Key::Backspace | Key::Enter => true,
            Key::Char(c) => c == 'l' || c == 'L' || c == 'h' || c == 'H' || c == 'j'
                || c == 'J' || c == 'k' || c == 'K' || c == 'g' || c == 'G' || c == 'b'
                || c == 'B' || c == 'f' || c == 'F' || c == ']' || c == '[' || c == '/'
                || c == ':' || ('1' <= c && c <= '9'),
            _ => false,
        }
    }
}

impl Home {
    /// A fresh home page: the operations pane focused, every other pane
    /// blurred, no fullscreen.
    pub fn new() -> (r: Home)
        ensures
            r@.focused == 0,
            r@.fullscreen is None,
            r@.apis.focused == true,
            r@.apis.current == 0,
            r@.tags.focused == false,
            r@.tags.current == 0,
            r@.address.focused == false,
            r@.address.base_urls == Seq::<Seq<char>>::empty(),
            r@.request.focused == false,
            r@.response.focused == false,
    {
        Home {
            focused_pane_index: 0,
            fullscreen_pane_index: None,
            apis: ApisPane::new(true),
            tags: TagsPane::new(false),
            address: AddressPane::new(false),
            request: RequestPane::new(false),
            response: ResponsePane::new(false),
        }
    }

    /// Seed the panes from the loaded document: the address ring from the
    /// candidate base URLs, the two schema panes from the component schemas
    /// and the active operation.
    pub fn init(&mut self, state: &State, configured: &Option<String>)
        ensures
            final(self)@.focused == old(self)@.focused,
            final(self)@.fullscreen == old(self)@.fullscreen,
            final(self)@.apis == old(self)@.apis,
            final(self)@.tags == old(self)@.tags,
            final(self)@.address.focused == old(self)@.address.focused,
            final(self)@.address.base_urls == dial_urls(*state, *configured),
            final(self)@.request.focused == old(self)@.request.focused,
            final(self)@.request.tabs == crate::request_pane::pane_tabs_of(*state),
            final(self)@.request.viewer.components.len() == state.components@.len(),
            forall|i: int| 0 <= i < state.components@.len()
                ==> final(self)@.request.viewer.components[i] == (
                    state.components@[i].0@,
                    crate::schema::render_value(state.components@[i].1, 0),
                ),
            final(self)@.response.focused == old(self)@.response.focused,
            final(self)@.response.tabs == crate::response_pane::response_tabs_of(*state),
            final(self)@.response.viewer.components.len() == state.components@.len(),
            forall|i: int| 0 <= i < state.components@.len()
                ==> final(self)@.response.viewer.components[i] == (
                    state.components@[i].0@,
                    crate::schema::render_value(state.components@[i].1, 0),
                ),
    {
        let urls = state.default_server_urls(configured, &None);
        proof {
            let confs = match configured {
                Option::None => Seq::<Seq<char>>::empty(),
                Option::Some(u) => seq![crate::text::trim_trailing(u@, '/')],
            };
            assert(confs + Seq::<Seq<char>>::empty()
                + crate::state::urls_of(state.servers@)
                =~= confs + crate::state::urls_of(state.servers@));
        }
        self.address.set_base_urls(urls);
        self.request.viewer.set_components(&state.components);
        self.request.init_schema(state);
        self.response.viewer.set_components(&state.components);
        self.response.init_schema(state);
    }

    /// Route one action to the pane at the given index.
    fn route(&mut self, action: &Action, state: &mut State, at: usize) -> (r: Option<Action>)
        requires
            old(state).tags@.len() < usize::MAX,
        ensures
            (final(self)@, *final(state)) == route_pane(old(self)@, *action, *old(state), at as int),
            final(state).input_mode == old(state).input_mode,
            final(state).responses == old(state).responses,
    {
        let ghost m0 = self@;
        let ghost st0 = *state;
        let r = if at == 0 {
            self.apis.update(action, state)
        } else if at == 1 {
            self.tags.update(action, state)
        } else if at == 2 {
            self.address.update(action)
        } else if at == 3 {
            self.request.update(action, state)
        } else if at == 4 {
            self.response.update(action, state)
        } else {
            None
        };
        proof {
            assert((self@, *state) =~~= route_pane(m0, *action, st0, at as int));
        }
        r
    }

    /// The identifier of the active operation, cloned out of the catalog.
    pub fn active_operation_id(state: &State) -> (r: Option<String>)
        ensures
            opt_str_view(r) == active_op_id(*state),
    {
        match state.active_operation() {
            Some(op) => crate::parameter_editor::clone_opt_string(&op.operation_id),
            None => None,
        }
    }

    /// Apply one action to the home page. The page and catalog change
    /// according to the page's transition function; a colon command emits
    /// its structured action last; a slash result installs the filter and
    /// asks for a refresh.
    pub fn update(&mut self, action: &Action, state: &mut State) -> (r: Vec<Action>)
        requires
            old(state).tags@.len() < usize::MAX,
        ensures
            final(state).input_mode == old(state).input_mode,
            final(state).responses == old(state).responses,
            (match *action {
                Action::FooterResult(cmd, Option::Some(args)) => {
                    if cmd@ == ":"@ {
                        &&& (final(self)@, *final(state))
                            == route_pane(old(self)@, Action::Focus, *old(state), old(self)@.focused)
                        &&& r@.len() >= 1
                        &&& home_command_matches(args@, active_op_id(*old(state)), r@[r@.len() - 1])
                    } else {
                        &&& (final(self)@, *final(state))
                            == home_step(old(self)@, *action, *old(state))
                        &&& (cmd@ == "/"@ ==> r@.len() >= 1 && r@[r@.len() - 1] == Action::Update)
                    }
                },
                _ => (final(self)@, *final(state)) == home_step(old(self)@, *action, *old(state)),
            }),
    {
        let ghost m0 = self@;
        let ghost st0 = *state;
        let mut actions: Vec<Action> = Vec::new();
        match action {
            Action::Tick => {},
            Action::FocusNext => {
                let at = self.focused_pane_index;
                if let Some(a) = self.route(&Action::UnFocus, state, at) {
                    actions.push(a);
                }
                let next = if self.focused_pane_index < HOME_PANE_COUNT - 1 {
                    self.focused_pane_index + 1
                } else {
                    0
                };
                self.focused_pane_index = next;
                if let Some(a) = self.route(&Action::Focus, state, next) {
                    actions.push(a);
                }
                proof {
                    assert((self@, *state) =~~= home_step(m0, *action, st0));
                }
            },
            Action::FocusPrev => {
                let at = self.focused_pane_index;
                if let Some(a) = self.route(&Action::UnFocus, state, at) {
                    actions.push(a);
                }
                let prev = if self.focused_pane_index > 0 {
                    self.focused_pane_index - 1
                } else {
                    HOME_PANE_COUNT - 1
                };
                self.focused_pane_index = prev;
                if let Some(a) = self.route(&Action::Focus, state, prev) {
                    actions.push(a);
                }
                proof {
                    assert((self@, *state) =~~= home_step(m0, *action, st0));
                }
            },
            Action::Update => {
                if let Some(a) = self.route(&Action::Update, state, 0) {
                    actions.push(a);
                }
                if let Some(a) = self.route(&Action::Update, state, 1) {
                    actions.push(a);
                }
                if let Some(a) = self.route(&Action::Update, state, 2) {
                    actions.push(a);
                }
                if let Some(a) = self.route(&Action::Update, state, 3) {
                    actions.push(a);
                }
                if let Some(a) = self.route(&Action::Update, state, 4) {
                    actions.push(a);
                }
                proof {
                    assert((self@, *state) =~~= home_step(m0, *action, st0));
                }
            },
            Action::ToggleFullScreen => {
                self.fullscreen_pane_index = match self.fullscreen_pane_index {
                    Some(_) => None,
                    None => Some(self.focused_pane_index),
                };
                proof {
                    assert((self@, *state) =~~= home_step(m0, *action, st0));
                }
            },
            Action::FocusFooter(_, _) => {
                let at = self.focused_pane_index;
                if let Some(a) = self.route(&Action::UnFocus, state, at) {
                    actions.push(a);
                }
                proof {
                    assert((self@, *state) =~~= home_step(m0, *action, st0));
                }
            },
            Action::FooterResult(cmd, Some(args)) => {
                proof {
                    reveal_strlit("/");
                    reveal_strlit(":");
                    assert("/"@.len() == 1);
                    assert("/"@[0] == '/');
                    assert(":"@[0] == ':');
                    assert("/"@ != ":"@) by {
                        if "/"@ == ":"@ {
                            assert("/"@[0] == ":"@[0]);
                        }
                    }
                }
                let at = self.focused_pane_index;
                if crate::text::str_eq(cmd.as_str(), "/") {
                    if let Some(a) = self.route(&Action::Focus, state, at) {
                        actions.push(a);
                    }
                    state.set_filter(args.clone());
                    actions.push(Action::Update);
                    proof {
                        assert(*state =~~= home_step(m0, *action, st0).1);
                        assert((self@, *state) =~~= home_step(m0, *action, st0));
                    }
                } else if crate::text::str_eq(cmd.as_str(), ":") {
                    if let Some(a) = self.route(&Action::Focus, state, at) {
                        actions.push(a);
                    }
                    if crate::text::str_eq(args.as_str(), "q") {
                        actions.push(Action::Quit);
                    } else if crate::text::str_eq(args.as_str(), "request")
                        || crate::text::str_eq(args.as_str(), "r") {
                        let id = Home::active_operation_id(state);
                        proof {
                            assert(active_op_id(*state) == active_op_id(st0));
                        }
                        actions.push(Action::NewCall(id));
                    } else if crate::text::str_eq(args.as_str(), "history") {
                        actions.push(Action::History);
                    } else {
                        actions.push(Action::TimedStatusLine(
                            String::from_str("unknown command"),
                            1,
                        ));
                    }
                } else {
                    if let Some(a) = self.route(&Action::Focus, state, at) {
                        actions.push(a);
                    }
                    proof {
                        assert((self@, *state) =~~= home_step(m0, *action, st0));
                    }
                }
            },
            Action::FooterResult(_, None) => {
                let at = self.focused_pane_index;
                if let Some(a) = self.route(&Action::Focus, state, at) {
                    actions.push(a);
                }
                proof {
                    assert((self@, *state) =~~= home_step(m0, *action, st0));
                }
            },
            _ => {
                let at = self.focused_pane_index;
                if let Some(a) = self.route(action, state, at) {
                    actions.push(a);
                }
                proof {
                    assert((self@, *state) =~~= home_step(m0, *action, st0));
                }
            },
        }
        actions
    }

    /// Interpret one key press in normal mode: navigation, drilling,
    /// dialling the active operation, fullscreen, tab selection and the
    /// filter and command footers. Insert and command mode keys belong to
    /// the editors and the footer.
    pub fn handle_key(&self, key: Key, state: &State) -> (r: Option<EventResponse<Action>>)
        ensures
            home_key_matches(*state, key, r),
    {
        match state.input_mode {
            InputMode::Normal => {
                match key {
                    Key::Right => Some(EventResponse::Stop(Action::FocusNext)),
                    Key::Left => Some(EventResponse::Stop(Action::FocusPrev)),
                    Key::Down => Some(EventResponse::Stop(Action::Down)),
                    Key::Up => Some(EventResponse::Stop(Action::Up)),
                    Key::Backspace => Some(EventResponse::Stop(Action::Back)),
                    Key::Enter => Some(EventResponse::Stop(Action::NewCall(
                        Home::active_operation_id(state),
                    ))),
                    Key::Char(c) => {
                        if c == 'l' || c == 'L' {
                            Some(EventResponse::Stop(Action::FocusNext))
                        } else if c == 'h' || c == 'H' {
                            Some(EventResponse::Stop(Action::FocusPrev))
                        } else if c == 'j' || c == 'J' {
                            Some(EventResponse::Stop(Action::Down))
                        } else if c == 'k' || c == 'K' {
                            Some(EventResponse::Stop(Action::Up))
                        } else if c == 'g' || c == 'G' {
                            Some(EventResponse::Stop(Action::Go))
                        } else if c == 'b' || c == 'B' {
                            Some(EventResponse::Stop(Action::Back))
                        } else if c == 'f' || c == 'F' {
                            Some(EventResponse::Stop(Action::ToggleFullScreen))
                        } else if c == ']' {
                            Some(EventResponse::Stop(Action::TabNext))
                        } else if c == '[' {
                            Some(EventResponse::Stop(Action::TabPrev))
                        } else if c == '/' {
                            Some(EventResponse::Stop(Action::FocusFooter(
                                String::from_str("/"),
                                Some(state.active_filter.clone()),
                            )))
                        } else if c == ':' {
                            Some(EventResponse::Stop(Action::FocusFooter(
                                String::from_str(":"),
                                None,
                            )))
                        } else if '1' <= c && c <= '9' {
                            Some(EventResponse::Stop(Action::Tab((c as u32) - 49)))
                        } else {
                            None
                        }
                    },
                    _ => None,
                }
            },
            _ => None,
        }
    }
}

} // verus!
