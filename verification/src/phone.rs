//! A call session: the page that edits one operation's draft and dials it.
//! It composes the address, parameter, body and response panes, routes
//! actions to the focused pane, parses footer commands, and assembles the
//! wire request as a pure function of the draft.

use vstd::prelude::*;
use vstd::string::*;
use crate::action::{Action, EventResponse, Key};
use crate::address::{AddressPane, AddressModel, front_url, addr_step};
use crate::body_editor::{BodyEditor, BodyModel, body_step};
use crate::openapi::{In, brace, brace_name};
use crate::parameter_editor::{ParameterEditor, EditorModel, ItemModel, TabModel, ed_step};
use crate::request::{BuiltRequest, BuiltModel, Request, pairs_view};
use crate::response_viewer::{ResponseViewer, ViewerPaneModel, viewer_step};
use crate::state::{InputMode, OperationItem, State};
use crate::text;

verus! {

/// The number of panes a session shows: address, parameters, body and
/// response viewer.
pub const PANE_COUNT: usize = 4;

/// A call session page.
#[derive(Debug)]
pub struct Phone {
    pub operation_id: Option<String>,
    pub path: String,
    pub method: String,
    pub address: AddressPane,
    pub editor: ParameterEditor,
    pub body: BodyEditor,
    pub viewer: ResponseViewer,
    pub focused_pane_index: usize,
    pub fullscreen_pane_index: Option<usize>,
}

/// Spec image of a session.
#[verifier::ext_equal]
pub struct PhoneModel {
    pub operation_id: Option<Seq<char>>,
    pub path: Seq<char>,
    pub method: Seq<char>,
    pub address: AddressModel,
    pub editor: EditorModel,
    pub body: BodyModel,
    pub viewer: ViewerPaneModel,
    pub focused: int,
    pub fullscreen: Option<int>,
}

impl View for Phone {
    type V = PhoneModel;

    open spec fn view(&self) -> PhoneModel {
        PhoneModel {
            operation_id: match self.operation_id {
                Option::None => None,
                Option::Some(s) => Some(s@),
            },
            path: self.path@,
            method: self.method@,
            address: self.address@,
            editor: self.editor@,
            body: self.body@,
            viewer: self.viewer@,
            focused: self.focused_pane_index as int,
            fullscreen: match self.fullscreen_pane_index {
                Option::None => None,
                Option::Some(i) => Some(i as int),
            },
        }
    }
}

/// The items of every tab with the given location, in tab order.
pub open spec fn tab_items(tabs: Seq<TabModel>, loc: In) -> Seq<ItemModel>
    decreases tabs.len(),
{
    if tabs.len() == 0 {
        Seq::empty()
    } else {
        (if tabs[0].location == loc {
            tabs[0].items
        } else {
            Seq::<ItemModel>::empty()
        }) + tab_items(tabs.skip(1), loc)
    }
}

/// A URL with one parameter applied: a set value replaces every occurrence
/// of the brace-wrapped name; an unset value leaves the URL alone.
pub open spec fn apply_item(url: Seq<char>, it: ItemModel) -> Seq<char> {
    match it.value {
        Option::None => url,
        Option::Some(v) => text::replace_seq(url, brace(it.name), v),
    }
}

/// A URL with a list of parameters applied left to right.
pub open spec fn subst_items(url: Seq<char>, items: Seq<ItemModel>) -> Seq<char>
    decreases items.len(),
{
    if items.len() == 0 {
        url
    } else {
        subst_items(apply_item(url, items[0]), items.skip(1))
    }
}

/// A query item is carried when it is required or has a value.
pub open spec fn keep_query(it: ItemModel) -> bool {
    it.required || it.value is Some
}

/// The value sent for an item: its value, or the empty string when unset.
pub open spec fn val_or_empty(it: ItemModel) -> Seq<char> {
    match it.value {
        Option::None => Seq::empty(),
        Option::Some(v) => v,
    }
}

/// The query pairs of a list of items: optional unset items are omitted,
/// required unset items are sent with an empty value.
pub open spec fn query_pairs(items: Seq<ItemModel>) -> Seq<(Seq<char>, Seq<char>)>
    decreases items.len(),
{
    if items.len() == 0 {
        Seq::empty()
    } else {
        (if keep_query(items[0]) {
            seq![(items[0].name, val_or_empty(items[0]))]
        } else {
            Seq::<(Seq<char>, Seq<char>)>::empty()
        }) + query_pairs(items.skip(1))
    }
}

/// The header pairs of a list of items: every item, unset values sent
/// empty.
pub open spec fn header_pairs(items: Seq<ItemModel>) -> Seq<(Seq<char>, Seq<char>)>
    decreases items.len(),
{
    if items.len() == 0 {
        Seq::empty()
    } else {
        seq![(items[0].name, val_or_empty(items[0]))] + header_pairs(items.skip(1))
    }
}

/// The request assembled from a session's draft: base URL plus path with
/// path parameters substituted, the query and header pairs, the content
/// type and body when one is selected, and the accept header when the
/// operation declares response media types. A pure function of the draft.
pub open spec fn built_request_spec(m: PhoneModel) -> BuiltModel {
    let url0 = front_url(m.address) + m.path;
    let url = subst_items(url0, tab_items(m.editor.tabs, In::Path));
    let query = query_pairs(tab_items(m.editor.tabs, In::Query));
    let headers0 = header_pairs(tab_items(m.editor.tabs, In::Header));
    let ct = if 0 <= m.body.index < m.body.content_types.len() {
        Some(m.body.content_types[m.body.index])
    } else {
        None
    };
    let accept = if 0 <= m.viewer.index < m.viewer.content_types.len() {
        Some(m.viewer.content_types[m.viewer.index])
    } else {
        None
    };
    BuiltModel {
        method: m.method,
        url: url,
        query: query,
        headers: headers0 + (match ct {
            Option::Some(c) => seq![("content-type"@, c)],
            Option::None => Seq::<(Seq<char>, Seq<char>)>::empty(),
        }) + (match accept {
            Option::Some(c) => seq![("accept"@, c)],
            Option::None => Seq::<(Seq<char>, Seq<char>)>::empty(),
        }),
        body: match ct {
            Option::Some(_) => Some(m.body.text),
            Option::None => None,
        },
    }
}

/// The request built from a draft depends on the draft alone: two sessions
/// whose address ring, parameter tabs, body and viewer selections, path and
/// method agree build the same request, whatever their focus, fullscreen or
/// identifier state.
pub proof fn lemma_build_request_pure(a: PhoneModel, b: PhoneModel)
    requires
        a.address.base_urls == b.address.base_urls,
        a.editor.tabs == b.editor.tabs,
        a.body.content_types == b.body.content_types,
        a.body.index == b.body.index,
        a.body.text == b.body.text,
        a.viewer.content_types == b.viewer.content_types,
        a.viewer.index == b.viewer.index,
        a.path == b.path,
        a.method == b.method,
    ensures
        built_request_spec(a) == built_request_spec(b),
{
    assert(front_url(a.address) == front_url(b.address));
    assert(built_request_spec(a) =~~= built_request_spec(b));
}

proof fn lemma_query_pairs_skips_unset(items: Seq<ItemModel>, n: Seq<char>)
    requires
        forall|i: int| 0 <= i < items.len() && (#[trigger] items[i]).name == n
            ==> !items[i].required && items[i].value is None,
    ensures
        forall|j: int| 0 <= j < query_pairs(items).len()
            ==> (#[trigger] query_pairs(items)[j]).0 != n,
    decreases items.len(),
{
    if items.len() > 0 {
        assert forall|i: int| 0 <= i < items.skip(1).len()
            && (#[trigger] items.skip(1)[i]).name == n
            implies !items.skip(1)[i].required && items.skip(1)[i].value is None by {
            assert(items.skip(1)[i] == items[i + 1]);
        }
        lemma_query_pairs_skips_unset(items.skip(1), n);
        assert forall|j: int| 0 <= j < query_pairs(items).len()
            implies (#[trigger] query_pairs(items)[j]).0 != n by {
            let head = if keep_query(items[0]) {
                seq![(items[0].name, val_or_empty(items[0]))]
            } else {
                Seq::<(Seq<char>, Seq<char>)>::empty()
            };
            if j < head.len() {
                assert(keep_query(items[0]));
                assert(items[0].name != n);
            } else {
                assert(query_pairs(items)[j] == query_pairs(items.skip(1))[j - head.len()]);
            }
        }
    }
}

/// A query parameter that is optional and unset wherever it occurs in the
/// draft is omitted from the built request: no query pair of the assembled
/// request carries its name.
pub proof fn lemma_unset_optional_query_omitted(m: PhoneModel, n: Seq<char>)
    requires
        forall|i: int| 0 <= i < tab_items(m.editor.tabs, In::Query).len()
            && (#[trigger] tab_items(m.editor.tabs, In::Query)[i]).name == n
            ==> !tab_items(m.editor.tabs, In::Query)[i].required
                && tab_items(m.editor.tabs, In::Query)[i].value is None,
    ensures
        forall|j: int| 0 <= j < built_request_spec(m).query.len()
            ==> (#[trigger] built_request_spec(m).query[j]).0 != n,
{
    lemma_query_pairs_skips_unset(tab_items(m.editor.tabs, In::Query), n);
}

proof fn lemma_subst_append(url: Seq<char>, a: Seq<ItemModel>, b: Seq<ItemModel>)
    ensures
        subst_items(url, a + b) == subst_items(subst_items(url, a), b),
    decreases a.len(),
{
    if a.len() == 0 {
        assert(a + b =~= b);
    } else {
        assert((a + b)[0] == a[0]);
        assert((a + b).skip(1) =~= a.skip(1) + b);
        lemma_subst_append(apply_item(url, a[0]), a.skip(1), b);
    }
}

proof fn lemma_query_pairs_append(a: Seq<ItemModel>, b: Seq<ItemModel>)
    ensures
        query_pairs(a + b) == query_pairs(a) + query_pairs(b),
    decreases a.len(),
{
    if a.len() == 0 {
        assert(a + b =~= b);
        assert(query_pairs(a) == Seq::<(Seq<char>, Seq<char>)>::empty());
        assert(query_pairs(a) + query_pairs(b) =~= query_pairs(b));
    } else {
        assert((a + b)[0] == a[0]);
        assert((a + b).skip(1) =~= a.skip(1) + b);
        lemma_query_pairs_append(a.skip(1), b);
        assert(query_pairs(a + b) =~= query_pairs(a) + query_pairs(b));
    }
}

proof fn lemma_header_pairs_append(a: Seq<ItemModel>, b: Seq<ItemModel>)
    ensures
        header_pairs(a + b) == header_pairs(a) + header_pairs(b),
    decreases a.len(),
{
    if a.len() == 0 {
        assert(a + b =~= b);
        assert(header_pairs(a) == Seq::<(Seq<char>, Seq<char>)>::empty());
        assert(header_pairs(a) + header_pairs(b) =~= header_pairs(b));
    } else {
        assert((a + b)[0] == a[0]);
        assert((a + b).skip(1) =~= a.skip(1) + b);
        lemma_header_pairs_append(a.skip(1), b);
        assert(header_pairs(a + b) =~= header_pairs(a) + header_pairs(b));
    }
}

/// What the footer command parser answers on the given command text: the
/// quit and send words quit and dial; the query, header, request and
/// response families take three words and become their structured actions;
/// anything else earns a transient status-line note. The parser always
/// answers.
pub open spec fn phone_command_matches(s: Seq<char>, r: Option<Action>) -> bool {
    let parts = text::words_of(s);
    if s == "q"@ {
        r == Some(Action::Quit)
    } else if s == "send"@ || s == "s"@ {
        r == Some(Action::Dial)
    } else if text::seq_starts_with(s, "query "@) || text::seq_starts_with(s, "q "@) {
        if parts.len() == 3 && parts[1] == "add"@ {
            match r {
                Some(Action::AddQuery(x)) => x@ == parts[2],
                _ => false,
            }
        } else if parts.len() == 3 && parts[1] == "rm"@ {
            match r {
                Some(Action::RemoveQuery(x)) => x@ == parts[2],
                _ => false,
            }
        } else {
            r matches Some(Action::TimedStatusLine(_, t)) && t == 3
        }
    } else if text::seq_starts_with(s, "header "@) || text::seq_starts_with(s, "h "@) {
        if parts.len() == 3 && parts[1] == "add"@ {
            match r {
                Some(Action::AddHeader(x)) => x@ == parts[2],
                _ => false,
            }
        } else if parts.len() == 3 && parts[1] == "rm"@ {
            match r {
                Some(Action::RemoveHeader(x)) => x@ == parts[2],
                _ => false,
            }
        } else {
            r matches Some(Action::TimedStatusLine(_, t)) && t == 3
        }
    } else if text::seq_starts_with(s, "request "@) || text::seq_starts_with(s, "r "@) {
        if parts.len() == 3 && parts[1] == "open"@ {
            match r {
                Some(Action::OpenRequestPayload(x)) => x@ == parts[2],
                _ => false,
            }
        } else {
            r matches Some(Action::TimedStatusLine(_, t)) && t == 3
        }
    } else if text::seq_starts_with(s, "response "@) || text::seq_starts_with(s, "s "@) {
        if parts.len() == 3 && parts[1] == "save"@ {
            match r {
                Some(Action::SaveResponsePayload(x)) => x@ == parts[2],
                _ => false,
            }
        } else {
            r matches Some(Action::TimedStatusLine(_, t)) && t == 3
        }
    } else {
        r matches Some(Action::TimedStatusLine(_, t)) && t == 3
    }
}

/// The four structured commands that edit the parameter tabs: they are
/// applied to the panes exactly once, when the action itself is routed.
pub open spec fn editor_command(a: Action) -> bool {
    ||| a matches Action::AddQuery(_)
    ||| a matches Action::RemoveQuery(_)
    ||| a matches Action::AddHeader(_)
    ||| a matches Action::RemoveHeader(_)
}

/// The session state after routing one action to the pane at `at`.
pub open spec fn route_at(m: PhoneModel, a: Action, mode: InputMode, at: int) -> (PhoneModel, InputMode) {
    if at == 0 {
        (PhoneModel { address: addr_step(m.address, a), ..m }, mode)
    } else if at == 1 {
        let s = ed_step(m.editor, a, mode);
        (PhoneModel { editor: s.0, ..m }, s.1)
    } else if at == 2 {
        let s = body_step(m.body, a, mode);
        (PhoneModel { body: s.0, ..m }, s.1)
    } else if at == 3 {
        (PhoneModel { viewer: viewer_step(m.viewer, a), ..m }, mode)
    } else {
        (m, mode)
    }
}

/// The session state after one command action is handed to every pane in
/// order.
pub open spec fn route_all(m: PhoneModel, a: Action, mode: InputMode) -> (PhoneModel, InputMode) {
    let s1 = route_at(m, a, mode, 0);
    let s2 = route_at(s1.0, a, s1.1, 1);
    let s3 = route_at(s2.0, a, s2.1, 2);
    route_at(s3.0, a, s3.1, 3)
}

/// One session step: focus movement with its unfocus/focus hooks,
/// fullscreen toggling, footer hand-off, command results handed to every
/// pane, and everything else handed to the focused pane.
pub open spec fn phone_step(m: PhoneModel, a: Action, mode: InputMode, cmd: Option<Action>) -> (PhoneModel, InputMode) {
    match a {
        Action::FocusNext => {
            let s1 = route_at(m, Action::UnFocus, mode, m.focused);
            let next = if m.focused + 1 < PANE_COUNT as int { m.focused + 1 } else { 0 };
            route_at(PhoneModel { focused: next, ..s1.0 }, Action::Focus, s1.1, next)
        },
        Action::FocusPrev => {
            let s1 = route_at(m, Action::UnFocus, mode, m.focused);
            let prev = if m.focused > 0 { m.focused - 1 } else { PANE_COUNT as int - 1 };
            route_at(PhoneModel { focused: prev, ..s1.0 }, Action::Focus, s1.1, prev)
        },
        Action::ToggleFullScreen => {
            (PhoneModel {
                fullscreen: match m.fullscreen {
                    Option::Some(_) => None,
                    Option::None => Some(m.focused),
                },
                ..m
            }, mode)
        },
        Action::Update => route_all(m, Action::Update, mode),
        Action::Dial => (m, mode),
        Action::FocusFooter(_, _) => route_at(m, Action::UnFocus, mode, m.focused),
        Action::FooterResult(_, arg) => {
            match (arg, cmd) {
                (Option::Some(_), Option::Some(c)) => {
                    let s1 = route_at(m, Action::Focus, mode, m.focused);
                    if editor_command(c) {
                        // the parsed command is emitted instead and applied
                        // when it comes back through the queue
                        s1
                    } else {
                        route_all(s1.0, c, s1.1)
                    }
                },
                (Option::None, _) => route_at(m, Action::Focus, mode, m.focused),
                _ => (m, mode),
            }
        },
        Action::AddQuery(_) => route_all(m, a, mode),
        Action::RemoveQuery(_) => route_all(m, a, mode),
        Action::AddHeader(_) => route_all(m, a, mode),
        Action::RemoveHeader(_) => route_all(m, a, mode),
        _ => route_at(m, a, mode, m.focused),
    }
}

/// The session state after one key press: in insert mode the focused
/// editor's text is edited, everything else leaves the session unchanged.
pub open spec fn phone_key_model(m: PhoneModel, key: Key, mode: InputMode) -> PhoneModel {
    if mode == InputMode::Insert && m.focused == 1 {
        match key {
            Key::Char(c) => PhoneModel {
                editor: EditorModel { input: m.editor.input.push(c), ..m.editor },
                ..m
            },
            Key::Backspace => PhoneModel {
                editor: EditorModel {
                    input: if m.editor.input.len() > 0 {
                        m.editor.input.drop_last()
                    } else {
                        m.editor.input
                    },
                    ..m.editor
                },
                ..m
            },
            _ => m,
        }
    } else if mode == InputMode::Insert && m.focused == 2 {
        match key {
            Key::Char(c) => PhoneModel {
                body: BodyModel { text: m.body.text.push(c), ..m.body },
                ..m
            },
            Key::Enter => PhoneModel {
                body: BodyModel { text: m.body.text.push('\n'), ..m.body },
                ..m
            },
            Key::Backspace => PhoneModel {
                body: BodyModel {
                    text: if m.body.text.len() > 0 {
                        m.body.text.drop_last()
                    } else {
                        m.body.text
                    },
                    ..m.body
                },
                ..m
            },
            _ => m,
        }
    } else {
        m
    }
}

/// What a session answers to one key press: the normal-mode navigation
/// table with escape hanging up under the session's identifier, the insert
/// mode submit/leave/swallow rules, and nothing in command mode.
pub open spec fn phone_key_matches(m: PhoneModel, key: Key, mode: InputMode, r: Option<EventResponse<Action>>) -> bool {
    if mode == InputMode::Normal {
        match key {
            Key::Esc => (r matches Some(EventResponse::Stop(Action::HangUp(x)))
                && crate::state::opt_str_view(x) == m.operation_id),
            Key::Right => r == Some(EventResponse::Stop(Action::FocusNext)),
            Key::Left => r == Some(EventResponse::Stop(Action::FocusPrev)),
            Key::Down => r == Some(EventResponse::Stop(Action::Down)),
            Key::Up => r == Some(EventResponse::Stop(Action::Up)),
            Key::Enter => r == Some(EventResponse::Stop(Action::Submit)),
            Key::Char(c) => {
                if c == 'l' || c == 'L' {
                    r == Some(EventResponse::Stop(Action::FocusNext))
                } else if c == 'h' || c == 'H' {
                    r == Some(EventResponse::Stop(Action::FocusPrev))
                } else if c == 'j' || c == 'J' {
                    r == Some(EventResponse::Stop(Action::Down))
                } else if c == 'k' || c == 'K' {
                    r == Some(EventResponse::Stop(Action::Up))
                } else if c == 'f' || c == 'F' {
                    r == Some(EventResponse::Stop(Action::ToggleFullScreen))
                } else if c == ']' {
                    r == Some(EventResponse::Stop(Action::TabNext))
                } else if c == '[' {
                    r == Some(EventResponse::Stop(Action::TabPrev))
                } else if c == ':' {
                    (r matches Some(EventResponse::Stop(Action::FocusFooter(cname, arg)))
                        && cname@ == ":"@ && arg is None)
                } else if '1' <= c && c <= '9' {
                    r == Some(EventResponse::Stop(Action::Tab(((c as u32) - 49) as u32)))
                } else {
                    r is None
                }
            },
            _ => r is None,
        }
    } else if mode == InputMode::Insert && m.focused == 1 {
        match key {
            Key::Enter => r == Some(EventResponse::Stop(Action::Submit)),
            _ => r == Some(EventResponse::Stop(Action::Noop)),
        }
    } else if mode == InputMode::Insert && m.focused == 2 {
        match key {
            Key::Esc => r == Some(EventResponse::Stop(Action::Submit)),
            _ => r == Some(EventResponse::Stop(Action::Noop)),
        }
    } else {
        r is None
    }
}

/// Whether the session consumes a key press: every normal-mode key of its
/// table, and every key while one of its editors holds insert mode.
pub open spec fn phone_key_consumes(m: PhoneModel, key: Key, mode: InputMode) -> bool {
    if mode == InputMode::Normal {
        match key {
            Key::Esc | Key::Right | Key::Left | Key::Down | Key::Up | Key::Enter => true,
            Key::Char(c) => c == 'l' || c == 'L' || c == 'h' || c == 'H' || c == 'j'
                || c == 'J' || c == 'k' || c == 'K' || c == 'f' || c == 'F' || c == ']'
                || c == '[' || c == ':' || ('1' <= c && c <= '9'),
            _ => false,
        }
    } else if mode == InputMode::Insert {
        m.focused == 1 || m.focused == 2
    } else {
        false
    }
}

impl Phone {
    /// A fresh session over an operation: the given base URLs in the
    /// address ring, parameter tabs seeded from the descriptors, an empty
    /// body, and the parameter pane focused.
    pub fn new(op: &OperationItem, base_urls: Vec<String>) -> (r: Phone)
        ensures
            r@.operation_id == (match op.operation_id {
                Option::None => None::<Seq<char>>,
                Option::Some(s) => Some(s@),
            }),
            r@.path == op.path@,
            r@.method == op.method@,
            r@.address.base_urls == crate::state::strs_view(base_urls@),
            r@.address.focused == false,
            r@.editor.tabs == crate::parameter_editor::tabs_for(op.parameters@),
            r@.editor.focused == true,
            r@.editor.selected_tab == 0,
            r@.editor.input == Seq::<char>::empty(),
            r@.body.content_types == crate::body_editor::media_types_of(op.body_content@),
            r@.body.text == Seq::<char>::empty(),
            r@.body.index == 0,
            r@.body.focused == false,
            r@.viewer.content_types == crate::response_viewer::accept_types(op.response_schemas@),
            r@.viewer.index == 0,
            r@.viewer.focused == false,
            r@.focused == 1,
            r@.fullscreen is None,
    {
        let mut address = AddressPane::new(false);
        address.set_base_urls(base_urls);
        Phone {
            operation_id: crate::parameter_editor::clone_opt_string(&op.operation_id),
            path: op.path.clone(),
            method: op.method.clone(),
            address,
            editor: ParameterEditor::new(op, true),
            body: BodyEditor::new(op, false),
            viewer: ResponseViewer::new(op, false),
            focused_pane_index: 1,
            fullscreen_pane_index: None,
        }
    }

    /// Assemble the wire request from the current draft.
    pub fn build_request(&self) -> (r: BuiltRequest)
        ensures
            r@ == built_request_spec(self@),
    {
        let ghost m = self@;
        let url0 = self.address.path(self.path.as_str());
        // path parameters
        let mut url = url0;
        let ghost tabs = self@.editor.tabs;
        let tcount = self.editor.parameters.len();
        proof {
            assert(tabs.skip(0) =~= tabs);
            assert(subst_items(url@, tab_items(tabs, In::Path))
                == subst_items(url@, tab_items(tabs.skip(0), In::Path)));
        }
        let ghost url_goal = subst_items(url@, tab_items(tabs, In::Path));
        for t in 0..tcount
            invariant
                tcount == self.editor.parameters@.len(),
                tabs == self@.editor.tabs,
                url_goal == subst_items(url@, tab_items(tabs.skip(t as int), In::Path)),
        {
            proof {
                assert(tabs.skip(t as int)[0] == tabs[t as int]);
                assert(tabs.skip(t as int).skip(1) =~= tabs.skip(t + 1));
            }
            let tab = &self.editor.parameters[t];
            if tab.location == In::Path {
                let ghost items = tabs[t as int].items;
                proof {
                    lemma_subst_append(url@, items, tab_items(tabs.skip(t + 1), In::Path));
                    assert(items + tab_items(tabs.skip(t + 1), In::Path)
                        =~= tab_items(tabs.skip(t as int), In::Path));
                }
                let ghost u_in = url@;
                let icount = tab.items.len();
                proof {
                    assert(items.skip(0) =~= items);
                }
                for k in 0..icount
                    invariant
                        icount == tab.items@.len(),
                        items == tab@.items,
                        subst_items(u_in, items)
                            == subst_items(url@, items.skip(k as int)),
                        url_goal == subst_items(
                            subst_items(u_in, items),
                            tab_items(tabs.skip(t + 1), In::Path),
                        ),
                {
                    proof {
                        assert(items.skip(k as int)[0] == items[k as int]);
                        assert(items.skip(k as int).skip(1) =~= items.skip(k + 1));
                    }
                    let item = &tab.items[k];
                    match &item.value {
                        Some(v) => {
                            let pat = brace_name(item.name.as_str());
                            url = text::str_replace(url.as_str(), pat.as_str(), v.as_str());
                        },
                        None => {},
                    }
                }
                proof {
                    assert(items.skip(icount as int) =~= Seq::<ItemModel>::empty());
                }
            } else {
                proof {
                    assert(tab_items(tabs.skip(t as int), In::Path)
                        =~= tab_items(tabs.skip(t + 1), In::Path));
                }
            }
        }
        proof {
            assert(tabs.skip(tcount as int) =~= Seq::<TabModel>::empty());
            assert(url@ == url_goal);
        }
        // query pairs
        let mut query: Vec<(String, String)> = Vec::new();
        proof {
            assert(pairs_view(query@) =~= Seq::<(Seq<char>, Seq<char>)>::empty());
            assert(query_pairs(tab_items(tabs.skip(0), In::Query))
                == query_pairs(tab_items(tabs, In::Query)));
        }
        for t in 0..tcount
            invariant
                tcount == self.editor.parameters@.len(),
                tabs == self@.editor.tabs,
                pairs_view(query@) + query_pairs(tab_items(tabs.skip(t as int), In::Query))
                    == query_pairs(tab_items(tabs, In::Query)),
        {
            proof {
                assert(tabs.skip(t as int)[0] == tabs[t as int]);
                assert(tabs.skip(t as int).skip(1) =~= tabs.skip(t + 1));
            }
            let tab = &self.editor.parameters[t];
            if tab.location == In::Query {
                let ghost items = tabs[t as int].items;
                proof {
                    lemma_query_pairs_append(items, tab_items(tabs.skip(t + 1), In::Query));
                    assert(items + tab_items(tabs.skip(t + 1), In::Query)
                        =~= tab_items(tabs.skip(t as int), In::Query));
                    assert(items.skip(0) =~= items);
                    assert(pairs_view(query@) + query_pairs(items)
                        + query_pairs(tab_items(tabs.skip(t + 1), In::Query))
                        =~= pairs_view(query@) + (query_pairs(items)
                            + query_pairs(tab_items(tabs.skip(t + 1), In::Query))));
                }
                let icount = tab.items.len();
                for k in 0..icount
                    invariant
                        icount == tab.items@.len(),
                        items == tab@.items,
                        tabs == self@.editor.tabs,
                        pairs_view(query@) + query_pairs(items.skip(k as int))
                            + query_pairs(tab_items(tabs.skip(t + 1), In::Query))
                            == query_pairs(tab_items(tabs, In::Query)),
                {
                    proof {
                        assert(items.skip(k as int)[0] == items[k as int]);
                        assert(items.skip(k as int).skip(1) =~= items.skip(k + 1));
                    }
                    let item = &tab.items[k];
                    let keep = item.required || item.value.is_some();
                    if keep {
                        let val = match &item.value {
                            Some(v) => v.clone(),
                            None => String::new(),
                        };
                        let ghost q0 = query@;
                        query.push((item.name.clone(), val));
                        proof {
                            assert(pairs_view(query@)
                                =~= pairs_view(q0).push((items[k as int].name, val_or_empty(items[k as int]))));
                            assert(pairs_view(q0).push((items[k as int].name, val_or_empty(items[k as int])))
                                + query_pairs(items.skip(k + 1))
                                =~= pairs_view(q0) + query_pairs(items.skip(k as int)));
                        }
                    }
                }
                proof {
                    assert(items.skip(icount as int) =~= Seq::<ItemModel>::empty());
                }
            } else {
                proof {
                    assert(tab_items(tabs.skip(t as int), In::Query)
                        =~= tab_items(tabs.skip(t + 1), In::Query));
                }
            }
        }
        proof {
            assert(tabs.skip(tcount as int) =~= Seq::<TabModel>::empty());
            assert(pairs_view(query@) + Seq::<(Seq<char>, Seq<char>)>::empty()
                =~= pairs_view(query@));
            assert(pairs_view(query@) == query_pairs(tab_items(tabs, In::Query)));
        }
        // header pairs
        let mut headers: Vec<(String, String)> = Vec::new();
        proof {
            assert(pairs_view(headers@) =~= Seq::<(Seq<char>, Seq<char>)>::empty());
            assert(header_pairs(tab_items(tabs.skip(0), In::Header))
                == header_pairs(tab_items(tabs, In::Header)));
        }
        for t in 0..tcount
            invariant
                tcount == self.editor.parameters@.len(),
                tabs == self@.editor.tabs,
                pairs_view(headers@) + header_pairs(tab_items(tabs.skip(t as int), In::Header))
                    == header_pairs(tab_items(tabs, In::Header)),
        {
            proof {
                assert(tabs.skip(t as int)[0] == tabs[t as int]);
                assert(tabs.skip(t as int).skip(1) =~= tabs.skip(t + 1));
            }
            let tab = &self.editor.parameters[t];
            if tab.location == In::Header {
                let ghost items = tabs[t as int].items;
                proof {
                    lemma_header_pairs_append(items, tab_items(tabs.skip(t + 1), In::Header));
                    assert(items + tab_items(tabs.skip(t + 1), In::Header)
                        =~= tab_items(tabs.skip(t as int), In::Header));
                    assert(items.skip(0) =~= items);
                    assert(pairs_view(headers@) + header_pairs(items)
                        + header_pairs(tab_items(tabs.skip(t + 1), In::Header))
                        =~= pairs_view(headers@) + (header_pairs(items)
                            + header_pairs(tab_items(tabs.skip(t + 1), In::Header))));
                }
                let icount = tab.items.len();
                for k in 0..icount
                    invariant
                        icount == tab.items@.len(),
                        items == tab@.items,
                        tabs == self@.editor.tabs,
                        pairs_view(headers@) + header_pairs(items.skip(k as int))
                            + header_pairs(tab_items(tabs.skip(t + 1), In::Header))
                            == header_pairs(tab_items(tabs, In::Header)),
                {
                    proof {
                        assert(items.skip(k as int)[0] == items[k as int]);
                        assert(items.skip(k as int).skip(1) =~= items.skip(k + 1));
                    }
                    let item = &tab.items[k];
                    let val = match &item.value {
                        Some(v) => v.clone(),
                        None => String::new(),
                    };
                    let ghost h0 = headers@;
                    headers.push((item.name.clone(), val));
                    proof {
                        assert(pairs_view(headers@)
                            =~= pairs_view(h0).push((items[k as int].name, val_or_empty(items[k as int]))));
                        assert(pairs_view(h0).push((items[k as int].name, val_or_empty(items[k as int])))
                            + header_pairs(items.skip(k + 1))
                            =~= pairs_view(h0) + header_pairs(items.skip(k as int)));
                    }
                }
                proof {
                    assert(items.skip(icount as int) =~= Seq::<ItemModel>::empty());
                }
            } else {
                proof {
                    assert(tab_items(tabs.skip(t as int), In::Header)
                        =~= tab_items(tabs.skip(t + 1), In::Header));
                }
            }
        }
        proof {
            assert(tabs.skip(tcount as int) =~= Seq::<TabModel>::empty());
            assert(pairs_view(headers@) + Seq::<(Seq<char>, Seq<char>)>::empty()
                =~= pairs_view(headers@));
            assert(pairs_view(headers@) == header_pairs(tab_items(tabs, In::Header)));
        }
        let ghost headers_base = pairs_view(headers@);
        // content type and body
        let mut body: Option<String> = None;
        match self.body.content_type() {
            Some(ct) => {
                let ghost h0 = headers@;
                headers.push((String::from_str("content-type"), ct.clone()));
                proof {
                    reveal_strlit("content-type");
                    assert(pairs_view(headers@)
                        =~= pairs_view(h0).push(("content-type"@, m.body.content_types[m.body.index])));
                }
                body = Some(self.body.text.clone());
            },
            None => {},
        }
        // accept header
        match self.viewer.accept_type() {
            Some(ct) => {
                let ghost h0 = headers@;
                headers.push((String::from_str("accept"), ct.clone()));
                proof {
                    reveal_strlit("accept");
                    assert(pairs_view(headers@)
                        =~= pairs_view(h0).push(("accept"@, m.viewer.content_types[m.viewer.index])));
                }
            },
            None => {},
        }
        let r = BuiltRequest {
            method: self.method.clone(),
            url,
            query,
            headers,
            body,
        };
        proof {
            assert(r@ =~~= built_request_spec(m));
        }
        r
    }

    /// The message dialled for this session: the assembled request under
    /// the operation's identifier, an empty identifier when it has none.
    pub fn dial(&self) -> (r: Request)
        ensures
            r.request@ == built_request_spec(self@),
            r.operation_id@ == (match self@.operation_id {
                Option::Some(id) => id,
                Option::None => Seq::<char>::empty(),
            }),
    {
        let operation_id = match &self.operation_id {
            Some(id) => id.clone(),
            None => String::new(),
        };
        Request { request: self.build_request(), operation_id }
    }

    /// Parse one footer command into its action.
    pub fn handle_commands(&self, command_args: &String) -> (r: Option<Action>)
        ensures
            phone_command_matches(command_args@, r),
            r is Some,
    {
        let s = command_args.as_str();
        if text::str_eq(s, "q") {
            return Some(Action::Quit);
        }
        if text::str_eq(s, "send") || text::str_eq(s, "s") {
            return Some(Action::Dial);
        }
        if text::str_starts_with(s, "query ") || text::str_starts_with(s, "q ") {
            let parts = text::split_words(s);
            if parts.len() == 3 {
                proof {
                    assert(parts@.map_values(|w: String| w@)[1] == parts@[1]@);
                    assert(parts@.map_values(|w: String| w@)[2] == parts@[2]@);
                }
                if text::str_eq(parts[1].as_str(), "add") {
                    return Some(Action::AddQuery(parts[2].clone()));
                }
                if text::str_eq(parts[1].as_str(), "rm") {
                    return Some(Action::RemoveQuery(parts[2].clone()));
                }
            }
            return Some(Action::TimedStatusLine(
                String::from_str("invalid query args. query add/rm <query-name>"),
                3,
            ));
        }
        if text::str_starts_with(s, "header ") || text::str_starts_with(s, "h ") {
            let parts = text::split_words(s);
            if parts.len() == 3 {
                proof {
                    assert(parts@.map_values(|w: String| w@)[1] == parts@[1]@);
                    assert(parts@.map_values(|w: String| w@)[2] == parts@[2]@);
                }
                if text::str_eq(parts[1].as_str(), "add") {
                    return Some(Action::AddHeader(parts[2].clone()));
                }
                if text::str_eq(parts[1].as_str(), "rm") {
                    return Some(Action::RemoveHeader(parts[2].clone()));
                }
            }
            return Some(Action::TimedStatusLine(
                String::from_str("invalid header args. header add/rm <header-name>"),
                3,
            ));
        }
        if text::str_starts_with(s, "request ") || text::str_starts_with(s, "r ") {
            let parts = text::split_words(s);
            if parts.len() == 3 {
                proof {
                    assert(parts@.map_values(|w: String| w@)[1] == parts@[1]@);
                    assert(parts@.map_values(|w: String| w@)[2] == parts@[2]@);
                }
                if text::str_eq(parts[1].as_str(), "open") {
                    return Some(Action::OpenRequestPayload(parts[2].clone()));
                }
            }
            return Some(Action::TimedStatusLine(
                String::from_str("invalid request args. request open <payload-file-name>"),
                3,
            ));
        }
        if text::str_starts_with(s, "response ") || text::str_starts_with(s, "s ") {
            let parts = text::split_words(s);
            if parts.len() == 3 {
                proof {
                    assert(parts@.map_values(|w: String| w@)[1] == parts@[1]@);
                    assert(parts@.map_values(|w: String| w@)[2] == parts@[2]@);
                }
                if text::str_eq(parts[1].as_str(), "save") {
                    return Some(Action::SaveResponsePayload(parts[2].clone()));
                }
            }
            return Some(Action::TimedStatusLine(
                String::from_str("invalid response args. response save <payload-file-name>"),
                3,
            ));
        }
        Some(Action::TimedStatusLine(
            String::from_str("unknown command. available commands are: send, query, header, request, response"),
            3,
        ))
    }

    /// Interpret one key press. In normal mode the key maps to a navigation
    /// action; escape hangs the session up under its operation identifier.
    /// In insert mode the key edits the focused editor's text: enter
    /// submits the parameter editor, escape leaves the body editor, and
    /// characters and backspace edit the text. Command mode keys belong to
    /// the footer.
    pub fn handle_key(&mut self, key: Key, state: &State) -> (r: Option<EventResponse<Action>>)
        ensures
            final(self)@ == phone_key_model(old(self)@, key, state.input_mode),
            phone_key_matches(old(self)@, key, state.input_mode, r),
    {
        let ghost m0 = self@;
        match state.input_mode {
            InputMode::Normal => {
                let r = match key {
                    Key::Esc => Some(EventResponse::Stop(Action::HangUp(
                        crate::parameter_editor::clone_opt_string(&self.operation_id),
                    ))),
                    Key::Right => Some(EventResponse::Stop(Action::FocusNext)),
                    Key::Left => Some(EventResponse::Stop(Action::FocusPrev)),
                    Key::Down => Some(EventResponse::Stop(Action::Down)),
                    Key::Up => Some(EventResponse::Stop(Action::Up)),
                    Key::Enter => Some(EventResponse::Stop(Action::Submit)),
                    Key::Char(c) => {
                        if c == 'l' || c == 'L' {
                            Some(EventResponse::Stop(Action::FocusNext))
                        } else if c == 'h' || c == 'H' {
                            Some(EventResponse::Stop(Action::FocusPrev))
                        } else if c == 'j' || c == 'J' {
                            Some(EventResponse::Stop(Action::Down))
                        } else if c == 'k' || c == 'K' {
                            Some(EventResponse::Stop(Action::Up))
                        } else if c == 'f' || c == 'F' {
                            Some(EventResponse::Stop(Action::ToggleFullScreen))
                        } else if c == ']' {
                            Some(EventResponse::Stop(Action::TabNext))
                        } else if c == '[' {
                            Some(EventResponse::Stop(Action::TabPrev))
                        } else if c == ':' {
                            Some(EventResponse::Stop(Action::FocusFooter(String::from_str(":"), None)))
                        } else if '1' <= c && c <= '9' {
                            Some(EventResponse::Stop(Action::Tab((c as u32) - 49)))
                        } else {
                            None
                        }
                    },
                    _ => None,
                };
                r
            },
            InputMode::Insert => {
                if self.focused_pane_index == 1 {
                    match key {
                        Key::Enter => Some(EventResponse::Stop(Action::Submit)),
                        Key::Char(c) => {
                            text::push_char(&mut self.editor.input, c);
                            proof {
                                assert(self@ =~~= (PhoneModel {
                                    editor: EditorModel {
                                        input: m0.editor.input.push(c),
                                        ..m0.editor
                                    },
                                    ..m0
                                }));
                            }
                            Some(EventResponse::Stop(Action::Noop))
                        },
                        Key::Backspace => {
                            text::pop_char(&mut self.editor.input);
                            proof {
                                assert(self@ =~~= (PhoneModel {
                                    editor: EditorModel {
                                        input: if m0.editor.input.len() > 0 {
                                            m0.editor.input.drop_last()
                                        } else {
                                            m0.editor.input
                                        },
                                        ..m0.editor
                                    },
                                    ..m0
                                }));
                            }
                            Some(EventResponse::Stop(Action::Noop))
                        },
                        _ => Some(EventResponse::Stop(Action::Noop)),
                    }
                } else if self.focused_pane_index == 2 {
                    match key {
                        Key::Esc => Some(EventResponse::Stop(Action::Submit)),
                        Key::Char(c) => {
                            text::push_char(&mut self.body.text, c);
                            proof {
                                assert(self@ =~~= (PhoneModel {
                                    body: BodyModel { text: m0.body.text.push(c), ..m0.body },
                                    ..m0
                                }));
                            }
                            Some(EventResponse::Stop(Action::Noop))
                        },
                        Key::Enter => {
                            text::push_char(&mut self.body.text, '\n');
                            proof {
                                assert(self@ =~~= (PhoneModel {
                                    body: BodyModel { text: m0.body.text.push('\n'), ..m0.body },
                                    ..m0
                                }));
                            }
                            Some(EventResponse::Stop(Action::Noop))
                        },
                        Key::Backspace => {
                            text::pop_char(&mut self.body.text);
                            proof {
                                assert(self@ =~~= (PhoneModel {
                                    body: BodyModel {
                                        text: if m0.body.text.len() > 0 {
                                            m0.body.text.drop_last()
                                        } else {
                                            m0.body.text
                                        },
                                        ..m0.body
                                    },
                                    ..m0
                                }));
                            }
                            Some(EventResponse::Stop(Action::Noop))
                        },
                        _ => Some(EventResponse::Stop(Action::Noop)),
                    }
                } else {
                    None
                }
            },
            InputMode::Command => None,
        }
    }

    /// Route one action to the pane at the given index.
    fn route(&mut self, action: &Action, state: &mut State, at: usize) -> (r: Option<Action>)
        ensures
            (final(self)@, final(state).input_mode)
                == route_at(old(self)@, *action, old(state).input_mode, at as int),
            final(state).openapi_operations == old(state).openapi_operations,
            final(state).active_operation_index == old(state).active_operation_index,
            final(state).active_tag_name == old(state).active_tag_name,
            final(state).active_filter == old(state).active_filter,
            final(state).responses == old(state).responses,
            final(state).servers == old(state).servers,
            final(state).tags == old(state).tags,
            final(state).openapi_input_source == old(state).openapi_input_source,
            (at == 3 && ((*action) matches Action::Submit)) ==> r == Some(Action::Dial),
    {
        let ghost m0 = self@;
        let ghost mode0 = state.input_mode;
        let r = if at == 0 {
            self.address.update(action)
        } else if at == 1 {
            self.editor.update(action, state)
        } else if at == 2 {
            self.body.update(action, state)
        } else if at == 3 {
            self.viewer.update(action)
        } else {
            None
        };
        proof {
            assert((self@, state.input_mode) =~~= route_at(m0, *action, mode0, at as int));
        }
        r
    }

    /// Apply one action to the session. The state change follows the
    /// session's transition function; dialling answers the assembled
    /// request; pane hooks may emit follow-up actions.
    pub fn update(&mut self, action: &Action, state: &mut State) -> (r: (Vec<Action>, Option<Request>))
        ensures
            (match *action {
                Action::FooterResult(_, Option::Some(args)) => {
                    &&& r.0@.len() >= 1
                    &&& phone_command_matches(args@, Some(r.0@[0]))
                    &&& (final(self)@, final(state).input_mode)
                        == phone_step(old(self)@, *action, old(state).input_mode, Some(r.0@[0]))
                },
                _ => (final(self)@, final(state).input_mode)
                    == phone_step(old(self)@, *action, old(state).input_mode, None),
            }),
            match *action {
                Action::Dial => r.1 matches Some(req)
                    && req.request@ == built_request_spec(old(self)@)
                    && req.operation_id@ == (match old(self)@.operation_id {
                        Option::Some(id) => id,
                        Option::None => Seq::<char>::empty(),
                    }),
                _ => r.1 is None,
            },
            final(state).openapi_operations == old(state).openapi_operations,
            final(state).active_operation_index == old(state).active_operation_index,
            final(state).active_tag_name == old(state).active_tag_name,
            final(state).active_filter == old(state).active_filter,
            final(state).responses == old(state).responses,
            final(state).servers == old(state).servers,
            final(state).tags == old(state).tags,
            final(state).openapi_input_source == old(state).openapi_input_source,
    {
        let ghost m0 = self@;
        let ghost mode0 = state.input_mode;
        let mut actions: Vec<Action> = Vec::new();
        let mut outbound: Option<Request> = None;
        match action {
            Action::FocusNext => {
                let at = self.focused_pane_index;
                if let Some(a) = self.route(&Action::UnFocus, state, at) {
                    actions.push(a);
                }
                let next = if self.focused_pane_index < PANE_COUNT - 1 {
                    self.focused_pane_index + 1
                } else {
                    0
                };
                self.focused_pane_index = next;
                if let Some(a) = self.route(&Action::Focus, state, next) {
                    actions.push(a);
                }
                proof {
                    assert((self@, state.input_mode) =~~= phone_step(m0, *action, mode0, None));
                }
            },
            Action::FocusPrev => {
                let at = self.focused_pane_index;
                if let Some(a) = self.route(&Action::UnFocus, state, at) {
                    actions.push(a);
                }
                let prev = if self.focused_pane_index > 0 {
                    self.focused_pane_index - 1
                } else {
                    PANE_COUNT - 1
                };
                self.focused_pane_index = prev;
                if let Some(a) = self.route(&Action::Focus, state, prev) {
                    actions.push(a);
                }
                proof {
                    assert((self@, state.input_mode) =~~= phone_step(m0, *action, mode0, None));
                }
            },
            Action::ToggleFullScreen => {
                self.fullscreen_pane_index = match self.fullscreen_pane_index {
                    Some(_) => None,
                    None => Some(self.focused_pane_index),
                };
                proof {
                    assert((self@, state.input_mode) =~~= phone_step(m0, *action, mode0, None));
                }
            },
            Action::Update => {
                if let Some(a) = self.route(&Action::Update, state, 0) {
                    actions.push(a);
                }
                if let Some(a) = self.route(&Action::Update, state, 1) {
                    actions.push(a);
                }
                if let Some(a) = self.route(&Action::Update, state, 2) {
                    actions.push(a);
                }
                if let Some(a) = self.route(&Action::Update, state, 3) {
                    actions.push(a);
                }
                proof {
                    assert((self@, state.input_mode) =~~= phone_step(m0, *action, mode0, None));
                }
            },
            Action::Dial => {
                outbound = Some(self.dial());
                proof {
                    assert((self@, state.input_mode) =~~= phone_step(m0, *action, mode0, None));
                }
            },
            Action::FocusFooter(_, _) => {
                let at = self.focused_pane_index;
                if let Some(a) = self.route(&Action::UnFocus, state, at) {
                    actions.push(a);
                }
                proof {
                    assert((self@, state.input_mode) =~~= phone_step(m0, *action, mode0, None));
                }
            },
            Action::FooterResult(_, Some(args)) => {
                let at = self.focused_pane_index;
                if let Some(a) = self.route(&Action::Focus, state, at) {
                    actions.push(a);
                }
                let cmd = self.handle_commands(args).unwrap();
                let mut rest: Vec<Action> = Vec::new();
                let is_editor = matches!(cmd,
                    Action::AddQuery(_) | Action::RemoveQuery(_)
                    | Action::AddHeader(_) | Action::RemoveHeader(_));
                if !is_editor {
                    // hand the command to every pane in order; an editor
                    // command is instead emitted below and applied once it
                    // comes back through the queue
                    if let Some(a) = self.route(&cmd, state, 0) {
                        rest.push(a);
                    }
                    if let Some(a) = self.route(&cmd, state, 1) {
                        rest.push(a);
                    }
                    if let Some(a) = self.route(&cmd, state, 2) {
                        rest.push(a);
                    }
                    if let Some(a) = self.route(&cmd, state, 3) {
                        rest.push(a);
                    }
                }
                let mut emitted: Vec<Action> = Vec::new();
                emitted.push(cmd);
                emitted.append(&mut rest);
                return (emitted, None);
            },
            Action::AddQuery(_) | Action::RemoveQuery(_)
            | Action::AddHeader(_) | Action::RemoveHeader(_) => {
                if let Some(a) = self.route(action, state, 0) {
                    actions.push(a);
                }
                if let Some(a) = self.route(action, state, 1) {
                    actions.push(a);
                }
                if let Some(a) = self.route(action, state, 2) {
                    actions.push(a);
                }
                if let Some(a) = self.route(action, state, 3) {
                    actions.push(a);
                }
                proof {
                    assert((self@, state.input_mode) =~~= phone_step(m0, *action, mode0, None));
                }
            },
            Action::FooterResult(_, None) => {
                let at = self.focused_pane_index;
                if let Some(a) = self.route(&Action::Focus, state, at) {
                    actions.push(a);
                }
                proof {
                    assert((self@, state.input_mode) =~~= phone_step(m0, *action, mode0, None));
                }
            },
            _ => {
                let at = self.focused_pane_index;
                if let Some(a) = self.route(action, state, at) {
                    actions.push(a);
                }
                proof {
                    assert((self@, state.input_mode) =~~= phone_step(m0, *action, mode0, None));
                }
            },
        }
        (actions, outbound)
    }
}

} // verus!
