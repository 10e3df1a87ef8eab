//! The application: the home page, the stack of open call sessions, the
//! cache of suspended sessions keyed by operation identifier, the history
//! popup, the footer, and the dispatch step that routes one action through
//! popup, active page and footer each tick.

use vstd::prelude::*;
use vstd::string::*;
use crate::action::{Action, EventResponse, Key, Mode};
use crate::footer::FooterPane;
use crate::history::{HistoryPane, OperationHistoryItem, HistoryItemModel};
use crate::home::Home;
use crate::parameter_editor::clone_opt_string;
use crate::phone::{Phone, built_request_spec};
use crate::request::Request;
use crate::state::{InputMode, OperationItem, OperationItemType, State, op_pos, opt_str_view, lemma_op_pos, lemma_first_id_is_op_pos, first_id_at, dial_urls};
use crate::table::{self, has_key, key_pos, lemma_key_pos};

verus! {

/// The cache after one session is stored under a key: the first entry with
/// that key is overwritten, or the pair is appended when the key is new.
pub open spec fn upsert_session(h: Seq<(String, Phone)>, k: String, p: Phone) -> Seq<(String, Phone)> {
    let pos = key_pos(h, k@);
    if pos < h.len() {
        h.update(pos, (k, p))
    } else {
        h.push((k, p))
    }
}

/// Storing a session under a key leaves it retrievable at that key's
/// position.
pub proof fn lemma_upsert_found(h: Seq<(String, Phone)>, k: String, p: Phone)
    ensures
        key_pos(upsert_session(h, k, p), k@) < upsert_session(h, k, p).len(),
        upsert_session(h, k, p)[key_pos(upsert_session(h, k, p), k@)] == (k, p),
    decreases h.len(),
{
    lemma_key_pos(h, k@);
    let h2 = upsert_session(h, k, p);
    lemma_key_pos(h2, k@);
    if key_pos(h2, k@) < h2.len() {
        // the first key position is unchanged by writing (k, p) at or past it
        if key_pos(h, k@) < h.len() {
            assert(h2[key_pos(h, k@)].0 == k);
            if key_pos(h2, k@) < key_pos(h, k@) {
                assert(h2[key_pos(h2, k@)] == h[key_pos(h2, k@)]);
            }
            if key_pos(h2, k@) > key_pos(h, k@) {
                assert(h2[key_pos(h, k@)].0@ == k@);
            }
            assert(h2[key_pos(h2, k@)] == (k, p));
        } else {
            assert(h2 == h.push((k, p)));
            if key_pos(h2, k@) < h.len() {
                assert(h2[key_pos(h2, k@)] == h[key_pos(h2, k@)]);
                assert(has_key(h, k@));
            }
            assert(h2[key_pos(h2, k@)] == (k, p));
        }
    } else {
        if key_pos(h, k@) < h.len() {
            assert(h2[key_pos(h, k@)] == (k, p));
            assert(h2[key_pos(h, k@)].0@ == k@);
            assert(has_key(h2, k@));
        } else {
            assert(h2[h.len() as int] == (k, p));
            assert(h2[h.len() as int].0@ == k@);
            assert(has_key(h2, k@));
        }
        assert(false);
    }
}

/// Hanging a session up under a key and reopening that key resumes the very
/// session that was hung up: with `h2` the cache after the top of `calls`
/// is stored under `k`, the key resolves in `h2` and yields exactly the old
/// top session, draft and all. The response store is keyed separately and
/// is untouched by both steps, so the last recorded response survives with
/// it.
pub proof fn lemma_hang_up_then_resume(calls: Seq<Phone>, h: Seq<(String, Phone)>, k: String)
    requires
        calls.len() > 0,
    ensures
        ({
            let h2 = upsert_session(h, k, calls[0]);
            &&& key_pos(h2, k@) < h2.len()
            &&& h2[key_pos(h2, k@)].1 == calls[0]
            &&& seq![h2[key_pos(h2, k@)].1] + calls.skip(1) =~= calls
        }),
{
    lemma_upsert_found(h, k, calls[0]);
}

/// The entries offered by the history popup: the catalog's operations whose
/// identifier rests in the cache, in catalog order.
pub open spec fn history_items(ops: Seq<OperationItem>, h: Seq<(String, Phone)>) -> Seq<HistoryItemModel>
    decreases ops.len(),
{
    if ops.len() == 0 {
        Seq::empty()
    } else {
        (match ops[0].operation_id {
            Option::Some(k) => if has_key(h, k@) {
                seq![HistoryItemModel {
                    operation_id: k@,
                    method: ops[0].method@,
                    path: ops[0].path@,
                }]
            } else {
                Seq::<HistoryItemModel>::empty()
            },
            Option::None => Seq::<HistoryItemModel>::empty(),
        }) + history_items(ops.skip(1), h)
    }
}

/// A fresh session was opened over the operation: it sits on top of the
/// stack with the operation's identity, its tabs seeded from the
/// descriptors, an empty body and the candidate base URLs installed.
pub open spec fn fresh_call_opened(
    old_calls: Seq<Phone>,
    new_calls: Seq<Phone>,
    op: OperationItem,
    st: State,
    conf: Option<String>,
) -> bool {
    &&& new_calls.len() == old_calls.len() + 1
    &&& new_calls.skip(1) == old_calls
    &&& new_calls[0]@.operation_id == opt_str_view(op.operation_id)
    &&& new_calls[0]@.path == op.path@
    &&& new_calls[0]@.method == op.method@
    &&& new_calls[0]@.editor.tabs == crate::parameter_editor::tabs_for(op.parameters@)
    &&& new_calls[0]@.editor.input == Seq::<char>::empty()
    &&& new_calls[0]@.body.content_types == crate::body_editor::media_types_of(op.body_content@)
    &&& new_calls[0]@.body.text == Seq::<char>::empty()
    &&& new_calls[0]@.viewer.content_types
        == crate::response_viewer::accept_types(op.response_schemas@)
    &&& new_calls[0]@.address.base_urls == dial_urls(st, conf)
    &&& new_calls[0]@.focused == 1
    &&& new_calls[0]@.fullscreen is None
}

/// The position of the first binding matching the chord; the keymap length
/// when none does.
pub open spec fn chord_pos(km: Seq<(Vec<Key>, Action)>, chord: Seq<Key>) -> int
    decreases km.len(),
{
    if km.len() == 0 {
        0
    } else if km[0].0@ == chord {
        0
    } else {
        1 + chord_pos(km.skip(1), chord)
    }
}

pub proof fn lemma_chord_pos(km: Seq<(Vec<Key>, Action)>, chord: Seq<Key>)
    ensures
        0 <= chord_pos(km, chord) <= km.len(),
        chord_pos(km, chord) < km.len() ==> km[chord_pos(km, chord)].0@ == chord
            && (forall|j: int| 0 <= j < chord_pos(km, chord)
                ==> (#[trigger] km[j].0)@ != chord),
        chord_pos(km, chord) == km.len() ==> (forall|j: int| 0 <= j < km.len()
            ==> (#[trigger] km[j].0)@ != chord),
    decreases km.len(),
{
    if km.len() > 0 && km[0].0@ != chord {
        lemma_chord_pos(km.skip(1), chord);
        assert forall|j: int| 0 <= j < chord_pos(km, chord)
            implies (#[trigger] km[j].0)@ != chord by {
            if j > 0 {
                assert(km.skip(1)[j - 1] == km[j]);
            }
        }
        if chord_pos(km, chord) == km.len() {
            assert forall|j: int| 0 <= j < km.len()
                implies (#[trigger] km[j].0)@ != chord by {
                if j > 0 {
                    assert(km.skip(1)[j - 1] == km[j]);
                }
            }
        }
    }
}

/// Whether two key sequences are the same keys in the same order.
fn keys_eq(a: &Vec<Key>, b: &Vec<Key>) -> (r: bool)
    ensures
        r == (a@ == b@),
{
    if a.len() != b.len() {
        return false;
    }
    let n = a.len();
    for i in 0..n
        invariant
            n == a@.len(),
            n == b@.len(),
            forall|j: int| 0 <= j < i ==> a@[j] == b@[j],
    {
        if a[i] != b[i] {
            return false;
        }
    }
    proof {
        assert(a@ =~= b@);
    }
    true
}

/// The first binding matching the chord, when one exists.
fn find_binding<'a>(keymap: &'a Vec<(Vec<Key>, Action)>, chord: &Vec<Key>) -> (r: Option<&'a Action>)
    ensures
        match r {
            Some(a) => chord_pos(keymap@, chord@) < keymap@.len()
                && *a == keymap@[chord_pos(keymap@, chord@)].1,
            None => chord_pos(keymap@, chord@) >= keymap@.len(),
        },
{
    let ghost km = keymap@;
    let n = keymap.len();
    proof {
        assert(km.skip(0) =~= km);
        lemma_chord_pos(km, chord@);
    }
    for i in 0..n
        invariant
            n == km.len(),
            km == keymap@,
            chord_pos(km, chord@) == i + chord_pos(km.skip(i as int), chord@),
            chord_pos(km.skip(i as int), chord@) >= 0,
    {
        proof {
            assert(km.skip(i as int)[0] == km[i as int]);
            assert(km.skip(i as int).skip(1) =~= km.skip(i + 1));
            lemma_chord_pos(km.skip(i + 1), chord@);
        }
        if keys_eq(&keymap[i].0, chord) {
            return Some(&keymap[i].1);
        }
    }
    proof {
        assert(km.skip(n as int) =~= Seq::<(Vec<Key>, Action)>::empty());
    }
    None
}

/// The application.
pub struct App {
    pub home: Home,
    pub calls: Vec<Phone>,
    pub history: Vec<(String, Phone)>,
    pub popup: Option<HistoryPane>,
    pub footer: FooterPane,
    pub mode: Mode,
    pub last_tick_key_events: Vec<Key>,
    pub should_quit: bool,
    pub should_suspend: bool,
    pub default_base_url: Option<String>,
    pub state: State,
}

impl App {
    /// A fresh application over a loaded state: the home page alone, no
    /// open or suspended sessions, no popup, nothing pending.
    pub fn new(state: State, default_base_url: Option<String>) -> (r: App)
        ensures
            r.calls@ == Seq::<Phone>::empty(),
            r.history@ == Seq::<(String, Phone)>::empty(),
            r.popup is None,
            r.mode == Mode::Home,
            r.should_quit == false,
            r.should_suspend == false,
            r.state == state,
            r.default_base_url == default_base_url,
            r.last_tick_key_events@ == Seq::<Key>::empty(),
            table::keys_unique(r.history@),
    {
        let r = App {
            home: Home::new(),
            calls: Vec::new(),
            history: Vec::new(),
            popup: None,
            footer: FooterPane::new(),
            mode: Mode::Home,
            last_tick_key_events: Vec::new(),
            should_quit: false,
            should_suspend: false,
            default_base_url,
            state,
        };
        proof {
            assert(r.calls@ =~= Seq::<Phone>::empty());
            assert(r.history@ =~= Seq::<(String, Phone)>::empty());
            assert(r.last_tick_key_events@ =~= Seq::<Key>::empty());
        }
        r
    }

    /// Suspend the active session: pop the top of the stack and, when an
    /// identifier is given, store the session in the cache under it,
    /// overwriting any earlier entry. Without an identifier the session is
    /// discarded. An empty stack is left alone.
    pub fn hang_up(&mut self, operation_id: &Option<String>)
        ensures
            old(self).calls@.len() == 0 ==> final(self).calls == old(self).calls
                && final(self).history == old(self).history,
            old(self).calls@.len() > 0 ==> final(self).calls@ == old(self).calls@.skip(1)
                && (match *operation_id {
                    Option::Some(k) => final(self).history@
                        == upsert_session(old(self).history@, k, old(self).calls@[0]),
                    Option::None => final(self).history == old(self).history,
                }),
            final(self).home == old(self).home,
            final(self).popup == old(self).popup,
            final(self).footer == old(self).footer,
            final(self).state == old(self).state,
            final(self).should_quit == old(self).should_quit,
            final(self).should_suspend == old(self).should_suspend,
            table::keys_unique(old(self).history@) ==> table::keys_unique(final(self).history@),
    {
        if self.calls.len() == 0 {
            return;
        }
        let ghost h0 = self.history@;
        let phone = self.calls.remove(0);
        proof {
            assert(old(self).calls@.remove(0) =~= old(self).calls@.skip(1));
        }
        match operation_id {
            Some(k) => {
                match table::find_key(&self.history, k.as_str()) {
                    Some(i) => {
                        self.history.remove(i);
                        self.history.insert(i, (k.clone(), phone));
                        proof {
                            assert(self.history@
                                =~= h0.update(i as int, (*k, old(self).calls@[0])));
                            if table::keys_unique(h0) {
                                table::lemma_update_same_key_unique(
                                    h0, i as int, *k, old(self).calls@[0]);
                            }
                        }
                    },
                    None => {
                        self.history.push((k.clone(), phone));
                        proof {
                            if table::keys_unique(h0) {
                                table::lemma_push_new_key_unique(
                                    h0, *k, old(self).calls@[0]);
                            }
                        }
                    },
                }
            },
            None => {},
        }
    }

    /// Open a session on the operation with the given identifier. A missing
    /// or webhook operation is ignored. When the operation's identifier has
    /// a suspended session in the cache, that session is removed from the
    /// cache and resumed on top of the stack, draft and all; otherwise a
    /// fresh session over the operation is opened.
    pub fn new_call(&mut self, operation_id: &Option<String>)
        ensures
            ({
                let ops = old(self).state.openapi_operations@;
                let p = op_pos(ops, *operation_id);
                if p >= ops.len() || ops[p].kind != OperationItemType::Path {
                    final(self).calls == old(self).calls
                        && final(self).history == old(self).history
                } else {
                    match ops[p].operation_id {
                        Option::Some(k) => {
                            if has_key(old(self).history@, k@) {
                                let pos = key_pos(old(self).history@, k@);
                                final(self).calls@
                                    == seq![old(self).history@[pos].1] + old(self).calls@
                                    && final(self).history@ == old(self).history@.remove(pos)
                            } else {
                                final(self).history == old(self).history
                                    && fresh_call_opened(old(self).calls@, final(self).calls@,
                                        ops[p], old(self).state, old(self).default_base_url)
                            }
                        },
                        Option::None => final(self).history == old(self).history
                            && fresh_call_opened(old(self).calls@, final(self).calls@,
                                ops[p], old(self).state, old(self).default_base_url),
                    }
                }
            }),
            final(self).home == old(self).home,
            final(self).popup == old(self).popup,
            final(self).footer == old(self).footer,
            final(self).state == old(self).state,
            final(self).should_quit == old(self).should_quit,
            final(self).should_suspend == old(self).should_suspend,
            table::keys_unique(old(self).history@) ==> table::keys_unique(final(self).history@),
    {
        let ghost ops = self.state.openapi_operations@;
        let arg = clone_opt_string(operation_id);
        let found = self.state.get_operation(arg);
        match found {
            None => {
                proof {
                    lemma_op_pos(ops, *operation_id);
                    if op_pos(ops, *operation_id) < ops.len() {
                        assert(crate::state::opt_id_eq(
                            ops[op_pos(ops, *operation_id)].operation_id,
                            *operation_id,
                        ));
                    }
                }
            },
            Some(op) => {
                proof {
                    let i = choose|i: int|
                        #[trigger] first_id_at(ops, *operation_id, i) && *op == ops[i];
                    lemma_first_id_is_op_pos(ops, *operation_id, i);
                }
                if matches!(op.kind, OperationItemType::Path) {
                    let resumed = match &op.operation_id {
                        Some(k) => {
                            match table::find_key(&self.history, k.as_str()) {
                                Some(i) => {
                                    proof {
                                        if table::keys_unique(self.history@) {
                                            table::lemma_remove_keeps_unique(
                                                self.history@, i as int);
                                        }
                                    }
                                    let entry = self.history.remove(i);
                                    self.calls.insert(0, entry.1);
                                    proof {
                                        assert(self.calls@
                                            =~= seq![old(self).history@[i as int].1]
                                                + old(self).calls@);
                                    }
                                    true
                                },
                                None => false,
                            }
                        },
                        None => false,
                    };
                    if !resumed {
                        let urls = self.state.default_server_urls(&self.default_base_url, &None);
                        proof {
                            let confs = match old(self).default_base_url {
                                Option::None => Seq::<Seq<char>>::empty(),
                                Option::Some(u) => seq![crate::text::trim_trailing(u@, '/')],
                            };
                            assert(confs + Seq::<Seq<char>>::empty()
                                + crate::state::urls_of(old(self).state.servers@)
                                =~= confs + crate::state::urls_of(old(self).state.servers@));
                        }
                        let phone = Phone::new(op, urls);
                        self.calls.insert(0, phone);
                        proof {
                            assert(self.calls@.skip(1) =~= old(self).calls@);
                        }
                    }
                }
            },
        }
    }

    /// Open the history popup over the suspended sessions, listed in
    /// catalog order.
    pub fn open_history(&mut self)
        ensures
            (match final(self).popup {
                Option::Some(p) => p@.items
                    == history_items(old(self).state.openapi_operations@, old(self).history@)
                    && (p@.items.len() == 0 ==> p@.index is None)
                    && (p@.items.len() > 0 ==> p@.index == Some(0int)),
                Option::None => false,
            }),
            final(self).home == old(self).home,
            final(self).calls == old(self).calls,
            final(self).history == old(self).history,
            final(self).footer == old(self).footer,
            final(self).state == old(self).state,
            final(self).should_quit == old(self).should_quit,
            final(self).should_suspend == old(self).should_suspend,
    {
        let ghost ops = self.state.openapi_operations@;
        let ghost h = self.history@;
        let mut items: Vec<OperationHistoryItem> = Vec::new();
        let n = self.state.openapi_operations.len();
        proof {
            assert(ops.skip(0) =~= ops);
            assert(items@.map_values(|it: OperationHistoryItem| it@)
                + history_items(ops, h) =~= history_items(ops, h));
        }
        for i in 0..n
            invariant
                n == ops.len(),
                ops == self.state.openapi_operations@,
                h == self.history@,
                items@.map_values(|it: OperationHistoryItem| it@)
                    + history_items(ops.skip(i as int), h) == history_items(ops, h),
        {
            proof {
                assert(ops.skip(i as int)[0] == ops[i as int]);
                assert(ops.skip(i as int).skip(1) =~= ops.skip(i + 1));
            }
            let op = &self.state.openapi_operations[i];
            match &op.operation_id {
                Some(k) => {
                    let present = matches!(table::find_key(&self.history, k.as_str()), Some(_));
                    if present {
                        let ghost it0 = items@;
                        items.push(OperationHistoryItem {
                            operation_id: k.clone(),
                            method: op.method.clone(),
                            path: op.path.clone(),
                        });
                        proof {
                            assert(items@.map_values(|it: OperationHistoryItem| it@)
                                =~~= it0.map_values(|it: OperationHistoryItem| it@)
                                    .push(items@[it0.len() as int]@));
                            assert(items@.map_values(|it: OperationHistoryItem| it@)
                                + history_items(ops.skip(i + 1), h)
                                =~~= history_items(ops, h));
                        }
                    }
                },
                None => {},
            }
        }
        proof {
            assert(ops.skip(n as int) =~= Seq::<OperationItem>::empty());
            assert(items@.map_values(|it: OperationHistoryItem| it@)
                + Seq::<HistoryItemModel>::empty()
                =~= items@.map_values(|it: OperationHistoryItem| it@));
        }
        self.popup = Some(HistoryPane::new(items));
    }

    /// One dispatch step: apply the application-level effect of the action
    /// (quit and suspend flags, key-chord buffer, session stack and cache,
    /// history popup), then route the action to the popup when one is open,
    /// else to the active session, else to the home page, and finally to
    /// the footer. Follow-up actions are answered for the caller's queue;
    /// dialling answers the assembled request for the execution path.
    pub fn update(&mut self, action: &Action, now: u64) -> (r: (Vec<Action>, Option<Request>))
        requires
            old(self).state.tags@.len() < usize::MAX,
        ensures
            // quit, suspend and chord-buffer effects
            (match *action {
                Action::Quit => final(self).should_quit
                    == (old(self).state.input_mode == InputMode::Normal || old(self).should_quit),
                Action::Suspend => final(self).should_quit == old(self).should_quit
                    && final(self).should_suspend,
                Action::Resume => final(self).should_quit == old(self).should_quit
                    && !final(self).should_suspend,
                Action::Tick => final(self).last_tick_key_events@ == Seq::<Key>::empty()
                    && final(self).should_quit == old(self).should_quit,
                _ => final(self).should_quit == old(self).should_quit
                    && final(self).should_suspend == old(self).should_suspend,
            }),
            // the session stack and cache move only on their own actions;
            // hanging up pops the stack and stores the session when a key
            // is given
            (match *action {
                Action::NewCall(id) => {
                    let ops = old(self).state.openapi_operations@;
                    let p = op_pos(ops, id);
                    if p >= ops.len() || ops[p].kind != OperationItemType::Path {
                        final(self).history == old(self).history
                            && final(self).calls@.len() == old(self).calls@.len()
                    } else {
                        match ops[p].operation_id {
                            Option::Some(k) => {
                                if has_key(old(self).history@, k@) {
                                    final(self).history@ == old(self).history@
                                        .remove(key_pos(old(self).history@, k@))
                                        && final(self).calls@.len() == old(self).calls@.len() + 1
                                } else {
                                    final(self).history == old(self).history
                                        && final(self).calls@.len() == old(self).calls@.len() + 1
                                }
                            },
                            Option::None => final(self).history == old(self).history
                                && final(self).calls@.len() == old(self).calls@.len() + 1,
                        }
                    }
                },
                Action::HangUp(id) => {
                    &&& old(self).calls@.len() == 0 ==> final(self).history == old(self).history
                        && final(self).calls@.len() == 0
                    &&& old(self).calls@.len() > 0 ==> final(self).calls@.len()
                        == old(self).calls@.len() - 1
                        && (match id {
                            Option::Some(k) => final(self).history@
                                == upsert_session(old(self).history@, k, old(self).calls@[0]),
                            Option::None => final(self).history == old(self).history,
                        })
                },
                _ => final(self).history == old(self).history,
            }),
            // a popup freezes the page beneath: while one is open, only the
            // session actions touch the home page or the stack
            (old(self).popup is Some && !((*action) matches Action::NewCall(_))
                && !((*action) matches Action::HangUp(_))
                && !((*action) matches Action::CloseHistory)) ==> final(self).home == old(self).home
                && final(self).calls == old(self).calls,
            // unique cache keys survive every step
            table::keys_unique(old(self).history@) ==> table::keys_unique(final(self).history@),
            // with no popup open, the routed action drives the active page:
            // the top session steps by the session's transition function,
            // the home page by its own, and a committed footer line is
            // parsed and answered
            (match *action {
                Action::NewCall(_) => true,
                Action::HangUp(_) => true,
                Action::History => true,
                Action::CloseHistory => true,
                Action::FooterResult(cmd, Option::Some(args)) => old(self).popup is None ==> {
                    &&& (old(self).calls@.len() > 0 ==> {
                        &&& final(self).calls@.len() == old(self).calls@.len()
                        &&& final(self).calls@.skip(1) == old(self).calls@.skip(1)
                        &&& r.0@.len() >= 1
                        &&& crate::phone::phone_command_matches(args@, Some(r.0@[0]))
                        &&& final(self).calls@[0]@ == crate::phone::phone_step(
                            old(self).calls@[0]@, *action, old(self).state.input_mode,
                            Some(r.0@[0])).0
                    })
                    &&& (old(self).calls@.len() == 0 ==> {
                        if cmd@ == ":"@ {
                            &&& final(self).home@ == crate::home::route_pane(
                                old(self).home@, Action::Focus, old(self).state,
                                old(self).home@.focused).0
                            &&& r.0@.len() >= 2
                            &&& crate::home::home_command_matches(
                                args@, crate::home::active_op_id(old(self).state),
                                r.0@[r.0@.len() - 2])
                        } else {
                            &&& final(self).home@ == crate::home::home_step(
                                old(self).home@, *action, old(self).state).0
                            &&& (cmd@ == "/"@ ==> final(self).state.active_filter == args
                                && r.0@.len() >= 1
                                && r.0@[r.0@.len() - 1] == Action::Update)
                        }
                    })
                },
                _ => old(self).popup is None ==> {
                    &&& (old(self).calls@.len() > 0 ==> {
                        &&& final(self).calls@.len() == old(self).calls@.len()
                        &&& final(self).calls@.skip(1) == old(self).calls@.skip(1)
                        &&& final(self).calls@[0]@ == crate::phone::phone_step(
                            old(self).calls@[0]@, *action, old(self).state.input_mode,
                            None).0
                    })
                    &&& (old(self).calls@.len() == 0 ==> final(self).home@
                        == crate::home::home_step(old(self).home@, *action, old(self).state).0)
                },
            }),
            // a new call emits a follow-up that closes the history popup
            ((*action) matches Action::NewCall(_)) ==> r.0@.len() >= 1
                && r.0@[0] == Action::CloseHistory,
            // dialling answers the built request of the active session
            (match *action {
                Action::Dial => {
                    if old(self).popup is None && old(self).calls@.len() > 0 {
                        r.1 matches Some(req)
                            && req.request@ == built_request_spec(old(self).calls@[0]@)
                    } else {
                        r.1 is None
                    }
                },
                _ => r.1 is None,
            }),
    {
        let ghost a0 = *self;
        let mut followups: Vec<Action> = Vec::new();
        let mut outbound: Option<Request> = None;
        match action {
            Action::Tick => {
                self.last_tick_key_events.clear();
                proof {
                    assert(self.last_tick_key_events@ =~= Seq::<Key>::empty());
                }
            },
            Action::Quit => {
                if matches!(self.state.input_mode, InputMode::Normal) {
                    self.should_quit = true;
                }
            },
            Action::Suspend => {
                self.should_suspend = true;
            },
            Action::Resume => {
                self.should_suspend = false;
            },
            Action::NewCall(operation_id) => {
                let before = self.calls.len();
                self.new_call(operation_id);
                followups.push(Action::CloseHistory);
                if self.calls.len() > before {
                    // the focus hook of the freshly opened session: its
                    // contextual hint
                    followups.push(Action::StatusLine(String::from_str(
                        "[enter -> edit mode / execute request] [1-9 -> select panes] [esc -> close] [q -> quit]",
                    )));
                }
            },
            Action::HangUp(operation_id) => {
                let had = self.calls.len();
                self.hang_up(operation_id);
                if self.calls.len() < had {
                    // the focus hook of whatever page surfaces: its hint
                    if self.calls.len() == 0 {
                        followups.push(Action::StatusLine(String::from_str(
                            "[l,h -> pane movement] [/ -> api filter] [: -> commands] [q -> quit]",
                        )));
                    } else {
                        followups.push(Action::StatusLine(String::from_str(
                            "[enter -> edit mode / execute request] [1-9 -> select panes] [esc -> close] [q -> quit]",
                        )));
                    }
                }
            },
            Action::History => {
                self.open_history();
            },
            Action::CloseHistory => {
                self.popup = None;
            },
            _ => {},
        }
        // route the action: popup first, else active session, else home
        let mut popup_took_it = false;
        match &mut self.popup {
            Some(p) => {
                if let Some(a) = p.update(action) {
                    followups.push(a);
                }
                popup_took_it = true;
            },
            None => {},
        }
        if !popup_took_it {
            if self.calls.len() > 0 {
                let ghost calls0 = self.calls@;
                let ghost pre = followups@;
                let mut phone = self.calls.remove(0);
                let (mut emitted, req) = phone.update(action, &mut self.state);
                let ghost sent = emitted@;
                self.calls.insert(0, phone);
                followups.append(&mut emitted);
                outbound = req;
                proof {
                    assert(self.calls@.skip(1) =~= calls0.skip(1));
                    assert(followups@ == pre + sent);
                    if pre.len() == 0 && sent.len() >= 1 {
                        assert(followups@[0] == sent[0]);
                    }
                }
            } else {
                let ghost pre = followups@;
                let mut emitted = self.home.update(action, &mut self.state);
                let ghost sent = emitted@;
                followups.append(&mut emitted);
                proof {
                    assert(followups@ == pre + sent);
                    if pre.len() == 0 && sent.len() >= 1 {
                        assert(followups@[followups@.len() - 1]
                            == sent[sent.len() - 1]);
                        assert(followups@[0] == sent[0]);
                    }
                }
            }
        }
        if let Some(a) = self.footer.update(action, &mut self.state, now) {
            followups.push(a);
        }
        (followups, outbound)
    }

    /// Translate a key that no handler consumed through the configured
    /// keymap: a single-key binding fires at once; otherwise the key joins
    /// the chord accumulated since the last tick, and the whole chord is
    /// looked up.
    pub fn translate_key_chord<'a>(&mut self, key: Key, keymap: &'a Vec<(Vec<Key>, Action)>) -> (r: Option<&'a Action>)
        ensures
            ({
                let single = seq![key];
                if chord_pos(keymap@, single) < keymap@.len() {
                    &&& (r matches Some(a) && *a == keymap@[chord_pos(keymap@, single)].1)
                    &&& final(self).last_tick_key_events == old(self).last_tick_key_events
                } else {
                    let chord = old(self).last_tick_key_events@.push(key);
                    &&& final(self).last_tick_key_events@ == chord
                    &&& (if chord_pos(keymap@, chord) < keymap@.len() {
                        r matches Some(a) && *a == keymap@[chord_pos(keymap@, chord)].1
                    } else {
                        r is None
                    })
                }
            }),
            final(self).history == old(self).history,
            final(self).calls == old(self).calls,
            final(self).popup == old(self).popup,
            final(self).state == old(self).state,
            final(self).home == old(self).home,
            final(self).footer == old(self).footer,
            final(self).should_quit == old(self).should_quit,
            final(self).should_suspend == old(self).should_suspend,
    {
        let mut single: Vec<Key> = Vec::new();
        single.push(key);
        proof {
            assert(single@ =~= seq![key]);
        }
        match find_binding(keymap, &single) {
            Some(a) => Some(a),
            None => {
                self.last_tick_key_events.push(key);
                find_binding(keymap, &self.last_tick_key_events)
            },
        }
    }

    /// Interpret one key press, running the original chain: the popup
    /// first while one is open, else the active session, else the home
    /// page; a key none of them consumes falls through to the footer, which
    /// owns every key while command mode is active. The answer and any
    /// state change are exactly the routed handler's.
    pub fn handle_key(&mut self, key: Key) -> (r: Option<EventResponse<Action>>)
        ensures
            (match old(self).popup {
                Option::Some(p) => {
                    &&& crate::history::history_key_matches(
                        p@, key, old(self).state.input_mode, r)
                    &&& final(self).calls == old(self).calls
                    &&& final(self).footer == old(self).footer
                },
                Option::None => {
                    if old(self).calls@.len() > 0 {
                        &&& final(self).calls@.len() == old(self).calls@.len()
                        &&& final(self).calls@[0]@ == crate::phone::phone_key_model(
                            old(self).calls@[0]@, key, old(self).state.input_mode)
                        &&& final(self).calls@.skip(1) == old(self).calls@.skip(1)
                        &&& if crate::phone::phone_key_consumes(
                            old(self).calls@[0]@, key, old(self).state.input_mode) {
                            crate::phone::phone_key_matches(
                                old(self).calls@[0]@, key, old(self).state.input_mode, r)
                                && final(self).footer == old(self).footer
                        } else {
                            crate::footer::footer_key_matches(
                                old(self).footer@, key, old(self).state.input_mode, r)
                                && final(self).footer@ == crate::footer::footer_key_model(
                                    old(self).footer@, key, old(self).state.input_mode)
                        }
                    } else {
                        &&& final(self).calls == old(self).calls
                        &&& if crate::home::home_key_consumes(old(self).state, key) {
                            crate::home::home_key_matches(old(self).state, key, r)
                                && final(self).footer == old(self).footer
                        } else {
                            crate::footer::footer_key_matches(
                                old(self).footer@, key, old(self).state.input_mode, r)
                                && final(self).footer@ == crate::footer::footer_key_model(
                                    old(self).footer@, key, old(self).state.input_mode)
                        }
                    }
                },
            }),
            final(self).history == old(self).history,
            final(self).popup == old(self).popup,
            final(self).state == old(self).state,
            final(self).home == old(self).home,
            final(self).last_tick_key_events == old(self).last_tick_key_events,
            final(self).should_quit == old(self).should_quit,
            final(self).should_suspend == old(self).should_suspend,
    {
        let first = match &self.popup {
            Some(p) => {
                return p.handle_key(key, self.state.input_mode);
            },
            None => {
                if self.calls.len() > 0 {
                    let ghost calls0 = self.calls@;
                    let mut phone = self.calls.remove(0);
                    let r = phone.handle_key(key, &self.state);
                    self.calls.insert(0, phone);
                    proof {
                        assert(self.calls@.skip(1) =~= calls0.skip(1));
                    }
                    r
                } else {
                    self.home.handle_key(key, &self.state)
                }
            },
        };
        match first {
            Some(resp) => Some(resp),
            None => self.footer.handle_key(key, &self.state),
        }
    }
}

} // verus!
