//! The parameter editor pane: the operation's parameters grouped into tabs
//! by location, a selection per tab, and the editing steps that change
//! values, add and remove entries, and move the selection. Every step is
//! specified by a transition function over the editor's model.

use vstd::prelude::*;
use vstd::string::*;
use crate::action::Action;
use crate::openapi::{In, ParameterInfo};
use crate::state::{InputMode, OperationItem, State};
use crate::text;

verus! {

/// One editable parameter: its name, current value and whether the
/// operation requires it.
#[derive(Debug)]
pub struct ParameterItem {
    pub name: String,
    pub value: Option<String>,
    pub required: bool,
}

/// One tab of parameters sharing a location, with the selected row.
#[derive(Debug)]
pub struct ParameterTab {
    pub location: In,
    pub items: Vec<ParameterItem>,
    pub selected: usize,
}

/// The parameter editor pane.
#[derive(Debug)]
pub struct ParameterEditor {
    pub focused: bool,
    pub parameters: Vec<ParameterTab>,
    pub selected_parameter: usize,
    pub input: String,
}

/// Spec image of one editable parameter.
#[verifier::ext_equal]
pub struct ItemModel {
    pub name: Seq<char>,
    pub value: Option<Seq<char>>,
    pub required: bool,
}

impl View for ParameterItem {
    type V = ItemModel;

    open spec fn view(&self) -> ItemModel {
        ItemModel {
            name: self.name@,
            value: match self.value {
                Option::None => None,
                Option::Some(s) => Some(s@),
            },
            required: self.required,
        }
    }
}

/// Spec image of one tab.
#[verifier::ext_equal]
pub struct TabModel {
    pub location: In,
    pub items: Seq<ItemModel>,
    pub selected: int,
}

impl View for ParameterTab {
    type V = TabModel;

    open spec fn view(&self) -> TabModel {
        TabModel {
            location: self.location,
            items: self.items@.map_values(|it: ParameterItem| it@),
            selected: self.selected as int,
        }
    }
}

/// Spec image of the whole editor.
#[verifier::ext_equal]
pub struct EditorModel {
    pub focused: bool,
    pub tabs: Seq<TabModel>,
    pub selected_tab: int,
    pub input: Seq<char>,
}

impl View for ParameterEditor {
    type V = EditorModel;

    open spec fn view(&self) -> EditorModel {
        EditorModel {
            focused: self.focused,
            tabs: self.parameters@.map_values(|t: ParameterTab| t@),
            selected_tab: self.selected_parameter as int,
            input: self.input@,
        }
    }
}

/// The starting item of one parameter descriptor: the draft value is the
/// descriptor's default.
pub open spec fn item_model_of(p: ParameterInfo) -> ItemModel {
    ItemModel {
        name: p.name@,
        value: match p.default_value {
            Option::None => None,
            Option::Some(s) => Some(s@),
        },
        required: p.required,
    }
}

/// The membership test of one location.
pub open spec fn loc_pred(loc: In) -> spec_fn(ParameterInfo) -> bool {
    |p: ParameterInfo| p.location == loc
}

/// The starting items of one location, in descriptor order.
pub open spec fn items_for(params: Seq<ParameterInfo>, loc: In) -> Seq<ItemModel> {
    params.filter(loc_pred(loc)).map_values(|p: ParameterInfo| item_model_of(p))
}

/// The tabs a fresh editor shows: path and cookie tabs only when non-empty,
/// query and header tabs always, each with its selection at the top.
pub open spec fn tabs_for(params: Seq<ParameterInfo>) -> Seq<TabModel> {
    let path = items_for(params, In::Path);
    let query = items_for(params, In::Query);
    let header = items_for(params, In::Header);
    let cookie = items_for(params, In::Cookie);
    (if path.len() > 0 {
        seq![TabModel { location: In::Path, items: path, selected: 0 }]
    } else {
        Seq::<TabModel>::empty()
    }) + seq![
        TabModel { location: In::Query, items: query, selected: 0 },
        TabModel { location: In::Header, items: header, selected: 0 },
    ] + (if cookie.len() > 0 {
        seq![TabModel { location: In::Cookie, items: cookie, selected: 0 }]
    } else {
        Seq::<TabModel>::empty()
    })
}

proof fn lemma_items_for_snoc(params: Seq<ParameterInfo>, p: ParameterInfo, loc: In)
    ensures
        items_for(params.push(p), loc) == (if p.location == loc {
            items_for(params, loc).push(item_model_of(p))
        } else {
            items_for(params, loc)
        }),
{
    params.lemma_filter_push(p, loc_pred(loc));
    if loc_pred(loc)(p) {
        assert(params.push(p).filter(loc_pred(loc))
            == params.filter(loc_pred(loc)).push(p));
        assert(items_for(params.push(p), loc)
            =~= items_for(params, loc).push(item_model_of(p)));
    } else {
        assert(items_for(params.push(p), loc) =~= items_for(params, loc));
    }
}

/// The first tab position with that location; the tab count when none has
/// it.
pub open spec fn find_loc(tabs: Seq<TabModel>, loc: In) -> int
    decreases tabs.len(),
{
    if tabs.len() == 0 {
        0
    } else if tabs[0].location == loc {
        0
    } else {
        1 + find_loc(tabs.skip(1), loc)
    }
}

proof fn lemma_find_loc_bounds(tabs: Seq<TabModel>, loc: In)
    ensures
        0 <= find_loc(tabs, loc) <= tabs.len(),
    decreases tabs.len(),
{
    if tabs.len() > 0 && tabs[0].location != loc {
        lemma_find_loc_bounds(tabs.skip(1), loc);
    }
}

/// The last item position carrying that name; `-1` when none does.
pub open spec fn rlast_named(items: Seq<ItemModel>, name: Seq<char>) -> int
    decreases items.len(),
{
    if items.len() == 0 {
        -1
    } else if items.last().name == name {
        items.len() - 1
    } else {
        rlast_named(items.drop_last(), name)
    }
}

/// A selection one step down a list of `len` rows, wrapping at the bottom.
pub open spec fn row_down(sel: int, len: int) -> int {
    if sel >= len - 1 {
        0
    } else {
        sel + 1
    }
}

/// A selection one step up a list of `len` rows, wrapping at the top.
pub open spec fn row_up(sel: int, len: int) -> int {
    if sel == 0 {
        if len == 0 {
            0
        } else {
            len - 1
        }
    } else {
        sel - 1
    }
}

/// Add an item with that name, empty and optional, to the first tab of the
/// location, when such a tab exists.
pub open spec fn add_named(m: EditorModel, loc: In, name: Seq<char>) -> EditorModel {
    let t = find_loc(m.tabs, loc);
    if t < m.tabs.len() {
        EditorModel {
            tabs: m.tabs.update(t, TabModel {
                items: m.tabs[t].items.push(ItemModel { name: name, value: None, required: false }),
                ..m.tabs[t]
            }),
            ..m
        }
    } else {
        m
    }
}

/// Remove the last item with that name from the first tab of the location,
/// when the tab and such an item exist.
pub open spec fn remove_named(m: EditorModel, loc: In, name: Seq<char>) -> EditorModel {
    let t = find_loc(m.tabs, loc);
    if t < m.tabs.len() {
        let at = rlast_named(m.tabs[t].items, name);
        if at >= 0 {
            EditorModel {
                tabs: m.tabs.update(t, TabModel {
                    items: m.tabs[t].items.remove(at),
                    ..m.tabs[t]
                }),
                ..m
            }
        } else {
            m
        }
    } else {
        m
    }
}

/// One editor step: the next editor state and input mode after an action.
pub open spec fn ed_step(m: EditorModel, a: Action, mode: InputMode) -> (EditorModel, InputMode) {
    match a {
        Action::Down => {
            if 0 <= m.selected_tab < m.tabs.len() {
                let tab = m.tabs[m.selected_tab];
                (EditorModel {
                    tabs: m.tabs.update(m.selected_tab, TabModel {
                        selected: row_down(tab.selected, tab.items.len() as int),
                        ..tab
                    }),
                    ..m
                }, mode)
            } else {
                (m, mode)
            }
        },
        Action::Up => {
            if 0 <= m.selected_tab < m.tabs.len() {
                let tab = m.tabs[m.selected_tab];
                (EditorModel {
                    tabs: m.tabs.update(m.selected_tab, TabModel {
                        selected: row_up(tab.selected, tab.items.len() as int),
                        ..tab
                    }),
                    ..m
                }, mode)
            } else {
                (m, mode)
            }
        },
        Action::Tab(index) => {
            if index < m.tabs.len() {
                (EditorModel { selected_tab: index as int, ..m }, mode)
            } else {
                (m, mode)
            }
        },
        Action::TabNext => {
            let next = m.selected_tab + 1;
            (EditorModel {
                selected_tab: if next < m.tabs.len() { next } else { 0 },
                ..m
            }, mode)
        },
        Action::TabPrev => {
            if m.tabs.len() == 0 {
                (m, mode)
            } else {
                (EditorModel {
                    selected_tab: if m.selected_tab > 0 {
                        m.selected_tab - 1
                    } else {
                        m.tabs.len() - 1
                    },
                    ..m
                }, mode)
            }
        },
        Action::Focus => (EditorModel { focused: true, ..m }, mode),
        Action::UnFocus => (EditorModel { focused: false, ..m }, mode),
        Action::Submit => {
            if mode == InputMode::Normal && m.tabs.len() > 0 {
                if 0 <= m.selected_tab < m.tabs.len()
                    && 0 <= m.tabs[m.selected_tab].selected < m.tabs[m.selected_tab].items.len() {
                    let it = m.tabs[m.selected_tab].items[m.tabs[m.selected_tab].selected];
                    (EditorModel {
                        input: match it.value {
                            Option::None => Seq::empty(),
                            Option::Some(v) => v,
                        },
                        ..m
                    }, InputMode::Insert)
                } else {
                    (m, InputMode::Insert)
                }
            } else if mode == InputMode::Insert && m.tabs.len() > 0 {
                if 0 <= m.selected_tab < m.tabs.len()
                    && 0 <= m.tabs[m.selected_tab].selected < m.tabs[m.selected_tab].items.len() {
                    let tab = m.tabs[m.selected_tab];
                    let it = tab.items[tab.selected];
                    (EditorModel {
                        tabs: m.tabs.update(m.selected_tab, TabModel {
                            items: tab.items.update(tab.selected, ItemModel {
                                value: if m.input.len() > 0 { Some(m.input) } else { None },
                                ..it
                            }),
                            ..tab
                        }),
                        input: Seq::empty(),
                        ..m
                    }, InputMode::Normal)
                } else {
                    (EditorModel { input: Seq::empty(), ..m }, InputMode::Normal)
                }
            } else {
                (m, mode)
            }
        },
        Action::AddHeader(name) => (add_named(m, In::Header, name@), mode),
        Action::RemoveHeader(name) => (remove_named(m, In::Header, name@), mode),
        Action::AddQuery(name) => (add_named(m, In::Query, name@), mode),
        Action::RemoveQuery(name) => (remove_named(m, In::Query, name@), mode),
        _ => (m, mode),
    }
}

/// A copy of an optional string, equal to the original.
pub fn clone_opt_string(o: &Option<String>) -> (r: Option<String>)
    ensures
        r == *o,
{
    match o {
        None => None,
        Some(s) => Some(s.clone()),
    }
}

impl ParameterEditor {
    /// A fresh editor over the operation's parameters, grouped into tabs.
    pub fn new(op: &OperationItem, focused: bool) -> (r: ParameterEditor)
        ensures
            r@.focused == focused,
            r@.tabs == tabs_for(op.parameters@),
            r@.selected_tab == 0,
            r@.input == Seq::<char>::empty(),
    {
        let mut path_items: Vec<ParameterItem> = Vec::new();
        let mut query_items: Vec<ParameterItem> = Vec::new();
        let mut header_items: Vec<ParameterItem> = Vec::new();
        let mut cookie_items: Vec<ParameterItem> = Vec::new();
        let ghost ps = op.parameters@;
        let n = op.parameters.len();
        proof {
            assert(ps.take(0) =~= Seq::<ParameterInfo>::empty());
            assert(items_for(ps.take(0), In::Path) =~= Seq::<ItemModel>::empty());
            assert(items_for(ps.take(0), In::Query) =~= Seq::<ItemModel>::empty());
            assert(items_for(ps.take(0), In::Header) =~= Seq::<ItemModel>::empty());
            assert(items_for(ps.take(0), In::Cookie) =~= Seq::<ItemModel>::empty());
            assert(path_items@.map_values(|it: ParameterItem| it@)
                =~= Seq::<ItemModel>::empty());
            assert(query_items@.map_values(|it: ParameterItem| it@)
                =~= Seq::<ItemModel>::empty());
            assert(header_items@.map_values(|it: ParameterItem| it@)
                =~= Seq::<ItemModel>::empty());
            assert(cookie_items@.map_values(|it: ParameterItem| it@)
                =~= Seq::<ItemModel>::empty());
        }
        for i in 0..n
            invariant
                n == ps.len(),
                ps == op.parameters@,
                path_items@.map_values(|it: ParameterItem| it@)
                    == items_for(ps.take(i as int), In::Path),
                query_items@.map_values(|it: ParameterItem| it@)
                    == items_for(ps.take(i as int), In::Query),
                header_items@.map_values(|it: ParameterItem| it@)
                    == items_for(ps.take(i as int), In::Header),
                cookie_items@.map_values(|it: ParameterItem| it@)
                    == items_for(ps.take(i as int), In::Cookie),
        {
            let p = &op.parameters[i];
            let item = ParameterItem {
                name: p.name.clone(),
                value: clone_opt_string(&p.default_value),
                required: p.required,
            };
            proof {
                assert(item@ =~~= item_model_of(ps[i as int]));
                assert(ps.take(i + 1) =~= ps.take(i as int).push(ps[i as int]));
                lemma_items_for_snoc(ps.take(i as int), ps[i as int], In::Path);
                lemma_items_for_snoc(ps.take(i as int), ps[i as int], In::Query);
                lemma_items_for_snoc(ps.take(i as int), ps[i as int], In::Header);
                lemma_items_for_snoc(ps.take(i as int), ps[i as int], In::Cookie);
            }
            match p.location {
                In::Path => {
                    let ghost before = path_items@;
                    path_items.push(item);
                    proof {
                        assert(path_items@.map_values(|it: ParameterItem| it@)
                            =~= items_for(ps.take(i + 1), In::Path));
                    }
                },
                In::Query => {
                    query_items.push(item);
                    proof {
                        assert(query_items@.map_values(|it: ParameterItem| it@)
                            =~= items_for(ps.take(i + 1), In::Query));
                    }
                },
                In::Header => {
                    header_items.push(item);
                    proof {
                        assert(header_items@.map_values(|it: ParameterItem| it@)
                            =~= items_for(ps.take(i + 1), In::Header));
                    }
                },
                In::Cookie => {
                    cookie_items.push(item);
                    proof {
                        assert(cookie_items@.map_values(|it: ParameterItem| it@)
                            =~= items_for(ps.take(i + 1), In::Cookie));
                    }
                },
            }
        }
        proof {
            assert(ps.take(n as int) =~= ps);
        }
        let mut parameters: Vec<ParameterTab> = Vec::new();
        if path_items.len() > 0 {
            parameters.push(ParameterTab { location: In::Path, items: path_items, selected: 0 });
        }
        parameters.push(ParameterTab { location: In::Query, items: query_items, selected: 0 });
        parameters.push(ParameterTab { location: In::Header, items: header_items, selected: 0 });
        if cookie_items.len() > 0 {
            parameters.push(ParameterTab { location: In::Cookie, items: cookie_items, selected: 0 });
        }
        let r = ParameterEditor {
            focused,
            parameters,
            selected_parameter: 0,
            input: String::new(),
        };
        proof {
            assert(r@.tabs =~~= tabs_for(op.parameters@));
        }
        r
    }

    /// The first tab position of that location, when one exists.
    fn find_tab(&self, loc: In) -> (r: Option<usize>)
        ensures
            match r {
                Some(i) => i as int == find_loc(self@.tabs, loc) && i < self@.tabs.len(),
                None => find_loc(self@.tabs, loc) >= self@.tabs.len(),
            },
    {
        let ghost tabs = self@.tabs;
        let n = self.parameters.len();
        proof {
            assert(tabs.skip(0) =~= tabs);
            lemma_find_loc_bounds(tabs, loc);
        }
        for i in 0..n
            invariant
                n == self.parameters@.len(),
                tabs == self@.tabs,
                find_loc(tabs, loc) == i + find_loc(tabs.skip(i as int), loc),
                find_loc(tabs.skip(i as int), loc) >= 0,
        {
            proof {
                assert(tabs.skip(i as int)[0] == tabs[i as int]);
                assert(tabs.skip(i as int).skip(1) =~= tabs.skip(i + 1));
                lemma_find_loc_bounds(tabs.skip(i + 1), loc);
            }
            if self.parameters[i].location == loc {
                return Some(i);
            }
        }
        proof {
            assert(tabs.skip(n as int) =~= Seq::<TabModel>::empty());
        }
        None
    }

    /// The last item position in that tab carrying the name, when one does.
    fn find_last_named(items: &Vec<ParameterItem>, name: &str) -> (r: Option<usize>)
        ensures
            ({
                let models = items@.map_values(|it: ParameterItem| it@);
                match r {
                    Some(i) => i as int == rlast_named(models, name@) && i < items@.len(),
                    None => rlast_named(models, name@) == -1,
                }
            }),
    {
        let ghost models = items@.map_values(|it: ParameterItem| it@);
        let mut i = items.len();
        proof {
            assert(models.take(items@.len() as int) =~= models);
        }
        while i > 0
            invariant
                i <= items@.len(),
                models == items@.map_values(|it: ParameterItem| it@),
                rlast_named(models, name@) == rlast_named(models.take(i as int), name@),
            decreases i,
        {
            proof {
                let cur = models.take(i as int);
                assert(cur.last() == models[i - 1]);
                assert(cur.drop_last() =~= models.take(i - 1));
            }
            if text::str_eq(items[i - 1].name.as_str(), name) {
                return Some(i - 1);
            }
            i -= 1;
        }
        proof {
            assert(models.take(0) =~= Seq::<ItemModel>::empty());
        }
        None
    }

    /// Apply one action to the editor; the editor consumes its actions and
    /// emits none. The editor's next state and the next input mode follow
    /// the transition function.
    pub fn update(&mut self, action: &Action, state: &mut State) -> (r: Option<Action>)
        ensures
            r is None,
            (final(self)@, final(state).input_mode)
                == ed_step(old(self)@, *action, old(state).input_mode),
            final(state).openapi_operations == old(state).openapi_operations,
            final(state).active_operation_index == old(state).active_operation_index,
            final(state).active_tag_name == old(state).active_tag_name,
            final(state).active_filter == old(state).active_filter,
            final(state).responses == old(state).responses,
            final(state).servers == old(state).servers,
            final(state).tags == old(state).tags,
            final(state).openapi_input_source == old(state).openapi_input_source,
    {
        let ghost m0 = self@;
        let ghost mode0 = state.input_mode;
        match action {
            Action::Down => {
                if self.selected_parameter < self.parameters.len() {
                    let t = self.selected_parameter;
                    let mut tab = self.parameters.remove(t);
                    let len = tab.items.len();
                    tab.selected = if tab.selected >= len.saturating_sub(1) {
                        0
                    } else {
                        tab.selected + 1
                    };
                    self.parameters.insert(t, tab);
                    proof {
                        assert(self@.tabs =~~= ed_step(m0, *action, mode0).0.tabs);
                        assert(self@ =~~= ed_step(m0, *action, mode0).0);
                    }
                }
            },
            Action::Up => {
                if self.selected_parameter < self.parameters.len() {
                    let t = self.selected_parameter;
                    let mut tab = self.parameters.remove(t);
                    let len = tab.items.len();
                    tab.selected = if tab.selected == 0 {
                        len.saturating_sub(1)
                    } else {
                        tab.selected - 1
                    };
                    self.parameters.insert(t, tab);
                    proof {
                        assert(self@.tabs =~~= ed_step(m0, *action, mode0).0.tabs);
                        assert(self@ =~~= ed_step(m0, *action, mode0).0);
                    }
                }
            },
            Action::Tab(index) => {
                if (*index as usize) < self.parameters.len() {
                    self.selected_parameter = *index as usize;
                }
                proof {
                    assert(self@ =~~= ed_step(m0, *action, mode0).0);
                }
            },
            Action::TabNext => {
                let next = self.selected_parameter.saturating_add(1);
                self.selected_parameter = if next < self.parameters.len() {
                    next
                } else {
                    0
                };
                proof {
                    assert(self@ =~~= ed_step(m0, *action, mode0).0);
                }
            },
            Action::TabPrev => {
                if self.parameters.len() > 0 {
                    self.selected_parameter = if self.selected_parameter > 0 {
                        self.selected_parameter - 1
                    } else {
                        self.parameters.len() - 1
                    };
                }
                proof {
                    assert(self@ =~~= ed_step(m0, *action, mode0).0);
                }
            },
            Action::Focus => {
                self.focused = true;
                proof {
                    assert(self@ =~~= ed_step(m0, *action, mode0).0);
                }
            },
            Action::UnFocus => {
                self.focused = false;
                proof {
                    assert(self@ =~~= ed_step(m0, *action, mode0).0);
                }
            },
            Action::Submit => {
                if state.input_mode == InputMode::Normal && self.parameters.len() > 0 {
                    state.input_mode = InputMode::Insert;
                    if self.selected_parameter < self.parameters.len() {
                        let t = self.selected_parameter;
                        let sel = self.parameters[t].selected;
                        if sel < self.parameters[t].items.len() {
                            match &self.parameters[t].items[sel].value {
                                Some(v) => {
                                    self.input = v.clone();
                                },
                                None => {
                                    self.input = String::new();
                                },
                            }
                        }
                    }
                    proof {
                        assert(self@ =~~= ed_step(m0, *action, mode0).0);
                    }
                } else if state.input_mode == InputMode::Insert && self.parameters.len() > 0 {
                    state.input_mode = InputMode::Normal;
                    if self.selected_parameter < self.parameters.len() {
                        let t = self.selected_parameter;
                        let mut tab = self.parameters.remove(t);
                        let sel = tab.selected;
                        if sel < tab.items.len() {
                            let mut item = tab.items.remove(sel);
                            if self.input.as_str().unicode_len() > 0 {
                                let v = self.input.clone();
                                item.value = Some(v);
                            } else {
                                item.value = None;
                            }
                            tab.items.insert(sel, item);
                            self.parameters.insert(t, tab);
                            self.input = String::new();
                            proof {
                                assert(self@.tabs =~~= ed_step(m0, *action, mode0).0.tabs);
                                assert(self@ =~~= ed_step(m0, *action, mode0).0);
                            }
                        } else {
                            self.parameters.insert(t, tab);
                            self.input = String::new();
                            proof {
                                assert(self@.tabs =~~= m0.tabs);
                                assert(self@ =~~= ed_step(m0, *action, mode0).0);
                            }
                        }
                    } else {
                        self.input = String::new();
                        proof {
                            assert(self@ =~~= ed_step(m0, *action, mode0).0);
                        }
                    }
                }
            },
            Action::AddHeader(name) => {
                self.add_item(In::Header, name);
                proof {
                    assert(self@ =~~= ed_step(m0, *action, mode0).0);
                }
            },
            Action::RemoveHeader(name) => {
                self.remove_item(In::Header, name);
                proof {
                    assert(self@ =~~= ed_step(m0, *action, mode0).0);
                }
            },
            Action::AddQuery(name) => {
                self.add_item(In::Query, name);
                proof {
                    assert(self@ =~~= ed_step(m0, *action, mode0).0);
                }
            },
            Action::RemoveQuery(name) => {
                self.remove_item(In::Query, name);
                proof {
                    assert(self@ =~~= ed_step(m0, *action, mode0).0);
                }
            },
            _ => {},
        }
        proof {
            assert(self@ =~~= ed_step(m0, *action, mode0).0);
        }
        None
    }

    /// Add an empty optional item of that name to the first tab of the
    /// location.
    fn add_item(&mut self, loc: In, name: &String)
        ensures
            final(self)@ == add_named(old(self)@, loc, name@),
    {
        let ghost m0 = self@;
        match self.find_tab(loc) {
            Some(t) => {
                let mut tab = self.parameters.remove(t);
                tab.items.push(ParameterItem { name: name.clone(), value: None, required: false });
                self.parameters.insert(t, tab);
                proof {
                    assert(self@.tabs =~~= add_named(m0, loc, name@).tabs);
                    assert(self@ =~~= add_named(m0, loc, name@));
                }
            },
            None => {
                proof {
                    assert(self@ =~~= add_named(m0, loc, name@));
                }
            },
        }
    }

    /// Remove the last item of that name from the first tab of the
    /// location.
    fn remove_item(&mut self, loc: In, name: &String)
        ensures
            final(self)@ == remove_named(old(self)@, loc, name@),
    {
        let ghost m0 = self@;
        match self.find_tab(loc) {
            Some(t) => {
                let mut tab = self.parameters.remove(t);
                match ParameterEditor::find_last_named(&tab.items, name.as_str()) {
                    Some(at) => {
                        tab.items.remove(at);
                        self.parameters.insert(t, tab);
                        proof {
                            assert(self@.tabs =~~= remove_named(m0, loc, name@).tabs);
                            assert(self@ =~~= remove_named(m0, loc, name@));
                        }
                    },
                    None => {
                        self.parameters.insert(t, tab);
                        proof {
                            assert(self@.tabs =~~= m0.tabs);
                            assert(self@ =~~= remove_named(m0, loc, name@));
                        }
                    },
                }
            },
            None => {
                proof {
                    assert(self@ =~~= remove_named(m0, loc, name@));
                }
            },
        }
    }
}

} // verus!
