//! The response schema pane of the home page: the active operation's
//! response alternatives rendered into tabbed line lists, browsed through
//! the schema navigator.

use vstd::prelude::*;
use vstd::string::*;
use crate::action::Action;
use crate::schema::{RenderLine, LineModel, lines_view, render_value, render_at, copy_lines};
use crate::schema_viewer::{SchemaViewer, ViewerModel, go_model, back_model, viewer_wf};
use crate::state::{OperationItem, State};

verus! {

/// One tab of the pane: the status and media type it belongs to and the
/// rendered lines it shows.
#[derive(Debug)]
pub struct ResponseType {
    pub status: String,
    pub media_type: String,
    pub lines: Vec<RenderLine>,
}

/// The response schema pane.
#[derive(Debug)]
pub struct ResponsePane {
    pub focused: bool,
    pub schemas: Vec<ResponseType>,
    pub schemas_index: usize,
    pub viewer: SchemaViewer,
}

/// Spec image of one tab.
#[verifier::ext_equal]
pub struct ResponseTabModel {
    pub status: Seq<char>,
    pub media_type: Seq<char>,
    pub lines: Seq<LineModel>,
}

impl View for ResponseType {
    type V = ResponseTabModel;

    open spec fn view(&self) -> ResponseTabModel {
        ResponseTabModel {
            status: self.status@,
            media_type: self.media_type@,
            lines: lines_view(self.lines@),
        }
    }
}

/// Spec image of the pane.
#[verifier::ext_equal]
pub struct ResponsePaneModel {
    pub focused: bool,
    pub tabs: Seq<ResponseTabModel>,
    pub index: int,
    pub viewer: ViewerModel,
}

impl View for ResponsePane {
    type V = ResponsePaneModel;

    open spec fn view(&self) -> ResponsePaneModel {
        ResponsePaneModel {
            focused: self.focused,
            tabs: self.schemas@.map_values(|t: ResponseType| t@),
            index: self.schemas_index as int,
            viewer: self.viewer@,
        }
    }
}

/// The tabs the pane shows for one operation: one per declared response
/// alternative, its schema rendered from the top.
pub open spec fn response_tabs(op: OperationItem) -> Seq<ResponseTabModel> {
    op.response_schemas@.map_values(|r: crate::openapi::ResponseInfo| ResponseTabModel {
        status: r.status@,
        media_type: r.media_type@,
        lines: render_value(r.schema, 0),
    })
}

/// The tabs shown for the catalog's active operation; none when the
/// selection runs past the visible list.
pub open spec fn response_tabs_of(st: State) -> Seq<ResponseTabModel> {
    if st.active_operation_index < st.visible().len() {
        response_tabs(st.visible()[st.active_operation_index as int])
    } else {
        Seq::empty()
    }
}

/// The viewer contents after the pane installs the tab at `index`.
pub open spec fn viewer_after_tab(v: ViewerModel, tabs: Seq<ResponseTabModel>, index: int) -> ViewerModel {
    if 0 <= index < tabs.len() {
        go_model(ViewerModel {
            components: v.components,
            lines: tabs[index].lines,
            cursor: 0,
            names: Seq::empty(),
            offsets: Seq::empty(),
        })
    } else {
        ViewerModel {
            components: v.components,
            lines: Seq::empty(),
            cursor: 0,
            names: Seq::empty(),
            offsets: Seq::empty(),
        }
    }
}

/// Build the tab list of one operation.
pub fn build_response_tabs(op: &OperationItem) -> (r: Vec<ResponseType>)
    ensures
        r@.map_values(|t: ResponseType| t@) == response_tabs(*op),
{
    let ghost rs = op.response_schemas@;
    let mut tabs: Vec<ResponseType> = Vec::new();
    let n = op.response_schemas.len();
    for i in 0..n
        invariant
            n == rs.len(),
            rs == op.response_schemas@,
            tabs@.map_values(|t: ResponseType| t@)
                == response_tabs(*op).take(i as int),
    {
        let entry = &op.response_schemas[i];
        let lines = render_at(&entry.schema, 0);
        let tab = ResponseType {
            status: entry.status.clone(),
            media_type: entry.media_type.clone(),
            lines,
        };
        proof {
            assert(tab@ =~~= response_tabs(*op)[i as int]);
        }
        let ghost t0 = tabs@;
        tabs.push(tab);
        proof {
            assert(response_tabs(*op).take(i + 1)
                =~= response_tabs(*op).take(i as int).push(response_tabs(*op)[i as int]));
            assert(tabs@.map_values(|t: ResponseType| t@)
                =~~= t0.map_values(|t: ResponseType| t@).push(tabs@[i as int]@));
            assert(tabs@.map_values(|t: ResponseType| t@)
                =~~= response_tabs(*op).take(i + 1));
        }
    }
    proof {
        assert(response_tabs(*op).take(n as int) =~= response_tabs(*op));
    }
    tabs
}

/// One pane step: the next pane state after an action.
pub open spec fn rs_step(m: ResponsePaneModel, a: Action, st: State) -> ResponsePaneModel {
    match a {
        Action::Update => ResponsePaneModel {
            tabs: response_tabs_of(st),
            index: 0,
            viewer: viewer_after_tab(m.viewer, response_tabs_of(st), 0),
            ..m
        },
        Action::Down => ResponsePaneModel {
            viewer: ViewerModel {
                cursor: if m.viewer.cursor + 1 < m.viewer.lines.len() {
                    m.viewer.cursor + 1
                } else if m.viewer.lines.len() > 0 {
                    m.viewer.lines.len() - 1
                } else {
                    0
                },
                ..m.viewer
            },
            ..m
        },
        Action::Up => ResponsePaneModel {
            viewer: ViewerModel {
                cursor: if m.viewer.cursor > 0 { m.viewer.cursor - 1 } else { 0 },
                ..m.viewer
            },
            ..m
        },
        Action::Tab(i) => {
            if i < m.tabs.len() {
                ResponsePaneModel {
                    tabs: response_tabs_of(st),
                    index: i as int,
                    viewer: viewer_after_tab(m.viewer, response_tabs_of(st), i as int),
                    ..m
                }
            } else {
                m
            }
        },
        Action::TabNext => {
            let next = if m.index + 1 < m.tabs.len() { m.index + 1 } else { 0 };
            ResponsePaneModel {
                tabs: response_tabs_of(st),
                index: next,
                viewer: viewer_after_tab(m.viewer, response_tabs_of(st), next),
                ..m
            }
        },
        Action::TabPrev => {
            let prev = if m.tabs.len() == 0 {
                m.index
            } else if m.index > 0 {
                m.index - 1
            } else {
                m.tabs.len() - 1
            };
            ResponsePaneModel {
                tabs: response_tabs_of(st),
                index: prev,
                viewer: viewer_after_tab(m.viewer, response_tabs_of(st), prev),
                ..m
            }
        },
        Action::Go => ResponsePaneModel { viewer: go_model(m.viewer), ..m },
        Action::Back => {
            if 0 <= m.index < m.tabs.len() {
                ResponsePaneModel {
                    viewer: back_model(m.viewer, m.tabs[m.index].lines),
                    ..m
                }
            } else {
                m
            }
        },
        Action::Focus => ResponsePaneModel { focused: true, ..m },
        Action::UnFocus => ResponsePaneModel { focused: false, ..m },
        _ => m,
    }
}

impl ResponsePane {
    /// A fresh pane with no tabs and an empty navigator.
    pub fn new(focused: bool) -> (r: ResponsePane)
        ensures
            r@.focused == focused,
            r@.tabs == Seq::<ResponseTabModel>::empty(),
            r@.index == 0,
            r@.viewer.components == Seq::<(Seq<char>, Seq<LineModel>)>::empty(),
            r@.viewer.lines == Seq::<LineModel>::empty(),
            r@.viewer.cursor == 0,
            r@.viewer.names == Seq::<Seq<char>>::empty(),
            r@.viewer.offsets == Seq::<int>::empty(),
            viewer_wf(r@.viewer),
    {
        let r = ResponsePane {
            focused,
            schemas: Vec::new(),
            schemas_index: 0,
            viewer: SchemaViewer::new(),
        };
        proof {
            assert(r@.tabs =~= Seq::<ResponseTabModel>::empty());
        }
        r
    }

    /// Rebuild the tabs from the catalog's active operation and show the
    /// tab under the current index in the navigator.
    pub fn init_schema(&mut self, state: &State)
        ensures
            final(self)@ == (ResponsePaneModel {
                tabs: response_tabs_of(*state),
                viewer: viewer_after_tab(
                    old(self)@.viewer,
                    response_tabs_of(*state),
                    old(self)@.index,
                ),
                ..old(self)@
            }),
            viewer_wf(old(self)@.viewer) ==> viewer_wf(final(self)@.viewer),
    {
        let ghost m0 = self@;
        match state.active_operation() {
            Some(op) => {
                self.schemas = build_response_tabs(op);
            },
            None => {
                self.schemas = Vec::new();
                proof {
                    assert(self@.tabs =~= Seq::<ResponseTabModel>::empty());
                }
            },
        }
        if self.schemas_index < self.schemas.len() {
            let lines = copy_lines(&self.schemas[self.schemas_index].lines);
            self.viewer.set_lines(lines);
        } else {
            self.viewer.clear();
        }
        proof {
            assert(self@ =~~= (ResponsePaneModel {
                tabs: response_tabs_of(*state),
                viewer: viewer_after_tab(m0.viewer, response_tabs_of(*state), m0.index),
                ..m0
            }));
        }
    }

    /// Apply one action: refreshes rebuild the tabs, the cursor moves over
    /// the shown lines, tab changes re-render, go drills into a reference,
    /// back pops the drill history, and focusing emits a transient
    /// status-line hint.
    pub fn update(&mut self, action: &Action, state: &State) -> (r: Option<Action>)
        ensures
            final(self)@ == rs_step(old(self)@, *action, *state),
            (match *action {
                Action::Focus => (r matches Some(a) && a is TimedStatusLine),
                _ => r is None,
            }),
    {
        let ghost m0 = self@;
        match action {
            Action::Update => {
                self.schemas_index = 0;
                self.init_schema(state);
                proof {
                    assert(self@ =~~= (ResponsePaneModel {
                        tabs: response_tabs_of(*state),
                        index: 0,
                        viewer: viewer_after_tab(m0.viewer, response_tabs_of(*state), 0),
                        ..m0
                    }));
                }
                None
            },
            Action::Down => {
                self.viewer.down();
                proof {
                    assert(self@ =~~= (ResponsePaneModel { viewer: self@.viewer, ..m0 }));
                }
                None
            },
            Action::Up => {
                self.viewer.up();
                proof {
                    assert(self@ =~~= (ResponsePaneModel { viewer: self@.viewer, ..m0 }));
                }
                None
            },
            Action::Tab(i) => {
                if (*i as usize) < self.schemas.len() {
                    self.schemas_index = *i as usize;
                    self.init_schema(state);
                    proof {
                        assert(self@ =~~= (ResponsePaneModel {
                            tabs: response_tabs_of(*state),
                            index: *i as int,
                            viewer: viewer_after_tab(m0.viewer, response_tabs_of(*state), *i as int),
                            ..m0
                        }));
                    }
                }
                None
            },
            Action::TabNext => {
                proof {
                    assert(m0.tabs.len() == self.schemas@.len());
                }
                let len = self.schemas.len();
                let next = if len > 0 && self.schemas_index < len - 1 {
                    self.schemas_index + 1
                } else {
                    0
                };
                self.schemas_index = next;
                self.init_schema(state);
                proof {
                    assert(self@ =~~= (ResponsePaneModel {
                        tabs: response_tabs_of(*state),
                        index: next as int,
                        viewer: viewer_after_tab(m0.viewer, response_tabs_of(*state), next as int),
                        ..m0
                    }));
                }
                None
            },
            Action::TabPrev => {
                proof {
                    assert(m0.tabs.len() == self.schemas@.len());
                }
                if self.schemas.len() > 0 {
                    let prev = if self.schemas_index > 0 {
                        self.schemas_index - 1
                    } else {
                        self.schemas.len() - 1
                    };
                    self.schemas_index = prev;
                }
                self.init_schema(state);
                proof {
                    assert(self@ =~~= (ResponsePaneModel {
                        tabs: response_tabs_of(*state),
                        index: self@.index,
                        viewer: viewer_after_tab(m0.viewer, response_tabs_of(*state), self@.index),
                        ..m0
                    }));
                }
                None
            },
            Action::Go => {
                self.viewer.go();
                proof {
                    assert(self@ =~~= (ResponsePaneModel { viewer: self@.viewer, ..m0 }));
                }
                None
            },
            Action::Back => {
                if self.schemas_index < self.schemas.len() {
                    let root = copy_lines(&self.schemas[self.schemas_index].lines);
                    self.viewer.back(root);
                    proof {
                        assert(self@ =~~= (ResponsePaneModel { viewer: self@.viewer, ..m0 }));
                    }
                }
                None
            },
            Action::Focus => {
                self.focused = true;
                Some(Action::TimedStatusLine(
                    String::from_str("[1-9 -> select tab] [g,b -> go/back definitions]"),
                    3,
                ))
            },
            Action::UnFocus => {
                self.focused = false;
                None
            },
            _ => None,
        }
    }
}

} // verus!
