//! The request schema pane of the home page: the active operation's body
//! and parameter schemas rendered into tabbed line lists, browsed through
//! the schema navigator.

use vstd::prelude::*;
use vstd::string::*;
use crate::action::Action;
use crate::openapi::{In, ParameterInfo};
use crate::schema::{SchemaValue, RenderLine, LineModel, lines_view, field_lines, push_field_lines, copy_lines};
use crate::schema_viewer::{SchemaViewer, ViewerModel, go_model, back_model, viewer_wf};
use crate::state::{OperationItem, State};

verus! {

/// One tab of the pane: its title and the rendered lines it shows.
#[derive(Debug)]
pub struct RequestType {
    pub title: String,
    pub lines: Vec<RenderLine>,
}

/// The request schema pane.
#[derive(Debug)]
pub struct RequestPane {
    pub focused: bool,
    pub schemas: Vec<RequestType>,
    pub schemas_index: usize,
    pub viewer: SchemaViewer,
}

/// Spec image of one tab.
#[verifier::ext_equal]
pub struct TabLinesModel {
    pub title: Seq<char>,
    pub lines: Seq<LineModel>,
}

impl View for RequestType {
    type V = TabLinesModel;

    open spec fn view(&self) -> TabLinesModel {
        TabLinesModel { title: self.title@, lines: lines_view(self.lines@) }
    }
}

/// Spec image of the pane.
#[verifier::ext_equal]
pub struct RequestPaneModel {
    pub focused: bool,
    pub tabs: Seq<TabLinesModel>,
    pub index: int,
    pub viewer: ViewerModel,
}

impl View for RequestPane {
    type V = RequestPaneModel;

    open spec fn view(&self) -> RequestPaneModel {
        RequestPaneModel {
            focused: self.focused,
            tabs: self.schemas@.map_values(|t: RequestType| t@),
            index: self.schemas_index as int,
            viewer: self.viewer@,
        }
    }
}

/// The lines of the body tab: one field per media type that declares a
/// schema.
pub open spec fn body_fields(body: Seq<(String, Option<SchemaValue>)>) -> Seq<LineModel>
    decreases body.len(),
{
    if body.len() == 0 {
        Seq::empty()
    } else {
        (match body[0].1 {
            Option::Some(v) => field_lines((body[0].0, v), 0),
            Option::None => Seq::<LineModel>::empty(),
        }) + body_fields(body.skip(1))
    }
}

/// The lines one parameter contributes: its name with its schema, or a null
/// marker when it declares none.
pub open spec fn param_field_lines(p: ParameterInfo) -> Seq<LineModel> {
    match p.schema {
        Option::Some(v) => field_lines((p.name, v), 0),
        Option::None => seq![LineModel { indent: 0, tokens: seq![p.name@, "null"@] }],
    }
}

/// The lines of one location's parameter tab.
pub open spec fn param_fields(params: Seq<ParameterInfo>, loc: In) -> Seq<LineModel>
    decreases params.len(),
{
    if params.len() == 0 {
        Seq::empty()
    } else {
        (if params[0].location == loc {
            param_field_lines(params[0])
        } else {
            Seq::<LineModel>::empty()
        }) + param_fields(params.skip(1), loc)
    }
}

/// The tabs the pane shows for one operation: body, query, header, path and
/// cookie, each present only when it has lines.
pub open spec fn request_tabs(op: OperationItem) -> Seq<TabLinesModel> {
    let body = body_fields(op.body_content@);
    let query = param_fields(op.parameters@, In::Query);
    let header = param_fields(op.parameters@, In::Header);
    let path = param_fields(op.parameters@, In::Path);
    let cookie = param_fields(op.parameters@, In::Cookie);
    (if body.len() > 0 {
        seq![TabLinesModel { title: "Body"@, lines: body }]
    } else {
        Seq::<TabLinesModel>::empty()
    }) + (if query.len() > 0 {
        seq![TabLinesModel { title: "Query"@, lines: query }]
    } else {
        Seq::<TabLinesModel>::empty()
    }) + (if header.len() > 0 {
        seq![TabLinesModel { title: "Header"@, lines: header }]
    } else {
        Seq::<TabLinesModel>::empty()
    }) + (if path.len() > 0 {
        seq![TabLinesModel { title: "Path"@, lines: path }]
    } else {
        Seq::<TabLinesModel>::empty()
    }) + (if cookie.len() > 0 {
        seq![TabLinesModel { title: "Cookie"@, lines: cookie }]
    } else {
        Seq::<TabLinesModel>::empty()
    })
}

/// The tabs shown for the catalog's active operation; none when the
/// selection runs past the visible list.
pub open spec fn pane_tabs_of(st: State) -> Seq<TabLinesModel> {
    if st.active_operation_index < st.visible().len() {
        request_tabs(st.visible()[st.active_operation_index as int])
    } else {
        Seq::empty()
    }
}

/// The viewer contents after the pane installs the tab at `index`: that
/// tab's lines shown from the top (drilling once right away when the first
/// line is a reference), or a cleared view when the index runs out.
pub open spec fn viewer_after_set(v: ViewerModel, tabs: Seq<TabLinesModel>, index: int) -> ViewerModel {
    if 0 <= index < tabs.len() {
        go_model(ViewerModel {
            components: v.components,
            lines: tabs[index].lines,
            cursor: 0,
            names: Seq::empty(),
            offsets: Seq::empty(),
        })
    } else {
        ViewerModel {
            components: v.components,
            lines: Seq::empty(),
            cursor: 0,
            names: Seq::empty(),
            offsets: Seq::empty(),
        }
    }
}

/// Render the body tab of an operation.
pub fn render_body_fields(op: &OperationItem) -> (r: Vec<RenderLine>)
    ensures
        lines_view(r@) == body_fields(op.body_content@),
{
    let ghost body = op.body_content@;
    let mut out: Vec<RenderLine> = Vec::new();
    let n = op.body_content.len();
    proof {
        assert(body.skip(0) =~= body);
        assert(lines_view(out@) + body_fields(body) =~= body_fields(body));
    }
    for i in 0..n
        invariant
            n == body.len(),
            body == op.body_content@,
            lines_view(out@) + body_fields(body.skip(i as int)) == body_fields(body),
    {
        proof {
            assert(body.skip(i as int)[0] == body[i as int]);
            assert(body.skip(i as int).skip(1) =~= body.skip(i + 1));
        }
        match &op.body_content[i].1 {
            Some(v) => {
                push_field_lines(&mut out, &op.body_content[i].0, v, 0);
                proof {
                    assert(lines_view(out@) + body_fields(body.skip(i + 1))
                        =~= body_fields(body));
                }
            },
            None => {},
        }
    }
    proof {
        assert(body.skip(n as int) =~= Seq::<(String, Option<SchemaValue>)>::empty());
        assert(lines_view(out@) + Seq::<LineModel>::empty() =~= lines_view(out@));
    }
    out
}

/// Render the parameter tab of one location.
pub fn render_param_fields(op: &OperationItem, loc: In) -> (r: Vec<RenderLine>)
    ensures
        lines_view(r@) == param_fields(op.parameters@, loc),
{
    let ghost ps = op.parameters@;
    let mut out: Vec<RenderLine> = Vec::new();
    let n = op.parameters.len();
    proof {
        assert(ps.skip(0) =~= ps);
        assert(lines_view(out@) + param_fields(ps, loc) =~= param_fields(ps, loc));
    }
    for i in 0..n
        invariant
            n == ps.len(),
            ps == op.parameters@,
            lines_view(out@) + param_fields(ps.skip(i as int), loc) == param_fields(ps, loc),
    {
        proof {
            assert(ps.skip(i as int)[0] == ps[i as int]);
            assert(ps.skip(i as int).skip(1) =~= ps.skip(i + 1));
        }
        let p = &op.parameters[i];
        if p.location == loc {
            match &p.schema {
                Some(v) => {
                    push_field_lines(&mut out, &p.name, v, 0);
                },
                None => {
                    let mut tokens: Vec<String> = Vec::new();
                    tokens.push(p.name.clone());
                    tokens.push(String::from_str("null"));
                    let line = RenderLine { indent: 0, tokens };
                    proof {
                        assert(line@.tokens =~= seq![ps[i as int].name@, "null"@]);
                        assert(line@ =~~= LineModel {
                            indent: 0,
                            tokens: seq![ps[i as int].name@, "null"@],
                        });
                    }
                    let ghost o0 = out@;
                    out.push(line);
                    proof {
                        assert(lines_view(out@) =~~= lines_view(o0).push(line@));
                        assert(lines_view(out@)
                            =~~= lines_view(o0) + param_field_lines(ps[i as int]));
                    }
                },
            }
            proof {
                assert(lines_view(out@) + param_fields(ps.skip(i + 1), loc)
                    =~= param_fields(ps, loc));
            }
        } else {
            proof {
                assert(param_fields(ps.skip(i as int), loc)
                    =~= param_fields(ps.skip(i + 1), loc));
            }
        }
    }
    proof {
        assert(ps.skip(n as int) =~= Seq::<ParameterInfo>::empty());
        assert(lines_view(out@) + Seq::<LineModel>::empty() =~= lines_view(out@));
    }
    out
}

/// Build the tab list of one operation.
pub fn build_request_tabs(op: &OperationItem) -> (r: Vec<RequestType>)
    ensures
        r@.map_values(|t: RequestType| t@) == request_tabs(*op),
{
    let mut tabs: Vec<RequestType> = Vec::new();
    let body = render_body_fields(op);
    if body.len() > 0 {
        tabs.push(RequestType { title: String::from_str("Body"), lines: body });
    }
    let query = render_param_fields(op, In::Query);
    if query.len() > 0 {
        tabs.push(RequestType { title: String::from_str("Query"), lines: query });
    }
    let header = render_param_fields(op, In::Header);
    if header.len() > 0 {
        tabs.push(RequestType { title: String::from_str("Header"), lines: header });
    }
    let path = render_param_fields(op, In::Path);
    if path.len() > 0 {
        tabs.push(RequestType { title: String::from_str("Path"), lines: path });
    }
    let cookie = render_param_fields(op, In::Cookie);
    if cookie.len() > 0 {
        tabs.push(RequestType { title: String::from_str("Cookie"), lines: cookie });
    }
    proof {
        assert(tabs@.map_values(|t: RequestType| t@) =~~= request_tabs(*op));
    }
    tabs
}

/// One pane step: the next pane state after an action.
pub open spec fn rq_step(m: RequestPaneModel, a: Action, st: State) -> RequestPaneModel {
    match a {
        Action::Update => RequestPaneModel {
            tabs: pane_tabs_of(st),
            index: 0,
            viewer: viewer_after_set(m.viewer, pane_tabs_of(st), 0),
            ..m
        },
        Action::Down => RequestPaneModel {
            viewer: ViewerModel {
                cursor: if m.viewer.cursor + 1 < m.viewer.lines.len() {
                    m.viewer.cursor + 1
                } else if m.viewer.lines.len() > 0 {
                    m.viewer.lines.len() - 1
                } else {
                    0
                },
                ..m.viewer
            },
            ..m
        },
        Action::Up => RequestPaneModel {
            viewer: ViewerModel {
                cursor: if m.viewer.cursor > 0 { m.viewer.cursor - 1 } else { 0 },
                ..m.viewer
            },
            ..m
        },
        Action::Tab(i) => {
            if i < m.tabs.len() {
                RequestPaneModel {
                    tabs: pane_tabs_of(st),
                    index: i as int,
                    viewer: viewer_after_set(m.viewer, pane_tabs_of(st), i as int),
                    ..m
                }
            } else {
                m
            }
        },
        Action::TabNext => {
            let next = if m.index + 1 < m.tabs.len() { m.index + 1 } else { 0 };
            RequestPaneModel {
                tabs: pane_tabs_of(st),
                index: next,
                viewer: viewer_after_set(m.viewer, pane_tabs_of(st), next),
                ..m
            }
        },
        Action::TabPrev => {
            let prev = if m.tabs.len() == 0 {
                m.index
            } else if m.index > 0 {
                m.index - 1
            } else {
                m.tabs.len() - 1
            };
            RequestPaneModel {
                tabs: pane_tabs_of(st),
                index: prev,
                viewer: viewer_after_set(m.viewer, pane_tabs_of(st), prev),
                ..m
            }
        },
        Action::Go => RequestPaneModel { viewer: go_model(m.viewer), ..m },
        Action::Back => {
            if 0 <= m.index < m.tabs.len() {
                RequestPaneModel {
                    viewer: back_model(m.viewer, m.tabs[m.index].lines),
                    ..m
                }
            } else {
                m
            }
        },
        Action::Focus => RequestPaneModel { focused: true, ..m },
        Action::UnFocus => RequestPaneModel { focused: false, ..m },
        _ => m,
    }
}

impl RequestPane {
    /// A fresh pane with no tabs and an empty navigator.
    pub fn new(focused: bool) -> (r: RequestPane)
        ensures
            r@.focused == focused,
            r@.tabs == Seq::<TabLinesModel>::empty(),
            r@.index == 0,
            r@.viewer.components == Seq::<(Seq<char>, Seq<crate::schema::LineModel>)>::empty(),
            r@.viewer.lines == Seq::<LineModel>::empty(),
            r@.viewer.cursor == 0,
            r@.viewer.names == Seq::<Seq<char>>::empty(),
            r@.viewer.offsets == Seq::<int>::empty(),
            viewer_wf(r@.viewer),
    {
        let r = RequestPane {
            focused,
            schemas: Vec::new(),
            schemas_index: 0,
            viewer: SchemaViewer::new(),
        };
        proof {
            assert(r@.tabs =~= Seq::<TabLinesModel>::empty());
        }
        r
    }

    /// Rebuild the tabs from the catalog's active operation and show the
    /// tab under the current index in the navigator.
    pub fn init_schema(&mut self, state: &State)
        ensures
            final(self)@ == (RequestPaneModel {
                tabs: pane_tabs_of(*state),
                viewer: viewer_after_set(
                    old(self)@.viewer,
                    pane_tabs_of(*state),
                    old(self)@.index,
                ),
                ..old(self)@
            }),
            viewer_wf(old(self)@.viewer) ==> viewer_wf(final(self)@.viewer),
    {
        let ghost m0 = self@;
        match state.active_operation() {
            Some(op) => {
                self.schemas = build_request_tabs(op);
            },
            None => {
                self.schemas = Vec::new();
                proof {
                    assert(self@.tabs =~= Seq::<TabLinesModel>::empty());
                }
            },
        }
        if self.schemas_index < self.schemas.len() {
            let lines = copy_lines(&self.schemas[self.schemas_index].lines);
            self.viewer.set_lines(lines);
        } else {
            self.viewer.clear();
        }
        proof {
            assert(self@ =~~= (RequestPaneModel {
                tabs: pane_tabs_of(*state),
                viewer: viewer_after_set(m0.viewer, pane_tabs_of(*state), m0.index),
                ..m0
            }));
        }
    }

    /// Apply one action: refreshes rebuild the tabs, the cursor moves over
    /// the shown lines, tab changes re-render, go drills into a reference
    /// and back pops the drill history.
    pub fn update(&mut self, action: &Action, state: &State) -> (r: Option<Action>)
        ensures
            r is None,
            final(self)@ == rq_step(old(self)@, *action, *state),
    {
        let ghost m0 = self@;
        match action {
            Action::Update => {
                self.schemas_index = 0;
                self.init_schema(state);
                proof {
                    assert(self@ =~~= (RequestPaneModel {
                        tabs: pane_tabs_of(*state),
                        index: 0,
                        viewer: viewer_after_set(m0.viewer, pane_tabs_of(*state), 0),
                        ..m0
                    }));
                }
            },
            Action::Down => {
                self.viewer.down();
                proof {
                    assert(self@ =~~= (RequestPaneModel {
                        viewer: self@.viewer,
                        ..m0
                    }));
                }
            },
            Action::Up => {
                self.viewer.up();
                proof {
                    assert(self@ =~~= (RequestPaneModel {
                        viewer: self@.viewer,
                        ..m0
                    }));
                }
            },
            Action::Tab(i) => {
                if (*i as usize) < self.schemas.len() {
                    self.schemas_index = *i as usize;
                    self.init_schema(state);
                    proof {
                        assert(self@ =~~= (RequestPaneModel {
                            tabs: pane_tabs_of(*state),
                            index: *i as int,
                            viewer: viewer_after_set(m0.viewer, pane_tabs_of(*state), *i as int),
                            ..m0
                        }));
                    }
                }
            },
            Action::TabNext => {
                proof {
                    assert(m0.tabs.len() == self.schemas@.len());
                }
                let len = self.schemas.len();
                let next = if len > 0 && self.schemas_index < len - 1 {
                    self.schemas_index + 1
                } else {
                    0
                };
                proof {
                    assert(next as int == (if m0.index + 1 < m0.tabs.len() {
                        m0.index + 1
                    } else {
                        0int
                    }));
                }
                self.schemas_index = next;
                self.init_schema(state);
                proof {
                    assert(self@ =~~= (RequestPaneModel {
                        tabs: pane_tabs_of(*state),
                        index: next as int,
                        viewer: viewer_after_set(m0.viewer, pane_tabs_of(*state), next as int),
                        ..m0
                    }));
                }
            },
            Action::TabPrev => {
                proof {
                    assert(m0.tabs.len() == self.schemas@.len());
                }
                if self.schemas.len() > 0 {
                    let prev = if self.schemas_index > 0 {
                        self.schemas_index - 1
                    } else {
                        self.schemas.len() - 1
                    };
                    self.schemas_index = prev;
                }
                self.init_schema(state);
                proof {
                    assert(self@ =~~= (RequestPaneModel {
                        tabs: pane_tabs_of(*state),
                        index: self@.index,
                        viewer: viewer_after_set(m0.viewer, pane_tabs_of(*state), self@.index),
                        ..m0
                    }));
                }
            },
            Action::Go => {
                self.viewer.go();
                proof {
                    assert(self@ =~~= (RequestPaneModel { viewer: self@.viewer, ..m0 }));
                }
            },
            Action::Back => {
                if self.schemas_index < self.schemas.len() {
                    let root = copy_lines(&self.schemas[self.schemas_index].lines);
                    self.viewer.back(root);
                    proof {
                        assert(self@ =~~= (RequestPaneModel { viewer: self@.viewer, ..m0 }));
                    }
                }
            },
            Action::Focus => {
                self.focused = true;
            },
            Action::UnFocus => {
                self.focused = false;
            },
            _ => {},
        }
        None
    }
}

} // verus!
