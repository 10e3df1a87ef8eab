//! The response viewer pane: the acceptable media types of the operation's
//! success response, one of which is sent as the accept header, and the
//! submit shortcut that dials the call.

use vstd::prelude::*;
use vstd::string::*;
use crate::action::Action;
use crate::openapi::ResponseInfo;
use crate::state::{OperationItem, strs_view};
use crate::text;

verus! {

/// The response viewer pane.
#[derive(Debug)]
pub struct ResponseViewer {
    pub focused: bool,
    pub content_types: Vec<String>,
    pub content_type_index: usize,
}

/// Spec image of the response viewer.
#[verifier::ext_equal]
pub struct ViewerPaneModel {
    pub focused: bool,
    pub content_types: Seq<Seq<char>>,
    pub index: int,
}

impl View for ResponseViewer {
    type V = ViewerPaneModel;

    open spec fn view(&self) -> ViewerPaneModel {
        ViewerPaneModel {
            focused: self.focused,
            content_types: strs_view(self.content_types@),
            index: self.content_type_index as int,
        }
    }
}

/// The status whose media types the viewer offers.
pub open spec fn ok_pred() -> spec_fn(ResponseInfo) -> bool {
    |r: ResponseInfo| r.status@ == "200"@
}

/// The media types of the operation's success response, in document order.
pub open spec fn accept_types(rs: Seq<ResponseInfo>) -> Seq<Seq<char>> {
    rs.filter(ok_pred()).map_values(|r: ResponseInfo| r.media_type@)
}

/// One viewer step: the next pane state after an action; the tab selection
/// clamps at the ends.
pub open spec fn viewer_step(m: ViewerPaneModel, a: Action) -> ViewerPaneModel {
    let present = m.content_types.len() > 0;
    match a {
        Action::Tab(index) => {
            if present && index < m.content_types.len() {
                ViewerPaneModel { index: index as int, ..m }
            } else {
                m
            }
        },
        Action::TabNext => {
            if present && m.index + 1 < m.content_types.len() {
                ViewerPaneModel { index: m.index + 1, ..m }
            } else {
                m
            }
        },
        Action::TabPrev => {
            if present && m.index > 0 {
                ViewerPaneModel { index: m.index - 1, ..m }
            } else {
                m
            }
        },
        Action::Focus => ViewerPaneModel { focused: true, ..m },
        Action::UnFocus => ViewerPaneModel { focused: false, ..m },
        _ => m,
    }
}

impl ResponseViewer {
    /// A fresh viewer over the success-response media types of the
    /// operation.
    pub fn new(op: &OperationItem, focused: bool) -> (r: ResponseViewer)
        ensures
            r@.focused == focused,
            r@.content_types == accept_types(op.response_schemas@),
            r@.index == 0,
    {
        let ghost rs = op.response_schemas@;
        let mut content_types: Vec<String> = Vec::new();
        let n = op.response_schemas.len();
        proof {
            assert(rs.take(0) =~= Seq::<ResponseInfo>::empty());
            assert(strs_view(content_types@) =~= accept_types(rs.take(0)));
            reveal(Seq::filter);
        }
        for i in 0..n
            invariant
                n == rs.len(),
                rs == op.response_schemas@,
                strs_view(content_types@) == accept_types(rs.take(i as int)),
        {
            let is_ok = text::str_eq(op.response_schemas[i].status.as_str(), "200");
            proof {
                rs.take(i as int).lemma_filter_push(rs[i as int], ok_pred());
                assert(rs.take(i + 1) =~= rs.take(i as int).push(rs[i as int]));
                assert(ok_pred()(rs[i as int]) == is_ok);
            }
            if is_ok {
                let ghost c0 = content_types@;
                content_types.push(op.response_schemas[i].media_type.clone());
                proof {
                    assert(strs_view(content_types@)
                        =~= strs_view(c0).push(rs[i as int].media_type@));
                    assert(strs_view(content_types@) =~= accept_types(rs.take(i + 1)));
                }
            } else {
                proof {
                    assert(strs_view(content_types@) =~= accept_types(rs.take(i + 1)));
                }
            }
        }
        proof {
            assert(rs.take(n as int) =~= rs);
        }
        ResponseViewer { focused, content_types, content_type_index: 0 }
    }

    /// The selected accept media type, when the operation declares any.
    pub fn accept_type(&self) -> (r: Option<&String>)
        ensures
            match r {
                Some(ct) => 0 <= self@.index < self@.content_types.len()
                    && ct@ == self@.content_types[self@.index],
                None => self@.index >= self@.content_types.len(),
            },
    {
        if self.content_type_index < self.content_types.len() {
            Some(&self.content_types[self.content_type_index])
        } else {
            None
        }
    }

    /// Apply one action: submit dials the call, the rest adjust the pane.
    pub fn update(&mut self, action: &Action) -> (r: Option<Action>)
        ensures
            final(self)@ == viewer_step(old(self)@, *action),
            match *action {
                Action::Submit => r == Some(Action::Dial),
                _ => r is None,
            },
    {
        let ghost m0 = self@;
        let present = self.content_types.len() > 0;
        match action {
            Action::Submit => {
                proof {
                    assert(self@ =~~= viewer_step(m0, *action));
                }
                return Some(Action::Dial);
            },
            Action::Tab(index) => {
                if present && (*index as usize) < self.content_types.len() {
                    self.content_type_index = *index as usize;
                }
            },
            Action::TabNext => {
                if present {
                    let next = self.content_type_index.saturating_add(1);
                    if next < self.content_types.len() {
                        self.content_type_index = next;
                    }
                }
            },
            Action::TabPrev => {
                if present && self.content_type_index > 0 {
                    self.content_type_index = self.content_type_index - 1;
                }
            },
            Action::Focus => {
                self.focused = true;
            },
            Action::UnFocus => {
                self.focused = false;
            },
            _ => {},
        }
        proof {
            assert(self@ =~~= viewer_step(m0, *action));
        }
        None
    }
}

} // verus!
