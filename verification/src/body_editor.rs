//! The body editor pane: the raw body text and the selectable content type
//! of the request body, editable only when the operation takes a body.

use vstd::prelude::*;
use vstd::string::*;
use crate::action::Action;
use crate::state::{InputMode, OperationItem, State, strs_view};

verus! {

/// The body editor pane.
#[derive(Debug)]
pub struct BodyEditor {
    pub focused: bool,
    pub text: String,
    pub content_types: Vec<String>,
    pub content_type_index: usize,
}

/// Spec image of the body editor.
#[verifier::ext_equal]
pub struct BodyModel {
    pub focused: bool,
    pub text: Seq<char>,
    pub content_types: Seq<Seq<char>>,
    pub index: int,
}

impl View for BodyEditor {
    type V = BodyModel;

    open spec fn view(&self) -> BodyModel {
        BodyModel {
            focused: self.focused,
            text: self.text@,
            content_types: strs_view(self.content_types@),
            index: self.content_type_index as int,
        }
    }
}

/// The media types an operation's request body offers, in document order.
pub open spec fn media_types_of(body: Seq<(String, Option<crate::schema::SchemaValue>)>) -> Seq<Seq<char>> {
    body.map_values(|b: (String, Option<crate::schema::SchemaValue>)| b.0@)
}

/// One body-editor step: the next editor state and input mode after an
/// action. The editor reacts only while the operation takes a body; the tab
/// selection clamps at the ends rather than wrapping.
pub open spec fn body_step(m: BodyModel, a: Action, mode: InputMode) -> (BodyModel, InputMode) {
    let editable = m.content_types.len() > 0;
    match a {
        Action::Submit => {
            if mode == InputMode::Normal && editable {
                (m, InputMode::Insert)
            } else if mode == InputMode::Insert && editable {
                (m, InputMode::Normal)
            } else {
                (m, mode)
            }
        },
        Action::Tab(index) => {
            if index < m.content_types.len() {
                (BodyModel { index: index as int, ..m }, mode)
            } else {
                (m, mode)
            }
        },
        Action::TabNext => {
            if editable {
                (BodyModel {
                    index: if m.index + 1 < m.content_types.len() { m.index + 1 } else { m.index },
                    ..m
                }, mode)
            } else {
                (m, mode)
            }
        },
        Action::TabPrev => {
            if editable {
                (BodyModel {
                    index: if m.index > 0 { m.index - 1 } else { m.index },
                    ..m
                }, mode)
            } else {
                (m, mode)
            }
        },
        Action::Focus => (BodyModel { focused: true, ..m }, mode),
        Action::UnFocus => (BodyModel { focused: false, ..m }, mode),
        _ => (m, mode),
    }
}

impl BodyEditor {
    /// A fresh editor over the operation's body media types, with empty
    /// text.
    pub fn new(op: &OperationItem, focused: bool) -> (r: BodyEditor)
        ensures
            r@.focused == focused,
            r@.text == Seq::<char>::empty(),
            r@.content_types == media_types_of(op.body_content@),
            r@.index == 0,
    {
        let mut content_types: Vec<String> = Vec::new();
        let n = op.body_content.len();
        for i in 0..n
            invariant
                n == op.body_content@.len(),
                strs_view(content_types@) == media_types_of(op.body_content@.take(i as int)),
        {
            let ghost c0 = content_types@;
            content_types.push(op.body_content[i].0.clone());
            proof {
                assert(op.body_content@.take(i + 1)
                    =~= op.body_content@.take(i as int).push(op.body_content@[i as int]));
                assert(strs_view(content_types@)
                    =~= strs_view(c0).push(op.body_content@[i as int].0@));
                assert(media_types_of(op.body_content@.take(i + 1))
                    =~= media_types_of(op.body_content@.take(i as int))
                        .push(op.body_content@[i as int].0@));
                assert(strs_view(content_types@)
                    =~= media_types_of(op.body_content@.take(i + 1)));
            }
        }
        proof {
            assert(op.body_content@.take(n as int) =~= op.body_content@);
            assert(strs_view(Seq::<String>::empty()) =~= Seq::<Seq<char>>::empty());
            assert(media_types_of(Seq::<(String, Option<crate::schema::SchemaValue>)>::empty())
                =~= Seq::<Seq<char>>::empty());
        }
        BodyEditor { focused, text: String::new(), content_types, content_type_index: 0 }
    }

    /// Install body text, as committed by the editor widget or loaded from
    /// a payload file.
    pub fn set_text(&mut self, text: String)
        ensures
            *final(self) == (BodyEditor { text: text, ..*old(self) }),
    {
        self.text = text;
    }

    /// The selected content type, when the operation takes a body.
    pub fn content_type(&self) -> (r: Option<&String>)
        ensures
            match r {
                Some(ct) => 0 <= self@.index < self@.content_types.len()
                    && ct@ == self@.content_types[self@.index],
                None => self@.index >= self@.content_types.len(),
            },
    {
        if self.content_type_index < self.content_types.len() {
            Some(&self.content_types[self.content_type_index])
        } else {
            None
        }
    }

    /// Apply one action to the body editor; it consumes its actions and
    /// emits none.
    pub fn update(&mut self, action: &Action, state: &mut State) -> (r: Option<Action>)
        ensures
            r is None,
            (final(self)@, final(state).input_mode)
                == body_step(old(self)@, *action, old(state).input_mode),
            final(state).openapi_operations == old(state).openapi_operations,
            final(state).active_operation_index == old(state).active_operation_index,
            final(state).active_tag_name == old(state).active_tag_name,
            final(state).active_filter == old(state).active_filter,
            final(state).responses == old(state).responses,
            final(state).servers == old(state).servers,
            final(state).tags == old(state).tags,
            final(state).openapi_input_source == old(state).openapi_input_source,
    {
        let ghost m0 = self@;
        let ghost mode0 = state.input_mode;
        let editable = self.content_types.len() > 0;
        match action {
            Action::Submit => {
                if state.input_mode == InputMode::Normal && editable {
                    state.input_mode = InputMode::Insert;
                } else if state.input_mode == InputMode::Insert && editable {
                    state.input_mode = InputMode::Normal;
                }
            },
            Action::Tab(index) => {
                if (*index as usize) < self.content_types.len() {
                    self.content_type_index = *index as usize;
                }
            },
            Action::TabNext => {
                if editable {
                    let next = self.content_type_index.saturating_add(1);
                    if next < self.content_types.len() {
                        self.content_type_index = next;
                    }
                }
            },
            Action::TabPrev => {
                if editable {
                    if self.content_type_index > 0 {
                        self.content_type_index = self.content_type_index - 1;
                    }
                }
            },
            Action::Focus => {
                self.focused = true;
            },
            Action::UnFocus => {
                self.focused = false;
            },
            _ => {},
        }
        proof {
            assert(self@ =~~= body_step(m0, *action, mode0).0);
        }
        None
    }
}

} // verus!
