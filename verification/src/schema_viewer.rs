//! The schema navigator: named component schemas rendered to line lists, a
//! current line list with a cursor, and a drill-down/back history over
//! reference lines. Drilling into a reference pushes the pair of the current
//! name and cursor; going back pops it and restores the exact prior view.

use vstd::prelude::*;
use vstd::string::*;
use crate::schema::{SchemaValue, RenderLine, LineModel, lines_view, render_value, render_at, copy_lines, copy_strings};
use crate::text;

verus! {

/// The navigator state: named rendered component schemas, the lines on
/// display, the cursor, and the drill history.
#[derive(Debug)]
pub struct SchemaViewer {
    pub components: Vec<(String, Vec<RenderLine>)>,
    pub lines: Vec<RenderLine>,
    pub line_offset: usize,
    pub name_history: Vec<String>,
    pub line_offset_history: Vec<usize>,
}

/// The spec-level image of the navigator state.
#[verifier::ext_equal]
pub struct ViewerModel {
    pub components: Seq<(Seq<char>, Seq<LineModel>)>,
    pub lines: Seq<LineModel>,
    pub cursor: int,
    pub names: Seq<Seq<char>>,
    pub offsets: Seq<int>,
}

impl View for SchemaViewer {
    type V = ViewerModel;

    open spec fn view(&self) -> ViewerModel {
        ViewerModel {
            components: self.components@.map_values(
                |c: (String, Vec<RenderLine>)| (c.0@, lines_view(c.1@)),
            ),
            lines: lines_view(self.lines@),
            cursor: self.line_offset as int,
            names: self.name_history@.map_values(|s: String| s@),
            offsets: self.line_offset_history@.map_values(|o: usize| o as int),
        }
    }
}

/// Whether a component of that name exists, scanning front to back.
pub open spec fn comp_found(cs: Seq<(Seq<char>, Seq<LineModel>)>, name: Seq<char>) -> bool
    decreases cs.len(),
{
    if cs.len() == 0 {
        false
    } else if cs[0].0 == name {
        true
    } else {
        comp_found(cs.skip(1), name)
    }
}

/// The line list of the first component of that name; empty when none exists.
pub open spec fn comp_lookup(cs: Seq<(Seq<char>, Seq<LineModel>)>, name: Seq<char>) -> Seq<LineModel>
    decreases cs.len(),
{
    if cs.len() == 0 {
        Seq::empty()
    } else if cs[0].0 == name {
        cs[0].1
    } else {
        comp_lookup(cs.skip(1), name)
    }
}

/// A token is part of a reference line when it is the reference key itself
/// or a pointer into the named component schemas.
pub open spec fn ref_pred(t: Seq<char>) -> bool {
    t == "$ref"@ || text::seq_starts_with(t, "#/components/schemas/"@)
}

/// The single token filter used to recognise reference lines.
pub open spec fn ref_token_filter() -> spec_fn(Seq<char>) -> bool {
    |t: Seq<char>| ref_pred(t)
}

/// The component name a line points at: the line must carry exactly one
/// reference key token and one pointer token, in that order; the name is the
/// pointer with the component prefix removed. `None` for every other line.
pub open spec fn line_ref_target(l: LineModel) -> Option<Seq<char>> {
    let cands = l.tokens.filter(ref_token_filter());
    if cands.len() == 2 && cands[0] == "$ref"@
        && text::seq_starts_with(cands[1], "#/components/schemas/"@) {
        Some(cands[1].skip("#/components/schemas/"@.len() as int))
    } else {
        None
    }
}

/// The navigator state after `go`: when the cursor rests on a reference line
/// whose target name is a known component, the current cursor is pushed onto
/// the history together with the target name, and the target's lines are
/// shown from the top; every other state is left unchanged.
pub open spec fn go_model(m: ViewerModel) -> ViewerModel {
    if 0 <= m.cursor < m.lines.len() {
        match line_ref_target(m.lines[m.cursor]) {
            Some(name) => if comp_found(m.components, name) {
                ViewerModel {
                    components: m.components,
                    lines: comp_lookup(m.components, name),
                    cursor: 0,
                    names: m.names.push(name),
                    offsets: m.offsets.push(m.cursor),
                }
            } else {
                m
            },
            None => m,
        }
    } else {
        m
    }
}

/// The navigator state after `back`, `root` being the lines of the root
/// schema: the last name and offset are popped, the cursor returns to the
/// popped offset, and the schema now on top of the history is shown again
/// (the root when the history emptied). At the root, `back` shows the root
/// from the top.
pub open spec fn back_model(m: ViewerModel, root: Seq<LineModel>) -> ViewerModel {
    if m.names.len() == 0 || m.offsets.len() == 0 {
        ViewerModel {
            components: m.components,
            lines: root,
            cursor: 0,
            names: Seq::empty(),
            offsets: Seq::empty(),
        }
    } else {
        let names2 = m.names.drop_last();
        ViewerModel {
            components: m.components,
            lines: if names2.len() == 0 {
                root
            } else {
                comp_lookup(m.components, names2.last())
            },
            cursor: m.offsets.last(),
            names: names2,
            offsets: m.offsets.drop_last(),
        }
    }
}

proof fn lemma_lookup_not_found(cs: Seq<(Seq<char>, Seq<LineModel>)>, name: Seq<char>)
    requires
        !comp_found(cs, name),
    ensures
        comp_lookup(cs, name) == Seq::<LineModel>::empty(),
    decreases cs.len(),
{
    if cs.len() > 0 {
        lemma_lookup_not_found(cs.skip(1), name);
    }
}

/// Well-formedness of the navigator: the two history stacks run in step,
/// every name on the stack resolves among the components, and the displayed
/// lines are the rendering of the name on top of the stack, when any.
pub open spec fn viewer_wf(m: ViewerModel) -> bool {
    &&& m.names.len() == m.offsets.len()
    &&& forall|i: int| 0 <= i < m.names.len() ==> comp_found(m.components, #[trigger] m.names[i])
    &&& m.names.len() > 0 ==> m.lines == comp_lookup(m.components, m.names.last())
}

/// Drilling into a reference and going straight back restores the exact
/// name-and-cursor pair, and with it the displayed lines: the round trip is
/// the identity on a well-formed navigator whose cursor rests on a
/// resolvable reference line, `root` being the lines shown when the history
/// is empty.
pub proof fn lemma_go_back_round_trip(m: ViewerModel, root: Seq<LineModel>)
    requires
        viewer_wf(m),
        0 <= m.cursor < m.lines.len(),
        line_ref_target(m.lines[m.cursor]) is Some,
        comp_found(m.components, line_ref_target(m.lines[m.cursor])->0),
        m.names.len() == 0 ==> m.lines == root,
    ensures
        back_model(go_model(m), root) == m,
{
    let g = go_model(m);
    assert(g.names.drop_last() =~= m.names);
    assert(g.offsets.drop_last() =~= m.offsets);
    assert(back_model(g, root) =~~= m);
}

/// Drilling from the root: on a well-formed navigator showing the root
/// lines with an empty history, drilling the resolvable reference under the
/// cursor shows the named component from the top with exactly that name on
/// the stack, and going straight back shows the root again with the cursor
/// restored to the reference line.
pub proof fn lemma_drill_back_from_root(m: ViewerModel, root: Seq<LineModel>)
    requires
        viewer_wf(m),
        m.names.len() == 0,
        m.lines == root,
        0 <= m.cursor < m.lines.len(),
        line_ref_target(m.lines[m.cursor]) is Some,
        comp_found(m.components, line_ref_target(m.lines[m.cursor])->0),
    ensures
        ({
            let name = line_ref_target(m.lines[m.cursor])->0;
            let g = go_model(m);
            &&& g.names =~= seq![name]
            &&& g.offsets =~= seq![m.cursor]
            &&& g.lines == comp_lookup(m.components, name)
            &&& g.cursor == 0
            &&& back_model(g, root) == m
        }),
{
    lemma_go_back_round_trip(m, root);
}

impl SchemaViewer {
    /// A fresh navigator with no components and nothing on display.
    pub fn new() -> (r: SchemaViewer)
        ensures
            r@.components == Seq::<(Seq<char>, Seq<LineModel>)>::empty(),
            r@.lines == Seq::<LineModel>::empty(),
            r@.cursor == 0,
            r@.names == Seq::<Seq<char>>::empty(),
            r@.offsets == Seq::<int>::empty(),
            viewer_wf(r@),
    {
        let r = SchemaViewer {
            components: Vec::new(),
            lines: Vec::new(),
            line_offset: 0,
            name_history: Vec::new(),
            line_offset_history: Vec::new(),
        };
        proof {
            assert(r@.components =~= Seq::<(Seq<char>, Seq<LineModel>)>::empty());
            assert(r@.lines =~= Seq::<LineModel>::empty());
            assert(r@.names =~= Seq::<Seq<char>>::empty());
            assert(r@.offsets =~= Seq::<int>::empty());
        }
        r
    }

    /// Install the named component schemas, each rendered to its line list,
    /// and reset the view.
    pub fn set_components(&mut self, comps: &Vec<(String, SchemaValue)>)
        ensures
            final(self)@.components.len() == comps@.len(),
            forall|i: int| 0 <= i < comps@.len()
                ==> final(self)@.components[i]
                    == (comps@[i].0@, render_value(comps@[i].1, 0)),
            final(self)@.lines == Seq::<LineModel>::empty(),
            final(self)@.cursor == 0,
            final(self)@.names == Seq::<Seq<char>>::empty(),
            final(self)@.offsets == Seq::<int>::empty(),
            viewer_wf(final(self)@),
    {
        let mut stored: Vec<(String, Vec<RenderLine>)> = Vec::new();
        let n = comps.len();
        for i in 0..n
            invariant
                n == comps@.len(),
                stored@.len() == i,
                forall|j: int| 0 <= j < i
                    ==> (#[trigger] stored@[j]).0@ == comps@[j].0@
                        && lines_view(stored@[j].1@) == render_value(comps@[j].1, 0),
        {
            let rendered = render_at(&comps[i].1, 0);
            stored.push((comps[i].0.clone(), rendered));
        }
        self.components = stored;
        self.lines = Vec::new();
        self.line_offset = 0;
        self.name_history = Vec::new();
        self.line_offset_history = Vec::new();
        proof {
            assert(self@.lines =~= Seq::<LineModel>::empty());
            assert(self@.names =~= Seq::<Seq<char>>::empty());
            assert(self@.offsets =~= Seq::<int>::empty());
            assert forall|i: int| 0 <= i < comps@.len()
                implies self@.components[i]
                    == (comps@[i].0@, render_value(comps@[i].1, 0)) by {
                assert(self@.components[i]
                    =~~= (comps@[i].0@, render_value(comps@[i].1, 0)));
            }
        }
    }

    /// Forget the current view: no lines, cursor at the top, empty history.
    /// The components stay.
    pub fn clear(&mut self)
        ensures
            final(self)@.components == old(self)@.components,
            final(self)@.lines == Seq::<LineModel>::empty(),
            final(self)@.cursor == 0,
            final(self)@.names == Seq::<Seq<char>>::empty(),
            final(self)@.offsets == Seq::<int>::empty(),
            viewer_wf(final(self)@),
    {
        self.lines = Vec::new();
        self.line_offset = 0;
        self.name_history = Vec::new();
        self.line_offset_history = Vec::new();
        proof {
            assert(self@.lines =~= Seq::<LineModel>::empty());
            assert(self@.names =~= Seq::<Seq<char>>::empty());
            assert(self@.offsets =~= Seq::<int>::empty());
        }
    }

    /// Show a schema from the top with an empty history, then drill once
    /// right away when the first line is itself a resolvable reference.
    pub fn set(&mut self, schema: &SchemaValue)
        ensures
            final(self)@ == go_model(ViewerModel {
                components: old(self)@.components,
                lines: render_value(*schema, 0),
                cursor: 0,
                names: Seq::empty(),
                offsets: Seq::empty(),
            }),
            viewer_wf(old(self)@) ==> viewer_wf(final(self)@),
    {
        self.lines = render_at(schema, 0);
        self.line_offset = 0;
        self.name_history = Vec::new();
        self.line_offset_history = Vec::new();
        proof {
            assert(self@.names =~= Seq::<Seq<char>>::empty());
            assert(self@.offsets =~= Seq::<int>::empty());
            assert(viewer_wf(self@));
        }
        self.go();
    }

    /// Show a given rendered line list from the top with an empty history,
    /// then drill once right away when the first line is itself a
    /// resolvable reference.
    pub fn set_lines(&mut self, lines: Vec<RenderLine>)
        ensures
            final(self)@ == go_model(ViewerModel {
                components: old(self)@.components,
                lines: lines_view(lines@),
                cursor: 0,
                names: Seq::empty(),
                offsets: Seq::empty(),
            }),
            viewer_wf(final(self)@),
    {
        self.lines = lines;
        self.line_offset = 0;
        self.name_history = Vec::new();
        self.line_offset_history = Vec::new();
        proof {
            assert(self@.names =~= Seq::<Seq<char>>::empty());
            assert(self@.offsets =~= Seq::<int>::empty());
            assert(viewer_wf(self@));
        }
        self.go();
    }

    /// The reference target of the line under the cursor, when there is one.
    fn ref_target_at_cursor(&self) -> (r: Option<String>)
        ensures
            match r {
                Some(name) => 0 <= self@.cursor < self@.lines.len()
                    && line_ref_target(self@.lines[self@.cursor]) == Some(name@),
                None => !(0 <= self@.cursor < self@.lines.len())
                    || line_ref_target(self@.lines[self@.cursor]) is None,
            },
    {
        if self.line_offset >= self.lines.len() {
            return None;
        }
        let line = &self.lines[self.line_offset];
        let ghost lv = line@;
        let mut cands: Vec<String> = Vec::new();
        let n = line.tokens.len();
        for i in 0..n
            invariant
                n == line.tokens@.len(),
                cands@.map_values(|s: String| s@)
                    == line.tokens@.take(i as int).map_values(|t: String| t@)
                        .filter(ref_token_filter()),
        {
            let t = &line.tokens[i];
            let is_cand = text::str_eq(t.as_str(), "$ref")
                || text::str_starts_with(t.as_str(), "#/components/schemas/");
            proof {
                let prefix = line.tokens@.take(i as int).map_values(|t: String| t@);
                let with = line.tokens@.take(i + 1).map_values(|t: String| t@);
                assert(line.tokens@.take(i + 1)
                    =~= line.tokens@.take(i as int).push(line.tokens@[i as int]));
                assert(with =~= prefix.push(line.tokens@[i as int]@));
                prefix.lemma_filter_push(line.tokens@[i as int]@, ref_token_filter());
                assert(ref_token_filter()(line.tokens@[i as int]@) == is_cand);
            }
            if is_cand {
                cands.push(t.clone());
                proof {
                    assert(cands@.map_values(|s: String| s@)
                        =~= line.tokens@.take(i + 1).map_values(|t: String| t@)
                            .filter(ref_token_filter()));
                }
            }
        }
        proof {
            assert(line.tokens@.take(n as int) =~= line.tokens@);
            assert(lv.tokens == line.tokens@.map_values(|t: String| t@));
        }
        if cands.len() != 2 {
            return None;
        }
        let ghost cs = lv.tokens.filter(ref_token_filter());
        proof {
            assert(cands@.map_values(|s: String| s@)[0] == cands@[0]@);
            assert(cands@.map_values(|s: String| s@)[1] == cands@[1]@);
        }
        if !text::str_eq(cands[0].as_str(), "$ref") {
            return None;
        }
        if !text::str_starts_with(cands[1].as_str(), "#/components/schemas/") {
            return None;
        }
        let pointer = &cands[1];
        proof {
            reveal_strlit("#/components/schemas/");
        }
        let plen = pointer.as_str().unicode_len();
        let name = pointer.as_str().substring_char(21, plen).to_owned();
        proof {
            assert(name@ =~= cs[1].skip("#/components/schemas/"@.len() as int));
        }
        Some(name)
    }

    /// The line list of the named component, when it exists.
    fn component_lines(&self, name: &str) -> (r: Option<Vec<RenderLine>>)
        ensures
            match r {
                Some(ls) => comp_found(self@.components, name@)
                    && lines_view(ls@) == comp_lookup(self@.components, name@),
                None => !comp_found(self@.components, name@),
            },
    {
        let n = self.components.len();
        let ghost cs = self@.components;
        proof {
            assert(cs.skip(0) =~= cs);
        }
        for i in 0..n
            invariant
                n == self.components@.len(),
                cs == self@.components,
                comp_found(cs, name@) == comp_found(cs.skip(i as int), name@),
                comp_found(cs, name@)
                    ==> comp_lookup(cs, name@) == comp_lookup(cs.skip(i as int), name@),
        {
            proof {
                assert(cs.skip(i as int)[0] == cs[i as int]);
                assert(cs.skip(i as int).skip(1) =~= cs.skip(i + 1));
            }
            if text::str_eq(self.components[i].0.as_str(), name) {
                let ls = copy_lines(&self.components[i].1);
                return Some(ls);
            }
        }
        proof {
            assert(cs.skip(n as int) =~= Seq::<(Seq<char>, Seq<LineModel>)>::empty());
        }
        None
    }

    /// Drill into the reference under the cursor: push the current position
    /// onto the history and show the target component from the top. A line
    /// that is no reference, and a reference whose target is unknown, leave
    /// the state unchanged.
    pub fn go(&mut self)
        ensures
            final(self)@ == go_model(old(self)@),
            viewer_wf(old(self)@) ==> viewer_wf(final(self)@),
    {
        let ghost m0 = self@;
        let target = self.ref_target_at_cursor();
        match target {
            Some(name) => {
                let ghost nm = name@;
                match self.component_lines(name.as_str()) {
                    Some(ls) => {
                        self.line_offset_history.push(self.line_offset);
                        self.name_history.push(name);
                        self.line_offset = 0;
                        self.lines = ls;
                        proof {
                            assert(self@.names =~= m0.names.push(nm));
                            assert(self@.offsets =~= m0.offsets.push(m0.cursor));
                            assert(self@ =~~= go_model(m0));
                            if viewer_wf(m0) {
                                assert(self@.names.last() == nm);
                                assert forall|i: int| 0 <= i < self@.names.len()
                                    implies comp_found(self@.components, #[trigger] self@.names[i]) by {
                                    if i < m0.names.len() {
                                        assert(self@.names[i] == m0.names[i]);
                                    } else {
                                        assert(self@.names[i] == nm);
                                    }
                                }
                                assert(viewer_wf(self@));
                            }
                        }
                    },
                    None => {
                        proof {
                            assert(self@ =~~= go_model(m0));
                        }
                    },
                }
            },
            None => {
                proof {
                    assert(self@ =~~= go_model(m0));
                }
            },
        }
    }

    /// Pop the drill history once and restore the prior view, `root` being
    /// the rendered lines of the root schema to show when the history
    /// empties.
    pub fn back(&mut self, root: Vec<RenderLine>)
        ensures
            final(self)@ == back_model(old(self)@, lines_view(root@)),
            viewer_wf(old(self)@) ==> viewer_wf(final(self)@),
    {
        let ghost m0 = self@;
        let ghost rootv = lines_view(root@);
        if self.name_history.len() == 0 || self.line_offset_history.len() == 0 {
            self.lines = root;
            self.line_offset = 0;
            self.name_history = Vec::new();
            self.line_offset_history = Vec::new();
            proof {
                assert(self@.names =~= Seq::<Seq<char>>::empty());
                assert(self@.offsets =~= Seq::<int>::empty());
                assert(self@ =~~= back_model(m0, rootv));
            }
            return;
        }
        let off = self.line_offset_history.pop().unwrap();
        self.name_history.pop().unwrap();
        self.line_offset = off;
        proof {
            assert(self.name_history@.map_values(|s: String| s@)
                =~= m0.names.drop_last());
            assert(self.line_offset_history@.map_values(|o: usize| o as int)
                =~= m0.offsets.drop_last());
        }
        if self.name_history.len() == 0 {
            self.lines = root;
            proof {
                assert(self@ =~~= back_model(m0, rootv));
            }
        } else {
            let ghost names2 = m0.names.drop_last();
            let last = self.name_history[self.name_history.len() - 1].clone();
            proof {
                assert(last@ == names2.last());
            }
            match self.component_lines(last.as_str()) {
                Some(ls) => {
                    self.lines = ls;
                    proof {
                        assert(self@ =~~= back_model(m0, rootv));
                        if viewer_wf(m0) {
                            assert forall|i: int| 0 <= i < self@.names.len()
                                implies comp_found(self@.components, #[trigger] self@.names[i]) by {
                                assert(self@.names[i] == m0.names[i]);
                            }
                            assert(viewer_wf(self@));
                        }
                    }
                },
                None => {
                    // the name on top of the stack has no component: possible
                    // only on an ill-formed stack; show nothing, which is what
                    // the model prescribes for an unknown name
                    self.lines = Vec::new();
                    proof {
                        lemma_lookup_not_found(self@.components, names2.last());
                        assert(self@.lines =~= Seq::<LineModel>::empty());
                        assert(self@ =~~= back_model(m0, rootv));
                    }
                },
            }
        }
    }

    /// Move the cursor one line down, clamped to the last line.
    pub fn down(&mut self)
        ensures
            final(self)@ == (ViewerModel {
                cursor: if old(self)@.cursor + 1 < old(self)@.lines.len() {
                    old(self)@.cursor + 1
                } else if old(self)@.lines.len() > 0 {
                    old(self)@.lines.len() - 1
                } else {
                    0
                },
                ..old(self)@
            }),
            viewer_wf(old(self)@) ==> viewer_wf(final(self)@),
    {
        let ghost m0 = self@;
        let limit = if self.lines.len() == 0 { 0 } else { self.lines.len() - 1 };
        let bumped = if self.line_offset < usize::MAX { self.line_offset + 1 } else { self.line_offset };
        self.line_offset = if bumped < limit { bumped } else { limit };
        proof {
            assert(self@ =~~= ViewerModel {
                cursor: if m0.cursor + 1 < m0.lines.len() {
                    m0.cursor + 1
                } else if m0.lines.len() > 0 {
                    m0.lines.len() - 1
                } else {
                    0
                },
                ..m0
            });
        }
    }

    /// Move the cursor one line up, clamped to the first line.
    pub fn up(&mut self)
        ensures
            final(self)@ == (ViewerModel {
                cursor: if old(self)@.cursor > 0 { old(self)@.cursor - 1 } else { 0 },
                ..old(self)@
            }),
            viewer_wf(old(self)@) ==> viewer_wf(final(self)@),
    {
        let ghost m0 = self@;
        self.line_offset = if self.line_offset > 0 { self.line_offset - 1 } else { 0 };
        proof {
            assert(self@ =~~= ViewerModel {
                cursor: if m0.cursor > 0 { m0.cursor - 1 } else { 0 },
                ..m0
            });
        }
    }

    /// The names drilled through, outermost first.
    pub fn schema_path(&self) -> (r: Vec<String>)
        ensures
            r@.map_values(|s: String| s@) == self@.names,
    {
        let r = copy_strings(&self.name_history);
        proof {
            assert(r@.map_values(|s: String| s@) =~= self@.names);
        }
        r
    }
}

} // verus!
