//! Schema values as the navigator reads them, and the renderer that turns a
//! value into the ordered list of display lines the navigator scrolls over.

use vstd::prelude::*;
use vstd::string::*;

verus! {

/// A resolved-or-inline schema value: scalar leaf text, arrays, and objects
/// as ordered field lists. A reference to a named component schema appears as
/// an object field named `$ref` whose value is the scalar pointer text.
#[derive(Debug)]
pub enum SchemaValue {
    Scalar(String),
    Array(Vec<SchemaValue>),
    Object(Vec<(String, SchemaValue)>),
}

/// One display line of a rendered schema: an indentation depth and the
/// tokens shown on the line, in order.
#[derive(Debug, Clone)]
pub struct RenderLine {
    pub indent: u64,
    pub tokens: Vec<String>,
}

/// The spec-level image of one rendered line.
#[verifier::ext_equal]
pub struct LineModel {
    pub indent: u64,
    pub tokens: Seq<Seq<char>>,
}

impl View for RenderLine {
    type V = LineModel;

    open spec fn view(&self) -> LineModel {
        LineModel { indent: self.indent, tokens: self.tokens@.map_values(|t: String| t@) }
    }
}

/// The spec-level image of a rendered line list.
pub open spec fn lines_view(ls: Seq<RenderLine>) -> Seq<LineModel> {
    ls.map_values(|l: RenderLine| l@)
}

/// The next indentation depth, capped at the largest representable depth.
pub open spec fn spec_bump(d: u64) -> u64 {
    if d == u64::MAX {
        d
    } else {
        (d + 1) as u64
    }
}

fn bump(d: u64) -> (r: u64)
    ensures
        r == spec_bump(d),
{
    if d == u64::MAX {
        d
    } else {
        d + 1
    }
}

/// The rendered lines of one value, shown at depth `d`.
pub open spec fn render_value(v: SchemaValue, d: u64) -> Seq<LineModel>
    decreases v, 0int,
{
    match v {
        SchemaValue::Scalar(s) => seq![LineModel { indent: d, tokens: seq![s@] }],
        SchemaValue::Array(items) => render_items(items@, d),
        SchemaValue::Object(fields) => render_fields(fields@, d),
    }
}

/// The rendered lines of an array's elements at depth `d`: scalar elements
/// on one dashed line each, nested elements as a dash followed by their own
/// lines one level deeper.
pub open spec fn render_items(items: Seq<SchemaValue>, d: u64) -> Seq<LineModel>
    decreases items, 0int,
{
    if items.len() == 0 {
        Seq::empty()
    } else {
        item_lines(items[0], d) + render_items(items.skip(1), d)
    }
}

/// The rendered lines of one array element.
pub open spec fn item_lines(v: SchemaValue, d: u64) -> Seq<LineModel>
    decreases v, 1int,
{
    match v {
        SchemaValue::Scalar(s) => seq![LineModel { indent: d, tokens: seq!["-"@, s@] }],
        _ => seq![LineModel { indent: d, tokens: seq!["-"@] }] + render_value(v, spec_bump(d)),
    }
}

/// The rendered lines of an object's fields at depth `d`: scalar fields as a
/// key/value line, nested fields as a key line followed by their own lines
/// one level deeper.
pub open spec fn render_fields(fields: Seq<(String, SchemaValue)>, d: u64) -> Seq<LineModel>
    decreases fields, 0int,
{
    if fields.len() == 0 {
        Seq::empty()
    } else {
        field_lines(fields[0], d) + render_fields(fields.skip(1), d)
    }
}

/// The rendered lines of one object field.
pub open spec fn field_lines(f: (String, SchemaValue), d: u64) -> Seq<LineModel>
    decreases f, 1int,
{
    match f.1 {
        SchemaValue::Scalar(s) => seq![LineModel { indent: d, tokens: seq![f.0@, s@] }],
        _ => seq![LineModel { indent: d, tokens: seq![f.0@] }] + render_value(f.1, spec_bump(d)),
    }
}

proof fn lemma_render_items_snoc(items: Seq<SchemaValue>, v: SchemaValue, d: u64)
    ensures
        render_items(items.push(v), d) == render_items(items, d) + item_lines(v, d),
    decreases items,
{
    if items.len() == 0 {
        assert(items.push(v).skip(1) =~= Seq::<SchemaValue>::empty());
        assert(items.push(v)[0] == v);
        assert(render_items(items.push(v), d)
            == item_lines(v, d) + render_items(Seq::<SchemaValue>::empty(), d));
        assert(render_items(Seq::<SchemaValue>::empty(), d) == Seq::<LineModel>::empty());
        assert(render_items(items, d) == Seq::<LineModel>::empty());
        assert(item_lines(v, d) + Seq::<LineModel>::empty() =~= item_lines(v, d));
        assert(Seq::<LineModel>::empty() + item_lines(v, d) =~= item_lines(v, d));
    } else {
        assert(items.push(v).skip(1) =~= items.skip(1).push(v));
        lemma_render_items_snoc(items.skip(1), v, d);
        assert(items.push(v)[0] == items[0]);
        assert(render_items(items.push(v), d)
            == item_lines(items[0], d) + render_items(items.skip(1).push(v), d));
        assert(render_items(items.push(v), d) =~= render_items(items, d) + item_lines(v, d));
    }
}

proof fn lemma_render_fields_snoc(fields: Seq<(String, SchemaValue)>, f: (String, SchemaValue), d: u64)
    ensures
        render_fields(fields.push(f), d) == render_fields(fields, d) + field_lines(f, d),
    decreases fields,
{
    if fields.len() == 0 {
        assert(fields.push(f).skip(1) =~= Seq::<(String, SchemaValue)>::empty());
        assert(fields.push(f)[0] == f);
        assert(render_fields(fields.push(f), d)
            == field_lines(f, d) + render_fields(Seq::<(String, SchemaValue)>::empty(), d));
        assert(render_fields(Seq::<(String, SchemaValue)>::empty(), d) == Seq::<LineModel>::empty());
        assert(render_fields(fields, d) == Seq::<LineModel>::empty());
        assert(field_lines(f, d) + Seq::<LineModel>::empty() =~= field_lines(f, d));
        assert(Seq::<LineModel>::empty() + field_lines(f, d) =~= field_lines(f, d));
    } else {
        assert(fields.push(f).skip(1) =~= fields.skip(1).push(f));
        lemma_render_fields_snoc(fields.skip(1), f, d);
        assert(fields.push(f)[0] == fields[0]);
        assert(render_fields(fields.push(f), d)
            == field_lines(fields[0], d) + render_fields(fields.skip(1).push(f), d));
        assert(render_fields(fields.push(f), d) =~= render_fields(fields, d) + field_lines(f, d));
    }
}

/// Render one value into display lines, at depth `d`.
pub fn render_at(v: &SchemaValue, d: u64) -> (r: Vec<RenderLine>)
    ensures
        lines_view(r@) == render_value(*v, d),
    decreases *v, 0int,
{
    match v {
        SchemaValue::Scalar(s) => {
            let mut tokens: Vec<String> = Vec::new();
            tokens.push(s.clone());
            let mut r: Vec<RenderLine> = Vec::new();
            r.push(RenderLine { indent: d, tokens });
            proof {
                assert(lines_view(r@) =~~= render_value(*v, d));
            }
            r
        },
        SchemaValue::Array(items) => {
            let mut r: Vec<RenderLine> = Vec::new();
            let n = items.len();
            let mut i: usize = 0;
            proof {
                assert(items@.take(0) =~= Seq::<SchemaValue>::empty());
                assert(lines_view(r@) =~~= render_items(items@.take(0), d));
            }
            while i < n
                invariant
                    *v == SchemaValue::Array(*items),
                    n == items@.len(),
                    i <= n,
                    lines_view(r@) == render_items(items@.take(i as int), d),
                decreases n - i,
            {
                proof {
                    assert(v->Array_0 == *items);
                    assert(decreases_to!(*v => v->Array_0));
                    assert(decreases_to!(*items => items@));
                    assert(decreases_to!(items@ => items@[i as int]));
                }
                let mut piece = render_item(&items[i], d);
                proof {
                    lemma_render_items_snoc(items@.take(i as int), items@[i as int], d);
                    assert(items@.take(i + 1) =~= items@.take(i as int).push(items@[i as int]));
                    assert(lines_view(r@ + piece@) =~~= lines_view(r@) + lines_view(piece@));
                }
                r.append(&mut piece);
                i += 1;
            }
            proof {
                assert(items@.take(n as int) =~= items@);
            }
            r
        },
        SchemaValue::Object(fields) => {
            let mut r: Vec<RenderLine> = Vec::new();
            let n = fields.len();
            let mut i: usize = 0;
            proof {
                assert(fields@.take(0) =~= Seq::<(String, SchemaValue)>::empty());
                assert(lines_view(r@) =~~= render_fields(fields@.take(0), d));
            }
            while i < n
                invariant
                    *v == SchemaValue::Object(*fields),
                    n == fields@.len(),
                    i <= n,
                    lines_view(r@) == render_fields(fields@.take(i as int), d),
                decreases n - i,
            {
                proof {
                    assert(v->Object_0 == *fields);
                    assert(decreases_to!(*v => v->Object_0));
                    assert(decreases_to!(*fields => fields@));
                    assert(decreases_to!(fields@ => fields@[i as int]));
                }
                let mut piece = render_field(&fields[i], d);
                proof {
                    lemma_render_fields_snoc(fields@.take(i as int), fields@[i as int], d);
                    assert(fields@.take(i + 1) =~= fields@.take(i as int).push(fields@[i as int]));
                    assert(lines_view(r@ + piece@) =~~= lines_view(r@) + lines_view(piece@));
                }
                r.append(&mut piece);
                i += 1;
            }
            proof {
                assert(fields@.take(n as int) =~= fields@);
            }
            r
        },
    }
}

/// Render one array element.
fn render_item(v: &SchemaValue, d: u64) -> (r: Vec<RenderLine>)
    ensures
        lines_view(r@) == item_lines(*v, d),
    decreases *v, 1int,
{
    match v {
        SchemaValue::Scalar(s) => {
            let mut tokens: Vec<String> = Vec::new();
            tokens.push(String::from_str("-"));
            tokens.push(s.clone());
            let mut r: Vec<RenderLine> = Vec::new();
            r.push(RenderLine { indent: d, tokens });
            proof {
                assert(lines_view(r@) =~~= item_lines(*v, d));
            }
            r
        },
        _ => {
            let mut tokens: Vec<String> = Vec::new();
            tokens.push(String::from_str("-"));
            let mut r: Vec<RenderLine> = Vec::new();
            r.push(RenderLine { indent: d, tokens });
            let mut rest = render_at(v, bump(d));
            proof {
                assert(lines_view(r@ + rest@) =~~= lines_view(r@) + lines_view(rest@));
                assert(lines_view(r@) + lines_view(rest@) =~~= item_lines(*v, d));
            }
            r.append(&mut rest);
            r
        },
    }
}

/// Render one object field.
fn render_field(f: &(String, SchemaValue), d: u64) -> (r: Vec<RenderLine>)
    ensures
        lines_view(r@) == field_lines(*f, d),
    decreases *f, 1int,
{
    match &f.1 {
        SchemaValue::Scalar(s) => {
            let mut tokens: Vec<String> = Vec::new();
            tokens.push(f.0.clone());
            tokens.push(s.clone());
            let mut r: Vec<RenderLine> = Vec::new();
            r.push(RenderLine { indent: d, tokens });
            proof {
                assert(lines_view(r@) =~~= field_lines(*f, d));
            }
            r
        },
        _ => {
            let mut tokens: Vec<String> = Vec::new();
            tokens.push(f.0.clone());
            let mut r: Vec<RenderLine> = Vec::new();
            r.push(RenderLine { indent: d, tokens });
            let mut rest = render_at(&f.1, bump(d));
            proof {
                assert(lines_view(r@ + rest@) =~~= lines_view(r@) + lines_view(rest@));
                assert(lines_view(r@) + lines_view(rest@) =~~= field_lines(*f, d));
            }
            r.append(&mut rest);
            r
        },
    }
}

/// Render a whole schema value, starting at depth zero.
pub fn render(v: &SchemaValue) -> (r: Vec<RenderLine>)
    ensures
        lines_view(r@) == render_value(*v, 0),
{
    render_at(v, 0)
}

/// Append the rendered lines of one object field at depth `d`, the field
/// given by reference; used to render composite objects assembled on the fly.
pub fn push_field_lines(out: &mut Vec<RenderLine>, name: &String, v: &SchemaValue, d: u64)
    ensures
        lines_view(final(out)@) == lines_view(old(out)@) + field_lines((*name, *v), d),
{
    let mut piece = render_field_ref(name, v, d);
    proof {
        assert(lines_view(old(out)@ + piece@) =~~= lines_view(old(out)@) + lines_view(piece@));
    }
    out.append(&mut piece);
}

/// Render one object field given by reference.
fn render_field_ref(name: &String, v: &SchemaValue, d: u64) -> (r: Vec<RenderLine>)
    ensures
        lines_view(r@) == field_lines((*name, *v), d),
{
    match v {
        SchemaValue::Scalar(s) => {
            let mut tokens: Vec<String> = Vec::new();
            tokens.push(name.clone());
            tokens.push(s.clone());
            let mut r: Vec<RenderLine> = Vec::new();
            r.push(RenderLine { indent: d, tokens });
            proof {
                assert(lines_view(r@) =~~= field_lines((*name, *v), d));
            }
            r
        },
        _ => {
            let mut tokens: Vec<String> = Vec::new();
            tokens.push(name.clone());
            let mut r: Vec<RenderLine> = Vec::new();
            r.push(RenderLine { indent: d, tokens });
            let mut rest = render_at(v, bump(d));
            proof {
                assert(lines_view(r@ + rest@) =~~= lines_view(r@) + lines_view(rest@));
                assert(lines_view(r@) + lines_view(rest@) =~~= field_lines((*name, *v), d));
            }
            r.append(&mut rest);
            r
        },
    }
}

/// A copy of a string list, equal to the original.
pub fn copy_strings(v: &Vec<String>) -> (r: Vec<String>)
    ensures
        r@ == v@,
{
    let mut out: Vec<String> = Vec::new();
    let n = v.len();
    let mut i: usize = 0;
    while i < n
        invariant
            n == v@.len(),
            i <= n,
            out@ == v@.take(i as int),
        decreases n - i,
    {
        out.push(v[i].clone());
        proof {
            assert(out@ =~= v@.take(i + 1));
        }
        i += 1;
    }
    proof {
        assert(v@.take(n as int) =~= v@);
    }
    out
}

/// A copy of a rendered line list whose view equals the original's.
pub fn copy_lines(v: &Vec<RenderLine>) -> (r: Vec<RenderLine>)
    ensures
        lines_view(r@) == lines_view(v@),
{
    let mut out: Vec<RenderLine> = Vec::new();
    let n = v.len();
    let mut i: usize = 0;
    while i < n
        invariant
            n == v@.len(),
            i <= n,
            lines_view(out@) == lines_view(v@.take(i as int)),
        decreases n - i,
    {
        let tokens = copy_strings(&v[i].tokens);
        let line = RenderLine { indent: v[i].indent, tokens };
        proof {
            assert(line@ =~~= v@[i as int]@);
            assert(v@.take(i + 1) =~= v@.take(i as int).push(v@[i as int]));
            assert(lines_view(out@.push(line)) =~~= lines_view(out@).push(line@));
            assert(lines_view(v@.take(i as int).push(v@[i as int]))
                =~~= lines_view(v@.take(i as int)).push(v@[i as int]@));
            assert(lines_view(out@.push(line)) =~~= lines_view(v@.take(i + 1)));
        }
        out.push(line);
        i += 1;
    }
    proof {
        assert(v@.take(n as int) =~= v@);
    }
    out
}

} // verus!
