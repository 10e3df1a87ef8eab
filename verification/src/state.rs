//! The shared interactive state: the operation catalog with its filter, tag
//! and selection, the input mode, the latest response per operation, and the
//! servers and tags of the loaded document.

use vstd::prelude::*;
use vstd::string::*;
use crate::openapi::{Server, ServerVariable, ParameterInfo, ResponseInfo, brace_name, subst_vars, default_url_spec};
use crate::response::Response;
use crate::schema::SchemaValue;
use crate::table;
use crate::text;

verus! {

/// How key input is interpreted: normal bindings, text insertion into the
/// focused editor, or the footer command line.
#[derive(Debug, Copy, Clone, PartialEq, Eq, Structural)]
pub enum InputMode {
    Normal,
    Insert,
    Command,
}

/// Whether an entry is an ordinary path operation or a webhook event.
#[derive(Debug, Copy, Clone, PartialEq, Eq, Structural)]
pub enum OperationItemType {
    Path,
    Webhook,
}

/// One operation of the catalog, flattened to plain values: its path and
/// method, identifier, summary, tags, classification, and the parameter,
/// request-body and response descriptors the panes read.
#[derive(Debug)]
pub struct OperationItem {
    pub path: String,
    pub method: String,
    pub operation_id: Option<String>,
    pub summary: Option<String>,
    pub tags: Vec<String>,
    pub kind: OperationItemType,
    pub parameters: Vec<ParameterInfo>,
    pub body_content: Vec<(String, Option<SchemaValue>)>,
    pub response_schemas: Vec<ResponseInfo>,
}

impl OperationItem {
    /// The operation carries this tag.
    pub open spec fn spec_has_tag(&self, tag: Seq<char>) -> bool {
        exists|i: int| 0 <= i < self.tags@.len() && (#[trigger] self.tags@[i])@ == tag
    }

    /// Whether the operation carries the tag.
    pub fn has_tag(&self, tag: &String) -> (r: bool)
        ensures
            r == self.spec_has_tag(tag@),
    {
        let n = self.tags.len();
        for i in 0..n
            invariant
                n == self.tags@.len(),
                forall|j: int| 0 <= j < i ==> (#[trigger] self.tags@[j])@ != tag@,
        {
            if text::str_eq(self.tags[i].as_str(), tag.as_str()) {
                return true;
            }
        }
        false
    }

    /// Build an entry: a path that does not start with a slash is a webhook
    /// event, every other path an ordinary operation.
    pub fn new(
        path: String,
        method: String,
        operation_id: Option<String>,
        summary: Option<String>,
        tags: Vec<String>,
        parameters: Vec<ParameterInfo>,
        body_content: Vec<(String, Option<SchemaValue>)>,
        response_schemas: Vec<ResponseInfo>,
    ) -> (r: OperationItem)
        ensures
            r.path == path,
            r.method == method,
            r.operation_id == operation_id,
            r.summary == summary,
            r.tags == tags,
            r.parameters == parameters,
            r.body_content == body_content,
            r.response_schemas == response_schemas,
            r.kind == (if text::seq_starts_with(path@, "/"@) {
                OperationItemType::Path
            } else {
                OperationItemType::Webhook
            }),
    {
        let kind = if text::str_starts_with(path.as_str(), "/") {
            OperationItemType::Path
        } else {
            OperationItemType::Webhook
        };
        OperationItem {
            path,
            method,
            operation_id,
            summary,
            tags,
            kind,
            parameters,
            body_content,
            response_schemas,
        }
    }
}

/// An entry is visible under a filter text and an optional tag: its path
/// contains the filter, and either no tag is active or the entry carries it.
pub open spec fn op_matches(op: OperationItem, filter: Seq<char>, tag: Option<String>) -> bool {
    &&& text::seq_contains(op.path@, filter)
    &&& match tag {
        Option::None => true,
        Option::Some(t) => op.spec_has_tag(t@),
    }
}

/// The visibility predicate as a function value, for filtering.
pub open spec fn vis_pred(filter: Seq<char>, tag: Option<String>) -> spec_fn(OperationItem) -> bool {
    |op: OperationItem| op_matches(op, filter, tag)
}

/// The view of an optional string.
pub open spec fn opt_str_view(o: Option<String>) -> Option<Seq<char>> {
    match o {
        Option::None => None,
        Option::Some(s) => Some(s@),
    }
}

/// Two optional identifiers hold the same text.
pub open spec fn opt_id_eq(a: Option<String>, b: Option<String>) -> bool {
    match (a, b) {
        (Option::None, Option::None) => true,
        (Option::Some(x), Option::Some(y)) => x@ == y@,
        _ => false,
    }
}

/// `i` is the first catalog position whose identifier equals `id`.
pub open spec fn first_id_at(ops: Seq<OperationItem>, id: Option<String>, i: int) -> bool {
    &&& 0 <= i < ops.len()
    &&& opt_id_eq(ops[i].operation_id, id)
    &&& forall|j: int| 0 <= j < i ==> !opt_id_eq((#[trigger] ops[j]).operation_id, id)
}

/// The shared interactive state.
#[verifier::ext_equal]
pub struct State {
    pub openapi_input_source: String,
    pub openapi_operations: Vec<OperationItem>,
    pub active_operation_index: usize,
    pub active_tag_name: Option<String>,
    pub active_filter: String,
    pub input_mode: InputMode,
    pub responses: Vec<(String, Response)>,
    pub servers: Vec<Server>,
    pub tags: Vec<String>,
    pub components: Vec<(String, SchemaValue)>,
}

/// The position of the first catalog entry whose identifier equals `id`;
/// the catalog length when none does.
pub open spec fn op_pos(ops: Seq<OperationItem>, id: Option<String>) -> int
    decreases ops.len(),
{
    if ops.len() == 0 {
        0
    } else if opt_id_eq(ops[0].operation_id, id) {
        0
    } else {
        1 + op_pos(ops.skip(1), id)
    }
}

pub proof fn lemma_op_pos(ops: Seq<OperationItem>, id: Option<String>)
    ensures
        0 <= op_pos(ops, id) <= ops.len(),
        op_pos(ops, id) < ops.len() ==> opt_id_eq(ops[op_pos(ops, id)].operation_id, id)
            && (forall|j: int| 0 <= j < op_pos(ops, id)
                ==> !opt_id_eq((#[trigger] ops[j]).operation_id, id)),
        op_pos(ops, id) == ops.len() ==> (forall|j: int| 0 <= j < ops.len()
            ==> !opt_id_eq((#[trigger] ops[j]).operation_id, id)),
    decreases ops.len(),
{
    if ops.len() > 0 && !opt_id_eq(ops[0].operation_id, id) {
        lemma_op_pos(ops.skip(1), id);
        assert forall|j: int| 0 <= j < op_pos(ops, id)
            implies !opt_id_eq((#[trigger] ops[j]).operation_id, id) by {
            if j > 0 {
                assert(ops.skip(1)[j - 1] == ops[j]);
            }
        }
        if op_pos(ops, id) == ops.len() {
            assert forall|j: int| 0 <= j < ops.len()
                implies !opt_id_eq((#[trigger] ops[j]).operation_id, id) by {
                if j > 0 {
                    assert(ops.skip(1)[j - 1] == ops[j]);
                }
            }
        }
    }
}

/// A first match is the positional first match.
pub proof fn lemma_first_id_is_op_pos(ops: Seq<OperationItem>, id: Option<String>, i: int)
    requires
        first_id_at(ops, id, i),
    ensures
        i == op_pos(ops, id),
        op_pos(ops, id) < ops.len(),
{
    lemma_op_pos(ops, id);
    if op_pos(ops, id) < i {
        assert(opt_id_eq(ops[op_pos(ops, id)].operation_id, id));
    }
    if op_pos(ops, id) > i {
        assert(!opt_id_eq(ops[i].operation_id, id));
    }
}

/// The position after a circular step forward over `n` entries.
pub open spec fn next_index(i: int, n: int) -> int
    recommends
        n > 0,
{
    let c = i % n;
    if c == n - 1 {
        0
    } else {
        c + 1
    }
}

/// The position after a circular step backward over `n` entries.
pub open spec fn prev_index(i: int, n: int) -> int
    recommends
        n > 0,
{
    let c = i % n;
    if c == 0 {
        n - 1
    } else {
        c - 1
    }
}

/// Stepping circularly over `n` positions, `k` times in a row.
pub open spec fn iterate_next(i: int, n: int, k: nat) -> int
    decreases k,
{
    if k == 0 {
        i
    } else {
        iterate_next(next_index(i, n), n, (k - 1) as nat)
    }
}

/// A circular step stays in range.
pub proof fn lemma_next_in_range(i: int, n: int)
    requires
        0 <= i < n,
    ensures
        0 <= next_index(i, n) < n,
        next_index(i, n) == (i + 1) % n,
{
    vstd::arithmetic::div_mod::lemma_small_mod(i as nat, n as nat);
    if i == n - 1 {
        assert((i + 1) % n == 0) by {
            vstd::arithmetic::div_mod::lemma_mod_self_0(n);
        }
    } else {
        vstd::arithmetic::div_mod::lemma_small_mod((i + 1) as nat, n as nat);
    }
}

proof fn lemma_iterate_next_shift(i: int, n: int, k: nat)
    requires
        0 <= i < n,
    ensures
        iterate_next(i, n, k) == (i + k) % n,
    decreases k,
{
    if k == 0 {
        vstd::arithmetic::div_mod::lemma_small_mod(i as nat, n as nat);
    } else {
        vstd::arithmetic::div_mod::lemma_small_mod(i as nat, n as nat);
        lemma_next_in_range(i, n);
        lemma_iterate_next_shift(next_index(i, n), n, (k - 1) as nat);
        if i == n - 1 {
            assert(next_index(i, n) == 0);
            assert((0 + (k - 1)) % n == (i + k) % n) by {
                vstd::arithmetic::div_mod::lemma_mod_add_multiples_vanish((k - 1) as int, n);
                assert(n + (k - 1) == i + k);
            }
        } else {
            assert(next_index(i, n) == i + 1);
            assert(i + 1 + (k - 1) == i + k);
        }
    }
}

/// Stepping forward as many times as there are visible entries returns to
/// the starting selection.
pub proof fn lemma_next_cycle(i: int, n: int)
    requires
        0 <= i < n,
    ensures
        iterate_next(i, n, n as nat) == i,
{
    lemma_iterate_next_shift(i, n, n as nat);
    vstd::arithmetic::div_mod::lemma_mod_add_multiples_vanish(i, n);
    vstd::arithmetic::div_mod::lemma_small_mod(i as nat, n as nat);
    assert(n + i == i + n);
}

/// Stepping backward exactly undoes stepping forward, and the other way
/// round.
pub proof fn lemma_prev_next(i: int, n: int)
    requires
        0 <= i < n,
    ensures
        prev_index(next_index(i, n), n) == i,
        next_index(prev_index(i, n), n) == i,
{
    vstd::arithmetic::div_mod::lemma_small_mod(i as nat, n as nat);
    if i == n - 1 {
        vstd::arithmetic::div_mod::lemma_small_mod(0nat, n as nat);
    } else {
        vstd::arithmetic::div_mod::lemma_small_mod((i + 1) as nat, n as nat);
    }
    if i == 0 {
        vstd::arithmetic::div_mod::lemma_small_mod((n - 1) as nat, n as nat);
    } else {
        vstd::arithmetic::div_mod::lemma_small_mod((i - 1) as nat, n as nat);
    }
}

/// Everything the visible list shows matches the filter and tag, and every
/// catalog entry that matches is shown: the visible list is exactly the
/// filtered catalog, in catalog order.
pub proof fn lemma_visible_members(s: State)
    ensures
        forall|i: int| 0 <= i < s.visible().len()
            ==> op_matches(#[trigger] s.visible()[i], s.active_filter@, s.active_tag_name),
        forall|j: int| 0 <= j < s.openapi_operations@.len()
            && op_matches(#[trigger] s.openapi_operations@[j], s.active_filter@, s.active_tag_name)
            ==> s.visible().contains(s.openapi_operations@[j]),
        s.visible().len() <= s.openapi_operations@.len(),
{
    let pred = vis_pred(s.active_filter@, s.active_tag_name);
    s.openapi_operations@.filter_lemma(pred);
    assert forall|i: int| 0 <= i < s.visible().len()
        implies op_matches(#[trigger] s.visible()[i], s.active_filter@, s.active_tag_name) by {
        assert(pred(s.visible()[i]));
    }
    assert forall|j: int| 0 <= j < s.openapi_operations@.len()
        && op_matches(#[trigger] s.openapi_operations@[j], s.active_filter@, s.active_tag_name)
        implies s.visible().contains(s.openapi_operations@[j]) by {
        assert(pred(s.openapi_operations@[j]));
    }
}

/// The views of a string list.
pub open spec fn strs_view(ss: Seq<String>) -> Seq<Seq<char>> {
    ss.map_values(|s: String| s@)
}

/// The candidate base URLs for dialling a fresh session: the configured
/// URL, then the document servers' display URLs, or a lone localhost URL
/// when both are absent.
pub open spec fn dial_urls(st: State, conf: Option<String>) -> Seq<Seq<char>> {
    let confs = match conf {
        Option::None => Seq::<Seq<char>>::empty(),
        Option::Some(u) => seq![text::trim_trailing(u@, '/')],
    };
    let all = confs + urls_of(st.servers@);
    if all.len() == 0 {
        seq!["http://localhost"@]
    } else {
        all
    }
}

/// The display URLs of a server list, in order.
pub open spec fn urls_of(ss: Seq<Server>) -> Seq<Seq<char>>
    decreases ss.len(),
{
    if ss.len() == 0 {
        Seq::empty()
    } else {
        seq![default_url_spec(ss[0])] + urls_of(ss.skip(1))
    }
}

proof fn lemma_urls_of_snoc(ss: Seq<Server>, s: Server)
    ensures
        urls_of(ss.push(s)) == urls_of(ss) + seq![default_url_spec(s)],
    decreases ss.len(),
{
    if ss.len() == 0 {
        assert(ss.push(s).skip(1) =~= Seq::<Server>::empty());
        assert(ss.push(s)[0] == s);
        assert(urls_of(ss.push(s))
            == seq![default_url_spec(s)] + urls_of(Seq::<Server>::empty()));
        assert(urls_of(Seq::<Server>::empty()) == Seq::<Seq<char>>::empty());
        assert(urls_of(ss) == Seq::<Seq<char>>::empty());
        assert(seq![default_url_spec(s)] + Seq::<Seq<char>>::empty()
            =~= seq![default_url_spec(s)]);
        assert(Seq::<Seq<char>>::empty() + seq![default_url_spec(s)]
            =~= seq![default_url_spec(s)]);
        assert(urls_of(ss.push(s)) =~= urls_of(ss) + seq![default_url_spec(s)]);
    } else {
        assert(ss.push(s).skip(1) =~= ss.skip(1).push(s));
        lemma_urls_of_snoc(ss.skip(1), s);
        assert(ss.push(s)[0] == ss[0]);
        assert(urls_of(ss.push(s))
            == seq![default_url_spec(ss[0])] + urls_of(ss.skip(1).push(s)));
        assert(urls_of(ss) == seq![default_url_spec(ss[0])] + urls_of(ss.skip(1)));
        assert(urls_of(ss.push(s)) =~= urls_of(ss) + seq![default_url_spec(s)]);
    }
}

impl State {
    /// A fresh state over the given flattened document: selection at the
    /// top, no filter, no tag, normal input mode, no responses.
    pub fn new(
        openapi_input_source: String,
        openapi_operations: Vec<OperationItem>,
        servers: Vec<Server>,
        tags: Vec<String>,
        components: Vec<(String, SchemaValue)>,
    ) -> (r: State)
        ensures
            r.openapi_input_source == openapi_input_source,
            r.openapi_operations == openapi_operations,
            r.active_operation_index == 0,
            r.active_tag_name is None,
            r.active_filter@ == Seq::<char>::empty(),
            r.input_mode == InputMode::Normal,
            r.responses@ == Seq::<(String, Response)>::empty(),
            r.servers == servers,
            r.tags == tags,
            r.components == components,
    {
        let r = State {
            openapi_input_source,
            openapi_operations,
            active_operation_index: 0,
            active_tag_name: None,
            active_filter: String::new(),
            input_mode: InputMode::Normal,
            responses: Vec::new(),
            servers,
            tags,
            components,
        };
        proof {
            assert(r.responses@ =~= Seq::<(String, Response)>::empty());
        }
        r
    }

    /// The operations visible under the current filter and tag, in catalog
    /// order.
    pub open spec fn visible(self) -> Seq<OperationItem> {
        self.openapi_operations@.filter(vis_pred(self.active_filter@, self.active_tag_name))
    }

    /// Whether one entry is visible under the current filter and tag.
    fn matches_filters(&self, op: &OperationItem) -> (r: bool)
        ensures
            r == op_matches(*op, self.active_filter@, self.active_tag_name),
    {
        let path_ok = text::str_contains(op.path.as_str(), self.active_filter.as_str());
        match &self.active_tag_name {
            None => path_ok,
            Some(t) => path_ok && op.has_tag(t),
        }
    }

    /// How many operations are visible.
    pub fn operations_len(&self) -> (n: usize)
        ensures
            n == self.visible().len(),
    {
        let ghost pred = vis_pred(self.active_filter@, self.active_tag_name);
        let ghost ops = self.openapi_operations@;
        let total = self.openapi_operations.len();
        let mut count: usize = 0;
        proof {
            assert(ops.take(0) =~= Seq::<OperationItem>::empty());
            reveal(Seq::filter);
        }
        for i in 0..total
            invariant
                total == ops.len(),
                ops == self.openapi_operations@,
                pred == vis_pred(self.active_filter@, self.active_tag_name),
                count == ops.take(i as int).filter(pred).len(),
                count <= i,
            decreases total - i,
        {
            let m = self.matches_filters(&self.openapi_operations[i]);
            proof {
                ops.take(i as int).lemma_filter_len_push(pred, ops[i as int]);
                assert(ops.take(i + 1) =~= ops.take(i as int).push(ops[i as int]));
                assert(pred(ops[i as int]) == m);
            }
            if m {
                count += 1;
            }
        }
        proof {
            assert(ops.take(total as int) =~= ops);
        }
        count
    }

    /// The operation the selection rests on: the entry at the selection
    /// index of the visible list, none when the selection runs past it.
    pub fn active_operation(&self) -> (r: Option<&OperationItem>)
        ensures
            match r {
                Some(op) => self.active_operation_index < self.visible().len()
                    && *op == self.visible()[self.active_operation_index as int],
                None => self.active_operation_index >= self.visible().len(),
            },
    {
        let ghost pred = vis_pred(self.active_filter@, self.active_tag_name);
        let ghost ops = self.openapi_operations@;
        let idx = self.active_operation_index;
        let total = self.openapi_operations.len();
        let mut count: usize = 0;
        proof {
            assert(ops.take(0) =~= Seq::<OperationItem>::empty());
            reveal(Seq::filter);
        }
        for i in 0..total
            invariant
                total == ops.len(),
                ops == self.openapi_operations@,
                pred == vis_pred(self.active_filter@, self.active_tag_name),
                idx == self.active_operation_index,
                count == ops.take(i as int).filter(pred).len(),
                count <= idx,
                count <= i,
            decreases total - i,
        {
            let m = self.matches_filters(&self.openapi_operations[i]);
            proof {
                ops.take(i as int).lemma_filter_push(ops[i as int], pred);
                ops.take(i as int).lemma_filter_len_push(pred, ops[i as int]);
                assert(ops.take(i + 1) =~= ops.take(i as int).push(ops[i as int]));
                assert(pred(ops[i as int]) == m);
            }
            if m {
                if count == idx {
                    proof {
                        Seq::filter_distributes_over_add(ops.take(i + 1), ops.skip(i + 1), pred);
                        assert(ops.take(i + 1) + ops.skip(i + 1) =~= ops);
                        assert(self.visible()[idx as int] == ops[i as int]);
                    }
                    return Some(&self.openapi_operations[i]);
                }
                count += 1;
            }
        }
        proof {
            assert(ops.take(total as int) =~= ops);
        }
        None
    }

    /// The entry with the given identifier, scanning in catalog order.
    pub fn get_operation(&self, operation_id: Option<String>) -> (r: Option<&OperationItem>)
        ensures
            match r {
                Some(op) => exists|i: int|
                    #[trigger] first_id_at(self.openapi_operations@, operation_id, i)
                        && *op == self.openapi_operations@[i],
                None => forall|i: int| 0 <= i < self.openapi_operations@.len()
                    ==> !opt_id_eq(
                        (#[trigger] self.openapi_operations@[i]).operation_id,
                        operation_id,
                    ),
            },
    {
        let total = self.openapi_operations.len();
        for i in 0..total
            invariant
                total == self.openapi_operations@.len(),
                forall|j: int| 0 <= j < i
                    ==> !opt_id_eq(
                        (#[trigger] self.openapi_operations@[j]).operation_id,
                        operation_id,
                    ),
        {
            let op = &self.openapi_operations[i];
            let same = match (&op.operation_id, &operation_id) {
                (None, None) => true,
                (Some(a), Some(b)) => text::str_eq(a.as_str(), b.as_str()),
                _ => false,
            };
            if same {
                proof {
                    assert(first_id_at(self.openapi_operations@, operation_id, i as int));
                }
                return Some(op);
            }
        }
        None
    }

    /// Install a new filter text and reset the selection to the top.
    pub fn set_filter(&mut self, text: String)
        ensures
            final(self).active_filter == text,
            final(self).active_operation_index == 0,
            final(self).openapi_operations == old(self).openapi_operations,
            final(self).active_tag_name == old(self).active_tag_name,
            final(self).input_mode == old(self).input_mode,
            final(self).responses == old(self).responses,
            final(self).servers == old(self).servers,
            final(self).tags == old(self).tags,
            final(self).openapi_input_source == old(self).openapi_input_source,
            final(self).components == old(self).components,
    {
        self.active_filter = text;
        self.active_operation_index = 0;
    }

    /// Install a new active tag, or none, and reset the selection to the top.
    pub fn set_tag(&mut self, tag: Option<String>)
        ensures
            final(self).active_tag_name == tag,
            final(self).active_operation_index == 0,
            final(self).openapi_operations == old(self).openapi_operations,
            final(self).active_filter == old(self).active_filter,
            final(self).input_mode == old(self).input_mode,
            final(self).responses == old(self).responses,
            final(self).servers == old(self).servers,
            final(self).tags == old(self).tags,
            final(self).openapi_input_source == old(self).openapi_input_source,
            final(self).components == old(self).components,
    {
        self.active_tag_name = tag;
        self.active_operation_index = 0;
    }

    /// Advance the selection one step forward, circularly, over the visible
    /// operations; nothing moves when none is visible.
    pub fn next_operation(&mut self)
        ensures
            *final(self) == (State {
                active_operation_index: if old(self).visible().len() == 0 {
                    old(self).active_operation_index
                } else {
                    next_index(
                        old(self).active_operation_index as int,
                        old(self).visible().len() as int,
                    ) as usize
                },
                ..*old(self)
            }),
    {
        let n = self.operations_len();
        if n > 0 {
            let c = self.active_operation_index % n;
            self.active_operation_index = if c == n - 1 {
                0
            } else {
                c + 1
            };
        }
    }

    /// Move the selection one step backward, circularly, over the visible
    /// operations; nothing moves when none is visible.
    pub fn prev_operation(&mut self)
        ensures
            *final(self) == (State {
                active_operation_index: if old(self).visible().len() == 0 {
                    old(self).active_operation_index
                } else {
                    prev_index(
                        old(self).active_operation_index as int,
                        old(self).visible().len() as int,
                    ) as usize
                },
                ..*old(self)
            }),
    {
        let n = self.operations_len();
        if n > 0 {
            let c = self.active_operation_index % n;
            self.active_operation_index = if c == 0 {
                n - 1
            } else {
                c - 1
            };
        }
    }

    /// Record the latest response of an operation, overwriting any earlier
    /// one under the same identifier.
    pub fn insert_response(&mut self, operation_id: String, response: Response)
        ensures
            table::has_key(old(self).responses@, operation_id@)
                ==> exists|i: int|
                    #[trigger] table::first_key_at(old(self).responses@, operation_id@, i)
                        && final(self).responses@
                            == old(self).responses@.update(i, (operation_id, response)),
            !table::has_key(old(self).responses@, operation_id@)
                ==> final(self).responses@
                    == old(self).responses@.push((operation_id, response)),
            table::keys_unique(old(self).responses@)
                ==> table::keys_unique(final(self).responses@),
            final(self).openapi_operations == old(self).openapi_operations,
            final(self).active_operation_index == old(self).active_operation_index,
            final(self).active_tag_name == old(self).active_tag_name,
            final(self).active_filter == old(self).active_filter,
            final(self).input_mode == old(self).input_mode,
            final(self).servers == old(self).servers,
            final(self).tags == old(self).tags,
            final(self).openapi_input_source == old(self).openapi_input_source,
            final(self).components == old(self).components,
    {
        let ghost m0 = self.responses@;
        let ghost key = operation_id;
        let ghost val = response;
        match table::find_key(&self.responses, operation_id.as_str()) {
            Some(i) => {
                self.responses.remove(i);
                self.responses.insert(i, (operation_id, response));
                proof {
                    assert(self.responses@ =~= m0.update(i as int, self.responses@[i as int]));
                    if table::keys_unique(m0) {
                        table::lemma_update_same_key_unique(m0, i as int, key, val);
                    }
                }
            },
            None => {
                self.responses.push((operation_id, response));
                proof {
                    if table::keys_unique(m0) {
                        table::lemma_push_new_key_unique(m0, key, val);
                    }
                }
            },
        }
    }

    /// The recorded response of an operation, when there is one.
    pub fn get_response(&self, operation_id: &str) -> (r: Option<&Response>)
        ensures
            match r {
                Some(resp) => exists|i: int|
                    #[trigger] table::first_key_at(self.responses@, operation_id@, i)
                        && *resp == self.responses@[i].1,
                None => !table::has_key(self.responses@, operation_id@),
            },
    {
        match table::find_key(&self.responses, operation_id) {
            Some(i) => Some(&self.responses[i].1),
            None => None,
        }
    }

    /// The display URL of one server: variables replaced by their defaults,
    /// trailing slashes trimmed.
    pub fn default_url(server: &Server) -> (r: String)
        ensures
            r@ == default_url_spec(*server),
    {
        let mut url = server.url.clone();
        match &server.variables {
            None => {},
            Some(vars) => {
                let n = vars.len();
                proof {
                    assert(vars@.skip(0) =~= vars@);
                }
                for i in 0..n
                    invariant
                        n == vars@.len(),
                        server.variables == Some(*vars),
                        subst_vars(server.url@, vars@) == subst_vars(url@, vars@.skip(i as int)),
                {
                    let pat = brace_name(vars[i].0.as_str());
                    url = text::str_replace(url.as_str(), pat.as_str(), vars[i].1.default.as_str());
                    proof {
                        assert(vars@.skip(i as int)[0] == vars@[i as int]);
                        assert(vars@.skip(i as int).skip(1) =~= vars@.skip(i + 1));
                    }
                }
                proof {
                    assert(vars@.skip(n as int) =~= Seq::<(String, ServerVariable)>::empty());
                }
            },
        }
        text::str_trim_trailing(url.as_str(), '/')
    }

    /// The candidate base URLs for dialling, in order: a configured default
    /// URL first, then the display URLs of the extra servers, then those of
    /// the document's servers; a lone localhost URL when all of that is
    /// empty.
    pub fn default_server_urls(&self, configured: &Option<String>, extra_servers: &Option<Vec<Server>>) -> (r: Vec<String>)
        ensures
            ({
                let conf = match *configured {
                    Option::None => Seq::<Seq<char>>::empty(),
                    Option::Some(u) => seq![text::trim_trailing(u@, '/')],
                };
                let extra = match *extra_servers {
                    Option::None => Seq::<Seq<char>>::empty(),
                    Option::Some(ss) => urls_of(ss@),
                };
                let all = conf + extra + urls_of(self.servers@);
                strs_view(r@) == if all.len() == 0 {
                    seq!["http://localhost"@]
                } else {
                    all
                }
            }),
    {
        let ghost conf = match configured {
            Option::None => Seq::<Seq<char>>::empty(),
            Option::Some(u) => seq![text::trim_trailing(u@, '/')],
        };
        let ghost extra = match extra_servers {
            Option::None => Seq::<Seq<char>>::empty(),
            Option::Some(ss) => urls_of(ss@),
        };
        let mut result: Vec<String> = Vec::new();
        match configured {
            None => {},
            Some(u) => {
                result.push(text::str_trim_trailing(u.as_str(), '/'));
            },
        }
        proof {
            assert(strs_view(result@) =~= conf);
        }
        match extra_servers {
            None => {},
            Some(ss) => {
                let n = ss.len();
                for i in 0..n
                    invariant
                        n == ss@.len(),
                        *extra_servers == Some(*ss),
                        conf == (match configured {
                            Option::None => Seq::<Seq<char>>::empty(),
                            Option::Some(u) => seq![text::trim_trailing(u@, '/')],
                        }),
                        strs_view(result@) == conf + urls_of(ss@.take(i as int)),
                {
                    let u = State::default_url(&ss[i]);
                    let ghost uu = u@;
                    let ghost r0 = result@;
                    result.push(u);
                    proof {
                        lemma_urls_of_snoc(ss@.take(i as int), ss@[i as int]);
                        assert(ss@.take(i + 1) =~= ss@.take(i as int).push(ss@[i as int]));
                        assert(strs_view(result@) =~= strs_view(r0).push(uu));
                        assert(strs_view(result@) =~= conf + urls_of(ss@.take(i + 1)));
                    }
                }
                proof {
                    assert(ss@.take(n as int) =~= ss@);
                }
            },
        }
        proof {
            assert(strs_view(result@) =~= conf + extra);
        }
        let n = self.servers.len();
        for i in 0..n
            invariant
                n == self.servers@.len(),
                conf == match *configured {
                    Option::None => Seq::<Seq<char>>::empty(),
                    Option::Some(u) => seq![text::trim_trailing(u@, '/')],
                },
                extra == match *extra_servers {
                    Option::None => Seq::<Seq<char>>::empty(),
                    Option::Some(ss) => urls_of(ss@),
                },
                strs_view(result@) == conf + extra + urls_of(self.servers@.take(i as int)),
        {
            let u = State::default_url(&self.servers[i]);
            let ghost uu = u@;
            let ghost r0 = result@;
            result.push(u);
            proof {
                lemma_urls_of_snoc(self.servers@.take(i as int), self.servers@[i as int]);
                assert(self.servers@.take(i + 1)
                    =~= self.servers@.take(i as int).push(self.servers@[i as int]));
                assert(strs_view(result@) =~= strs_view(r0).push(uu));
                assert(strs_view(result@)
                    =~= conf + extra + urls_of(self.servers@.take(i + 1)));
            }
        }
        proof {
            assert(self.servers@.take(n as int) =~= self.servers@);
        }
        if result.len() == 0 {
            result.push(String::from_str("http://localhost"));
            proof {
                assert(strs_view(result@) =~= seq!["http://localhost"@]);
            }
        }
        result
    }
}

} // verus!
