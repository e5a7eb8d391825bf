//! What a provider says of its models, and what tool calls say of files.

use crate::caret;
use crate::composer;
use crate::events::{ModelInfo, ModelView};
use crate::events;
use crate::files;
use crate::json;
use crate::scan;
use crate::text;
use vstd::prelude::*;

verus! {

/// A value in JSON, the notation that providers and tools answer in. A number is held by
/// its digits.
pub enum Json {
    Null,
    Bool(bool),
    Number(String),
    Text(String),
    List(Vec<Json>),
    Object(Vec<(String, Json)>),
}

/// What a value holds.
pub enum JsonView {
    Null,
    Bool(bool),
    Number(Seq<char>),
    Text(Seq<char>),
    List(Seq<JsonView>),
    Object(Seq<(Seq<char>, JsonView)>),
}

/// What a value holds.
pub open spec fn json_view(value: Json) -> JsonView
    decreases value,
{
    match value {
        Json::Null => JsonView::Null,
        Json::Bool(on) => JsonView::Bool(on),
        Json::Number(s) => JsonView::Number(s@),
        Json::Text(s) => JsonView::Text(s@),
        Json::List(items) => JsonView::List(
            Seq::new(
                items.len() as nat,
                |i: int|
                    if 0 <= i < items.len() {
                        json_view(items[i])
                    } else {
                        JsonView::Null
                    },
            ),
        ),
        Json::Object(fields) => JsonView::Object(
            Seq::new(
                fields.len() as nat,
                |i: int|
                    if 0 <= i < fields.len() {
                        (fields[i].0@, json_view(fields[i].1))
                    } else {
                        (Seq::empty(), JsonView::Null)
                    },
            ),
        ),
    }
}

impl View for Json {
    type V = JsonView;

    open spec fn view(&self) -> JsonView {
        json_view(*self)
    }
}

/// Where a name first stands among the fields of an object, from `i` on.
pub open spec fn field_at(fields: Seq<(String, Json)>, name: Seq<char>, i: int) -> Option<int>
    decreases fields.len() - i,
{
    if i < 0 || i >= fields.len() {
        None
    } else if fields[i].0@ == name {
        Some(i)
    } else {
        field_at(fields, name, i + 1)
    }
}

/// The positive whole number that digits stand for.
pub open spec fn positive_in(digits: Seq<char>) -> Option<u64> {
    match scan::parse_up_to(digits, u64::MAX as nat) {
        Some(n) => if n > 0 {
            Some(n as u64)
        } else {
            None
        },
        None => None,
    }
}

fn read_positive(digits: &str) -> (r: Option<u64>)
    ensures
        r == positive_in(digits@),
{
    match scan::parse_number(digits, u64::MAX) {
        Some(n) => {
            if n > 0 {
                Some(n)
            } else {
                None
            }
        },
        None => None,
    }
}

impl Json {
    /// The field of an object with a name.
    pub open spec fn field(self, name: Seq<char>) -> Option<Json> {
        match self {
            Json::Object(fields) => match field_at(fields@, name, 0) {
                Some(i) => Some(fields@[i].1),
                None => None,
            },
            _ => None,
        }
    }

    /// The text that a value is.
    pub open spec fn as_text(self) -> Option<Seq<char>> {
        match self {
            Json::Text(s) => Some(s@),
            _ => None,
        }
    }

    /// The text in a field.
    pub open spec fn text_field(self, name: Seq<char>) -> Option<Seq<char>> {
        match self.field(name) {
            Some(v) => v.as_text(),
            None => None,
        }
    }

    /// The positive number that a value is or names.
    pub open spec fn positive(self) -> Option<u64> {
        match self {
            Json::Number(s) => positive_in(s@),
            Json::Text(s) => positive_in(scan::trim(s@)),
            _ => None,
        }
    }

    /// The positive number in a field.
    pub open spec fn positive_field(self, name: Seq<char>) -> Option<u64> {
        match self.field(name) {
            Some(v) => v.positive(),
            None => None,
        }
    }

    /// The positive number in a field of a field.
    pub open spec fn inner_field(self, parent: Seq<char>, name: Seq<char>) -> Option<u64> {
        match self.field(parent) {
            Some(v) => v.positive_field(name),
            None => None,
        }
    }

    /// The field of an object with a name.
    pub fn get(&self, name: &str) -> (r: Option<&Json>)
        ensures
            match r {
                Some(v) => self.field(name@) == Some(*v),
                None => self.field(name@) is None,
            },
    {
        match self {
            Json::Object(fields) => {
                for i in 0..fields.len()
                    invariant
                        field_at(fields@, name@, 0) == field_at(fields@, name@, i as int),
                        self.field(name@) == match field_at(fields@, name@, 0) {
                            Some(i) => Some(fields@[i].1),
                            None => None,
                        },
                {
                    if text::same_text(fields[i].0.as_str(), name) {
                        return Some(&fields[i].1);
                    }
                }
                None
            },
            _ => None,
        }
    }

    /// The text that a value is.
    pub fn as_str(&self) -> (r: Option<String>)
        ensures
            composer::opt_text(r) == self.as_text(),
    {
        match self {
            Json::Text(s) => Some(text::copy_text(s.as_str())),
            _ => None,
        }
    }

    /// The text in a field.
    pub fn get_str(&self, name: &str) -> (r: Option<String>)
        ensures
            composer::opt_text(r) == self.text_field(name@),
    {
        match self.get(name) {
            Some(v) => v.as_str(),
            None => None,
        }
    }

    /// The positive number that a value is or names.
    pub fn positive_integer(&self) -> (r: Option<u64>)
        ensures
            r == self.positive(),
    {
        match self {
            Json::Number(s) => read_positive(s.as_str()),
            Json::Text(s) => read_positive(scan::trim_text(s.as_str()).as_str()),
            _ => None,
        }
    }

    fn number(&self, name: &str) -> (r: Option<u64>)
        ensures
            r == self.positive_field(name@),
    {
        match self.get(name) {
            Some(v) => v.positive_integer(),
            None => None,
        }
    }

    fn inner_number(&self, parent: &str, name: &str) -> (r: Option<u64>)
        ensures
            r == self.inner_field(parent@, name@),
    {
        match self.get(parent) {
            Some(v) => v.number(name),
            None => None,
        }
    }
}

/// The first of two that is there.
pub open spec fn first_some<T>(a: Option<T>, b: Option<T>) -> Option<T> {
    match a {
        Some(_) => a,
        None => b,
    }
}

/// The room that a model has for a conversation, by whichever name its provider gives it.
pub open spec fn room_of(m: Json) -> Option<u64> {
    first_some(
        m.positive_field("context_length"@),
        first_some(
            m.positive_field("context_window"@),
            first_some(
                m.positive_field("max_context_length"@),
                first_some(
                    m.positive_field("max_model_len"@),
                    first_some(
                        m.positive_field("n_ctx"@),
                        first_some(m.positive_field("n_ctx_train"@), inner_room_of(m)),
                    ),
                ),
            ),
        ),
    )
}

/// The room that a model has, where it stands one level deeper.
pub open spec fn inner_room_of(m: Json) -> Option<u64> {
    first_some(
        m.inner_field("meta"@, "n_ctx"@),
        first_some(
            m.inner_field("meta"@, "n_ctx_train"@),
            m.inner_field("top_provider"@, "context_length"@),
        ),
    )
}

fn inner_context(m: &Json) -> (r: Option<u64>)
    ensures
        r == inner_room_of(*m),
{
    let a = m.inner_number("meta", "n_ctx");
    if a.is_some() {
        return a;
    }
    let b = m.inner_number("meta", "n_ctx_train");
    if b.is_some() {
        return b;
    }
    m.inner_number("top_provider", "context_length")
}

/// The room that a model has for a conversation.
pub fn model_context(m: &Json) -> (r: Option<u64>)
    ensures
        r == room_of(*m),
{
    let a = m.number("context_length");
    if a.is_some() {
        return a;
    }
    let b = m.number("context_window");
    if b.is_some() {
        return b;
    }
    let c = m.number("max_context_length");
    if c.is_some() {
        return c;
    }
    let d = m.number("max_model_len");
    if d.is_some() {
        return d;
    }
    let e = m.number("n_ctx");
    if e.is_some() {
        return e;
    }
    let f = m.number("n_ctx_train");
    if f.is_some() {
        return f;
    }
    inner_context(m)
}

// ---------------------------------------------------------------------------
// Lists of models
// ---------------------------------------------------------------------------

/// A model as its provider lists it.
pub struct ListedModel {
    pub id: String,
    pub status: Option<String>,
    pub context: Option<u64>,
}

/// What a listed model holds.
#[verifier::ext_equal]
pub struct ListedView {
    pub id: Seq<char>,
    pub status: Option<Seq<char>>,
    pub context: Option<u64>,
}

impl View for ListedModel {
    type V = ListedView;

    open spec fn view(&self) -> ListedView {
        ListedView { id: self.id@, status: composer::opt_text(self.status), context: self.context }
    }
}

/// What listed models hold.
pub open spec fn listed_view(list: Seq<ListedModel>) -> Seq<ListedView> {
    list.map_values(|m: ListedModel| m@)
}

/// The name in the first of three fields that is there.
pub open spec fn id_in(m: Json) -> Option<Seq<char>> {
    match first_some(m.field("id"@), first_some(m.field("name"@), m.field("model"@))) {
        Some(v) => v.as_text(),
        None => None,
    }
}

/// The state that a model is said to be in: a text, or the value of an object.
pub open spec fn status_in(m: Json) -> Option<Seq<char>> {
    match m.field("status"@) {
        Some(Json::Text(s)) => Some(s@),
        Some(v) => v.text_field("value"@),
        None => None,
    }
}

/// The model that an entry of a list stands for: a bare name, or an object with one.
pub open spec fn listed_in(item: Json) -> Option<ListedView> {
    match item {
        Json::Text(s) => Some(ListedView { id: s@, status: None, context: None }),
        Json::Object(_) => match id_in(item) {
            Some(id) => Some(
                ListedView { id, status: status_in(item), context: room_of(item) },
            ),
            None => None,
        },
        _ => None,
    }
}

/// Whether a name is among models.
pub open spec fn has_id(list: Seq<ListedView>, id: Seq<char>) -> bool {
    exists|i: int| 0 <= i < list.len() && (#[trigger] list[i]).id == id
}

/// The models among the first `n` entries; of two with one name the first counts.
pub open spec fn distinct_models(items: Seq<Json>, n: int) -> Seq<ListedView>
    decreases n,
{
    if n <= 0 || n > items.len() {
        Seq::empty()
    } else {
        let rest = distinct_models(items, n - 1);
        match listed_in(items[n - 1]) {
            Some(m) => if has_id(rest, m.id) {
                rest
            } else {
                rest.push(m)
            },
            None => rest,
        }
    }
}

/// The entries of an answer.
pub open spec fn model_items(value: Json) -> Seq<Json> {
    match first_some(value.field("data"@), value.field("models"@)) {
        Some(Json::List(items)) => items@,
        _ => Seq::empty(),
    }
}

/// Models by name.
pub open spec fn by_id(a: ListedView, b: ListedView) -> bool {
    files::text_before(a.id, b.id, 0)
}

/// The models of an answer, by name.
pub open spec fn catalogued(value: Json) -> Seq<ListedView> {
    let items = model_items(value);
    let all = distinct_models(items, items.len() as int);
    files::ordered(all, |a: ListedView, b: ListedView| by_id(a, b), all.len() as int)
}

fn read_status(m: &Json) -> (r: Option<String>)
    ensures
        composer::opt_text(r) == status_in(*m),
{
    match m.get("status") {
        Some(v) => match v {
            Json::Text(s) => Some(text::copy_text(s.as_str())),
            _ => v.get_str("value"),
        },
        None => None,
    }
}

fn read_id(m: &Json) -> (r: Option<String>)
    ensures
        composer::opt_text(r) == id_in(*m),
{
    if let Some(v) = m.get("id") {
        return v.as_str();
    }
    if let Some(v) = m.get("name") {
        return v.as_str();
    }
    match m.get("model") {
        Some(v) => v.as_str(),
        None => None,
    }
}

fn read_model(item: &Json) -> (r: Option<ListedModel>)
    ensures
        match r {
            Some(m) => listed_in(*item) == Some(m@),
            None => listed_in(*item) is None,
        },
{
    match item {
        Json::Text(s) => Some(
            ListedModel { id: text::copy_text(s.as_str()), status: None, context: None },
        ),
        Json::Object(_) => match read_id(item) {
            Some(id) => Some(
                ListedModel { id, status: read_status(item), context: model_context(item) },
            ),
            None => None,
        },
        _ => None,
    }
}

fn knows_id(list: &Vec<ListedModel>, id: &str) -> (r: bool)
    ensures
        r == has_id(listed_view(list@), id@),
{
    for i in 0..list.len()
        invariant
            forall|j: int| 0 <= j < i ==> (#[trigger] listed_view(list@)[j]).id != id@,
    {
        assert(listed_view(list@)[i as int] == list@[i as int]@);
        if text::same_text(list[i].id.as_str(), id) {
            return true;
        }
    }
    assert(listed_view(list@).len() == list@.len());
    false
}

fn read_models(items: &Vec<Json>) -> (r: Vec<ListedModel>)
    ensures
        listed_view(r@) == distinct_models(items@, items@.len() as int),
{
    let mut r: Vec<ListedModel> = Vec::new();
    assert(listed_view(r@) =~= Seq::empty());
    for i in 0..items.len()
        invariant
            listed_view(r@) == distinct_models(items@, i as int),
    {
        if let Some(m) = read_model(&items[i]) {
            if !knows_id(&r, m.id.as_str()) {
                let ghost list = r@;
                r.push(m);
                assert(listed_view(r@) =~= listed_view(list).push(m@));
            }
        }
    }
    r
}

fn insert_by_id(list: &mut Vec<ListedModel>, one: ListedModel)
    ensures
        listed_view(final(list)@) == listed_view(old(list)@).insert(
            files::slot(listed_view(old(list)@), one@, |a: ListedView, b: ListedView| by_id(a, b), 0),
            one@,
        ),
{
    let ghost all = listed_view(list@);
    let ghost before = |a: ListedView, b: ListedView| by_id(a, b);
    let mut i: usize = 0;
    while i < list.len() && !files::comes_before(one.id.as_str(), list[i].id.as_str())
        invariant
            all == listed_view(list@),
            before == (|a: ListedView, b: ListedView| by_id(a, b)),
            i <= list@.len(),
            files::slot(all, one@, before, 0) == files::slot(all, one@, before, i as int),
        decreases list.len() - i,
    {
        assert(all[i as int] == list@[i as int]@);
        i = i + 1;
    }
    assert(i < list@.len() ==> all[i as int] == list@[i as int]@);
    list.insert(i, one);
    assert(listed_view(list@) =~= all.insert(i as int, one@));
}

impl ListedModel {
    fn copy(&self) -> (r: ListedModel)
        ensures
            r@ == self@,
    {
        ListedModel {
            id: text::copy_text(self.id.as_str()),
            status: composer::copy_opt(&self.status),
            context: self.context,
        }
    }
}

fn sort_by_id(list: &Vec<ListedModel>) -> (r: Vec<ListedModel>)
    ensures
        listed_view(r@) == files::ordered(
            listed_view(list@),
            |a: ListedView, b: ListedView| by_id(a, b),
            list@.len() as int,
        ),
{
    let ghost all = listed_view(list@);
    let ghost before = |a: ListedView, b: ListedView| by_id(a, b);
    let mut r: Vec<ListedModel> = Vec::new();
    assert(listed_view(r@) =~= files::ordered(all, before, 0));
    for i in 0..list.len()
        invariant
            all == listed_view(list@),
            before == (|a: ListedView, b: ListedView| by_id(a, b)),
            listed_view(r@) == files::ordered(all, before, i as int),
    {
        assert(all[i as int] == list@[i as int]@);
        let one = list[i].copy();
        insert_by_id(&mut r, one);
    }
    r
}

/// The models of an answer with all that it says of them, by name.
pub fn list_models(value: &Json) -> (r: Vec<ListedModel>)
    ensures
        listed_view(r@) == catalogued(*value),
{
    let source = match value.get("data") {
        Some(v) => Some(v),
        None => value.get("models"),
    };
    let ghost none = Seq::<Json>::empty();
    match source {
        Some(Json::List(items)) => {
            let all = read_models(items);
            assert(listed_view(all@).len() == all@.len());
            sort_by_id(&all)
        },
        _ => {
            let r: Vec<ListedModel> = Vec::new();
            assert(model_items(*value) == none);
            assert(listed_view(r@) =~= catalogued(*value));
            r
        },
    }
}

/// Models without the room that they have.
pub open spec fn without_context(list: Seq<ListedView>) -> Seq<ModelView> {
    list.map_values(|m: ListedView| ModelView { id: m.id, status: m.status })
}

/// The models of an answer, by name.
pub fn extract_models(value: &Json) -> (r: Vec<ModelInfo>)
    ensures
        events::models_view(r@) == without_context(catalogued(*value)),
{
    let list = list_models(value);
    let ghost all = catalogued(*value);
    let mut r: Vec<ModelInfo> = Vec::new();
    for i in 0..list.len()
        invariant
            all == listed_view(list@),
            r@.len() == i,
            forall|j: int|
                0 <= j < i ==> (#[trigger] r@[j])@ == (ModelView {
                    id: all[j].id,
                    status: all[j].status,
                }),
    {
        assert(all[i as int] == list@[i as int]@);
        r.push(
            ModelInfo {
                id: text::copy_text(list[i].id.as_str()),
                status: composer::copy_opt(&list[i].status),
            },
        );
    }
    assert(events::models_view(r@) =~= without_context(all));
    r
}

/// The names of models with the room that they have, where it is known.
pub open spec fn contexts_in(list: Seq<ListedView>, n: int) -> Seq<(Seq<char>, u64)>
    decreases n,
{
    if n <= 0 || n > list.len() {
        Seq::empty()
    } else {
        match list[n - 1].context {
            Some(c) => contexts_in(list, n - 1).push((list[n - 1].id, c)),
            None => contexts_in(list, n - 1),
        }
    }
}

/// What pairs of a name and a number hold.
pub open spec fn contexts_view(list: Seq<(String, u64)>) -> Seq<(Seq<char>, u64)> {
    list.map_values(|p: (String, u64)| (p.0@, p.1))
}

/// The names of the models of an answer with the room that they have, where it is known.
pub fn extract_contexts(value: &Json) -> (r: Vec<(String, u64)>)
    ensures
        contexts_view(r@) == contexts_in(catalogued(*value), catalogued(*value).len() as int),
{
    let list = list_models(value);
    let ghost all = catalogued(*value);
    let mut r: Vec<(String, u64)> = Vec::new();
    assert(contexts_view(r@) =~= Seq::empty());
    for i in 0..list.len()
        invariant
            all == listed_view(list@),
            contexts_view(r@) == contexts_in(all, i as int),
    {
        assert(all[i as int] == list@[i as int]@);
        if let Some(c) = list[i].context {
            let ghost before = r@;
            r.push((text::copy_text(list[i].id.as_str()), c));
            assert(contexts_view(r@) =~= contexts_view(before).push((all[i as int].id, c)));
        }
    }
    assert(all.len() == list@.len());
    r
}

proof fn distinct_have_distinct_ids(items: Seq<Json>, n: int)
    ensures
        forall|i: int, j: int|
            0 <= i < j < distinct_models(items, n).len() ==> (#[trigger] distinct_models(
                items,
                n,
            )[i]).id != (#[trigger] distinct_models(items, n)[j]).id,
    decreases n,
{
    if 0 < n <= items.len() {
        distinct_have_distinct_ids(items, n - 1);
    }
}

proof fn ids_order()
    ensures
        files::orders(|a: ListedView, b: ListedView| by_id(a, b)),
{
    let before = |a: ListedView, b: ListedView| by_id(a, b);
    assert forall|a: ListedView, b: ListedView| #[trigger] before(a, b) implies !before(b, a) by {
        files::texts_are_ordered(a.id, b.id, b.id);
    }
    assert forall|a: ListedView, b: ListedView, c: ListedView| #[trigger] before(a, b) && !before(
        c,
        b,
    ) implies #[trigger] before(a, c) by {
        files::texts_are_ordered(a.id, b.id, c.id);
    }
}

proof fn ordered_stay_distinct(
    all: Seq<ListedView>,
    before: spec_fn(ListedView, ListedView) -> bool,
    n: int,
)
    requires
        0 <= n <= all.len(),
        files::orders(before),
        forall|i: int, j: int| 0 <= i < j < all.len() ==> (#[trigger] all[i]).id != (#[trigger] all[j]).id,
    ensures
        files::ordered(all, before, n).len() == n,
        forall|i: int|
            0 <= i < n ==> exists|k: int|
                0 <= k < n && #[trigger] files::ordered(all, before, n)[i] == #[trigger] all[k],
        forall|i: int, j: int|
            0 <= i < j < n ==> (#[trigger] files::ordered(all, before, n)[i]).id != (#[trigger] files::ordered(
                all,
                before,
                n,
            )[j]).id,
    decreases n,
{
    files::ordered_is_sorted(all, before, n);
    if n > 0 {
        ordered_stay_distinct(all, before, n - 1);
        files::ordered_is_sorted(all, before, n - 1);
        let rest = files::ordered(all, before, n - 1);
        let x = all[n - 1];
        let at = files::slot(rest, x, before, 0);
        files::slot_bounds(rest, x, before, 0);
        let more = files::ordered(all, before, n);
        assert(more == rest.insert(at, x));
        assert forall|i: int| 0 <= i < n - 1 implies (#[trigger] rest[i]).id != x.id by {
            let k = choose|k: int| 0 <= k < n - 1 && rest[i] == #[trigger] all[k];
            assert(all[k].id != all[n - 1].id);
        }
        assert forall|i: int| 0 <= i < n implies exists|k: int|
            0 <= k < n && #[trigger] more[i] == #[trigger] all[k] by {
            if i == at {
                assert(more[i] == all[n - 1]);
            } else {
                let ri = if i < at {
                    i
                } else {
                    i - 1
                };
                assert(more[i] == rest[ri]);
                let k = choose|k: int| 0 <= k < n - 1 && rest[ri] == #[trigger] all[k];
                assert(more[i] == all[k]);
            }
        }
        assert forall|i: int, j: int| 0 <= i < j < n implies (#[trigger] more[i]).id != (
        #[trigger] more[j]).id by {
            let ri = if i < at {
                i
            } else {
                i - 1
            };
            let rj = if j < at {
                j
            } else {
                j - 1
            };
            if i == at {
                assert(more[j] == rest[rj]);
            } else if j == at {
                assert(more[i] == rest[ri]);
            } else {
                assert(more[i] == rest[ri]);
                assert(more[j] == rest[rj]);
            }
        }
    }
}

/// However an answer lists its models, each name is shown once and in text order.
pub proof fn models_are_listed_once(value: Json)
    ensures
        forall|i: int, j: int|
            0 <= i < j < catalogued(value).len() ==> (#[trigger] catalogued(value)[i]).id != (
            #[trigger] catalogued(value)[j]).id,
        files::in_order(catalogued(value), |a: ListedView, b: ListedView| by_id(a, b)),
        catalogued(value).to_multiset() == distinct_models(
            model_items(value),
            model_items(value).len() as int,
        ).to_multiset(),
{
    let items = model_items(value);
    let all = distinct_models(items, items.len() as int);
    let before = |a: ListedView, b: ListedView| by_id(a, b);
    distinct_have_distinct_ids(items, items.len() as int);
    ids_order();
    files::ordered_is_sorted(all, before, all.len() as int);
    assert(all.take(all.len() as int) =~= all);
    ordered_stay_distinct(all, before, all.len() as int);
}

// ---------------------------------------------------------------------------
// What tool calls are going to do
// ---------------------------------------------------------------------------

/// An edit of a file: the text to replace, the text in its place, and whether every place
/// is meant.
#[derive(Debug, Clone, PartialEq, Eq)]
pub struct EditAsked {
    pub old_text: String,
    pub new_text: String,
    pub replace_all: bool,
}

impl Json {
    /// The text in a field, or no text.
    pub open spec fn text_or_empty(self, name: Seq<char>) -> Seq<char> {
        match self.text_field(name) {
            Some(s) => s,
            None => Seq::empty(),
        }
    }

    /// A field that says yes.
    pub open spec fn says_yes(self, name: Seq<char>) -> bool {
        self.field(name) matches Some(Json::Bool(on)) && on
    }

    fn get_text(&self, name: &str) -> (r: String)
        ensures
            r@ == self.text_or_empty(name@),
    {
        match self.get_str(name) {
            Some(s) => s,
            None => {
                let r = String::new();
                assert(r@ =~= Seq::empty());
                r
            },
        }
    }
}

/// The arguments of a call: what its text says, or the text itself where it says nothing.
pub fn call_arguments(raw: &str, read: Option<Json>) -> (r: Json)
    ensures
        match read {
            Some(args) => r == args,
            None => r matches Json::Text(s) && s@ == raw@,
        },
{
    match read {
        Some(args) => args,
        None => Json::Text(text::copy_text(raw)),
    }
}

/// What the arguments of a call hold, by their text.
pub open spec fn arguments_held(raw: Seq<char>) -> JsonView {
    match json::json_value(raw) {
        Some(value) => value,
        None => JsonView::Text(raw),
    }
}

/// Reads the arguments of a call: what its text stands for, or the text itself where it
/// stands for nothing.
pub fn read_arguments(raw: &str) -> (r: Json)
    ensures
        r@ == arguments_held(raw@),
{
    call_arguments(raw, json::read_value(raw))
}

proof fn same_views_same_places(a: Seq<(String, Json)>, b: Seq<(String, Json)>, name: Seq<char>, i: int)
    requires
        a.len() == b.len(),
        0 <= i <= a.len(),
        forall|k: int| 0 <= k < a.len() ==> (#[trigger] a[k]).0@ == b[k].0@,
    ensures
        field_at(a, name, i) == field_at(b, name, i),
        field_at(a, name, i) matches Some(k) ==> i <= k < a.len(),
    decreases a.len() - i,
{
    if i < a.len() {
        assert(a[i].0@ == b[i].0@);
        same_views_same_places(a, b, name, i + 1);
    }
}

/// What a call asks for depends only on what its arguments hold.
pub proof fn arguments_say_what_they_hold(a: Json, b: Json, name: Seq<char>)
    requires
        a@ == b@,
    ensures
        a.text_field(name) == b.text_field(name),
        a.says_yes(name) == b.says_yes(name),
{
    if let (Json::Object(x), Json::Object(y)) = (a, b) {
        let v = a@->Object_0;
        let w = b@->Object_0;
        assert(v.len() == x@.len() && w.len() == y@.len());
        assert forall|k: int| 0 <= k < x@.len() implies (#[trigger] x@[k]).0@ == y@[k].0@ && json_view(
            x@[k].1,
        ) == json_view(y@[k].1) by {
            assert(v[k] == (x@[k].0@, json_view(x@[k].1)));
            assert(w[k] == (y@[k].0@, json_view(y@[k].1)));
        }
        same_views_same_places(x@, y@, name, 0);
    }
}

/// The edit that a call asks for. What it leaves out is empty, or one place only.
pub fn edit_asked(args: &Json) -> (r: EditAsked)
    ensures
        r.old_text@ == args.text_or_empty("old_text"@),
        r.new_text@ == args.text_or_empty("new_text"@),
        r.replace_all == args.says_yes("replace_all"@),
{
    let replace_all = match args.get("replace_all") {
        Some(Json::Bool(on)) => *on,
        _ => false,
    };
    EditAsked {
        old_text: args.get_text("old_text"),
        new_text: args.get_text("new_text"),
        replace_all,
    }
}

/// The patch that a call asks for.
pub fn patch_asked(args: &Json) -> (r: String)
    ensures
        r@ == args.text_or_empty("patch"@),
{
    args.get_text("patch")
}

/// What a tool call is about to change, in a line: `current` is the file as it is, `edit`
/// what an edit would change in it, and `patch` what a patch would change.
pub open spec fn previewed_call(
    name: Seq<char>,
    args: Json,
    current: Seq<char>,
    edit: Option<Seq<char>>,
    patch: Option<Seq<char>>,
) -> Option<Seq<char>> {
    if name == "write_file"@ {
        match args.text_field("path"@) {
            None => None,
            Some(path) => {
                let content = match args.text_field("content"@) {
                    Some(s) => s,
                    None => Seq::empty(),
                };
                Some(
                    if current.len() == 0 {
                        "create "@ + path + " ("@ + scan::decimal(caret::byte_len(content)) + " bytes)"@
                    } else {
                        path + ": "@ + scan::decimal(scan::lines(current).len()) + " -> "@ + scan::decimal(
                            scan::lines(content).len(),
                        ) + " lines"@
                    },
                )
            },
        }
    } else if name == "edit_file"@ {
        match args.text_field("path"@) {
            None => None,
            Some(path) => match edit {
                Some(diff) => Some(path + ": "@ + diff),
                None => None,
            },
        }
    } else if name == "apply_patch"@ {
        patch
    } else {
        None
    }
}

fn write_preview(path: &str, content: &str, current: &str) -> (r: String)
    ensures
        r@ == if current@.len() == 0 {
            "create "@ + path@ + " ("@ + scan::decimal(caret::byte_len(content@)) + " bytes)"@
        } else {
            path@ + ": "@ + scan::decimal(scan::lines(current@).len()) + " -> "@ + scan::decimal(
                scan::lines(content@).len(),
            ) + " lines"@
        },
{
    if current.is_empty() {
        let n = scan::decimal_text(caret::text_len(content) as u64);
        text::cat5("create ", path, " (", n.as_str(), " bytes)")
    } else {
        let old = scan::text_lines(current);
        let new = scan::text_lines(content);
        assert(text::texts(old@).len() == old@.len());
        assert(text::texts(new@).len() == new@.len());
        let a = scan::decimal_text(old.len() as u64);
        let b = scan::decimal_text(new.len() as u64);
        let head = text::cat4(path, ": ", a.as_str(), " -> ");
        text::cat3(head.as_str(), b.as_str(), " lines")
    }
}

/// What a tool call is about to change, in a line for the user to decide on.
pub fn approval_preview(
    name: &str,
    args: &Json,
    current: &str,
    edit: Option<String>,
    patch: Option<String>,
) -> (r: Option<String>)
    ensures
        composer::opt_text(r) == previewed_call(name@, *args, current@, composer::opt_text(edit), composer::opt_text(patch)),
{
    if text::same_text(name, "write_file") {
        match args.get_str("path") {
            None => None,
            Some(path) => {
                let content = match args.get_str("content") {
                    Some(s) => s,
                    None => String::new(),
                };
                assert(args.text_field("content"@) is None ==> content@ =~= Seq::empty());
                Some(write_preview(path.as_str(), content.as_str(), current))
            },
        }
    } else if text::same_text(name, "edit_file") {
        match args.get_str("path") {
            None => None,
            Some(path) => match edit {
                Some(diff) => Some(text::cat3(path.as_str(), ": ", diff.as_str())),
                None => None,
            },
        }
    } else if text::same_text(name, "apply_patch") {
        patch
    } else {
        None
    }
}

} // verus!
