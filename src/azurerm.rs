//! Resources as the cloud's management API describes them: the records it
//! returns, the identifiers inside them, and how a rule's selector and property
//! read a resource.
use vstd::prelude::*;
use crate::rules::{Property, PropertyModel, Selector, SelectorModel, wildcard};
use crate::text::{CharClass, chars_of, span, span_end, has_at, starts_with_at};

verus! {

// ------------------------------------------------------------------- values

/// A value of a resource record: a closed union of the shapes such records take.
#[derive(Debug, PartialEq)]
pub enum Value {
    Null,
    Bool(bool),
    /// A number, kept as its decimal text.
    Number(String),
    Str(String),
    Sequence(Vec<Value>),
    Mapping(Vec<(String, Value)>),
}

impl Value {
    /// The string the value holds, where it is one.
    pub open spec fn text(&self) -> Option<Seq<char>> {
        match self {
            Value::Str(s) => Some(s@),
            _ => None,
        }
    }

    /// The string the value holds, where it is one.
    pub fn as_str(&self) -> (r: Option<&str>)
        ensures
            match self.text() {
                Some(t) => r matches Some(x) && x@ == t,
                None => r is None,
            },
    {
        match self {
            Value::Str(s) => Some(s.as_str()),
            _ => None,
        }
    }

    /// The entry of a mapping under `key` (the first, if it occurs twice).
    pub open spec fn entry(&self, key: Seq<char>) -> Option<Value> {
        match self {
            Value::Mapping(es) => entry_of(es@, key),
            _ => None,
        }
    }

    /// The entry of a mapping under `key`; `None` where there is none or the
    /// value is not a mapping.
    pub fn get(&self, key: &str) -> (r: Option<&Value>)
        ensures
            match self.entry(key@) {
                Some(v) => r matches Some(x) && *x == v,
                None => r is None,
            },
    {
        match self {
            Value::Mapping(es) => {
                let k = key.to_owned();
                let mut i: usize = 0;
                proof {
                    assert(es@.skip(0) =~= es@);
                }
                while i < es.len()
                    invariant
                        self.entry(key@) == entry_of(es@, key@),
                        k@ == key@,
                        i <= es@.len(),
                        entry_of(es@, key@) == entry_of(es@.skip(i as int), key@),
                    decreases es@.len() - i,
                {
                    proof {
                        assert(es@.skip(i as int).drop_first() =~= es@.skip(i + 1));
                    }
                    if es[i].0 == k {
                        assert(es@.skip(i as int)[0] == es@[i as int]);
                        assert(entry_of(es@.skip(i as int), key@) == Some(es@[i as int].1));
                        return Some(&es[i].1);
                    }
                    i = i + 1;
                }
                proof {
                    assert(es@.skip(i as int) =~= Seq::<(String, Value)>::empty());
                }
                None
            },
            _ => None,
        }
    }
}

/// The value of the first entry under `key`.
pub open spec fn entry_of(es: Seq<(String, Value)>, key: Seq<char>) -> Option<Value>
    decreases es.len(),
{
    if es.len() == 0 {
        None
    } else if es[0].0@ == key {
        Some(es[0].1)
    } else {
        entry_of(es.drop_first(), key)
    }
}

impl Value {
    /// The two values have the same shape and contents throughout.
    pub open spec fn same_as(&self, other: Value) -> bool
        decreases self,
    {
        match (*self, other) {
            (Value::Null, Value::Null) => true,
            (Value::Bool(a), Value::Bool(b)) => a == b,
            (Value::Number(a), Value::Number(b)) => a@ == b@,
            (Value::Str(a), Value::Str(b)) => a@ == b@,
            (Value::Sequence(a), Value::Sequence(b)) => {
                &&& a@.len() == b@.len()
                &&& forall|i: int| 0 <= i < a@.len() ==> (#[trigger] a@[i]).same_as(b@[i])
            },
            (Value::Mapping(a), Value::Mapping(b)) => {
                &&& a@.len() == b@.len()
                &&& forall|i: int|
                    0 <= i < a@.len() ==> (#[trigger] a@[i]).0@ == b@[i].0@ && a@[i].1.same_as(b@[i].1)
            },
            _ => false,
        }
    }
}

impl Clone for Value {
    fn clone(&self) -> (r: Value)
        ensures
            r.text() == self.text(),
            r.same_as(*self),
        decreases self,
    {
        match self {
            Value::Null => Value::Null,
            Value::Bool(b) => Value::Bool(*b),
            Value::Number(n) => Value::Number(n.clone()),
            Value::Str(s) => Value::Str(s.clone()),
            Value::Sequence(items) => {
                let mut out: Vec<Value> = Vec::new();
                let mut i: usize = 0;
                while i < items.len()
                    invariant
                        i <= items@.len(),
                        *self == Value::Sequence(*items),
                        out@.len() == i,
                        forall|j: int| 0 <= j < i ==> (#[trigger] out@[j]).same_as(items@[j]),
                    decreases items@.len() - i,
                {
                    proof {
                        vstd::std_specs::vec::axiom_vec_index_decreases(*items, i as int);
                        assert(decreases_to!(*self => self->Sequence_0));
                    }
                    out.push(items[i].clone());
                    i = i + 1;
                }
                Value::Sequence(out)
            },
            Value::Mapping(es) => {
                let mut out: Vec<(String, Value)> = Vec::new();
                let mut i: usize = 0;
                while i < es.len()
                    invariant
                        i <= es@.len(),
                        *self == Value::Mapping(*es),
                        out@.len() == i,
                        forall|j: int|
                            0 <= j < i ==> (#[trigger] out@[j]).0@ == es@[j].0@ && out@[j].1.same_as(es@[j].1),
                    decreases es@.len() - i,
                {
                    proof {
                        vstd::std_specs::vec::axiom_vec_index_decreases(*es, i as int);
                        assert(decreases_to!(*self => self->Mapping_0));
                        assert(decreases_to!(es@[i as int] => es@[i as int].1));
                    }
                    let entry = (es[i].0.clone(), es[i].1.clone());
                    out.push(entry);
                    i = i + 1;
                }
                Value::Mapping(out)
            },
        }
    }
}

// -------------------------------------------------------------- identifiers

/// The friendly label of a `provider/kind` pair, or the pair itself where it
/// has none.
pub open spec fn kind_label(kind: Seq<char>) -> Seq<char> {
    if kind == "Microsoft.Web/serverFarms"@ {
        "app_service_plan"@
    } else if kind == "Microsoft.Web/sites"@ {
        "app_service"@
    } else {
        kind
    }
}

/// Translates a `provider/kind` pair to its friendly label.
pub fn translate_kind(kind: &str) -> (r: String)
    ensures
        r@ == kind_label(kind@),
{
    let k = kind.to_owned();
    if k == String::from_str("Microsoft.Web/serverFarms") {
        String::from_str("app_service_plan")
    } else if k == String::from_str("Microsoft.Web/sites") {
        String::from_str("app_service")
    } else {
        k
    }
}

/// The parts of a resource identifier
/// `/subscriptions/S/resourceGroups/G/providers/P/K/N`: the subscription,
/// group, provider and kind may be empty and hold no `/`; the name is one or
/// more letters, digits, `-` or spaces, and ends the text.
pub open spec fn id_parts(s: Seq<char>) -> Option<(Seq<char>, Seq<char>, Seq<char>, Seq<char>, Seq<char>)> {
    let t0 = "/subscriptions/"@;
    let t1 = "/resourceGroups/"@;
    let t2 = "/providers/"@;
    let t3 = "/"@;
    if has_at(s, 0, t0) {
        let a = span(s, t0.len() as int, CharClass::NotSlash);
        if has_at(s, a, t1) {
            let b = span(s, a + t1.len(), CharClass::NotSlash);
            if has_at(s, b, t2) {
                let c = span(s, b + t2.len(), CharClass::NotSlash);
                if has_at(s, c, t3) {
                    let d = span(s, c + 1, CharClass::NotSlash);
                    if has_at(s, d, t3) {
                        let e = span(s, d + 1, CharClass::NameChar);
                        if e > d + 1 && e == s.len() {
                            Some(
                                (
                                    s.subrange(t0.len() as int, a),
                                    s.subrange(a + t1.len(), b),
                                    s.subrange(b + t2.len(), c),
                                    s.subrange(c + 1, d),
                                    s.subrange(d + 1, e),
                                ),
                            )
                        } else {
                            None
                        }
                    } else {
                        None
                    }
                } else {
                    None
                }
            } else {
                None
            }
        } else {
            None
        }
    } else {
        None
    }
}

/// The text of `t` between positions `a` and `b`.
fn slice_of(t: &str, a: usize, b: usize) -> (r: String)
    requires
        a <= b <= t@.len(),
    ensures
        r@ == t@.subrange(a as int, b as int),
{
    t.substring_char(a, b).to_owned()
}

/// Splits a resource identifier into subscription, group, provider, kind and
/// name; `None` where it does not have that shape.
pub fn parse_id(text: &str) -> (r: Option<(String, String, String, String, String)>)
    ensures
        match id_parts(text@) {
            Some((s, g, p, k, n)) => r matches Some((s2, g2, p2, k2, n2)) && s2@ == s && g2@ == g
                && p2@ == p && k2@ == k && n2@ == n,
            None => r is None,
        },
{
    let cs = chars_of(text);
    let t0 = "/subscriptions/";
    let t1 = "/resourceGroups/";
    let t2 = "/providers/";
    let t3 = "/";
    let l0 = t0.unicode_len();
    let l1 = t1.unicode_len();
    let l2 = t2.unicode_len();
    if !starts_with_at(&cs, 0, t0) {
        return None;
    }
    let a = span_end(&cs, l0, CharClass::NotSlash);
    if !starts_with_at(&cs, a, t1) {
        return None;
    }
    let b = span_end(&cs, a + l1, CharClass::NotSlash);
    if !starts_with_at(&cs, b, t2) {
        return None;
    }
    let c = span_end(&cs, b + l2, CharClass::NotSlash);
    if !starts_with_at(&cs, c, t3) {
        return None;
    }
    proof {
        reveal_strlit("/");
    }
    let d = span_end(&cs, c + 1, CharClass::NotSlash);
    if !starts_with_at(&cs, d, t3) {
        return None;
    }
    let e = span_end(&cs, d + 1, CharClass::NameChar);
    if !(e > d + 1 && e == cs.len()) {
        return None;
    }
    Some(
        (
            slice_of(text, l0, a),
            slice_of(text, a + l1, b),
            slice_of(text, b + l2, c),
            slice_of(text, c + 1, d),
            slice_of(text, d + 1, e),
        ),
    )
}

/// Where a resource lives and what it is.
#[derive(Debug, PartialEq)]
pub struct Id {
    pub subscription_id: String,
    pub resource_group: String,
    pub kind: String,
    pub name: String,
}

impl Id {
    /// The identity that the identifier text `s` gives: its parts, with the
    /// provider and kind joined by `/` and translated to their label.
    pub open spec fn read_from(&self, s: Seq<char>) -> bool {
        match id_parts(s) {
            Some((sub, g, p, k, n)) => {
                &&& self.subscription_id@ == sub
                &&& self.resource_group@ == g
                &&& self.kind@ == kind_label(p + "/"@ + k)
                &&& self.name@ == n
            },
            None => false,
        }
    }

    /// Reads a resource identifier; `None` where it does not have the shape
    /// that `id_parts` describes.
    pub fn parse(text: &str) -> (r: Option<Id>)
        ensures
            r is Some <==> id_parts(text@) is Some,
            r matches Some(id) ==> id.read_from(text@),
    {
        match parse_id(text) {
            Some((sub, group, provider, kind, name)) => {
                let mut joined = provider;
                joined.append("/");
                joined.append(kind.as_str());
                Some(
                    Id {
                        subscription_id: sub,
                        resource_group: group,
                        kind: translate_kind(joined.as_str()),
                        name,
                    },
                )
            },
            None => None,
        }
    }
}

// ---------------------------------------------------------------- resources

/// A selector field admits a resource field: it is the wildcard, or the same
/// text exactly.
pub open spec fn field_admits(pattern: Seq<char>, actual: Seq<char>) -> bool {
    pattern == wildcard() || pattern == actual
}

/// The cloud that every resource here belongs to.
pub open spec fn cloud_name() -> Seq<char> {
    "azure"@
}

/// Whether `pattern` is the wildcard or equals `actual`.
fn admits(pattern: &String, actual: &str) -> (r: bool)
    ensures
        r == field_admits(pattern@, actual@),
{
    proof {
        reveal_strlit("*");
        assert("*"@ =~= wildcard());
    }
    *pattern == String::from_str("*") || *pattern == actual.to_owned()
}

/// A resource of a group: its identity and the record that describes it.
#[derive(Debug, PartialEq)]
pub struct Resource {
    pub id: Id,
    pub record: Value,
}

impl Resource {
    /// The string a property of the resource has, where it has one: the
    /// built-in properties are the identity's fields, a custom one is the
    /// record's entry under its key.
    pub open spec fn property_text(&self, p: PropertyModel) -> Option<Seq<char>> {
        match p {
            PropertyModel::Name => Some(self.id.name@),
            PropertyModel::Kind => Some(self.id.kind@),
            PropertyModel::Group => Some(self.id.resource_group@),
            PropertyModel::Custom(k) => match self.record.entry(k) {
                Some(v) => v.text(),
                None => None,
            },
        }
    }

    /// Whether a selector names this resource: each of its four fields admits
    /// the resource's cloud, group, kind and name.
    pub open spec fn selected_by(&self, sel: SelectorModel) -> bool {
        &&& field_admits(sel.cloud, cloud_name())
        &&& field_admits(sel.group, self.id.resource_group@)
        &&& field_admits(sel.kind, self.id.kind@)
        &&& field_admits(sel.name, self.id.name@)
    }

    pub fn id(&self) -> (r: &Id)
        ensures
            *r == self.id,
    {
        &self.id
    }

    pub fn name(&self) -> (r: &str)
        ensures
            r@ == self.id.name@,
    {
        self.id.name.as_str()
    }

    pub fn kind(&self) -> (r: &str)
        ensures
            r@ == self.id.kind@,
    {
        self.id.kind.as_str()
    }

    pub fn group(&self) -> (r: &str)
        ensures
            r@ == self.id.resource_group@,
    {
        self.id.resource_group.as_str()
    }

    /// The value of a property: a string for the built-in ones; for a custom
    /// one the record's entry, or `Null` where there is none.
    pub fn get_property(&self, property: &Property) -> (r: Value)
        ensures
            r.text() == self.property_text(property@),
            match property@ {
                PropertyModel::Name => r == Value::Str(self.id.name),
                PropertyModel::Kind => r == Value::Str(self.id.kind),
                PropertyModel::Group => r == Value::Str(self.id.resource_group),
                PropertyModel::Custom(k) => match self.record.entry(k) {
                    Some(v) => r.same_as(v),
                    None => r == Value::Null,
                },
            },
    {
        match property {
            Property::Name => Value::Str(self.id.name.clone()),
            Property::Kind => Value::Str(self.id.kind.clone()),
            Property::Group => Value::Str(self.id.resource_group.clone()),
            Property::Custom(key) => match self.record.get(key.as_str()) {
                Some(v) => v.clone(),
                None => Value::Null,
            },
        }
    }

    /// Whether the selector names this resource.
    pub fn selector_applies(&self, selector: &Selector) -> (r: bool)
        ensures
            r == self.selected_by(selector@),
    {
        proof {
            reveal_strlit("azure");
        }
        admits(&selector.cloud, "azure") && admits(&selector.group, self.id.resource_group.as_str())
            && admits(&selector.kind, self.id.kind.as_str()) && admits(
            &selector.name,
            self.id.name.as_str(),
        )
    }

    /// The resource a record describes: one whose `id` entry is a string that
    /// reads as a resource identifier. Any other record is not a resource.
    pub fn from_record(record: Value) -> (r: Option<Resource>)
        ensures
            r is Some <==> (record_id(record) matches Some(t) && id_parts(t) is Some),
            r matches Some(res) ==> res.record == record,
            r matches Some(res) ==> (record_id(record) matches Some(t) && res.id.read_from(t)),
    {
        match record_identity(&record) {
            Some(id) => Some(Resource { id, record }),
            None => None,
        }
    }
}

/// The identity a record gives in its `id` entry.
pub fn record_identity(record: &Value) -> (r: Option<Id>)
    ensures
        r is Some <==> (record_id(*record) matches Some(t) && id_parts(t) is Some),
        r matches Some(id) ==> (record_id(*record) matches Some(t) && id.read_from(t)),
{
    match record.get("id") {
        Some(v) => match v.as_str() {
            Some(t) => Id::parse(t),
            None => None,
        },
        None => None,
    }
}

/// The items of a listing: the sequence under its `value` entry.
pub open spec fn listing_items(body: Value) -> Option<Seq<Value>> {
    match body.entry("value"@) {
        Some(Value::Sequence(items)) => Some(items@),
        _ => None,
    }
}

/// The texts under `field` of each item, in order; `None` where an item has
/// no string there.
pub open spec fn field_texts(items: Seq<Value>, field: Seq<char>) -> Option<Seq<Seq<char>>>
    decreases items.len(),
{
    if items.len() == 0 {
        Some(Seq::empty())
    } else {
        match (field_texts(items.drop_last(), field), items.last().entry(field)) {
            (Some(prior), Some(v)) => match v.text() {
                Some(t) => Some(prior.push(t)),
                None => None,
            },
            _ => None,
        }
    }
}

/// The strings under `field` of every item of a listing (the subscriptions
/// or groups that the management API returns); `None` where the listing has
/// no item sequence or an item lacks a string under `field`.
pub fn listed_texts(body: &Value, field: &str) -> (r: Option<Vec<String>>)
    ensures
        match listing_items(*body) {
            Some(items) => match field_texts(items, field@) {
                Some(ts) => r matches Some(v) && v@.map_values(|x: String| x@) == ts,
                None => r is None,
            },
            None => r is None,
        },
{
    let items = match body.get("value") {
        Some(Value::Sequence(items)) => items,
        _ => {
            return None;
        },
    };
    let mut out: Vec<String> = Vec::new();
    let mut i: usize = 0;
    proof {
        assert(items@.take(0) =~= Seq::<Value>::empty());
        assert(out@.map_values(|x: String| x@) =~= Seq::<Seq<char>>::empty());
    }
    while i < items.len()
        invariant
            listing_items(*body) == Some(items@),
            i <= items@.len(),
            field_texts(items@.take(i as int), field@) == Some(out@.map_values(|x: String| x@)),
        decreases items@.len() - i,
    {
        proof {
            assert(items@.take(i + 1).drop_last() =~= items@.take(i as int));
            assert(items@.take(i + 1).last() == items@[i as int]);
        }
        let text = match items[i].get(field) {
            Some(v) => match v.as_str() {
                Some(t) => t.to_owned(),
                None => {
                    proof {
                        lemma_field_texts_none_stays(items@, field@, i + 1);
                    }
                    return None;
                },
            },
            None => {
                proof {
                    lemma_field_texts_none_stays(items@, field@, i + 1);
                }
                return None;
            },
        };
        let ghost before = out@.map_values(|x: String| x@);
        out.push(text);
        proof {
            assert(out@.map_values(|x: String| x@) =~= before.push(text@));
        }
        i = i + 1;
    }
    proof {
        assert(items@.take(i as int) =~= items@);
    }
    Some(out)
}

proof fn lemma_field_texts_none_stays(items: Seq<Value>, field: Seq<char>, k: int)
    requires
        0 <= k <= items.len(),
        field_texts(items.take(k), field) is None,
    ensures
        field_texts(items, field) is None,
    decreases items.len() - k,
{
    if k < items.len() {
        assert(items.take(k + 1).drop_last() =~= items.take(k));
        lemma_field_texts_none_stays(items, field, k + 1);
    } else {
        assert(items.take(k) =~= items);
    }
}

/// Whether the record is a resource: its `id` entry is a string that reads
/// as a resource identifier.
pub open spec fn is_resource_record(item: Value) -> bool {
    record_id(item) matches Some(t) && id_parts(t) is Some
}

/// The items that are resources, in order.
pub open spec fn resource_items(items: Seq<Value>) -> Seq<Value>
    decreases items.len(),
{
    if items.len() == 0 {
        Seq::empty()
    } else {
        let prior = resource_items(items.drop_last());
        if is_resource_record(items.last()) {
            prior.push(items.last())
        } else {
            prior
        }
    }
}

/// `res` is the resource the record `item` describes.
pub open spec fn resource_from(res: Resource, item: Value) -> bool {
    &&& res.record.same_as(item)
    &&& record_id(item) matches Some(t) && res.id.read_from(t)
}

/// The resources of a listing, in order; items that are not resources are
/// left out. `None` where the listing has no item sequence.
pub fn resources_in(body: &Value) -> (r: Option<Vec<Resource>>)
    ensures
        r is Some <==> listing_items(*body) is Some,
        r matches Some(v) ==> (listing_items(*body) matches Some(items) && v@.len() == resource_items(
            items,
        ).len() && forall|k: int|
            0 <= k < v@.len() ==> resource_from(#[trigger] v@[k], resource_items(items)[k])),
{
    let items = match body.get("value") {
        Some(Value::Sequence(items)) => items,
        _ => {
            return None;
        },
    };
    let mut out: Vec<Resource> = Vec::new();
    let mut i: usize = 0;
    proof {
        assert(items@.take(0) =~= Seq::<Value>::empty());
    }
    while i < items.len()
        invariant
            listing_items(*body) == Some(items@),
            i <= items@.len(),
            out@.len() == resource_items(items@.take(i as int)).len(),
            forall|k: int|
                0 <= k < out@.len() ==> resource_from(
                    #[trigger] out@[k],
                    resource_items(items@.take(i as int))[k],
                ),
        decreases items@.len() - i,
    {
        proof {
            assert(items@.take(i + 1).drop_last() =~= items@.take(i as int));
            assert(items@.take(i + 1).last() == items@[i as int]);
        }
        match record_identity(&items[i]) {
            Some(id) => {
                let record = items[i].clone();
                out.push(Resource { id, record });
            },
            None => {},
        }
        i = i + 1;
    }
    proof {
        assert(items@.take(i as int) =~= items@);
    }
    Some(out)
}

/// The text of a record's `id` entry, where that entry is a string.
pub open spec fn record_id(record: Value) -> Option<Seq<char>> {
    match record.entry("id"@) {
        Some(v) => v.text(),
        None => None,
    }
}

/// A selector that fixes the cloud and the group and leaves kind and name
/// open names every resource of that group, whatever its kind and name; the
/// selector of four wildcards names every resource.
pub proof fn lemma_wildcards_select(sel: SelectorModel, res: Resource)
    ensures
        sel.cloud == cloud_name() && sel.group == res.id.resource_group@ && sel.kind == wildcard()
            && sel.name == wildcard() ==> res.selected_by(sel),
        sel.cloud == wildcard() && sel.group == wildcard() && sel.kind == wildcard() && sel.name
            == wildcard() ==> res.selected_by(sel),
{
}

} // verus!
