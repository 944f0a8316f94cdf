//! A small document tree, the shape in which configuration data reaches the
//! trust-policy parser.
//!
//! Policy settings arrive as JSON or YAML; the host-facing shell decodes the
//! text and hands the library one of these trees.  All schema rules (strict
//! fields, defaults, version dispatch) are checked here, on plain values.
use vstd::prelude::*;

verus! {

/// Mathematical model of a [`ConfigValue`] tree.
pub enum ValueView {
    Null,
    Bool(bool),
    Int(int),
    Str(Seq<char>),
    Arr(Seq<ValueView>),
    Obj(Seq<(Seq<char>, ValueView)>),
}

/// One node of a configuration document: the unmarshalled form of a JSON or
/// YAML value.  Objects keep their fields in document order.
#[derive(Debug, PartialEq)]
pub enum ConfigValue {
    Null,
    Bool(bool),
    Int(i64),
    Str(String),
    Arr(Vec<ConfigValue>),
    Obj(Vec<(String, ConfigValue)>),
}

/// The view of a sequence of document nodes.
pub open spec fn views_of(items: Seq<ConfigValue>) -> Seq<ValueView>
    decreases items,
{
    if items.len() == 0 {
        Seq::empty()
    } else {
        seq![items[0]@] + views_of(items.drop_first())
    }
}

/// The view of an object's field list.
pub open spec fn fields_view(fields: Seq<(String, ConfigValue)>) -> Seq<(Seq<char>, ValueView)>
    decreases fields,
{
    if fields.len() == 0 {
        Seq::empty()
    } else {
        seq![(fields[0].0@, fields[0].1@)] + fields_view(fields.drop_first())
    }
}

/// [`views_of`] maps the view over the items, one for one.
pub broadcast proof fn lemma_views_of(items: Seq<ConfigValue>)
    ensures
        #![trigger views_of(items)]
        views_of(items).len() == items.len(),
        forall|i: int| 0 <= i < items.len() ==> views_of(items)[i] == items[i]@,
    decreases items.len(),
{
    if items.len() > 0 {
        lemma_views_of(items.drop_first());
        assert(views_of(items) == seq![items[0]@] + views_of(items.drop_first()));
        assert forall|i: int| 0 <= i < items.len() implies views_of(items)[i] == items[i]@ by {
            if i > 0 {
                assert(views_of(items)[i] == views_of(items.drop_first())[i - 1]);
                assert(items.drop_first()[i - 1] == items[i]);
            }
        }
    }
}

/// [`fields_view`] maps the views over the fields, one for one.
pub broadcast proof fn lemma_fields_view(fields: Seq<(String, ConfigValue)>)
    ensures
        #![trigger fields_view(fields)]
        fields_view(fields).len() == fields.len(),
        forall|i: int|
            0 <= i < fields.len() ==> fields_view(fields)[i] == (fields[i].0@, fields[i].1@),
    decreases fields.len(),
{
    if fields.len() > 0 {
        lemma_fields_view(fields.drop_first());
        assert(fields_view(fields) == seq![(fields[0].0@, fields[0].1@)] + fields_view(
            fields.drop_first(),
        ));
        assert forall|i: int|
            0 <= i < fields.len() implies fields_view(fields)[i] == (
        fields[i].0@,
        fields[i].1@,
        ) by {
            if i > 0 {
                assert(fields_view(fields)[i] == fields_view(fields.drop_first())[i - 1]);
                assert(fields.drop_first()[i - 1] == fields[i]);
            }
        }
    }
}

impl View for ConfigValue {
    type V = ValueView;

    open spec fn view(&self) -> ValueView
        decreases self,
    {
        match self {
            ConfigValue::Null => ValueView::Null,
            ConfigValue::Bool(b) => ValueView::Bool(*b),
            ConfigValue::Int(i) => ValueView::Int(*i as int),
            ConfigValue::Str(s) => ValueView::Str(s@),
            ConfigValue::Arr(items) => ValueView::Arr(views_of(items@)),
            ConfigValue::Obj(fields) => ValueView::Obj(fields_view(fields@)),
        }
    }
}

/// String equality, stated over the views.
pub fn str_eq(a: &str, b: &str) -> (r: bool)
    ensures
        r == (a@ == b@),
{
    let sa = String::from_str(a);
    let sb = String::from_str(b);
    sa == sb
}

/// The value under `key` in an object's field list, searching from the front.
pub open spec fn spec_lookup(fields: Seq<(Seq<char>, ValueView)>, key: Seq<char>) -> Option<
    ValueView,
>
    decreases fields.len(),
{
    if fields.len() == 0 {
        None
    } else if fields[0].0 == key {
        Some(fields[0].1)
    } else {
        spec_lookup(fields.drop_first(), key)
    }
}

/// True when no two fields of the object share a name.
pub open spec fn keys_unique(fields: Seq<(Seq<char>, ValueView)>) -> bool {
    forall|i: int, j: int| 0 <= i < j < fields.len() ==> fields[i].0 != fields[j].0
}

/// Finds the field named `key`, returning a reference to its value.
pub fn lookup<'a>(fields: &'a Vec<(String, ConfigValue)>, key: &str) -> (r: Option<
    &'a ConfigValue,
>)
    ensures
        match r {
            Some(v) => spec_lookup(fields_view(fields@), key@) == Some(v@),
            None => spec_lookup(fields_view(fields@), key@) is None,
        },
{
    let ghost gfields = fields_view(fields@);
    proof {
        lemma_fields_view(fields@);
        assert(gfields.skip(0) =~= gfields);
    }
    for i in 0..fields.len()
        invariant
            spec_lookup(gfields, key@) == spec_lookup(gfields.skip(i as int), key@),
            gfields == fields_view(fields@),
            gfields.len() == fields.len(),
            forall|j: int| 0 <= j < fields.len() ==> gfields[j] == (fields@[j].0@, fields@[j].1@),
    {
        proof {
            assert(gfields.skip(i as int)[0] == gfields[i as int]);
        }
        if str_eq(fields[i].0.as_str(), key) {
            return Some(&fields[i].1);
        }
        proof {
            assert(gfields.skip(i as int).drop_first() =~= gfields.skip(i + 1));
        }
    }
    proof {
        assert(gfields.skip(fields.len() as int) =~= Seq::empty());
    }
    None
}

} // verus!
