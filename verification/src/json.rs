//! JSON values, as the payloads of commands and registrations hold them.

use crate::text::{owned, same_text};
use vstd::prelude::*;

verus! {

/// A JSON value. A number is held as its JSON text; the fields of an object
/// are held in a list, and the first field of a name is the one that counts.
#[derive(Debug)]
pub enum Json {
    Null,
    Bool(bool),
    Number(String),
    Text(String),
    Array(Vec<Json>),
    Object(Vec<(String, Json)>),
}

/// A JSON value as contracts speak of it.
pub enum JsonView {
    Null,
    Bool(bool),
    Number(Seq<char>),
    Text(Seq<char>),
    Array(Seq<JsonView>),
    Object(Seq<(Seq<char>, JsonView)>),
}

/// The value of the first field of the given name.
pub open spec fn first_field(fields: Seq<(Seq<char>, JsonView)>, key: Seq<char>) -> Option<
    JsonView,
>
    decreases fields.len(),
{
    if fields.len() == 0 {
        None
    } else if fields[0].0 == key {
        Some(fields[0].1)
    } else {
        first_field(fields.drop_first(), key)
    }
}

/// The fields without those of the given name.
pub open spec fn without_field(fields: Seq<(Seq<char>, JsonView)>, key: Seq<char>) -> Seq<
    (Seq<char>, JsonView),
> {
    fields.filter(|f: (Seq<char>, JsonView)| f.0 != key)
}

/// The fields with the given name set to the given value: the fields of
/// that name leave, and the new one goes behind the others.
pub open spec fn with_field(
    fields: Seq<(Seq<char>, JsonView)>,
    key: Seq<char>,
    value: JsonView,
) -> Seq<(Seq<char>, JsonView)> {
    without_field(fields, key).push((key, value))
}

impl JsonView {
    /// The value of a field of an object; none for a value that is no
    /// object or has no such field.
    pub open spec fn field(self, key: Seq<char>) -> Option<JsonView> {
        match self {
            JsonView::Object(fields) => first_field(fields, key),
            _ => None,
        }
    }

    /// The text that a JSON string holds; none for any other value.
    pub open spec fn as_text(self) -> Option<Seq<char>> {
        match self {
            JsonView::Text(t) => Some(t),
            _ => None,
        }
    }
}

/// The views of the fields of an object.
pub open spec fn field_views(fields: Seq<(String, Json)>) -> Seq<(Seq<char>, JsonView)> {
    Seq::new(fields.len(), |i: int| (fields[i].0@, fields[i].1.view()))
}

/// The views of the items of an array.
pub open spec fn item_views(items: Seq<Json>) -> Seq<JsonView> {
    Seq::new(items.len(), |i: int| items[i].view())
}

impl Json {
    pub open spec fn view(&self) -> JsonView
        decreases self,
    {
        match self {
            Json::Null => JsonView::Null,
            Json::Bool(b) => JsonView::Bool(*b),
            Json::Number(n) => JsonView::Number(n@),
            Json::Text(t) => JsonView::Text(t@),
            Json::Array(items) => JsonView::Array(
                Seq::new(
                    items.len() as nat,
                    |i: int|
                        if 0 <= i < items.len() {
                            items[i].view()
                        } else {
                            JsonView::Null
                        },
                ),
            ),
            Json::Object(fields) => JsonView::Object(
                Seq::new(
                    fields.len() as nat,
                    |i: int|
                        if 0 <= i < fields.len() {
                            (fields[i].0@, fields[i].1.view())
                        } else {
                            (Seq::empty(), JsonView::Null)
                        },
                ),
            ),
        }
    }

    /// The view of an object is made of the views of its fields, and that of
    /// an array of the views of its items.
    pub proof fn lemma_view(&self)
        ensures
            self matches Json::Object(fields) ==> self@ == JsonView::Object(field_views(fields@)),
            self matches Json::Array(items) ==> self@ == JsonView::Array(item_views(items@)),
    {
        match self {
            Json::Object(fields) => {
                assert(self@->Object_0 =~= field_views(fields@));
            },
            Json::Array(items) => {
                assert(self@->Array_0 =~= item_views(items@));
            },
            _ => {},
        }
    }

    /// The text of a JSON string.
    pub fn as_str(&self) -> (r: Option<&str>)
        ensures
            match self@.as_text() {
                Some(text) => r matches Some(s) && s@ == text,
                None => r is None,
            },
    {
        match self {
            Json::Text(t) => Some(t.as_str()),
            _ => None,
        }
    }

    /// The value of a field of an object.
    pub fn get(&self, key: &str) -> (r: Option<&Json>)
        ensures
            match self@.field(key@) {
                Some(value) => r matches Some(found) && found@ == value,
                None => r is None,
            },
    {
        match self {
            Json::Object(fields) => {
                proof {
                    self.lemma_view();
                }
                get_field(fields, key)
            },
            _ => None,
        }
    }
}

/// The value of the first field of the given name.
pub fn get_field<'a>(fields: &'a Vec<(String, Json)>, key: &str) -> (r: Option<&'a Json>)
    ensures
        match first_field(field_views(fields@), key@) {
            Some(value) => r matches Some(found) && found@ == value,
            None => r is None,
        },
{
    let ghost views = field_views(fields@);
    let mut i: usize = 0;
    assert(views.skip(0) =~= views);
    while i < fields.len()
        invariant
            i <= fields.len(),
            views == field_views(fields@),
            first_field(views, key@) == first_field(views.skip(i as int), key@),
        decreases fields.len() - i,
    {
        proof {
            assert(views.skip(i as int)[0] == views[i as int]);
            assert(views.skip(i as int).drop_first() =~= views.skip(i + 1));
        }
        if same_text(fields[i].0.as_str(), key) {
            return Some(&fields[i].1);
        }
        i += 1;
    }
    assert(views.skip(i as int).len() == 0);
    None
}

/// Takes out the fields of the given name.
pub fn remove_field(fields: Vec<(String, Json)>, key: &str) -> (r: Vec<(String, Json)>)
    ensures
        field_views(r@) == without_field(field_views(fields@), key@),
{
    let mut fields = fields;
    let ghost all = field_views(fields@);
    let ghost keep = |f: (Seq<char>, JsonView)| f.0 != key@;
    let mut i: usize = 0;
    let ghost mut done: int = 0;
    assert(all.take(0) =~= Seq::<(Seq<char>, JsonView)>::empty());
    assert(field_views(fields@).take(0).filter(keep) + all.skip(0) =~= field_views(fields@)) by {
        reveal(Seq::filter);
    }
    while i < fields.len()
        invariant
            i <= fields.len(),
            0 <= done <= all.len(),
            fields@.len() - i == all.len() - done,
            keep == |f: (Seq<char>, JsonView)| f.0 != key@,
            field_views(fields@) == all.take(done).filter(keep) + all.skip(done),
            i == all.take(done).filter(keep).len(),
        decreases fields.len() - i,
    {
        let ghost before = field_views(fields@);
        proof {
            assert(all.take(done + 1).drop_last() =~= all.take(done));
            assert(all.take(done + 1).last() == all[done]);
            assert(before[i as int] == all.skip(done)[0]);
            reveal(Seq::filter);
        }
        if same_text(fields[i].0.as_str(), key) {
            fields.remove(i);
            proof {
                assert(field_views(fields@) =~= before.remove(i as int));
                assert(before.remove(i as int) =~= all.take(done + 1).filter(keep) + all.skip(
                    done + 1,
                ));
            }
        } else {
            proof {
                assert(before =~= all.take(done + 1).filter(keep) + all.skip(done + 1));
            }
            i += 1;
        }
        proof {
            done = done + 1;
        }
    }
    proof {
        assert(all.take(done) =~= all);
        assert(all.skip(done) =~= Seq::<(Seq<char>, JsonView)>::empty());
        assert(field_views(fields@) =~= all.filter(keep));
    }
    fields
}

/// Sets the field of the given name to the given value.
pub fn set_field(fields: Vec<(String, Json)>, key: &str, value: Json) -> (r: Vec<(String, Json)>)
    ensures
        field_views(r@) == with_field(field_views(fields@), key@, value@),
{
    let mut fields = remove_field(fields, key);
    let ghost before = field_views(fields@);
    fields.push((owned(key), value));
    assert(field_views(fields@) =~= before.push((key@, value@)));
    fields
}


/// A copy of a value.
pub fn clone_json(json: &Json) -> (copy: Json)
    ensures
        copy@ == json@,
    decreases json,
{
    match json {
        Json::Null => Json::Null,
        Json::Bool(b) => Json::Bool(*b),
        Json::Number(n) => Json::Number(n.clone()),
        Json::Text(t) => Json::Text(t.clone()),
        Json::Array(items) => {
            let mut copies: Vec<Json> = Vec::new();
            let mut i: usize = 0;
            while i < items.len()
                invariant
                    i <= items.len(),
                    decreases_to!(json => items),
                    copies@.len() == i,
                    forall|k: int| 0 <= k < i ==> copies@[k]@ == items@[k]@,
                decreases items.len() - i,
            {
                proof {
                    vstd::std_specs::vec::axiom_vec_index_decreases(*items, i as int);
                }
                copies.push(clone_json(&items[i]));
                i += 1;
            }
            let copy = Json::Array(copies);
            proof {
                copy.lemma_view();
                json.lemma_view();
                assert(item_views(copies@) =~= item_views(items@));
            }
            copy
        },
        Json::Object(fields) => {
            let mut copies: Vec<(String, Json)> = Vec::new();
            let mut i: usize = 0;
            while i < fields.len()
                invariant
                    i <= fields.len(),
                    decreases_to!(json => fields),
                    copies@.len() == i,
                    forall|k: int|
                        0 <= k < i ==> copies@[k].0@ == fields@[k].0@ && copies@[k].1@
                            == fields@[k].1@,
                decreases fields.len() - i,
            {
                proof {
                    vstd::std_specs::vec::axiom_vec_index_decreases(*fields, i as int);
                }
                copies.push((fields[i].0.clone(), clone_json(&fields[i].1)));
                i += 1;
            }
            let copy = Json::Object(copies);
            proof {
                copy.lemma_view();
                json.lemma_view();
                assert(field_views(copies@) =~= field_views(fields@));
            }
            copy
        },
    }
}

/// Whether one of the first `end` fields has the given name.
pub open spec fn is_named_before(
    fields: Seq<(Seq<char>, JsonView)>,
    end: int,
    key: Seq<char>,
) -> bool {
    exists|k: int| 0 <= k < end && k < fields.len() && #[trigger] fields[k].0 == key
}

/// The fields that count: those whose name no earlier field has.
pub open spec fn counting_fields(fields: Seq<(Seq<char>, JsonView)>) -> Seq<(Seq<char>, JsonView)>
    decreases fields.len(),
{
    if fields.len() == 0 {
        fields
    } else if is_named_before(fields, fields.len() - 1, fields.last().0) {
        counting_fields(fields.drop_last())
    } else {
        counting_fields(fields.drop_last()).push(fields.last())
    }
}

impl JsonView {
    /// The value with, in each object at any depth, the fields that count
    /// and no others.
    pub open spec fn settled(self) -> JsonView
        decreases self,
    {
        match self {
            JsonView::Array(items) => JsonView::Array(
                Seq::new(
                    items.len(),
                    |i: int|
                        if 0 <= i < items.len() {
                            items[i].settled()
                        } else {
                            JsonView::Null
                        },
                ),
            ),
            JsonView::Object(fields) => JsonView::Object(counting_fields(settled_fields(fields))),
            other => other,
        }
    }
}

/// The fields, the value of each with the fields that count and no others.
pub open spec fn settled_fields(fields: Seq<(Seq<char>, JsonView)>) -> Seq<(Seq<char>, JsonView)>
    decreases fields,
{
    Seq::new(
        fields.len(),
        |i: int|
            if 0 <= i < fields.len() {
                (fields[i].0, fields[i].1.settled())
            } else {
                (Seq::empty(), JsonView::Null)
            },
    )
}

/// Whether one of the first `end` fields has the given name.
fn named_before(fields: &Vec<(String, Json)>, end: usize, key: &str) -> (r: bool)
    requires
        end <= fields@.len(),
    ensures
        r == is_named_before(field_views(fields@), end as int, key@),
{
    let mut k: usize = 0;
    while k < end
        invariant
            k <= end <= fields@.len(),
            !is_named_before(field_views(fields@), k as int, key@),
        decreases end - k,
    {
        if same_text(fields[k].0.as_str(), key) {
            assert(field_views(fields@)[k as int].0 == key@);
            return true;
        }
        k += 1;
    }
    false
}

impl Json {
    /// The value with, in each object at any depth, the fields that count
    /// and no others.
    pub fn settled(&self) -> (r: Json)
        ensures
            r@ == self@.settled(),
        decreases self,
    {
        match self {
            Json::Null => Json::Null,
            Json::Bool(b) => Json::Bool(*b),
            Json::Number(n) => Json::Number(n.clone()),
            Json::Text(t) => Json::Text(t.clone()),
            Json::Array(items) => {
                let ghost all = Seq::new(
                    self@->Array_0.len(),
                    |k: int|
                        if 0 <= k < self@->Array_0.len() {
                            self@->Array_0[k].settled()
                        } else {
                            JsonView::Null
                        },
                );
                let mut settled: Vec<Json> = Vec::new();
                let mut i: usize = 0;
                while i < items.len()
                    invariant
                        i <= items.len(),
                        decreases_to!(self => items),
                        settled@.len() == i,
                        forall|k: int| 0 <= k < i ==> settled@[k]@ == items@[k]@.settled(),
                    decreases items.len() - i,
                {
                    proof {
                        vstd::std_specs::vec::axiom_vec_index_decreases(*items, i as int);
                    }
                    settled.push(items[i].settled());
                    i += 1;
                }
                let r = Json::Array(settled);
                proof {
                    r.lemma_view();
                    self.lemma_view();
                    assert(item_views(settled@) =~= all);
                    assert(self@.settled()->Array_0 =~= all);
                }
                r
            },
            Json::Object(fields) => {
                let ghost all = Seq::new(
                    fields@.len(),
                    |k: int| (fields@[k].0@, fields@[k].1@.settled()),
                );
                let mut settled: Vec<(String, Json)> = Vec::new();
                let mut i: usize = 0;
                assert(all.take(0) =~= Seq::empty());
                while i < fields.len()
                    invariant
                        i <= fields.len(),
                        decreases_to!(self => fields),
                        all == Seq::new(
                            fields@.len(),
                            |k: int| (fields@[k].0@, fields@[k].1@.settled()),
                        ),
                        field_views(settled@) == counting_fields(all.take(i as int)),
                    decreases fields.len() - i,
                {
                    let ghost before = field_views(settled@);
                    proof {
                        vstd::std_specs::vec::axiom_vec_index_decreases(*fields, i as int);
                        assert(all.take(i + 1).drop_last() =~= all.take(i as int));
                        assert(all.take(i + 1).last() == all[i as int]);
                        let key = fields@[i as int].0@;
                        let raw = field_views(fields@);
                        if is_named_before(all.take(i + 1), i as int, key) {
                            let k = choose|k: int|
                                0 <= k < i && k < all.take(i + 1).len() && #[trigger] all.take(
                                    i + 1,
                                )[k].0 == key;
                            assert(raw[k].0 == key);
                        }
                        if is_named_before(raw, i as int, key) {
                            let k = choose|k: int|
                                0 <= k < i && k < raw.len() && #[trigger] raw[k].0 == key;
                            assert(all.take(i + 1)[k].0 == key);
                        }
                    }
                    if !named_before(fields, i, fields[i].0.as_str()) {
                        settled.push((fields[i].0.clone(), fields[i].1.settled()));
                        assert(field_views(settled@) =~= before.push(all[i as int]));
                    }
                    i += 1;
                }
                let r = Json::Object(settled);
                proof {
                    r.lemma_view();
                    self.lemma_view();
                    assert(all.take(i as int) =~= all);
                    assert(all =~= settled_fields(self@->Object_0));
                }
                r
            },
        }
    }
}

impl Clone for Json {
    fn clone(&self) -> (copy: Json)
        ensures
            copy@ == self@,
    {
        clone_json(self)
    }
}

/// The value reached from a value by going down the fields of the given
/// names, one after the other.
pub open spec fn value_at(json: JsonView, keys: Seq<Seq<char>>) -> Option<JsonView>
    decreases keys.len(),
{
    if keys.len() == 0 {
        Some(json)
    } else {
        match json.field(keys[0]) {
            Some(value) => value_at(value, keys.drop_first()),
            None => None,
        }
    }
}

/// The value reached from a value by going down the fields named by
/// `keys`, from the place `from` on.
pub fn get_path<'a>(json: &'a Json, keys: &Vec<String>, from: usize) -> (r: Option<&'a Json>)
    requires
        from <= keys@.len(),
    ensures
        match value_at(json@, crate::text::texts(keys@).skip(from as int)) {
            Some(value) => r matches Some(found) && found@ == value,
            None => r is None,
        },
{
    let ghost names = crate::text::texts(keys@);
    let mut current = json;
    let mut i: usize = from;
    while i < keys.len()
        invariant
            from <= i <= keys@.len(),
            names == crate::text::texts(keys@),
            value_at(json@, names.skip(from as int)) == value_at(current@, names.skip(i as int)),
        decreases keys@.len() - i,
    {
        proof {
            assert(names.skip(i as int)[0] == keys@[i as int]@);
            assert(names.skip(i as int).drop_first() =~= names.skip(i + 1));
        }
        match current.get(keys[i].as_str()) {
            Some(value) => {
                current = value;
            },
            None => {
                return None;
            },
        }
        i += 1;
    }
    assert(names.skip(i as int).len() == 0);
    Some(current)
}

} // verus!
