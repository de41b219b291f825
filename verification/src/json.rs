use vstd::prelude::*;

verus! {

/// A JSON document as the skills exchange it: the value that the webhook's
/// request carries and that the games answer with.
///
/// Numbers are kept as the text of their decimal form, since no rule here
/// reads them; an object is the list of its members in order.
#[derive(Debug, PartialEq, Eq)]
pub enum JsonValue {
    Null,
    Bool(bool),
    Number(String),
    String(String),
    Array(Vec<JsonValue>),
    Object(Vec<(String, JsonValue)>),
}

/// The mathematical value of a [`JsonValue`].
pub enum JsonView {
    Null,
    Bool(bool),
    Number(Seq<char>),
    String(Seq<char>),
    Array(Seq<JsonView>),
    Object(Seq<(Seq<char>, JsonView)>),
}

pub open spec fn json_view(v: JsonValue) -> JsonView
    decreases v,
{
    match v {
        JsonValue::Null => JsonView::Null,
        JsonValue::Bool(b) => JsonView::Bool(b),
        JsonValue::Number(n) => JsonView::Number(n@),
        JsonValue::String(s) => JsonView::String(s@),
        JsonValue::Array(a) => JsonView::Array(
            Seq::new(
                a@.len(),
                |i: int|
                    if 0 <= i < a@.len() {
                        json_view(a@[i])
                    } else {
                        JsonView::Null
                    },
            ),
        ),
        JsonValue::Object(m) => JsonView::Object(
            Seq::new(
                m@.len(),
                |i: int|
                    if 0 <= i < m@.len() {
                        (m@[i].0@, json_view(m@[i].1))
                    } else {
                        (Seq::empty(), JsonView::Null)
                    },
            ),
        ),
    }
}

impl View for JsonValue {
    type V = JsonView;

    open spec fn view(&self) -> JsonView {
        json_view(*self)
    }
}

pub open spec fn views(s: Seq<JsonValue>) -> Seq<JsonView> {
    s.map_values(|x: JsonValue| x@)
}

pub open spec fn member_views(s: Seq<(String, JsonValue)>) -> Seq<(Seq<char>, JsonView)> {
    s.map_values(|p: (String, JsonValue)| (p.0@, p.1@))
}

pub broadcast proof fn lemma_array_view(a: Vec<JsonValue>)
    ensures
        #[trigger] json_view(JsonValue::Array(a)) == JsonView::Array(views(a@)),
{
    let s = json_view(JsonValue::Array(a))->Array_0;
    assert(s.len() == a@.len());
    assert forall|i: int| 0 <= i < a@.len() implies s[i] == views(a@)[i] by {}
    assert(s =~= views(a@));
}

pub broadcast proof fn lemma_object_view(m: Vec<(String, JsonValue)>)
    ensures
        #[trigger] json_view(JsonValue::Object(m)) == JsonView::Object(member_views(m@)),
{
    let s = json_view(JsonValue::Object(m))->Object_0;
    assert(s.len() == m@.len());
    assert forall|i: int| 0 <= i < m@.len() implies s[i] == member_views(m@)[i] by {}
    assert(s =~= member_views(m@));
}

pub broadcast group group_json_view {
    lemma_array_view,
    lemma_object_view,
}

pub open spec fn opt_view(r: Option<&JsonValue>) -> Option<JsonView> {
    match r {
        Some(v) => Some(v@),
        None => None,
    }
}

/// The value of member `key` among `members`: the last member of that name,
/// as a map built from them keeps it.
pub open spec fn member_get(members: Seq<(Seq<char>, JsonView)>, key: Seq<char>) -> Option<JsonView>
    decreases members.len(),
{
    if members.len() == 0 {
        None
    } else if members.last().0 == key {
        Some(members.last().1)
    } else {
        member_get(members.drop_last(), key)
    }
}

impl JsonView {
    /// Member `key` of an object; `None` for a value that is no object.
    pub open spec fn get(self, key: Seq<char>) -> Option<JsonView> {
        match self {
            JsonView::Object(m) => member_get(m, key),
            _ => None,
        }
    }

    pub open spec fn str_of(self) -> Option<Seq<char>> {
        match self {
            JsonView::String(s) => Some(s),
            _ => None,
        }
    }

    pub open spec fn bool_of(self) -> Option<bool> {
        match self {
            JsonView::Bool(b) => Some(b),
            _ => None,
        }
    }

    pub open spec fn array_of(self) -> Option<Seq<JsonView>> {
        match self {
            JsonView::Array(a) => Some(a),
            _ => None,
        }
    }

    /// `get(key)` followed by `str_of`.
    pub open spec fn get_str(self, key: Seq<char>) -> Option<Seq<char>> {
        match self.get(key) {
            Some(v) => v.str_of(),
            None => None,
        }
    }
}

/// The strings among `items`, in order; other items are skipped.
pub open spec fn strings_of(items: Seq<JsonView>) -> Seq<Seq<char>>
    decreases items.len(),
{
    if items.len() == 0 {
        Seq::empty()
    } else {
        let rest = strings_of(items.drop_last());
        match items.last() {
            JsonView::String(s) => rest.push(s),
            _ => rest,
        }
    }
}

pub open spec fn string_views(v: Seq<String>) -> Seq<Seq<char>> {
    v.map_values(|s: String| s@)
}

impl JsonValue {
    /// Member `key` of an object, or `None` where there is no such member or
    /// the value is no object.
    pub fn get(&self, key: &str) -> (r: Option<&JsonValue>)
        ensures
            opt_view(r) == self@.get(key@),
    {
        broadcast use group_json_view;
        match self {
            JsonValue::Object(m) => {
                let k = String::from_str(key);
                let ghost mv = member_views(m@);
                let mut i = m.len();
                assert(mv.take(i as int) =~= mv);
                while i > 0
                    invariant
                        i <= m.len(),
                        *self == JsonValue::Object(*m),
                        mv == member_views(m@),
                        k@ == key@,
                        member_get(mv, key@) == member_get(mv.take(i as int), key@),
                    decreases i,
                {
                    assert(mv.take(i as int).drop_last() =~= mv.take(i - 1));
                    i = i - 1;
                    if m[i].0 == k {
                        assert(mv.take(i + 1).last() == mv[i as int]);
                        assert(mv[i as int] == (m@[i as int].0@, m@[i as int].1@));
                        assert(member_get(mv.take(i + 1), key@) == Some(m@[i as int].1@));
                        proof {
                            lemma_object_view(*m);
                        }
                        return Some(&m[i].1);
                    }
                }
                assert(mv.take(0) =~= Seq::<(Seq<char>, JsonView)>::empty());
                None
            },
            _ => None,
        }
    }

    pub fn as_str(&self) -> (r: Option<&String>)
        ensures
            match r {
                Some(s) => self@.str_of() == Some(s@),
                None => self@.str_of() is None,
            },
    {
        match self {
            JsonValue::String(s) => Some(s),
            _ => None,
        }
    }

    pub fn as_bool(&self) -> (r: Option<bool>)
        ensures
            r == self@.bool_of(),
    {
        match self {
            JsonValue::Bool(b) => Some(*b),
            _ => None,
        }
    }

    pub fn as_array(&self) -> (r: Option<&Vec<JsonValue>>)
        ensures
            match r {
                Some(a) => self@.array_of() == Some(views(a@)),
                None => self@.array_of() is None,
            },
    {
        broadcast use group_json_view;
        match self {
            JsonValue::Array(a) => Some(a),
            _ => None,
        }
    }

    /// A copy of the whole document.
    pub fn deep_clone(&self) -> (r: JsonValue)
        ensures
            r@ == self@,
        decreases self,
    {
        broadcast use group_json_view;
        match self {
            JsonValue::Null => JsonValue::Null,
            JsonValue::Bool(b) => JsonValue::Bool(*b),
            JsonValue::Number(n) => JsonValue::Number(n.clone()),
            JsonValue::String(s) => JsonValue::String(s.clone()),
            JsonValue::Array(a) => {
                let mut out: Vec<JsonValue> = Vec::new();
                let mut i: usize = 0;
                while i < a.len()
                    invariant
                        i <= a.len(),
                        *self == JsonValue::Array(*a),
                        views(out@) == views(a@).take(i as int),
                    decreases a.len() - i,
                {
                    proof {
                        assert(*self == JsonValue::Array(*a));
                        assert(decreases_to!(*self => (*self)->Array_0));
                        assert(decreases_to!((*self)->Array_0 => (*self)->Array_0@));
                        assert(decreases_to!(a@ => a@[i as int]));
                    }
                    let c = a[i].deep_clone();
                    assert(c@ == views(a@)[i as int]);
                    let ghost prev = out@;
                    out.push(c);
                    assert(out@ == prev.push(c));
                    assert(views(out@) =~= views(prev).push(c@));
                    assert(views(a@).take(i as int).push(views(a@)[i as int]) =~= views(a@).take(i + 1));
                    i = i + 1;
                }
                assert(views(a@).take(a.len() as int) =~= views(a@));
                JsonValue::Array(out)
            },
            JsonValue::Object(m) => {
                let mut out: Vec<(String, JsonValue)> = Vec::new();
                let mut i: usize = 0;
                while i < m.len()
                    invariant
                        i <= m.len(),
                        *self == JsonValue::Object(*m),
                        member_views(out@) == member_views(m@).take(i as int),
                    decreases m.len() - i,
                {
                    proof {
                        assert(*self == JsonValue::Object(*m));
                        assert(decreases_to!(*self => (*self)->Object_0));
                        assert(decreases_to!((*self)->Object_0 => (*self)->Object_0@));
                        assert(decreases_to!(m@ => m@[i as int]));
                        assert(decreases_to!(m@[i as int] => m@[i as int].1));
                    }
                    let c = m[i].1.deep_clone();
                    let key = m[i].0.clone();
                    assert(c@ == m@[i as int].1@);
                    assert((key@, c@) == member_views(m@)[i as int]);
                    let ghost prev = out@;
                    out.push((key, c));
                    assert(out@ == prev.push((key, c)));
                    assert(member_views(out@) =~= member_views(prev).push((key@, c@)));
                    assert(member_views(m@).take(i as int).push(member_views(m@)[i as int]) =~= member_views(m@).take(i + 1));
                    i = i + 1;
                }
                assert(member_views(m@).take(m.len() as int) =~= member_views(m@));
                JsonValue::Object(out)
            },
        }
    }
}

/// The strings among `items`, in order, copied.
pub fn string_items(items: &Vec<JsonValue>) -> (r: Vec<String>)
    ensures
        string_views(r@) == strings_of(views(items@)),
{
    let mut out: Vec<String> = Vec::new();
    let mut i: usize = 0;
    while i < items.len()
        invariant
            i <= items.len(),
            string_views(out@) == strings_of(views(items@).take(i as int)),
        decreases items.len() - i,
    {
        assert(views(items@).take(i + 1).drop_last() =~= views(items@).take(i as int));
        match &items[i] {
            JsonValue::String(s) => {
                out.push(s.clone());
                assert(string_views(out@) =~= strings_of(views(items@).take(i as int)).push(s@));
            },
            _ => {},
        }
        i = i + 1;
    }
    assert(views(items@).take(items.len() as int) =~= views(items@));
    out
}

/// Member lookup in an object of three members: the last of the name wins.
pub proof fn lemma_get_of_three(
    a: (Seq<char>, JsonView),
    b: (Seq<char>, JsonView),
    c: (Seq<char>, JsonView),
    key: Seq<char>,
)
    ensures
        member_get(seq![a, b, c], key) == (if key == c.0 {
            Some(c.1)
        } else if key == b.0 {
            Some(b.1)
        } else if key == a.0 {
            Some(a.1)
        } else {
            None
        }),
{
    let m = seq![a, b, c];
    assert(m.drop_last() =~= seq![a, b]);
    lemma_get_of_two(a, b, key);
}

/// Member lookup in an object of two members: the last of the name wins.
pub proof fn lemma_get_of_two(a: (Seq<char>, JsonView), b: (Seq<char>, JsonView), key: Seq<char>)
    ensures
        member_get(seq![a, b], key) == (if key == b.0 {
            Some(b.1)
        } else if key == a.0 {
            Some(a.1)
        } else {
            None
        }),
{
    let m = seq![a, b];
    assert(m.drop_last() =~= seq![a]);
    assert(seq![a].drop_last() =~= Seq::<(Seq<char>, JsonView)>::empty());
    assert(seq![a].last() == a);
    assert(member_get(Seq::<(Seq<char>, JsonView)>::empty(), key) is None);
    assert(member_get(seq![a], key) == (if key == a.0 {
        Some(a.1)
    } else {
        None
    }));
}

/// Member lookup: a value that is no object has no members; an object
/// without members has none; a member added last is found under its name,
/// and under any other name the object answers as it did before.
pub proof fn lemma_get_members(members: Seq<(Seq<char>, JsonView)>, key: Seq<char>, value: JsonView, other: Seq<char>)
    ensures
        JsonView::Object(members.push((key, value))).get(key) == Some(value),
        other != key ==> JsonView::Object(members.push((key, value))).get(other) == JsonView::Object(
            members,
        ).get(other),
        JsonView::Object(Seq::empty()).get(key) is None,
        JsonView::Null.get(key) is None,
        JsonView::Array(Seq::empty()).get(key) is None,
        JsonView::String(key).get(key) is None,
{
    assert(members.push((key, value)).drop_last() =~= members);
}

/// The strings among `items` are exactly what `filter_map` keeps of them
/// when it keeps the text of each string: all of them, in order.
pub proof fn lemma_strings_of_keeps_every_string(items: Seq<JsonView>)
    ensures
        strings_of(items) == items.filter_map(|x: JsonView| x.str_of()),
        forall|i: int| 0 <= i < items.len() && (#[trigger] items[i]) is String ==> strings_of(items).contains(
            items[i]->String_0,
        ),
        forall|j: int| 0 <= j < strings_of(items).len() ==> items.contains(JsonView::String(#[trigger] strings_of(items)[j])),
    decreases items.len(),
{
    if items.len() > 0 {
        let rest = items.drop_last();
        lemma_strings_of_keeps_every_string(rest);
        match items.last() {
            JsonView::String(t) => {
                assert(strings_of(rest).push(t) =~= strings_of(rest) + seq![t]);
            },
            _ => {},
        }
        assert forall|i: int| 0 <= i < items.len() && (#[trigger] items[i]) is String implies strings_of(items).contains(
            items[i]->String_0,
        ) by {
            if i < items.len() - 1 {
                assert(rest[i] == items[i]);
                let k = choose|k: int| 0 <= k < strings_of(rest).len() && strings_of(rest)[k] == rest[i]->String_0;
                assert(strings_of(items)[k] == items[i]->String_0);
            } else {
                assert(strings_of(items).last() == items[i]->String_0);
            }
        }
        assert forall|j: int| 0 <= j < strings_of(items).len() implies items.contains(JsonView::String(#[trigger] strings_of(items)[j])) by {
            if j < strings_of(rest).len() {
                assert(strings_of(items)[j] == strings_of(rest)[j]);
                let k = choose|k: int| 0 <= k < rest.len() && rest[k] == JsonView::String(strings_of(rest)[j]);
                assert(items[k] == rest[k]);
            } else {
                assert(items[items.len() - 1] == JsonView::String(strings_of(items)[j]));
            }
        }
    }
}

} // verus!
