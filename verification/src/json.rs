//! Documents to be written out: trees of plain values, with floating-point numbers as their bits.

use vstd::prelude::*;

verus! {

/// A document.
#[derive(Debug)]
pub enum Json {
    Null,
    Bool(bool),
    Int(i64),
    UInt(u64),
    /// The bits of a single.
    Single(u32),
    /// The bits of a double.
    Double(u64),
    Str(String),
    Array(Vec<Json>),
    /// The members, in the order they were put in.
    Object(Vec<(String, Json)>),
}

/// A [`Json`] with sequences in place of lists.
#[verifier::ext_equal]
pub enum JsonView {
    Null,
    Bool(bool),
    Int(i64),
    UInt(u64),
    Single(u32),
    Double(u64),
    Str(Seq<char>),
    Array(Seq<JsonView>),
    Object(Seq<(Seq<char>, JsonView)>),
}

/// The view of a document.
pub open spec fn json_view(j: Json) -> JsonView
    decreases j,
{
    match j {
        Json::Null => JsonView::Null,
        Json::Bool(b) => JsonView::Bool(b),
        Json::Int(i) => JsonView::Int(i),
        Json::UInt(u) => JsonView::UInt(u),
        Json::Single(f) => JsonView::Single(f),
        Json::Double(f) => JsonView::Double(f),
        Json::Str(s) => JsonView::Str(s@),
        Json::Array(v) => JsonView::Array(
            Seq::new(
                v@.len(),
                |i: int|
                    if 0 <= i < v@.len() {
                        json_view(v@[i])
                    } else {
                        JsonView::Null
                    },
            ),
        ),
        Json::Object(v) => JsonView::Object(
            Seq::new(
                v@.len(),
                |i: int|
                    if 0 <= i < v@.len() {
                        (v@[i].0@, json_view(v@[i].1))
                    } else {
                        (Seq::empty(), JsonView::Null)
                    },
            ),
        ),
    }
}

impl View for Json {
    type V = JsonView;

    open spec fn view(&self) -> JsonView {
        json_view(*self)
    }
}

/// The views of a list.
pub open spec fn json_views(v: Seq<Json>) -> Seq<JsonView> {
    Seq::new(v.len(), |i: int| v[i]@)
}

/// The views of a list of members.
pub open spec fn member_views(v: Seq<(String, Json)>) -> Seq<(Seq<char>, JsonView)> {
    Seq::new(v.len(), |i: int| (v[i].0@, v[i].1@))
}

/// A list, as a document.
pub fn array(items: Vec<Json>) -> (r: Json)
    ensures
        r@ == JsonView::Array(json_views(items@)),
{
    let r: Json = Json::Array(items);
    assert(r@->Array_0 =~= json_views(items@));
    r
}

/// Adds an item to a list.
pub fn add_item(items: &mut Vec<Json>, value: Json)
    ensures
        json_views(final(items)@) == json_views(old(items)@).push(value@),
        final(items)@ == old(items)@.push(value),
{
    let ghost before = json_views(items@);
    items.push(value);
    assert(json_views(items@) =~= before.push(value@));
}

/// The members of an object that is being put together.
pub struct Members {
    pub list: Vec<(String, Json)>,
}

impl View for Members {
    type V = Seq<(Seq<char>, JsonView)>;

    open spec fn view(&self) -> Seq<(Seq<char>, JsonView)> {
        member_views(self.list@)
    }
}

/// No members.
pub open spec fn empty() -> Seq<(Seq<char>, JsonView)> {
    Seq::empty()
}

impl Members {
    /// No members.
    pub fn new() -> (r: Members)
        ensures
            r@ == empty(),
    {
        let r: Members = Members { list: Vec::new() };
        assert(r@ =~= empty());
        r
    }

    /// Puts a member in.
    pub fn put(&mut self, key: &str, value: Json)
        ensures
            final(self)@ == old(self)@.push((key@, value@)),
    {
        let ghost before = self@;
        self.list.push((key.to_owned(), value));
        assert(self@ =~= before.push((key@, value@)));
    }

    /// Puts a truth value in.
    pub fn put_bool(&mut self, key: &str, b: bool)
        ensures
            final(self)@ == old(self)@.push((key@, JsonView::Bool(b))),
    {
        let value: Json = Json::Bool(b);
        assert(value@ == JsonView::Bool(b));
        self.put(key, value);
    }

    /// Puts an integer in.
    pub fn put_int(&mut self, key: &str, i: i64)
        ensures
            final(self)@ == old(self)@.push((key@, JsonView::Int(i))),
    {
        let value: Json = Json::Int(i);
        assert(value@ == JsonView::Int(i));
        self.put(key, value);
    }

    /// Puts a count in.
    pub fn put_uint(&mut self, key: &str, u: u64)
        ensures
            final(self)@ == old(self)@.push((key@, JsonView::UInt(u))),
    {
        let value: Json = Json::UInt(u);
        assert(value@ == JsonView::UInt(u));
        self.put(key, value);
    }

    /// Puts a single in.
    pub fn put_single(&mut self, key: &str, f: u32)
        ensures
            final(self)@ == old(self)@.push((key@, JsonView::Single(f))),
    {
        let value: Json = Json::Single(f);
        assert(value@ == JsonView::Single(f));
        self.put(key, value);
    }

    /// Puts a text in.
    pub fn put_text(&mut self, key: &str, s: &str)
        ensures
            final(self)@ == old(self)@.push((key@, JsonView::Str(s@))),
    {
        let value: Json = text(s);
        assert(value@ == JsonView::Str(s@));
        self.put(key, value);
    }

    /// Puts an optional text in.
    pub fn put_opt_text(&mut self, key: &str, s: &Option<String>)
        ensures
            final(self)@ == old(self)@.push((key@, opt_str(crate::text::opt_text(*s)))),
    {
        let value: Json = opt_text(s);
        assert(value@ == opt_str(crate::text::opt_text(*s)));
        self.put(key, value);
    }

    /// Puts a list of texts in.
    pub fn put_texts(&mut self, key: &str, v: &Vec<String>)
        ensures
            final(self)@ == old(self)@.push((key@, JsonView::Array(strs(crate::text::texts(v@))))),
    {
        let value: Json = texts(v);
        assert(value@ == JsonView::Array(strs(crate::text::texts(v@))));
        self.put(key, value);
    }

    /// Puts a list of singles in.
    pub fn put_singles(&mut self, key: &str, v: &[u32])
        ensures
            final(self)@ == old(self)@.push((key@, JsonView::Array(floats(v@)))),
    {
        let value: Json = singles(v);
        assert(value@ == JsonView::Array(floats(v@)));
        self.put(key, value);
    }

    /// Puts a `null` in.
    pub fn put_null(&mut self, key: &str)
        ensures
            final(self)@ == old(self)@.push((key@, JsonView::Null)),
    {
        let value: Json = Json::Null;
        assert(value@ == JsonView::Null);
        self.put(key, value);
    }

    /// Puts a list in.
    pub fn put_array(&mut self, key: &str, items: Vec<Json>)
        ensures
            final(self)@ == old(self)@.push((key@, JsonView::Array(json_views(items@)))),
    {
        self.put(key, array(items));
    }

    /// Puts an object in.
    pub fn put_object(&mut self, key: &str, members: Members)
        ensures
            final(self)@ == old(self)@.push((key@, JsonView::Object(members@))),
    {
        self.put(key, members.object());
    }

    /// Whether there are no members.
    pub fn is_empty(&self) -> (r: bool)
        ensures
            r == (self@.len() == 0),
    {
        self.list.len() == 0
    }

    /// The object.
    pub fn object(self) -> (r: Json)
        ensures
            r@ == JsonView::Object(self@),
    {
        let r: Json = Json::Object(self.list);
        assert(r@->Object_0 =~= self@);
        r
    }
}

/// A text, as a document.
pub fn text(s: &str) -> (r: Json)
    ensures
        r@ == JsonView::Str(s@),
{
    Json::Str(s.to_owned())
}

/// An optional text: `null` where there is none.
pub open spec fn opt_str(s: Option<Seq<char>>) -> JsonView {
    match s {
        Some(t) => JsonView::Str(t),
        None => JsonView::Null,
    }
}

/// An optional text, as a document.
pub fn opt_text(s: &Option<String>) -> (r: Json)
    ensures
        r@ == opt_str(crate::text::opt_text(*s)),
{
    match s {
        Some(t) => Json::Str(t.clone()),
        None => Json::Null,
    }
}

/// The documents of a sequence of texts.
pub open spec fn strs(v: Seq<Seq<char>>) -> Seq<JsonView> {
    Seq::new(v.len(), |i: int| JsonView::Str(v[i]))
}

/// A list of texts, as a document.
pub fn texts(v: &Vec<String>) -> (r: Json)
    ensures
        r@ == JsonView::Array(strs(crate::text::texts(v@))),
{
    let mut items: Vec<Json> = Vec::new();
    let mut i: usize = 0;
    while i < v.len()
        invariant
            i <= v@.len(),
            json_views(items@) =~= strs(crate::text::texts(v@)).take(i as int),
        decreases v@.len() - i,
    {
        let item: Json = Json::Str(v[i].clone());
        proof {
            let all = strs(crate::text::texts(v@));
            assert(all.take(i + 1) =~= all.take(i as int).push(item@));
        }
        add_item(&mut items, item);
        i += 1;
    }
    assert(json_views(items@) =~= strs(crate::text::texts(v@)));
    array(items)
}

/// The documents of a sequence of singles.
pub open spec fn floats(v: Seq<u32>) -> Seq<JsonView> {
    Seq::new(v.len(), |i: int| JsonView::Single(v[i]))
}

/// A list of singles, as a document.
pub fn singles(v: &[u32]) -> (r: Json)
    ensures
        r@ == JsonView::Array(floats(v@)),
{
    let mut items: Vec<Json> = Vec::new();
    let mut i: usize = 0;
    while i < v.len()
        invariant
            i <= v@.len(),
            json_views(items@) =~= floats(v@).take(i as int),
        decreases v@.len() - i,
    {
        let item: Json = Json::Single(v[i]);
        assert(floats(v@).take(i + 1) =~= floats(v@).take(i as int).push(item@));
        add_item(&mut items, item);
        i += 1;
    }
    assert(json_views(items@) =~= floats(v@));
    array(items)
}

/// Where a member is, from `from` on.
pub open spec fn index_from(m: Seq<(Seq<char>, JsonView)>, key: Seq<char>, from: int) -> Option<int>
    decreases m.len() - from,
{
    if from < 0 || from >= m.len() {
        None
    } else if m[from].0 == key {
        Some(from)
    } else {
        index_from(m, key, from + 1)
    }
}

/// A member of a document; none where the document is no object or lacks it.
pub open spec fn field_of(j: JsonView, key: Seq<char>) -> Option<JsonView> {
    match j {
        JsonView::Object(m) => match index_from(m, key, 0) {
            Some(i) => Some(m[i].1),
            None => None,
        },
        _ => None,
    }
}

/// Members with one set: in its place where it is there, else at the end.
pub open spec fn with_member(m: Seq<(Seq<char>, JsonView)>, key: Seq<char>, v: JsonView) -> Seq<
    (Seq<char>, JsonView),
> {
    match index_from(m, key, 0) {
        Some(i) => m.update(i, (key, v)),
        None => m.push((key, v)),
    }
}

/// What the search for a member finds.
pub proof fn lemma_index_from(m: Seq<(Seq<char>, JsonView)>, key: Seq<char>, from: int)
    requires
        0 <= from,
    ensures
        match index_from(m, key, from) {
            Some(i) => from <= i < m.len() && m[i].0 == key,
            None => forall|i: int| from <= i < m.len() ==> (#[trigger] m[i]).0 != key,
        },
    decreases m.len() - from,
{
    if from < m.len() && m[from].0 != key {
        lemma_index_from(m, key, from + 1);
    }
}

/// Finds a member.
fn find_member(list: &Vec<(String, Json)>, key: &str) -> (r: Option<usize>)
    ensures
        match r {
            Some(i) => index_from(member_views(list@), key@, 0) == Some(i as int) && i
                < list@.len(),
            None => index_from(member_views(list@), key@, 0) is None,
        },
{
    let ghost all = member_views(list@);
    let mut i: usize = 0;
    while i < list.len()
        invariant
            i <= list@.len(),
            all == member_views(list@),
            index_from(all, key@, 0) == index_from(all, key@, i as int),
        decreases list@.len() - i,
    {
        assert(all[i as int].0 == list@[i as int].0@);
        if crate::text::same(list[i].0.as_str(), key) {
            return Some(i);
        }
        i += 1;
    }
    None
}

/// A member of a document.
pub fn get<'a>(j: &'a Json, key: &str) -> (r: Option<&'a Json>)
    ensures
        match r {
            Some(v) => field_of(j@, key@) == Some(v@),
            None => field_of(j@, key@) is None,
        },
{
    match j {
        Json::Object(list) => {
            assert(j@->Object_0 =~= member_views(list@));
            match find_member(list, key) {
                Some(i) => Some(&list[i].1),
                None => None,
            }
        },
        _ => None,
    }
}

/// Sets a member.
pub fn set_member(list: &mut Vec<(String, Json)>, key: &str, value: Json)
    ensures
        member_views(final(list)@) == with_member(member_views(old(list)@), key@, value@),
{
    let ghost before = member_views(list@);
    match find_member(list, key) {
        Some(i) => {
            list.set(i, (key.to_owned(), value));
        },
        None => {
            list.push((key.to_owned(), value));
        },
    }
    assert(member_views(list@) =~= with_member(before, key@, value@));
}

/// The view of an object is that of its members, and the view of a list that of its items.
pub proof fn lemma_views(j: Json)
    ensures
        j matches Json::Object(list) ==> j@ == JsonView::Object(member_views(list@)),
        j matches Json::Array(items) ==> j@ == JsonView::Array(json_views(items@)),
{
    match j {
        Json::Object(list) => {
            assert(j@->Object_0 =~= member_views(list@));
        },
        Json::Array(items) => {
            assert(j@->Array_0 =~= json_views(items@));
        },
        _ => {},
    }
}

/// A copy of a document.
pub fn copy(j: &Json) -> (r: Json)
    ensures
        r@ == j@,
    decreases j,
{
    proof {
        lemma_views(*j);
    }
    match j {
        Json::Null => Json::Null,
        Json::Bool(b) => Json::Bool(*b),
        Json::Int(i) => Json::Int(*i),
        Json::UInt(u) => Json::UInt(*u),
        Json::Single(f) => Json::Single(*f),
        Json::Double(f) => Json::Double(*f),
        Json::Str(s) => Json::Str(s.clone()),
        Json::Array(items) => {
            let mut out: Vec<Json> = Vec::new();
            let mut i: usize = 0;
            while i < items.len()
                invariant
                    i <= items@.len(),
                    *j == Json::Array(*items),
                    json_views(out@) =~= json_views(items@).take(i as int),
                decreases items@.len() - i,
            {
                proof {
                    assert(decreases_to!(*j => j->Array_0));
                    assert(decreases_to!(j->Array_0 => items@));
                    assert(decreases_to!(items@ => items@[i as int]));
                }
                let item: Json = copy(&items[i]);
                assert(json_views(items@).take(i + 1) =~= json_views(items@).take(i as int).push(
                    item@,
                ));
                add_item(&mut out, item);
                i += 1;
            }
            assert(json_views(out@) =~= json_views(items@));
            array(out)
        },
        Json::Object(list) => {
            let mut out: Members = Members::new();
            let ghost all = member_views(list@);
            let mut i: usize = 0;
            assert(out@ =~= all.take(0));
            while i < list.len()
                invariant
                    i <= list@.len(),
                    *j == Json::Object(*list),
                    all == member_views(list@),
                    out@ == all.take(i as int),
                decreases list@.len() - i,
            {
                proof {
                    assert(decreases_to!(*j => j->Object_0));
                    assert(decreases_to!(j->Object_0 => list@));
                    assert(decreases_to!(list@ => list@[i as int]));
                    assert(decreases_to!(list@[i as int] => list@[i as int].1));
                }
                let item: Json = copy(&list[i].1);
                assert(all.take(i + 1) =~= all.take(i as int).push((list@[i as int].0@, item@)));
                out.put(list[i].0.as_str(), item);
                i += 1;
            }
            assert(all.take(i as int) =~= all);
            out.object()
        },
    }
}

} // verus!
