//! JSON values, and the text they are read from and written to.

use crate::text::{is_white, same, in_order, lemma_push_set, lists, ordered_texts};
use crate::toml_text::Toml;
use vstd::prelude::*;

verus! {

/// A JSON value. Integers keep the two ranges that a JSON reader tells apart.
#[derive(Debug)]
pub enum Json {
    Null,
    Bool(bool),
    Unsigned(u64),
    Signed(i64),
    Float(Fraction),
    Str(String),
    Arr(Vec<Json>),
    Obj(Vec<Field>),
}

/// A number that is not an integer, kept as it was read.
#[derive(Debug)]
pub struct Fraction {
    n: serde_json::Number,
}

impl Fraction {
    #[verifier::type_invariant]
    spec fn not_integer(self) -> bool {
        number_view(self.n) is Float
    }

    /// How the number is written.
    pub closed spec fn text(&self) -> Seq<char> {
        number_view(self.n)->Float_0
    }

    /// A copy.
    pub fn dup(&self) -> (r: Fraction)
        ensures
            r.text() == self.text(),
    {
        proof {
            use_type_invariant(self);
        }
        Fraction { n: copy_number(&self.n) }
    }
}

/// One entry of an object. Of two entries with the same key the later counts.
#[derive(Debug)]
pub struct Field {
    pub key: String,
    pub value: Json,
}

/// What a JSON value is: an object is a map from keys to values.
#[verifier::ext_equal]
pub enum JsonView {
    Null,
    Bool(bool),
    Int(int),
    Float(Seq<char>),
    Str(Seq<char>),
    Arr(Seq<JsonView>),
    Obj(Map<Seq<char>, JsonView>),
}

/// What a value written as a `Json` is.
pub open spec fn json_view(j: Json) -> JsonView
    decreases j,
{
    match j {
        Json::Null => JsonView::Null,
        Json::Bool(b) => JsonView::Bool(b),
        Json::Unsigned(n) => JsonView::Int(n as int),
        Json::Signed(n) => JsonView::Int(n as int),
        Json::Float(f) => JsonView::Float(f.text()),
        Json::Str(t) => JsonView::Str(t@),
        Json::Arr(v) => JsonView::Arr(
            Seq::new(
                v@.len(),
                |i: int|
                    if 0 <= i < v@.len() {
                        json_view(v@[i])
                    } else {
                        JsonView::Null
                    },
            ),
        ),
        Json::Obj(v) => JsonView::Obj(fields_view(v@)),
    }
}

/// The map that a list of entries writes.
pub open spec fn fields_view(v: Seq<Field>) -> Map<Seq<char>, JsonView>
    decreases v,
{
    if v.len() == 0 {
        Map::empty()
    } else {
        fields_view(v.drop_last()).insert(v.last().key@, json_view(v.last().value))
    }
}

impl View for Json {
    type V = JsonView;

    open spec fn view(&self) -> JsonView {
        json_view(*self)
    }
}

impl DeepView for Json {
    type V = JsonView;

    open spec fn deep_view(&self) -> JsonView {
        json_view(*self)
    }
}

impl JsonView {
    /// The value of a key of an object.
    pub open spec fn get(self, key: Seq<char>) -> Option<JsonView> {
        match self {
            JsonView::Obj(m) => if m.dom().contains(key) {
                Some(m[key])
            } else {
                None
            },
            _ => None,
        }
    }

    /// The value of a key of an object under a key of an object.
    pub open spec fn get2(self, a: Seq<char>, b: Seq<char>) -> Option<JsonView> {
        match self.get(a) {
            Some(v) => v.get(b),
            None => None,
        }
    }

    pub open spec fn as_text(self) -> Option<Seq<char>> {
        match self {
            JsonView::Str(t) => Some(t),
            _ => None,
        }
    }

    pub open spec fn as_bool(self) -> Option<bool> {
        match self {
            JsonView::Bool(b) => Some(b),
            _ => None,
        }
    }

    pub open spec fn as_unsigned(self) -> Option<u64> {
        match self {
            JsonView::Int(n) => if 0 <= n <= u64::MAX {
                Some(n as u64)
            } else {
                None
            },
            _ => None,
        }
    }

    pub open spec fn as_signed(self) -> Option<i64> {
        match self {
            JsonView::Int(n) => if i64::MIN <= n <= i64::MAX {
                Some(n as i64)
            } else {
                None
            },
            _ => None,
        }
    }

    pub open spec fn as_items(self) -> Option<Seq<JsonView>> {
        match self {
            JsonView::Arr(a) => Some(a),
            _ => None,
        }
    }

    /// The text under a key.
    pub open spec fn text_at(self, key: Seq<char>) -> Option<Seq<char>> {
        match self.get(key) {
            Some(v) => v.as_text(),
            None => None,
        }
    }

    /// The unsigned integer under a key.
    pub open spec fn unsigned_at(self, key: Seq<char>) -> Option<u64> {
        match self.get(key) {
            Some(v) => v.as_unsigned(),
            None => None,
        }
    }

    /// The list under a key.
    pub open spec fn items_at(self, key: Seq<char>) -> Option<Seq<JsonView>> {
        match self.get(key) {
            Some(v) => v.as_items(),
            None => None,
        }
    }

    /// An object with one more entry; any other value is left as it is.
    pub open spec fn put(self, key: Seq<char>, value: JsonView) -> JsonView {
        match self {
            JsonView::Obj(m) => JsonView::Obj(m.insert(key, value)),
            _ => self,
        }
    }
}

/// A value that a record of `n` fields can be read from: an object, or a list
/// of at most that many items in the order of the fields.
pub open spec fn struct_shape(v: JsonView, n: int) -> bool {
    match v {
        JsonView::Obj(_) => true,
        JsonView::Arr(a) => a.len() <= n,
        _ => false,
    }
}

/// The value of field number `i` of a record, with the key it has in an object.
pub open spec fn slot(v: JsonView, i: int, key: Seq<char>) -> Option<JsonView> {
    match v {
        JsonView::Arr(a) => if 0 <= i < a.len() {
            Some(a[i])
        } else {
            None
        },
        _ => v.get(key),
    }
}

/// The object without entries.
pub open spec fn no_fields() -> JsonView {
    JsonView::Obj(Map::empty())
}

/// What the text form can carry: integers of 64 bits, no other numbers, and at
/// most `depth` containers inside each other.
pub open spec fn readable(v: JsonView, depth: nat) -> bool
    decreases v,
{
    match v {
        JsonView::Int(n) => i64::MIN <= n <= u64::MAX,
        JsonView::Float(_) => false,
        JsonView::Arr(a) => depth > 0 && forall|i: int|
            0 <= i < a.len() ==> readable(#[trigger] a[i], (depth - 1) as nat),
        JsonView::Obj(m) => depth > 0 && m.dom().finite() && forall|k: Seq<char>| #[trigger]
            m.dom().contains(k) ==> readable(m[k], (depth - 1) as nat),
        _ => true,
    }
}

/// The empty object takes one level.
pub broadcast proof fn lemma_readable_no_fields(depth: nat)
    requires
        depth > 0,
    ensures
        #[trigger] readable(no_fields(), depth),
{
}

/// An entry fits where there is a level left for its value.
pub broadcast proof fn lemma_readable_put(o: JsonView, key: Seq<char>, value: JsonView, depth: nat)
    requires
        o is Obj,
        depth > 0,
        readable(o, depth),
        readable(value, (depth - 1) as nat),
    ensures
        #[trigger] readable(o.put(key, value), depth),
{
    let m = o->Obj_0;
    let n = m.insert(key, value);
    assert(n.dom() =~= m.dom().insert(key));
    assert forall|k: Seq<char>| #[trigger] n.dom().contains(k) implies readable(
        n[k],
        (depth - 1) as nat,
    ) by {
        if k != key {
            assert(m.dom().contains(k));
        }
    }
}

/// Building objects from entries keeps them within what the text form carries.
pub broadcast group group_readable {
    lemma_readable_no_fields,
    lemma_readable_put,
}

// ---------------------------------------------------------------- reading values

/// How the list of entries of an object answers for a key: by its last entry
/// with that key.
proof fn lemma_fields_get(v: Seq<Field>, key: Seq<char>, i: int)
    requires
        0 <= i <= v.len(),
        forall|k: int| i <= k < v.len() ==> (#[trigger] v[k]).key@ != key,
    ensures
        fields_view(v).dom().contains(key) == fields_view(v.take(i)).dom().contains(key),
        fields_view(v).dom().contains(key) ==> fields_view(v)[key] == fields_view(v.take(i))[key],
    decreases v.len() - i,
{
    if i < v.len() {
        lemma_fields_get(v.drop_last(), key, i);
        assert(v.drop_last().take(i) == v.take(i));
        assert(v[v.len() - 1].key@ != key);
    } else {
        assert(v.take(i) == v);
    }
}

proof fn lemma_fields_finite(v: Seq<Field>)
    ensures
        fields_view(v).dom().finite(),
    decreases v.len(),
{
    if v.len() > 0 {
        lemma_fields_finite(v.drop_last());
    }
}

impl Json {
    /// The value of a key of an object.
    pub fn get(&self, key: &str) -> (r: Option<&Json>)
        ensures
            match r {
                Some(v) => self@.get(key@) == Some(v@),
                None => self@.get(key@) is None,
            },
    {
        match self {
            Json::Obj(fields) => {
                let mut i: usize = fields.len();
                while i > 0
                    invariant
                        i <= fields@.len(),
                        *self == Json::Obj(*fields),
                        forall|k: int| i <= k < fields@.len() ==> (#[trigger] fields@[k]).key@ != key@,
                    decreases i,
                {
                    if same(fields[i - 1].key.as_str(), key) {
                        proof {
                            lemma_fields_get(fields@, key@, i as int);
                            let t = fields@.take(i as int);
                            assert(t.last() == fields@[i - 1]);
                            assert(fields_view(t) == fields_view(t.drop_last()).insert(
                                t.last().key@,
                                json_view(t.last().value),
                            ));
                        }
                        return Some(&fields[i - 1].value);
                    }
                    i = i - 1;
                }
                proof {
                    lemma_fields_get(fields@, key@, 0);
                    assert(fields@.take(0).len() == 0);
                }
                None
            },
            _ => None,
        }
    }

    /// The keys of an object, in order.
    pub fn keys(&self) -> (r: Option<Vec<String>>)
        ensures
            match self@ {
                JsonView::Obj(m) => r matches Some(ks) && lists(ks.deep_view(), m.dom())
                    && ks.deep_view() == in_order(m.dom()),
                _ => r is None,
            },
    {
        match self {
            Json::Obj(fields) => {
                let mut names: Vec<String> = Vec::new();
                let mut i: usize = 0;
                assert(names.deep_view().to_set() =~= fields_view(fields@.take(0)).dom());
                while i < fields.len()
                    invariant
                        i <= fields@.len(),
                        names.deep_view().to_set() == fields_view(fields@.take(i as int)).dom(),
                    decreases fields@.len() - i,
                {
                    let ghost before = names.deep_view();
                    names.push(fields[i].key.clone());
                    proof {
                        let k = fields@[i as int].key@;
                        assert(names.deep_view() =~= before.push(k));
                        lemma_push_set(before, k);
                        let t = fields@.take(i + 1);
                        assert(t.drop_last() =~= fields@.take(i as int));
                        assert(t.last() == fields@[i as int]);
                        assert(names.deep_view().to_set() =~= fields_view(t).dom());
                    }
                    i = i + 1;
                }
                assert(fields@.take(fields@.len() as int) =~= fields@);
                Some(ordered_texts(&names))
            },
            _ => None,
        }
    }

    pub fn as_str(&self) -> (r: Option<&str>)
        ensures
            match r {
                Some(t) => self@.as_text() == Some(t@),
                None => self@.as_text() is None,
            },
    {
        match self {
            Json::Str(t) => Some(t.as_str()),
            _ => None,
        }
    }

    pub fn as_bool(&self) -> (r: Option<bool>)
        ensures
            r == self@.as_bool(),
    {
        match self {
            Json::Bool(b) => Some(*b),
            _ => None,
        }
    }

    pub fn as_u64(&self) -> (r: Option<u64>)
        ensures
            r == self@.as_unsigned(),
    {
        match self {
            Json::Unsigned(n) => Some(*n),
            Json::Signed(n) => if *n >= 0 {
                Some(*n as u64)
            } else {
                None
            },
            _ => None,
        }
    }

    pub fn as_i64(&self) -> (r: Option<i64>)
        ensures
            r == self@.as_signed(),
    {
        match self {
            Json::Unsigned(n) => if *n <= 0x7fff_ffff_ffff_ffff {
                Some(*n as i64)
            } else {
                None
            },
            Json::Signed(n) => Some(*n),
            _ => None,
        }
    }

    pub fn as_array(&self) -> (r: Option<&Vec<Json>>)
        ensures
            match r {
                Some(v) => self@.as_items() == Some(v.deep_view()),
                None => self@.as_items() is None,
            },
    {
        match self {
            Json::Arr(v) => {
                assert(self@->Arr_0 =~= v.deep_view());
                Some(v)
            },
            _ => None,
        }
    }

    pub fn is_object(&self) -> (r: bool)
        ensures
            r == (self@ is Obj),
    {
        match self {
            Json::Obj(_) => true,
            _ => false,
        }
    }

    pub fn is_string(&self) -> (r: bool)
        ensures
            r == (self@ is Str),
    {
        match self {
            Json::Str(_) => true,
            _ => false,
        }
    }

    /// The value under two keys.
    pub fn get2(&self, a: &str, b: &str) -> (r: Option<&Json>)
        ensures
            match r {
                Some(v) => self@.get2(a@, b@) == Some(v@),
                None => self@.get2(a@, b@) is None,
            },
    {
        match self.get(a) {
            Some(v) => v.get(b),
            None => None,
        }
    }

    /// The text under a key.
    pub fn str_at(&self, key: &str) -> (r: Option<&str>)
        ensures
            match r {
                Some(t) => self@.text_at(key@) == Some(t@),
                None => self@.text_at(key@) is None,
            },
    {
        match self.get(key) {
            Some(v) => v.as_str(),
            None => None,
        }
    }

    /// The unsigned integer under a key.
    pub fn u64_at(&self, key: &str) -> (r: Option<u64>)
        ensures
            r == self@.unsigned_at(key@),
    {
        match self.get(key) {
            Some(v) => v.as_u64(),
            None => None,
        }
    }

    /// The list under a key.
    pub fn array_at(&self, key: &str) -> (r: Option<&Vec<Json>>)
        ensures
            match r {
                Some(v) => self@.items_at(key@) == Some(v.deep_view()),
                None => self@.items_at(key@) is None,
            },
    {
        match self.get(key) {
            Some(v) => v.as_array(),
            None => None,
        }
    }

    /// The item at an index of a list.
    pub fn at(&self, i: usize) -> (r: Option<&Json>)
        ensures
            match r {
                Some(v) => self@ is Arr && i < self@->Arr_0.len() && self@->Arr_0[i as int] == v@,
                None => !(self@ is Arr && i < self@->Arr_0.len()),
            },
    {
        match self {
            Json::Arr(v) => if i < v.len() {
                Some(&v[i])
            } else {
                None
            },
            _ => None,
        }
    }

    /// Whether a record of `n` fields can be read from the value.
    pub fn is_struct(&self, n: usize) -> (r: bool)
        ensures
            r == struct_shape(self@, n as int),
    {
        match self {
            Json::Obj(_) => true,
            Json::Arr(a) => a.len() <= n,
            _ => false,
        }
    }

    /// The value of a field of a record.
    pub fn slot(&self, i: usize, key: &str) -> (r: Option<&Json>)
        ensures
            match r {
                Some(v) => slot(self@, i as int, key@) == Some(v@),
                None => slot(self@, i as int, key@) is None,
            },
    {
        match self {
            Json::Arr(_) => self.at(i),
            _ => self.get(key),
        }
    }

    // ------------------------------------------------------------ building

    pub fn text(s: &str) -> (r: Json)
        ensures
            r@ == JsonView::Str(s@),
    {
        Json::Str(s.to_owned())
    }

    /// The object without entries.
    pub fn object() -> (r: Json)
        ensures
            r@ == no_fields(),
    {
        let v: Vec<Field> = Vec::new();
        assert(fields_view(v@) == Map::<Seq<char>, JsonView>::empty());
        Json::Obj(v)
    }

    /// The object with one more entry.
    pub fn with(self, key: &str, value: Json) -> (r: Json)
        ensures
            r@ == self@.put(key@, value@),
    {
        match self {
            Json::Obj(mut v) => {
                let ghost before = v@;
                v.push(Field { key: key.to_owned(), value });
                proof {
                    assert(v@.drop_last() == before);
                    assert(fields_view(v@) == fields_view(before).insert(key@, value@));
                }
                Json::Obj(v)
            },
            other => other,
        }
    }

    /// A list.
    pub fn list(v: Vec<Json>) -> (r: Json)
        ensures
            r@ == JsonView::Arr(v.deep_view()),
    {
        let r = Json::Arr(v);
        assert(r@->Arr_0 =~= v.deep_view());
        r
    }

    /// A list of texts.
    pub fn texts(v: &Vec<String>) -> (r: Json)
        ensures
            r@ == JsonView::Arr(v.deep_view().map_values(|t: Seq<char>| JsonView::Str(t))),
    {
        let mut out: Vec<Json> = Vec::new();
        let mut i: usize = 0;
        while i < v.len()
            invariant
                i <= v@.len(),
                out@.len() == i,
                forall|k: int| 0 <= k < i ==> (#[trigger] out@[k])@ == JsonView::Str(v@[k]@),
            decreases v@.len() - i,
        {
            out.push(Json::text(v[i].as_str()));
            i = i + 1;
        }
        let r = Json::Arr(out);
        assert(r@->Arr_0 =~= v.deep_view().map_values(|t: Seq<char>| JsonView::Str(t)));
        r
    }

    /// A copy.
    pub fn dup(&self) -> (r: Json)
        ensures
            r@ == self@,
        decreases self,
    {
        match self {
            Json::Null => Json::Null,
            Json::Bool(b) => Json::Bool(*b),
            Json::Unsigned(n) => Json::Unsigned(*n),
            Json::Signed(n) => Json::Signed(*n),
            Json::Float(f) => Json::Float(f.dup()),
            Json::Str(t) => Json::Str(t.clone()),
            Json::Arr(v) => {
                let mut out: Vec<Json> = Vec::new();
                let mut i: usize = 0;
                while i < v.len()
                    invariant
                        i <= v@.len(),
                        out@.len() == i,
                        self == Json::Arr(*v),
                        forall|k: int| 0 <= k < i ==> (#[trigger] out@[k])@ == v@[k]@,
                    decreases v@.len() - i,
                {
                    assert(decreases_to!(*self => self->Arr_0));
                    assert(decreases_to!(*v => v@));
                    assert(decreases_to!(v@ => v@[i as int]));
                    out.push(v[i].dup());
                    i = i + 1;
                }
                let r = Json::Arr(out);
                assert(r@->Arr_0 =~= self@->Arr_0);
                r
            },
            Json::Obj(v) => {
                let mut out: Vec<Field> = Vec::new();
                let mut i: usize = 0;
                while i < v.len()
                    invariant
                        i <= v@.len(),
                        self == Json::Obj(*v),
                        fields_view(out@) == fields_view(v@.take(i as int)),
                    decreases v@.len() - i,
                {
                    let ghost before = out@;
                    assert(decreases_to!(*self => self->Obj_0));
                    assert(decreases_to!(*v => v@));
                    assert(decreases_to!(v@ => v@[i as int]));
                    assert(decreases_to!(v@[i as int] => v@[i as int].value));
                    out.push(Field { key: v[i].key.clone(), value: v[i].value.dup() });
                    proof {
                        assert(out@.drop_last() == before);
                        assert(v@.take(i + 1).drop_last() == v@.take(i as int));
                        assert(v@.take(i + 1).last() == v@[i as int]);
                    }
                    i = i + 1;
                }
                assert(v@.take(v@.len() as int) == v@);
                Json::Obj(out)
            },
        }
    }
}

// ---------------------------------------------------------------- serde_json

/// `serde_json::Value`, carried through as it is.
#[verifier::external_type_specification]
#[verifier::external_body]
pub struct ExValue(serde_json::Value);

/// `serde_json::Number`, carried through as it is.
#[verifier::external_type_specification]
#[verifier::external_body]
pub struct ExNumber(serde_json::Number);

/// What a `serde_json::Number` holds: an integer, or a number that is not one,
/// which stands for itself by the text that `Number`'s `Display` gives for it.
pub uninterp spec fn number_view(n: serde_json::Number) -> JsonView;

/// What a `serde_json::Value` holds; of a number, what `number_view` says.
pub uninterp spec fn value_view(v: serde_json::Value) -> JsonView;

/// The value that `serde_json::from_str::<Value>` reads from a text.
pub uninterp spec fn json_of_text(text: Seq<char>) -> Option<JsonView>;

/// The message of the error that `serde_json::from_str::<Value>` gives for a
/// text.
pub uninterp spec fn json_error_of_text(text: Seq<char>) -> Seq<char>;

/// The text that `Value`'s `Display` gives for a value, in compact form.
pub uninterp spec fn text_of_json(v: JsonView) -> Seq<char>;

/// The text that `serde_json::to_string_pretty` gives for a value.
pub uninterp spec fn pretty_of_json(v: JsonView) -> Seq<char>;

/// One level of a `serde_json::Value`.
pub enum Layer {
    Null,
    Bool(bool),
    Unsigned(u64),
    Signed(i64),
    Float(serde_json::Number),
    Str(String),
    Arr(Vec<serde_json::Value>),
    Obj(Vec<(String, serde_json::Value)>),
}

pub open spec fn entries_view(v: Seq<(String, serde_json::Value)>) -> Map<Seq<char>, JsonView>
    decreases v.len(),
{
    if v.len() == 0 {
        Map::empty()
    } else {
        entries_view(v.drop_last()).insert(v.last().0@, value_view(v.last().1))
    }
}

/// No key stands in two entries.
pub open spec fn distinct_keys(v: Seq<(String, serde_json::Value)>) -> bool {
    forall|i: int, j: int| 0 <= i < j < v.len() ==> (#[trigger] v[i]).0@ != (#[trigger] v[j]).0@
}

pub open spec fn layer_view(l: Layer) -> JsonView {
    match l {
        Layer::Null => JsonView::Null,
        Layer::Bool(b) => JsonView::Bool(b),
        Layer::Unsigned(n) => JsonView::Int(n as int),
        Layer::Signed(n) => JsonView::Int(n as int),
        Layer::Float(n) => number_view(n),
        Layer::Str(t) => JsonView::Str(t@),
        Layer::Arr(v) => JsonView::Arr(Seq::new(v@.len(), |i: int| value_view(v@[i]))),
        Layer::Obj(v) => JsonView::Obj(entries_view(v@)),
    }
}

/// A text that a line break after it frames: it has none inside, and no white
/// space at either end.
pub open spec fn one_line(s: Seq<char>) -> bool {
    &&& !s.contains('\n') && !s.contains('\r')
    &&& s.len() > 0 && !is_white(s[0]) && !is_white(s.last())
}

/// Takes a `serde_json::Value` apart by its variant (`Value`'s variants,
/// `Number::as_u64`, `Number::as_i64`, `Map::into_iter`). Claimed: the parts
/// are what the value holds; a number that is neither an unsigned nor a signed
/// integer is no integer; and a `Map` hands out no key twice.
#[verifier::external_body]
fn open_value(v: serde_json::Value) -> (l: Layer)
    ensures
        layer_view(l) == value_view(v),
        l matches Layer::Float(n) ==> number_view(n) is Float,
        l matches Layer::Obj(entries) ==> distinct_keys(entries@),
{
    match v {
        serde_json::Value::Null => Layer::Null,
        serde_json::Value::Bool(b) => Layer::Bool(b),
        serde_json::Value::Number(n) => match (n.as_u64(), n.as_i64()) {
            (Some(u), _) => Layer::Unsigned(u),
            (None, Some(i)) => Layer::Signed(i),
            (None, None) => Layer::Float(n),
        },
        serde_json::Value::String(s) => Layer::Str(s),
        serde_json::Value::Array(a) => Layer::Arr(a),
        serde_json::Value::Object(m) => Layer::Obj(m.into_iter().collect()),
    }
}

/// `Number::clone`. Claimed: the copy holds the same number.
#[verifier::external_body]
fn copy_number(n: &serde_json::Number) -> (r: serde_json::Number)
    ensures
        number_view(r) == number_view(*n),
{
    n.clone()
}

/// Puts a `serde_json::Value` together (`Value`'s variants, `Value::from`,
/// `Map::from_iter`). Claimed: the value holds the parts. Of two entries with
/// one key `Map::from_iter` keeps one, and nothing says which, so no key may
/// stand twice.
#[verifier::external_body]
fn close_value(l: Layer) -> (v: serde_json::Value)
    requires
        l matches Layer::Obj(entries) ==> distinct_keys(entries@),
    ensures
        value_view(v) == layer_view(l),
{
    match l {
        Layer::Null => serde_json::Value::Null,
        Layer::Bool(b) => serde_json::Value::Bool(b),
        Layer::Unsigned(n) => serde_json::Value::from(n),
        Layer::Signed(n) => serde_json::Value::from(n),
        Layer::Float(n) => serde_json::Value::Number(n),
        Layer::Str(s) => serde_json::Value::String(s),
        Layer::Arr(a) => serde_json::Value::Array(a),
        Layer::Obj(f) => serde_json::Value::Object(f.into_iter().collect()),
    }
}

/// `serde_json::from_str::<Value>`. Claimed: which value comes out, and the
/// message of the error, are functions of the text.
#[verifier::external_body]
fn read_value(text: &str) -> (r: Result<serde_json::Value, String>)
    ensures
        match r {
            Ok(v) => json_of_text(text@) == Some(value_view(v)),
            Err(e) => json_of_text(text@) is None && e@ == json_error_of_text(text@),
        },
{
    match serde_json::from_str::<serde_json::Value>(text) {
        Ok(v) => Ok(v),
        Err(e) => Err(e.to_string()),
    }
}

/// `Value`'s `Display`. Claimed: the text is a function of the value; it
/// has no line break (control characters are written as escapes) and no white
/// space at either end; and `serde_json::from_str` reads from it a value
/// without fractional numbers and with at most 127 containers inside each
/// other.
#[verifier::external_body]
fn write_value(v: &serde_json::Value) -> (s: String)
    ensures
        s@ == text_of_json(value_view(*v)),
        one_line(s@),
        readable(value_view(*v), 127) ==> json_of_text(s@) == Some(value_view(*v)),
{
    v.to_string()
}

/// `Value`'s `Display` in its alternate (indented) form, which is what
/// `serde_json::to_string_pretty` writes. Claimed: the text is a function of
/// the value, and `serde_json::from_str` reads the value from it, as for the
/// compact form.
#[verifier::external_body]
fn write_value_pretty(v: &serde_json::Value) -> (s: String)
    ensures
        s@ == pretty_of_json(value_view(*v)),
        readable(value_view(*v), 127) ==> json_of_text(s@) == Some(value_view(*v)),
{
    format!("{:#}", v)
}

/// What fits in `a` levels fits in more.
pub proof fn lemma_readable_deeper(v: JsonView, a: nat, b: nat)
    requires
        readable(v, a),
        a <= b,
    ensures
        readable(v, b),
    decreases v,
{
    match v {
        JsonView::Arr(s) => {
            assert forall|i: int| 0 <= i < s.len() implies readable(
                #[trigger] s[i],
                (b - 1) as nat,
            ) by {
                assert(readable(s[i], (a - 1) as nat));
                lemma_readable_deeper(s[i], (a - 1) as nat, (b - 1) as nat);
            }
        },
        JsonView::Obj(m) => {
            assert forall|k: Seq<char>| #[trigger] m.dom().contains(k) implies readable(
                m[k],
                (b - 1) as nat,
            ) by {
                lemma_readable_deeper(m[k], (a - 1) as nat, (b - 1) as nat);
            }
        },
        _ => {},
    }
}

/// The value that `toml::from_str::<serde_json::Value>` reads from a text.
pub uninterp spec fn json_of_toml(text: Seq<char>) -> Option<JsonView>;

/// The message of the error that `toml::from_str::<serde_json::Value>` gives
/// for a text.
pub uninterp spec fn toml_error_of_text(text: Seq<char>) -> Seq<char>;

/// A document of plain tables is read as what it writes down.
pub open spec fn plainly_read(text: Seq<char>, r: Result<serde_json::Value, String>) -> bool {
    forall|d: Toml|
        d.fits() && text == #[trigger] d.written() ==> (r matches Ok(v) && value_view(v)
            == d.value())
}

/// `toml::from_str::<serde_json::Value>`. Claimed: which value comes out, and
/// the message of the error, are functions of the text; and a document of
/// tables whose keys are bare and whose values are basic strings without
/// control characters and decimal integers is read as the object of objects
/// that it writes down, as TOML says.
#[verifier::external_body]
fn read_toml_value(text: &str) -> (r: Result<serde_json::Value, String>)
    ensures
        match r {
            Ok(v) => json_of_toml(text@) == Some(value_view(v)),
            Err(e) => json_of_toml(text@) is None && e@ == toml_error_of_text(text@),
        },
        plainly_read(text@, r),
{
    match toml::from_str::<serde_json::Value>(text) {
        Ok(v) => Ok(v),
        Err(e) => Err(e.to_string()),
    }
}

/// Turns what `serde_json` read into a `Json`.
fn lower(v: serde_json::Value) -> (j: Json)
    ensures
        j@ == value_view(v),
    decreases value_view(v),
{
    let ghost whole = value_view(v);
    match open_value(v) {
        Layer::Null => Json::Null,
        Layer::Bool(b) => Json::Bool(b),
        Layer::Unsigned(n) => Json::Unsigned(n),
        Layer::Signed(n) => Json::Signed(n),
        Layer::Float(n) => Json::Float(Fraction { n }),
        Layer::Str(t) => Json::Str(t),
        Layer::Arr(items) => {
            let ghost all = items@;
            let mut rest = items;
            let mut back: Vec<Json> = Vec::new();
            while rest.len() > 0
                invariant
                    whole == value_view(v),
                    whole == JsonView::Arr(Seq::new(all.len(), |i: int| value_view(all[i]))),
                    rest@.len() <= all.len(),
                    rest@ == all.take(rest@.len() as int),
                    back@.len() + rest@.len() == all.len(),
                    forall|k: int|
                        0 <= k < back@.len() ==> (#[trigger] back@[k])@ == value_view(
                            all[all.len() - 1 - k],
                        ),
                decreases rest@.len(),
            {
                let ghost n = rest@.len() - 1;
                assert(rest@[n] == all[n]);
                assert(decreases_to!(whole => whole->Arr_0));
                assert(decreases_to!(whole->Arr_0 => whole->Arr_0[n]));
                match rest.pop() {
                    Some(x) => {
                        back.push(lower(x));
                    },
                    None => {},
                }
            }
            let mut out: Vec<Json> = Vec::new();
            while back.len() > 0
                invariant
                    out@.len() + back@.len() == all.len(),
                    forall|k: int|
                        0 <= k < back@.len() ==> (#[trigger] back@[k])@ == value_view(
                            all[all.len() - 1 - k],
                        ),
                    forall|k: int| 0 <= k < out@.len() ==> (#[trigger] out@[k])@ == value_view(all[k]),
                decreases back@.len(),
            {
                match back.pop() {
                    Some(x) => {
                        out.push(x);
                    },
                    None => {},
                }
            }
            let r = Json::Arr(out);
            assert(r@->Arr_0 =~= whole->Arr_0);
            r
        },
        Layer::Obj(entries) => {
            let ghost all = entries@;
            let mut rest = entries;
            let mut back: Vec<Field> = Vec::new();
            while rest.len() > 0
                invariant
                    whole == value_view(v),
                    whole == JsonView::Obj(entries_view(all)),
                    distinct_keys(all),
                    rest@.len() <= all.len(),
                    rest@ == all.take(rest@.len() as int),
                    back@.len() + rest@.len() == all.len(),
                    forall|k: int|
                        0 <= k < back@.len() ==> (#[trigger] back@[k]).key@ == all[all.len() - 1
                            - k].0@ && back@[k].value@ == value_view(all[all.len() - 1 - k].1),
                decreases rest@.len(),
            {
                let ghost n = rest@.len() - 1;
                assert(rest@[n] == all[n]);
                proof {
                    lemma_entry_found(all, n);
                    assert(decreases_to!(whole => whole->Obj_0));
                    assert(decreases_to!(whole->Obj_0 => whole->Obj_0[all[n].0@]));
                }
                match rest.pop() {
                    Some((key, x)) => {
                        back.push(Field { key, value: lower(x) });
                    },
                    None => {},
                }
            }
            let mut out: Vec<Field> = Vec::new();
            assert(all.take(0).len() == 0);
            while back.len() > 0
                invariant
                    out@.len() + back@.len() == all.len(),
                    forall|k: int|
                        0 <= k < back@.len() ==> (#[trigger] back@[k]).key@ == all[all.len() - 1
                            - k].0@ && back@[k].value@ == value_view(all[all.len() - 1 - k].1),
                    fields_view(out@) == entries_view(all.take(out@.len() as int)),
                decreases back@.len(),
            {
                let ghost before = out@;
                let ghost b = back@;
                match back.pop() {
                    Some(x) => {
                        out.push(x);
                        proof {
                            let i = before.len() as int;
                            assert(b[b.len() - 1] == x);
                            assert(out@.drop_last() == before);
                            assert(all.take(i + 1).drop_last() == all.take(i));
                            assert(all.take(i + 1).last() == all[i]);
                        }
                    },
                    None => {},
                }
            }
            assert(all.take(all.len() as int) == all);
            Json::Obj(out)
        },
    }
}

/// An entry whose key no other entry has is what its key ends up with.
proof fn lemma_entry_found(all: Seq<(String, serde_json::Value)>, n: int)
    requires
        0 <= n < all.len(),
        distinct_keys(all),
    ensures
        entries_view(all).dom().contains(all[n].0@),
        entries_view(all)[all[n].0@] == value_view(all[n].1),
        entries_view(all).dom().finite(),
    decreases all.len(),
{
    lemma_entries_finite(all);
    if n < all.len() - 1 {
        let t = all.drop_last();
        assert forall|i: int, j: int| 0 <= i < j < t.len() implies (#[trigger] t[i]).0@ != (
        #[trigger] t[j]).0@ by {
            assert(t[i] == all[i] && t[j] == all[j]);
        }
        lemma_entry_found(t, n);
        assert(t[n] == all[n]);
        assert(all[n].0@ != all[all.len() - 1].0@);
    }
}

proof fn lemma_entries_finite(all: Seq<(String, serde_json::Value)>)
    ensures
        entries_view(all).dom().finite(),
    decreases all.len(),
{
    if all.len() > 0 {
        lemma_entries_finite(all.drop_last());
    }
}

/// Without an entry, the others are what they were.
proof fn lemma_entry_dropped(all: Seq<(String, serde_json::Value)>, n: int)
    requires
        0 <= n < all.len(),
    ensures
        entries_view(all.remove(n)).remove(all[n].0@) == entries_view(all).remove(all[n].0@),
    decreases all.len(),
{
    let k = all[n].0@;
    let t = all.drop_last();
    if n == all.len() - 1 {
        assert(all.remove(n) =~= t);
        assert(entries_view(t).insert(k, value_view(all[n].1)).remove(k) =~= entries_view(t).remove(k));
    } else {
        lemma_entry_dropped(t, n);
        assert(t[n] == all[n]);
        assert(all.remove(n).drop_last() =~= t.remove(n));
        assert(all.remove(n).last() == all.last());
        let l = all.last().0@;
        let y = value_view(all.last().1);
        let a = entries_view(t.remove(n));
        let b = entries_view(t);
        assert(a.remove(k) == b.remove(k));
        assert forall|q: Seq<char>| #![trigger a.dom().contains(q)] q != k implies a.dom().contains(q)
            == b.dom().contains(q) && (a.dom().contains(q) ==> a[q] == b[q]) by {
            assert(a.remove(k).dom().contains(q) == a.dom().contains(q));
            assert(b.remove(k).dom().contains(q) == b.dom().contains(q));
            if a.dom().contains(q) {
                assert(a.remove(k)[q] == a[q]);
                assert(b.remove(k)[q] == b[q]);
            }
        }
        assert(a.insert(l, y).remove(k) =~= b.insert(l, y).remove(k));
    }
}

/// Drops the entry that has a key, if there is one.
fn drop_key(entries: &mut Vec<(String, serde_json::Value)>, key: &str)
    requires
        distinct_keys(old(entries)@),
    ensures
        distinct_keys(final(entries)@),
        forall|i: int|
            0 <= i < final(entries)@.len() ==> (#[trigger] final(entries)@[i]).0@ != key@,
        entries_view(final(entries)@).remove(key@) == entries_view(old(entries)@).remove(key@),
{
    let ghost all = entries@;
    let mut i: usize = 0;
    while i < entries.len()
        invariant
            i <= entries@.len(),
            entries@ == all,
            distinct_keys(all),
            forall|k: int| 0 <= k < i ==> (#[trigger] all[k]).0@ != key@,
        ensures
            i <= all.len(),
            entries@ == all,
            forall|k: int| 0 <= k < i ==> (#[trigger] all[k]).0@ != key@,
            i < all.len() ==> all[i as int].0@ == key@,
        decreases entries@.len() - i,
    {
        if same(entries[i].0.as_str(), key) {
            break;
        }
        i = i + 1;
    }
    if i < entries.len() {
        entries.remove(i);
        proof {
            let t = all.remove(i as int);
            lemma_entry_dropped(all, i as int);
            assert forall|a: int, b: int| 0 <= a < b < t.len() implies (#[trigger] t[a]).0@ != (
            #[trigger] t[b]).0@ by {
                let x = if a < i { a } else { a + 1 };
                let y = if b < i { b } else { b + 1 };
                assert(t[a] == all[x] && t[b] == all[y]);
            }
            assert forall|k: int| 0 <= k < t.len() implies (#[trigger] t[k]).0@ != key@ by {
                let x = if k < i { k } else { k + 1 };
                assert(t[k] == all[x]);
                assert(all[x].0@ != all[i as int].0@);
            }
        }
    }
}

/// Turns a `Json` into what `serde_json` writes.
fn raise(j: &Json) -> (v: serde_json::Value)
    ensures
        value_view(v) == j@,
    decreases j,
{
    match j {
        Json::Null => close_value(Layer::Null),
        Json::Bool(b) => close_value(Layer::Bool(*b)),
        Json::Unsigned(n) => close_value(Layer::Unsigned(*n)),
        Json::Signed(n) => close_value(Layer::Signed(*n)),
        Json::Float(f) => {
            proof {
                use_type_invariant(f);
            }
            close_value(Layer::Float(copy_number(&f.n)))
        },
        Json::Str(t) => close_value(Layer::Str(t.clone())),
        Json::Arr(items) => {
            let mut out: Vec<serde_json::Value> = Vec::new();
            let mut i: usize = 0;
            while i < items.len()
                invariant
                    i <= items@.len(),
                    *j == Json::Arr(*items),
                    out@.len() == i,
                    forall|k: int|
                        0 <= k < i ==> value_view(#[trigger] out@[k]) == items@[k]@,
                decreases items@.len() - i,
            {
                assert(decreases_to!(*j => j->Arr_0));
                assert(decreases_to!(*items => items@));
                assert(decreases_to!(items@ => items@[i as int]));
                out.push(raise(&items[i]));
                i = i + 1;
            }
            let l = Layer::Arr(out);
            assert(layer_view(l)->Arr_0 =~= j@->Arr_0);
            close_value(l)
        },
        Json::Obj(fields) => {
            let mut out: Vec<(String, serde_json::Value)> = Vec::new();
            let mut i: usize = 0;
            assert(fields@.take(0).len() == 0);
            assert(entries_view(out@) =~= fields_view(fields@.take(0)));
            while i < fields.len()
                invariant
                    i <= fields@.len(),
                    *j == Json::Obj(*fields),
                    distinct_keys(out@),
                    entries_view(out@) == fields_view(fields@.take(i as int)),
                decreases fields@.len() - i,
            {
                let ghost past = entries_view(out@);
                assert(decreases_to!(*j => j->Obj_0));
                assert(decreases_to!(*fields => fields@));
                assert(decreases_to!(fields@ => fields@[i as int]));
                assert(decreases_to!(fields@[i as int] => fields@[i as int].value));
                drop_key(&mut out, fields[i].key.as_str());
                let ghost before = out@;
                out.push((fields[i].key.clone(), raise(&fields[i].value)));
                proof {
                    let t = fields@.take(i + 1);
                    let k = fields@[i as int].key@;
                    let x = fields@[i as int].value@;
                    assert(out@.drop_last() == before);
                    assert(t.drop_last() == fields@.take(i as int));
                    assert(t.last() == fields@[i as int]);
                    assert(entries_view(before).insert(k, x) =~= entries_view(before).remove(
                        k,
                    ).insert(k, x));
                    assert(past.insert(k, x) =~= past.remove(k).insert(k, x));
                }
                i = i + 1;
            }
            assert(fields@.take(fields@.len() as int) == fields@);
            close_value(Layer::Obj(out))
        },
    }
}

/// Reads one JSON value from a text.
pub fn read_json(text: &str) -> (r: Result<Json, String>)
    ensures
        match r {
            Ok(j) => json_of_text(text@) == Some(j@),
            Err(e) => json_of_text(text@) is None && e@ == json_error_of_text(text@),
        },
{
    match read_value(text) {
        Ok(v) => Ok(lower(v)),
        Err(e) => Err(e),
    }
}

/// Writes a JSON value on one line.
pub fn write_json(j: &Json) -> (s: String)
    ensures
        s@ == text_of_json(j@),
        one_line(s@),
        readable(j@, 127) ==> json_of_text(s@) == Some(j@),
{
    write_value(&raise(j))
}

/// Writes a JSON value over several lines, indented.
pub fn write_json_pretty(j: &Json) -> (s: String)
    ensures
        s@ == pretty_of_json(j@),
        readable(j@, 127) ==> json_of_text(s@) == Some(j@),
{
    write_value_pretty(&raise(j))
}

/// Reads a TOML document.
pub fn read_toml(text: &str) -> (r: Result<Json, String>)
    ensures
        match r {
            Ok(j) => json_of_toml(text@) == Some(j@),
            Err(e) => json_of_toml(text@) is None && e@ == toml_error_of_text(text@),
        },
        forall|d: Toml|
            d.fits() && text@ == #[trigger] d.written() ==> (r matches Ok(j) && j@ == d.value()),
{
    match read_toml_value(text) {
        Ok(v) => Ok(lower(v)),
        Err(e) => Err(e),
    }
}

} // verus!
