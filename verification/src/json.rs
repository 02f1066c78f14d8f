//! JSON values, and the passage between them and `serde_json`.

use vstd::prelude::*;

use crate::text::same;

verus! {

/// What a JSON value is, whatever holds it. An object is the map of its members.
pub enum JsonView {
    Null,
    Bool(bool),
    Number(serde_json::Number),
    Text(Seq<char>),
    Array(Seq<JsonView>),
    Object(Map<Seq<char>, JsonView>),
}

/// A JSON value. Where a key stands twice in an object, the later entry counts.
#[derive(Debug)]
pub enum Json {
    Null,
    Bool(bool),
    Number(serde_json::Number),
    Text(String),
    Array(Vec<Json>),
    Object(Vec<(String, Json)>),
}

/// A JSON number is carried as `serde_json` holds it.
#[verifier::external_type_specification]
#[verifier::external_body]
pub struct ExNumber(serde_json::Number);

/// A parsed JSON value as `serde_json` holds it.
#[verifier::external_type_specification]
#[verifier::external_body]
pub struct ExValue(serde_json::Value);

/// The JSON value that a `serde_json::Value` holds.
pub uninterp spec fn value_view(v: serde_json::Value) -> JsonView;

/// The `i64` of a number, where it is an integer in range.
pub uninterp spec fn number_i64(n: serde_json::Number) -> Option<i64>;

/// The JSON number of a natural number.
pub uninterp spec fn number_of(n: u64) -> serde_json::Number;

/// The JSON value that a text of bytes stands for, if it is JSON.
pub uninterp spec fn parsed_bytes(bytes: Seq<u8>) -> Option<JsonView>;

/// The JSON value that a text stands for, or what is said of a text that is not JSON.
pub uninterp spec fn parsed_text(text: Seq<char>) -> Result<JsonView, Seq<char>>;

/// The compact text of a JSON value.
pub uninterp spec fn json_text(v: JsonView) -> Seq<char>;

/// The indented text of a JSON value.
pub uninterp spec fn pretty_text(v: JsonView) -> Seq<char>;

/// A value nested at most `depth` deep whose numbers are integers: one that is read back from its
/// text as it was written.
pub open spec fn plain(v: JsonView, depth: nat) -> bool
    decreases depth,
{
    match v {
        JsonView::Number(n) => number_i64(n) is Some,
        JsonView::Array(a) => depth > 0 && forall|i: int|
            0 <= i < a.len() ==> plain(#[trigger] a[i], (depth - 1) as nat),
        JsonView::Object(m) => depth > 0 && forall|k: Seq<char>|
            m.contains_key(k) ==> plain(#[trigger] m[k], (depth - 1) as nat),
        _ => true,
    }
}

/// How many arrays and objects may stand inside one another in a text that is read.
pub open spec fn reading_depth() -> nat {
    127
}

/// Whether a text is read as a value.
pub open spec fn reads_as(text: Seq<char>, v: JsonView) -> bool {
    parsed_text(text) == Ok::<JsonView, Seq<char>>(v)
}

/// `serde_json::Number::clone` hands out the same number.
pub assume_specification[ <serde_json::Number as Clone>::clone ](
    n: &serde_json::Number,
) -> (r: serde_json::Number)
    ensures
        r == *n,
;

/// `serde_json::Number::as_i64` is the number as an `i64`, where it is an integer that fits.
#[verifier::external_body]
fn as_i64(n: &serde_json::Number) -> (r: Option<i64>)
    ensures
        r == number_i64(*n),
{
    n.as_i64()
}

/// `serde_json::Number::from` makes the JSON number of an integer, which `as_i64` gives back where
/// it fits.
#[verifier::external_body]
fn number(n: u64) -> (r: serde_json::Number)
    ensures
        r == number_of(n),
        n <= i64::MAX ==> number_i64(r) == Some(n as i64),
{
    serde_json::Number::from(n)
}

/// `serde_json::from_slice` reads one JSON value from all of the bytes. Whether it succeeds and
/// what it reads is a function of the bytes.
#[verifier::external_body]
fn read_bytes(bytes: &[u8]) -> (r: Option<serde_json::Value>)
    ensures
        match r {
            Some(v) => parsed_bytes(bytes@) == Some(value_view(v)),
            None => parsed_bytes(bytes@) is None,
        },
{
    serde_json::from_slice::<serde_json::Value>(bytes).ok()
}

/// `serde_json::from_str` reads one JSON value from all of the text. Whether it succeeds, what it
/// reads and the words of its error are a function of the text.
#[verifier::external_body]
fn read_text(text: &str) -> (r: Result<serde_json::Value, String>)
    ensures
        match r {
            Ok(v) => parsed_text(text@) == Ok::<JsonView, Seq<char>>(value_view(v)),
            Err(e) => parsed_text(text@) == Err::<JsonView, Seq<char>>(e@),
        },
{
    serde_json::from_str::<serde_json::Value>(text).map_err(|e| e.to_string())
}

/// `serde_json::to_string` writes a value as compact JSON, and writing a `Value` does not fail. The
/// text is a function of the JSON value, since the members of an object are written in the order
/// of their keys. It holds no line feed, since a control character in a string is escaped.
/// `from_str` reads the value back, where it is not nested too deeply to be read and holds no
/// number whose text is rounded.
#[verifier::external_body]
fn write_text(v: &serde_json::Value) -> (r: String)
    ensures
        r@ == json_text(value_view(*v)),
        forall|i: int| 0 <= i < r@.len() ==> r@[i] != '\n',
        plain(value_view(*v), reading_depth()) ==> reads_as(r@, value_view(*v)),
{
    serde_json::to_string(v).unwrap_or_default()
}

/// `serde_json::to_string_pretty` writes a value as indented JSON, and writing a `Value` does not
/// fail. The text is a function of the JSON value. `from_str` reads the value back, as it does from
/// the compact text, with or without a line feed at the end, which is white space to it.
#[verifier::external_body]
fn write_pretty(v: &serde_json::Value) -> (r: String)
    ensures
        r@ == pretty_text(value_view(*v)),
        plain(value_view(*v), reading_depth()) ==> reads_as(r@, value_view(*v)),
        plain(value_view(*v), reading_depth()) ==> reads_as(r@ + "\n"@, value_view(*v)),
{
    serde_json::to_string_pretty(v).unwrap_or_default()
}

/// The outermost level of a `serde_json::Value`.
pub enum Node {
    Null,
    Bool(bool),
    Number(serde_json::Number),
    Text(String),
    Array(Vec<serde_json::Value>),
    Object(Vec<(String, serde_json::Value)>),
}

/// The map that a list of entries makes, the later entry of a key winning.
pub open spec fn entries_map(entries: Seq<(Seq<char>, JsonView)>) -> Map<Seq<char>, JsonView>
    decreases entries.len(),
{
    if entries.len() == 0 {
        Map::empty()
    } else {
        entries_map(entries.drop_last()).insert(entries.last().0, entries.last().1)
    }
}

impl Node {
    /// The JSON value of a level whose parts are known.
    pub open spec fn view(&self) -> JsonView {
        match *self {
            Node::Null => JsonView::Null,
            Node::Bool(b) => JsonView::Bool(b),
            Node::Number(n) => JsonView::Number(n),
            Node::Text(s) => JsonView::Text(s@),
            Node::Array(a) => JsonView::Array(
                Seq::new(a@.len(), |i: int| value_view(a@[i])),
            ),
            Node::Object(e) => JsonView::Object(
                entries_map(Seq::new(e@.len(), |i: int| (e@[i].0@, value_view(e@[i].1)))),
            ),
        }
    }
}

/// Matches on `serde_json::Value`, whose variants are those of `Node`: the parts of the value, and
/// together they make the same JSON value. No key stands twice in what an object's map hands out.
#[verifier::external_body]
fn open_value(v: serde_json::Value) -> (r: Node)
    ensures
        r.view() == value_view(v),
        r matches Node::Object(e) ==> forall|i: int, j: int|
            0 <= i < j < e@.len() ==> e@[i].0@ != e@[j].0@,
{
    match v {
        serde_json::Value::Null => Node::Null,
        serde_json::Value::Bool(b) => Node::Bool(b),
        serde_json::Value::Number(n) => Node::Number(n),
        serde_json::Value::String(s) => Node::Text(s),
        serde_json::Value::Array(a) => Node::Array(a),
        serde_json::Value::Object(m) => Node::Object(m.into_iter().collect()),
    }
}

/// Builds the variant of `serde_json::Value` of the given parts. An object's map is collected from
/// its entries, in which no key stands twice.
#[verifier::external_body]
fn close_value(n: Node) -> (r: serde_json::Value)
    requires
        n matches Node::Object(e) ==> forall|i: int, j: int|
            0 <= i < j < e@.len() ==> e@[i].0@ != e@[j].0@,
    ensures
        value_view(r) == n.view(),
{
    match n {
        Node::Null => serde_json::Value::Null,
        Node::Bool(b) => serde_json::Value::Bool(b),
        Node::Number(n) => serde_json::Value::Number(n),
        Node::Text(s) => serde_json::Value::String(s),
        Node::Array(a) => serde_json::Value::Array(a),
        Node::Object(e) => serde_json::Value::Object(e.into_iter().collect()),
    }
}

impl View for Json {
    type V = JsonView;

    open spec fn view(&self) -> JsonView {
        json_view(*self)
    }
}

impl JsonView {
    /// The member of an object; nothing else has members.
    pub open spec fn member(self, key: Seq<char>) -> Option<JsonView> {
        match self {
            JsonView::Object(m) => if m.contains_key(key) {
                Some(m[key])
            } else {
                None
            },
            _ => None,
        }
    }

    /// The text of a string.
    pub open spec fn text(self) -> Option<Seq<char>> {
        match self {
            JsonView::Text(s) => Some(s),
            _ => None,
        }
    }

    /// The member of an object, where it is a string.
    pub open spec fn text_member(self, key: Seq<char>) -> Option<Seq<char>> {
        match self.member(key) {
            Some(v) => v.text(),
            None => None,
        }
    }

    /// The member of an object, where it is a boolean.
    pub open spec fn bool_member(self, key: Seq<char>) -> Option<bool> {
        match self.member(key) {
            Some(JsonView::Bool(b)) => Some(b),
            _ => None,
        }
    }

    /// The member of an object, where it is an integer in range.
    pub open spec fn int_member(self, key: Seq<char>) -> Option<i64> {
        match self.member(key) {
            Some(JsonView::Number(n)) => number_i64(n),
            _ => None,
        }
    }
}

/// The object of the given entries.
pub open spec fn object(entries: Seq<(Seq<char>, JsonView)>) -> JsonView {
    JsonView::Object(entries_map(entries))
}

/// What a JSON value is.
pub open spec fn json_view(j: Json) -> JsonView
    decreases j,
{
    match j {
        Json::Null => JsonView::Null,
        Json::Bool(b) => JsonView::Bool(b),
        Json::Number(n) => JsonView::Number(n),
        Json::Text(s) => JsonView::Text(s@),
        Json::Array(a) => JsonView::Array(json_views(a@)),
        Json::Object(e) => JsonView::Object(entries_map(entry_views(e@))),
    }
}

/// What the elements of an array are.
pub open spec fn json_views(a: Seq<Json>) -> Seq<JsonView>
    decreases a,
{
    Seq::new(
        a.len(),
        |i: int|
            if 0 <= i < a.len() {
                json_view(a[i])
            } else {
                JsonView::Null
            },
    )
}

/// What the entries of an object are.
pub open spec fn entry_views(e: Seq<(String, Json)>) -> Seq<(Seq<char>, JsonView)>
    decreases e,
{
    Seq::new(
        e.len(),
        |i: int|
            if 0 <= i < e.len() {
                (e[i].0@, json_view(e[i].1))
            } else {
                (Seq::empty(), JsonView::Null)
            },
    )
}

pub proof fn lemma_entries_map(entries: Seq<(Seq<char>, JsonView)>, key: Seq<char>)
    ensures
        entries_map(entries).dom().finite(),
        entries_map(entries).contains_key(key) <==> exists|i: int|
            0 <= i < entries.len() && (#[trigger] entries[i]).0 == key,
    decreases entries.len(),
{
    if entries.len() > 0 {
        lemma_entries_map(entries.drop_last(), key);
        let n = entries.len() - 1;
        if entries_map(entries).contains_key(key) {
            if entries[n].0 == key {
            } else {
                let i = choose|i: int| 0 <= i < n && (#[trigger] entries.drop_last()[i]).0 == key;
                assert(entries[i].0 == key);
            }
        }
        if exists|i: int| 0 <= i < entries.len() && (#[trigger] entries[i]).0 == key {
            let i = choose|i: int| 0 <= i < entries.len() && (#[trigger] entries[i]).0 == key;
            if i < n {
                assert(entries.drop_last()[i].0 == key);
            }
        }
    }
}

/// An entry that no later entry of its key replaces is in the map.
pub proof fn lemma_entries_map_at(entries: Seq<(Seq<char>, JsonView)>, i: int)
    requires
        0 <= i < entries.len(),
        forall|j: int| i < j < entries.len() ==> (#[trigger] entries[j]).0 != entries[i].0,
    ensures
        entries_map(entries).contains_key(entries[i].0),
        entries_map(entries)[entries[i].0] == entries[i].1,
        entries_map(entries).dom().finite(),
    decreases entries.len(),
{
    lemma_entries_map(entries, entries[i].0);
    if i < entries.len() - 1 {
        let shorter = entries.drop_last();
        assert(shorter[i] == entries[i]);
        assert forall|j: int| i < j < shorter.len() implies (#[trigger] shorter[j]).0
            != shorter[i].0 by {
            assert(shorter[j] == entries[j]);
        }
        lemma_entries_map_at(shorter, i);
        assert(entries[entries.len() - 1].0 != entries[i].0);
    }
}

/// Whether no later entry has the key of an entry.
pub open spec fn is_last(entries: Seq<(Seq<char>, JsonView)>, i: int) -> bool {
    forall|j: int| i < j < entries.len() ==> (#[trigger] entries[j]).0 != entries[i].0
}

/// The last entry of a key that has one.
proof fn lemma_last_entry(entries: Seq<(Seq<char>, JsonView)>, key: Seq<char>) -> (i: int)
    requires
        entries_map(entries).contains_key(key),
    ensures
        0 <= i < entries.len(),
        entries[i].0 == key,
        is_last(entries, i),
    decreases entries.len(),
{
    let n = entries.len() - 1;
    if entries[n].0 == key {
        n
    } else {
        let short = entries.drop_last();
        let i = lemma_last_entry(short, key);
        assert forall|j: int| i < j < entries.len() implies (#[trigger] entries[j]).0
            != entries[i].0 by {
            if j < n {
                assert(short[j] == entries[j]);
            }
        }
        i
    }
}

/// The last entries of the keys make the map of all entries. `kept` says which of the entries they
/// are.
proof fn lemma_last_entries_suffice(
    entries: Seq<(Seq<char>, JsonView)>,
    last: Seq<(Seq<char>, JsonView)>,
    kept: Seq<int>,
)
    requires
        kept.len() == last.len(),
        forall|k: int|
            0 <= k < kept.len() ==> 0 <= #[trigger] kept[k] < entries.len() && last[k]
                == entries[kept[k]] && is_last(entries, kept[k]),
        forall|k: int, l: int| 0 <= k < l < kept.len() ==> kept[k] < kept[l],
        forall|i: int| 0 <= i < entries.len() && #[trigger] is_last(entries, i) ==> kept.contains(i),
    ensures
        entries_map(last) == entries_map(entries),
        forall|k: int, l: int| 0 <= k < l < last.len() ==> last[k].0 != last[l].0,
{
    assert forall|k: int, l: int| 0 <= k < l < last.len() implies last[k].0 != last[l].0 by {
        assert(kept[k] < kept[l]);
        assert(is_last(entries, kept[k]));
        assert(entries[kept[l]].0 != entries[kept[k]].0);
    }
    let whole = entries_map(entries);
    let part = entries_map(last);
    assert forall|key: Seq<char>| #[trigger] part.contains_key(key) implies whole.contains_key(key)
        && whole[key] == part[key] by {
        let k = lemma_last_entry(last, key);
        lemma_entries_map_at(last, k);
        lemma_entries_map_at(entries, kept[k]);
    }
    assert forall|key: Seq<char>| #[trigger] whole.contains_key(key) implies part.contains_key(
        key,
    ) by {
        let i = lemma_last_entry(entries, key);
        let k = choose|k: int| 0 <= k < kept.len() && kept[k] == i;
        lemma_entries_map(last, key);
        assert(last[k].0 == key);
    }
    assert(part =~= whole);
}

/// An object nests its members one deeper.
pub proof fn lemma_plain_object(entries: Seq<(Seq<char>, JsonView)>, depth: nat)
    requires
        forall|i: int| 0 <= i < entries.len() ==> plain((#[trigger] entries[i]).1, depth),
    ensures
        plain(object(entries), depth + 1),
{
    let m = entries_map(entries);
    assert forall|k: Seq<char>| m.contains_key(k) implies plain(#[trigger] m[k], depth) by {
        lemma_entry_of(entries, k);
    }
}

/// A member of a map of entries is one of the entries.
proof fn lemma_entry_of(entries: Seq<(Seq<char>, JsonView)>, key: Seq<char>)
    requires
        entries_map(entries).contains_key(key),
    ensures
        exists|i: int|
            0 <= i < entries.len() && #[trigger] entries[i] == (key, entries_map(entries)[key]),
    decreases entries.len(),
{
    if entries.last().0 == key {
        assert(entries[entries.len() - 1] == (key, entries_map(entries)[key]));
    } else {
        let short = entries.drop_last();
        lemma_entry_of(short, key);
        let i = choose|i: int|
            0 <= i < short.len() && #[trigger] short[i] == (key, entries_map(short)[key]);
        assert(entries[i] == short[i]);
    }
}

/// Whether a later entry has the key of an entry.
fn has_later(e: &Vec<(String, Json)>, i: usize) -> (r: bool)
    requires
        i < e@.len(),
    ensures
        r == !is_last(entry_views(e@), i as int),
{
    let ghost all = entry_views(e@);
    let n = e.len();
    let mut k: usize = i + 1;
    while k < n
        invariant
            n == e@.len(),
            i < k <= n,
            all == entry_views(e@),
            forall|j: int| i < j < k ==> (#[trigger] all[j]).0 != all[i as int].0,
        decreases n - k,
    {
        if same(e[k].0.as_str(), e[i].0.as_str()) {
            assert(all[k as int].0 == all[i as int].0);
            return true;
        }
        k = k + 1;
    }
    false
}

impl Json {
    /// The JSON value of a `serde_json::Value`.
    pub fn from_value(v: serde_json::Value) -> (r: Json)
        ensures
            r@ == value_view(v),
        decreases value_view(v),
    {
        let ghost whole = value_view(v);
        let node = open_value(v);
        match node {
            Node::Null => Json::Null,
            Node::Bool(b) => Json::Bool(b),
            Node::Number(n) => Json::Number(n),
            Node::Text(s) => Json::Text(s),
            Node::Array(a) => {
                let ghost parts = Seq::new(a@.len(), |i: int| value_view(a@[i]));
                let ghost items = a@;
                let mut out: Vec<Json> = Vec::new();
                for x in it: a
                    invariant
                        it.seq() == items,
                        parts == Seq::new(items.len(), |i: int| value_view(items[i])),
                        whole == value_view(v),
                        whole == JsonView::Array(parts),
                        out@.len() == it.index(),
                        forall|i: int| 0 <= i < out@.len() ==> json_view(#[trigger] out@[i]) == parts[i],
                {
                    proof {
                        assert(decreases_to!(parts => parts[it.index()]));
                        assert(decreases_to!(whole => whole->Array_0));
                        assert(value_view(x) == parts[it.index()]);
                    }
                    let y = Json::from_value(x);
                    out.push(y);
                }
                proof {
                    assert(json_views(out@) =~= parts);
                }
                Json::Array(out)
            },
            Node::Object(e) => {
                let ghost items = e@;
                let ghost parts = Seq::new(
                    items.len(),
                    |i: int| (items[i].0@, value_view(items[i].1)),
                );
                let mut out: Vec<(String, Json)> = Vec::new();
                for x in it: e
                    invariant
                        it.seq() == items,
                        parts == Seq::new(
                            items.len(),
                            |i: int| (items[i].0@, value_view(items[i].1)),
                        ),
                        forall|i: int, j: int|
                            0 <= i < j < items.len() ==> items[i].0@ != items[j].0@,
                        whole == value_view(v),
                        whole == JsonView::Object(entries_map(parts)),
                        out@.len() == it.index(),
                        forall|i: int|
                            0 <= i < out@.len() ==> ((#[trigger] out@[i]).0@, json_view(out@[i].1)) == parts[i],
                {
                    proof {
                        let k = it.index();
                        lemma_entries_map_at(parts, k);
                        let m = entries_map(parts);
                        assert(decreases_to!(m => m[parts[k].0]));
                        assert(decreases_to!(whole => whole->Object_0));
                        assert(value_view(x.1) == parts[k].1);
                    }
                    let y = Json::from_value(x.1);
                    out.push((x.0, y));
                }
                proof {
                    assert(entry_views(out@) =~= parts);
                }
                Json::Object(out)
            },
        }
    }

    /// The value as `serde_json` holds it.
    pub fn to_value(&self) -> (r: serde_json::Value)
        ensures
            value_view(r) == self@,
        decreases self,
    {
        match self {
            Json::Null => close_value(Node::Null),
            Json::Bool(b) => close_value(Node::Bool(*b)),
            Json::Number(n) => close_value(Node::Number(n.clone())),
            Json::Text(s) => close_value(Node::Text(s.clone())),
            Json::Array(a) => {
                let mut out: Vec<serde_json::Value> = Vec::new();
                let mut i: usize = 0;
                while i < a.len()
                    invariant
                        i <= a.len(),
                        *self == Json::Array(*a),
                        out@.len() == i,
                        forall|k: int| 0 <= k < i ==> value_view(#[trigger] out@[k]) == json_view(a@[k]),
                    decreases a.len() - i,
                {
                    proof {
                        assert(decreases_to!(*self => self->Array_0));
                        assert(decreases_to!(*a => a@));
                        assert(decreases_to!(a@ => a@[i as int]));
                    }
                    let x = a[i].to_value();
                    out.push(x);
                    i = i + 1;
                }
                proof {
                    assert(Seq::new(out@.len(), |k: int| value_view(out@[k])) =~= json_views(a@));
                }
                close_value(Node::Array(out))
            },
            Json::Object(e) => {
                let ghost all = entry_views(e@);
                let ghost mut kept: Seq<int> = Seq::empty();
                let mut out: Vec<(String, serde_json::Value)> = Vec::new();
                let mut i: usize = 0;
                while i < e.len()
                    invariant
                        i <= e.len(),
                        *self == Json::Object(*e),
                        all == entry_views(e@),
                        kept.len() == out@.len(),
                        forall|k: int|
                            0 <= k < kept.len() ==> 0 <= #[trigger] kept[k] < i && (
                            out@[k].0@,
                            value_view(out@[k].1),
                        ) == all[kept[k]] && is_last(all, kept[k]),
                        forall|k: int, l: int| 0 <= k < l < kept.len() ==> kept[k] < kept[l],
                        forall|k: int|
                            0 <= k < i && #[trigger] is_last(all, k) ==> kept.contains(k),
                    decreases e.len() - i,
                {
                    assert(all[i as int] == (e@[i as int].0@, json_view(e@[i as int].1)));
                    let ghost had = kept;
                    if has_later(e, i) {
                        assert(!is_last(all, i as int));
                    } else {
                        let key = e[i].0.clone();
                        proof {
                            assert(decreases_to!(*self => self->Object_0));
                            assert(decreases_to!(*e => e@));
                            assert(decreases_to!(e@ => e@[i as int]));
                            assert(decreases_to!(e@[i as int] => e@[i as int].1));
                        }
                        let x = e[i].1.to_value();
                        out.push((key, x));
                        proof {
                            kept = kept.push(i as int);
                            assert(kept[kept.len() - 1] == i);
                            assert forall|k: int| had.contains(k) implies kept.contains(k) by {
                                let l = choose|l: int| 0 <= l < had.len() && had[l] == k;
                                assert(kept[l] == k);
                            }
                        }
                    }
                    i = i + 1;
                }
                proof {
                    let last = Seq::new(out@.len(), |k: int| (out@[k].0@, value_view(out@[k].1)));
                    lemma_last_entries_suffice(all, last, kept);
                    assert forall|k: int, l: int| 0 <= k < l < out@.len() implies out@[k].0@
                        != out@[l].0@ by {
                        assert(last[k].0 != last[l].0);
                    }
                }
                close_value(Node::Object(out))
            },
        }
    }

    /// The same value once more.
    pub fn copy(&self) -> (r: Json)
        ensures
            r@ == self@,
        decreases self,
    {
        match self {
            Json::Null => Json::Null,
            Json::Bool(b) => Json::Bool(*b),
            Json::Number(n) => Json::Number(n.clone()),
            Json::Text(s) => Json::Text(s.clone()),
            Json::Array(a) => {
                let mut out: Vec<Json> = Vec::new();
                let mut i: usize = 0;
                while i < a.len()
                    invariant
                        i <= a.len(),
                        *self == Json::Array(*a),
                        out@.len() == i,
                        forall|k: int| 0 <= k < i ==> json_view(#[trigger] out@[k]) == json_view(a@[k]),
                    decreases a.len() - i,
                {
                    proof {
                        assert(decreases_to!(*self => self->Array_0));
                        assert(decreases_to!(*a => a@));
                        assert(decreases_to!(a@ => a@[i as int]));
                    }
                    let x = a[i].copy();
                    out.push(x);
                    i = i + 1;
                }
                proof {
                    assert(json_views(out@) =~= json_views(a@));
                }
                Json::Array(out)
            },
            Json::Object(e) => {
                let mut out: Vec<(String, Json)> = Vec::new();
                let mut i: usize = 0;
                while i < e.len()
                    invariant
                        i <= e.len(),
                        *self == Json::Object(*e),
                        out@.len() == i,
                        forall|k: int|
                            0 <= k < i ==> (#[trigger] out@[k]).0@ == e@[k].0@ && json_view(out@[k].1)
                                == json_view(e@[k].1),
                    decreases e.len() - i,
                {
                    let key = e[i].0.clone();
                    proof {
                        assert(decreases_to!(*self => self->Object_0));
                        assert(decreases_to!(*e => e@));
                        assert(decreases_to!(e@ => e@[i as int]));
                        assert(decreases_to!(e@[i as int] => e@[i as int].1));
                    }
                    let x = e[i].1.copy();
                    out.push((key, x));
                    i = i + 1;
                }
                proof {
                    assert(entry_views(out@) =~= entry_views(e@));
                }
                Json::Object(out)
            },
        }
    }

    /// The JSON value of a natural number.
    pub fn number(n: u64) -> (r: Json)
        ensures
            r@ == JsonView::Number(number_of(n)),
            n <= i64::MAX ==> number_i64(number_of(n)) == Some(n as i64),
    {
        Json::Number(number(n))
    }

    /// The member of an object that a key names.
    pub fn get(&self, key: &str) -> (r: Option<&Json>)
        ensures
            match r {
                Some(v) => self@.member(key@) == Some(v@),
                None => self@.member(key@) is None,
            },
    {
        match self {
            Json::Object(e) => {
                let ghost parts = entry_views(e@);
                let mut i: usize = e.len();
                while i > 0
                    invariant
                        i <= e.len(),
                        parts == entry_views(e@),
                        self@ == JsonView::Object(entries_map(parts)),
                        forall|k: int| i <= k < e.len() ==> (#[trigger] parts[k]).0 != key@,
                    decreases i,
                {
                    i = i - 1;
                    assert(parts[i as int] == (e@[i as int].0@, json_view(e@[i as int].1)));
                    if same(e[i].0.as_str(), key) {
                        proof {
                            lemma_entries_map_at(parts, i as int);
                        }
                        return Some(&e[i].1);
                    }
                }
                proof {
                    lemma_entries_map(parts, key@);
                }
                None
            },
            _ => None,
        }
    }

    /// The member of an object, where it is a string.
    pub fn get_text(&self, key: &str) -> (r: Option<&str>)
        ensures
            match r {
                Some(s) => self@.text_member(key@) == Some(s@),
                None => self@.text_member(key@) is None,
            },
    {
        match self.get(key) {
            Some(Json::Text(s)) => Some(s.as_str()),
            _ => None,
        }
    }

    /// The member of an object, where it is a boolean.
    pub fn get_bool(&self, key: &str) -> (r: Option<bool>)
        ensures
            r == self@.bool_member(key@),
    {
        match self.get(key) {
            Some(Json::Bool(b)) => Some(*b),
            _ => None,
        }
    }

    /// The member of an object, where it is an integer in range.
    pub fn get_int(&self, key: &str) -> (r: Option<i64>)
        ensures
            r == self@.int_member(key@),
    {
        match self.get(key) {
            Some(Json::Number(n)) => as_i64(n),
            _ => None,
        }
    }

    /// Reads a JSON value from bytes.
    pub fn parse(bytes: &[u8]) -> (r: Option<Json>)
        ensures
            match r {
                Some(j) => parsed_bytes(bytes@) == Some(j@),
                None => parsed_bytes(bytes@) is None,
            },
    {
        match read_bytes(bytes) {
            Some(v) => Some(Json::from_value(v)),
            None => None,
        }
    }

    /// Reads a JSON value from a text, or says what is wrong with it.
    pub fn parse_text(text: &str) -> (r: Result<Json, String>)
        ensures
            match r {
                Ok(j) => parsed_text(text@) == Ok::<JsonView, Seq<char>>(j@),
                Err(e) => parsed_text(text@) == Err::<JsonView, Seq<char>>(e@),
            },
    {
        match read_text(text) {
            Ok(v) => Ok(Json::from_value(v)),
            Err(e) => Err(e),
        }
    }

    /// The value as compact JSON, on one line.
    pub fn to_text(&self) -> (r: String)
        ensures
            r@ == json_text(self@),
            forall|i: int| 0 <= i < r@.len() ==> r@[i] != '\n',
            plain(self@, reading_depth()) ==> reads_as(r@, self@),
    {
        write_text(&self.to_value())
    }

    /// The value as indented JSON.
    pub fn to_pretty_text(&self) -> (r: String)
        ensures
            r@ == pretty_text(self@),
            plain(self@, reading_depth()) ==> reads_as(r@, self@),
            plain(self@, reading_depth()) ==> reads_as(r@ + "\n"@, self@),
    {
        write_pretty(&self.to_value())
    }
}

// Laws.

/// An entry behind others gives its key its value, whatever the key had before, and leaves every
/// other member as it was; no entries make no members.
pub proof fn law_members_of_an_object(
    entries: Seq<(Seq<char>, JsonView)>,
    key: Seq<char>,
    v: JsonView,
    other: Seq<char>,
)
    ensures
        object(entries.push((key, v))).member(key) == Some(v),
        other != key
            ==> object(entries.push((key, v))).member(other) == object(entries).member(other),
        object(Seq::empty()).member(other) is None,
{
    assert(entries.push((key, v)).drop_last() =~= entries);
}

/// Nothing but an object has members, and a member is a text, a truth value or a whole number
/// exactly where it is there and is one.
pub proof fn law_members(
    v: JsonView, key: Seq<char>, text: Seq<char>, b: bool, n: serde_json::Number)
    ensures
        !(v is Object) ==> v.member(key) is None,
        v.member(key) is None ==> v.text_member(key) is None && v.bool_member(key) is None
            && v.int_member(key) is None,
        v.member(key) == Some(JsonView::Text(text)) ==> v.text_member(key) == Some(text),
        v.member(key) == Some(JsonView::Bool(b)) ==> v.bool_member(key) == Some(b),
        v.member(key) == Some(JsonView::Number(n)) ==> v.int_member(key) == number_i64(n),
        v.text_member(key) is Some ==> v.member(key) is Some && v.member(key)->0 is Text,
        v.bool_member(key) is Some ==> v.member(key) is Some && v.member(key)->0 is Bool,
        v.int_member(key) is Some ==> v.member(key) is Some && v.member(key)->0 is Number,
{
}

/// A value shows what it holds: each element of an array in its place, and of an object the entries
/// in order.
pub proof fn law_value_shows_what_it_holds(
    b: bool,
    n: serde_json::Number,
    t: String,
    a: Vec<Json>,
    e: Vec<(String, Json)>,
    i: int,
)
    ensures
        json_view(Json::Null) is Null,
        json_view(Json::Bool(b)) == JsonView::Bool(b),
        json_view(Json::Number(n)) == JsonView::Number(n),
        json_view(Json::Text(t)) == JsonView::Text(t@),
        json_view(Json::Array(a)) matches JsonView::Array(s) && s.len() == a@.len() && (0 <= i
            < a@.len() ==> s[i] == json_view(a@[i])),
        entry_views(e@).len() == e@.len(),
        0 <= i < e@.len() ==> entry_views(e@)[i] == (e@[i].0@, json_view(e@[i].1)),
        json_view(Json::Object(e)) == object(entry_views(e@)),
{
}

/// A value can be read back where it is a text, a truth value or null, or a whole number in range.
pub proof fn law_plain(depth: nat, t: Seq<char>, b: bool, n: serde_json::Number)
    ensures
        plain(JsonView::Null, depth),
        plain(JsonView::Bool(b), depth),
        plain(JsonView::Text(t), depth),
        plain(JsonView::Number(n), depth) <==> number_i64(n) is Some,
        reading_depth() == 127,
{
}

/// An array can be read back one deeper than what it holds, and only where all of that can be.
pub proof fn law_plain_array(depth: nat, a: Seq<JsonView>)
    ensures
        plain(JsonView::Array(a), depth + 1) <==> forall|i: int|
            0 <= i < a.len() ==> plain(#[trigger] a[i], depth),
{
    let v = JsonView::Array(a);
    if plain(v, depth + 1) {
        assert forall|i: int| 0 <= i < a.len() implies plain(#[trigger] a[i], depth) by {
            lemma_plain_element(v, depth, i);
        }
    }
}

proof fn lemma_plain_element(v: JsonView, depth: nat, i: int)
    requires
        v is Array,
        plain(v, depth + 1),
        0 <= i < v->Array_0.len(),
    ensures
        plain(v->Array_0[i], depth),
{
    let d = depth + 1;
    assert((d - 1) as nat == depth);
    match v {
        JsonView::Array(a) => {
            assert(forall|j: int| 0 <= j < a.len() ==> plain(#[trigger] a[j], (d - 1) as nat));
        },
        _ => {},
    }
}

/// An object can be read back one deeper than its members, and only where all of those can be.
pub proof fn law_plain_object(depth: nat, m: Map<Seq<char>, JsonView>)
    ensures
        plain(JsonView::Object(m), depth + 1) <==> forall|k: Seq<char>|
            m.contains_key(k) ==> plain(#[trigger] m[k], depth),
{
    let v = JsonView::Object(m);
    if plain(v, depth + 1) {
        assert forall|k: Seq<char>| m.contains_key(k) implies plain(#[trigger] m[k], depth) by {
            lemma_plain_member(v, depth, k);
        }
    }
}

proof fn lemma_plain_member(v: JsonView, depth: nat, k: Seq<char>)
    requires
        v is Object,
        plain(v, depth + 1),
        v->Object_0.contains_key(k),
    ensures
        plain(v->Object_0[k], depth),
{
    let d = depth + 1;
    assert((d - 1) as nat == depth);
    match v {
        JsonView::Object(m) => {
            assert(forall|j: Seq<char>|
                m.contains_key(j) ==> plain(#[trigger] m[j], (d - 1) as nat));
        },
        _ => {},
    }
}

/// A text is read as one value at most, and the one that it is read as is what it stands for.
pub proof fn law_reading(t: Seq<char>, v: JsonView, w: JsonView)
    ensures
        reads_as(t, v) <==> parsed_text(t) is Ok && parsed_text(t)->Ok_0 == v,
        reads_as(t, v) && reads_as(t, w) ==> v == w,
{
}

/// A value is a text exactly where it is one, and a member of an object is what its map holds.
pub proof fn law_values(v: JsonView, t: Seq<char>, m: Map<Seq<char>, JsonView>, key: Seq<char>)
    ensures
        JsonView::Text(t).text() == Some(t),
        !(v is Text) ==> v.text() is None,
        m.contains_key(key) ==> JsonView::Object(m).member(key) == Some(m[key]),
        !m.contains_key(key) ==> JsonView::Object(m).member(key) is None,
{
}

} // verus!
