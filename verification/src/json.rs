//! JSON values as the rules of this library read them.

use vstd::prelude::*;
use crate::text::{chars_of, pieces_view, same_text, split, split_chars, string_of};

verus! {

/// `serde_json::Value`: a parsed JSON value. It is only handed between the
/// conversions below; nothing is known of what it holds.
#[verifier::external_type_specification]
#[verifier::external_body]
pub struct ExJsonValue(serde_json::Value);

/// A JSON value. The members of an object are held in the order in which
/// the parser hands them out; a number is held as the text that spells it.
#[derive(Debug)]
pub enum Json {
    Null,
    Bool(bool),
    Number(String),
    Text(String),
    Array(Vec<Json>),
    Object(Vec<(String, Json)>),
}

/// A JSON value with its texts as character sequences.
pub enum JsonView {
    Null,
    Bool(bool),
    Number(Seq<char>),
    Text(Seq<char>),
    Array(Seq<JsonView>),
    /// The names of the members, and their values in the same order.
    Object(Seq<Seq<char>>, Seq<JsonView>),
}

impl View for Json {
    type V = JsonView;

    open spec fn view(&self) -> JsonView
        decreases self,
    {
        match self {
            Json::Null => JsonView::Null,
            Json::Bool(b) => JsonView::Bool(*b),
            Json::Number(n) => JsonView::Number(n@),
            Json::Text(s) => JsonView::Text(s@),
            Json::Array(items) => JsonView::Array(
                Seq::new(
                    items@.len(),
                    |i: int|
                        if 0 <= i < items@.len() {
                            items@[i].view()
                        } else {
                            JsonView::Null
                        },
                ),
            ),
            Json::Object(members) => JsonView::Object(
                Seq::new(members@.len(), |i: int| members@[i].0@),
                Seq::new(
                    members@.len(),
                    |i: int|
                        if 0 <= i < members@.len() {
                            members@[i].1.view()
                        } else {
                            JsonView::Null
                        },
                ),
            ),
        }
    }
}

/// The view of an optional value.
pub open spec fn opt_json_view(j: Option<Json>) -> Option<JsonView> {
    match j {
        Some(v) => Some(v@),
        None => None,
    }
}

/// `views` are the views of `items`, one for one.
pub open spec fn items_match(views: Seq<JsonView>, items: Seq<Json>) -> bool {
    views.len() == items.len() && forall|i: int|
        0 <= i < items.len() ==> (#[trigger] views[i]) == items[i]@
}

/// `names` and `values` are the views of `members`, one for one.
pub open spec fn members_match(
    names: Seq<Seq<char>>,
    values: Seq<JsonView>,
    members: Seq<(String, Json)>,
) -> bool {
    &&& names.len() == members.len()
    &&& values.len() == members.len()
    &&& forall|i: int| 0 <= i < members.len() ==> (#[trigger] names[i]) == members[i].0@
    &&& forall|i: int| 0 <= i < members.len() ==> (#[trigger] values[i]) == members[i].1@
}

/// The names and the values of an object; empty for anything else.
pub open spec fn names_of(v: JsonView) -> Seq<Seq<char>> {
    match v {
        JsonView::Object(names, _) => names,
        _ => Seq::empty(),
    }
}

/// The values of the members of an object; empty for anything else.
pub open spec fn values_of(v: JsonView) -> Seq<JsonView> {
    match v {
        JsonView::Object(_, values) => values,
        _ => Seq::empty(),
    }
}

/// The value that `text` spells as a JSON document, if it is well-formed.
pub uninterp spec fn json_doc(text: Seq<char>) -> Option<JsonView>;

/// The value written as compact JSON text.
pub uninterp spec fn json_text(v: JsonView) -> Seq<char>;

/// Whether `text` is one well-formed JSON document.
pub open spec fn json_valid(text: Seq<char>) -> bool {
    json_doc(text) is Some
}

/// Turns a `serde_json::Value` into a `Json`, variant by variant; a number
/// becomes its `Display` text.
#[verifier::external_body]
fn from_value(v: &serde_json::Value) -> (j: Json) {
    match v {
        serde_json::Value::Null => Json::Null,
        serde_json::Value::Bool(b) => Json::Bool(*b),
        serde_json::Value::Number(n) => Json::Number(n.to_string()),
        serde_json::Value::String(s) => Json::Text(s.clone()),
        serde_json::Value::Array(a) => Json::Array(a.iter().map(from_value).collect()),
        serde_json::Value::Object(m) => Json::Object(
            m.iter().map(|(k, x)| (k.clone(), from_value(x))).collect(),
        ),
    }
}

/// Turns a `Json` into a `serde_json::Value`, variant by variant; a number
/// is read back from its text by `serde_json::from_str`, and becomes null
/// where the text spells none.
#[verifier::external_body]
fn to_value(j: &Json) -> (v: serde_json::Value) {
    match j {
        Json::Null => serde_json::Value::Null,
        Json::Bool(b) => serde_json::Value::Bool(*b),
        Json::Number(n) => serde_json::from_str::<serde_json::Number>(n).map(
            serde_json::Value::Number,
        ).unwrap_or(serde_json::Value::Null),
        Json::Text(s) => serde_json::Value::String(s.clone()),
        Json::Array(a) => serde_json::Value::Array(a.iter().map(to_value).collect()),
        Json::Object(m) => serde_json::Value::Object(
            m.iter().map(|(k, x)| (k.clone(), to_value(x))).collect(),
        ),
    }
}

/// `serde_json::from_str` for a `serde_json::Value`: the value that `text`
/// spells, where it is one well-formed JSON document.
#[verifier::external_body]
fn parse_value(text: &str) -> (r: Option<Json>)
    ensures
        opt_json_view(r) == json_doc(text@),
{
    match serde_json::from_str::<serde_json::Value>(text) {
        Ok(v) => Some(from_value(&v)),
        Err(_) => None,
    }
}

/// The `Display` form of a `serde_json::Value`: the value as compact JSON
/// text.
#[verifier::external_body]
fn render_value(j: &Json) -> (r: String)
    ensures
        r@ == json_text(j@),
{
    to_value(j).to_string()
}

/// Index of the first member at or after `i` that is named `key`, or the
/// number of members.
pub open spec fn member_index(names: Seq<Seq<char>>, key: Seq<char>, i: int) -> int
    decreases names.len() - i,
{
    if 0 <= i < names.len() && names[i] != key {
        member_index(names, key, i + 1)
    } else {
        i
    }
}

/// Whether `c` is a decimal digit.
pub open spec fn is_digit(c: char) -> bool {
    '0' <= c && c <= '9'
}

/// The number that the first `n` characters of `s` spell in decimal, where
/// all of them are digits.
pub open spec fn decimal_value(s: Seq<char>, n: int) -> nat
    decreases n,
{
    if n <= 0 || n > s.len() {
        0
    } else {
        decimal_value(s, n - 1) * 10 + ((s[n - 1] as u32 - '0' as u32) as nat)
    }
}

/// The unsigned integer that a number text spells: the text must be made of
/// digits alone, and the number must fit 64 bits.
pub open spec fn unsigned_of(s: Seq<char>) -> Option<u64> {
    if s.len() > 0 && (forall|i: int| 0 <= i < s.len() ==> is_digit(s[i])) && decimal_value(
        s,
        s.len() as int,
    ) <= u64::MAX {
        Some(decimal_value(s, s.len() as int) as u64)
    } else {
        None
    }
}

proof fn lemma_decimal_grows(s: Seq<char>, n: int, m: int)
    requires
        0 <= n <= m <= s.len(),
        forall|i: int| 0 <= i < s.len() ==> is_digit(s[i]),
    ensures
        decimal_value(s, n) <= decimal_value(s, m),
    decreases m - n,
{
    if n < m {
        lemma_decimal_grows(s, n, m - 1);
        assert(decimal_value(s, m - 1) <= decimal_value(s, m - 1) * 10) by (nonlinear_arith);
    }
}

/// The unsigned integer that the number text `text` spells.
pub fn number_as_u64(text: &str) -> (r: Option<u64>)
    ensures
        r == unsigned_of(text@),
{
    let s = chars_of(text);
    if s.len() == 0 {
        return None;
    }
    let mut acc: u64 = 0;
    let mut i: usize = 0;
    while i < s.len()
        invariant
            i <= s.len(),
            s@ == text@,
            forall|j: int| 0 <= j < i ==> is_digit(s@[j]),
            acc as nat == decimal_value(s@, i as int),
        decreases s.len() - i,
    {
        let c = s[i];
        if !('0' <= c && c <= '9') {
            return None;
        }
        let d = (c as u32 - '0' as u32) as u64;
        if acc > (u64::MAX - d) / 10 {
            proof {
                if forall|j: int| 0 <= j < s.len() ==> is_digit(s@[j]) {
                    lemma_decimal_grows(s@, i + 1, s.len() as int);
                }
            }
            return None;
        }
        acc = acc * 10 + d;
        i += 1;
    }
    Some(acc)
}

impl JsonView {
    /// The member named `key` of an object; `None` for anything else.
    pub open spec fn member(self, key: Seq<char>) -> Option<JsonView> {
        match self {
            JsonView::Object(names, values) => {
                let i = member_index(names, key, 0);
                if 0 <= i < names.len() && i < values.len() {
                    Some(values[i])
                } else {
                    None
                }
            },
            _ => None,
        }
    }

    /// The text of a string value; `None` for anything else.
    pub open spec fn text(self) -> Option<Seq<char>> {
        match self {
            JsonView::Text(s) => Some(s),
            _ => None,
        }
    }

    /// The value reached from here by taking the members named by
    /// `keys[i..]` in turn.
    pub open spec fn walk(self, keys: Seq<Seq<char>>, i: int) -> Option<JsonView>
        decreases keys.len() - i,
    {
        if i < 0 || i >= keys.len() {
            Some(self)
        } else {
            match self.member(keys[i]) {
                Some(next) => next.walk(keys, i + 1),
                None => None,
            }
        }
    }
}

impl Json {
    /// Reads a JSON document. `None` where `text` is not well-formed.
    pub fn parse(text: &str) -> (r: Option<Json>)
        ensures
            opt_json_view(r) == json_doc(text@),
    {
        parse_value(text)
    }

    /// The value as compact JSON text.
    pub fn render(&self) -> (r: String)
        ensures
            r@ == json_text(self@),
    {
        render_value(self)
    }

    /// The members of an object.
    pub fn members(&self) -> (r: Option<&Vec<(String, Json)>>)
        ensures
            match r {
                Some(m) => self@ is Object && members_match(names_of(self@), values_of(self@), m@),
                None => !(self@ is Object),
            },
    {
        match self {
            Json::Object(m) => {
                Some(m)
            },
            _ => None,
        }
    }

    /// The items of an array.
    pub fn items(&self) -> (r: Option<&Vec<Json>>)
        ensures
            match r {
                Some(a) => self@ is Array && items_match(self@->Array_0, a@),
                None => !(self@ is Array),
            },
    {
        match self {
            Json::Array(a) => Some(a),
            _ => None,
        }
    }

    /// The member named `key` of an object.
    pub fn get(&self, key: &str) -> (r: Option<&Json>)
        ensures
            match r {
                Some(j) => self@.member(key@) == Some(j@),
                None => self@.member(key@) is None,
            },
    {
        match self.members() {
            Some(members) => {
                let mut i: usize = 0;
                while i < members.len()
                    invariant
                        i <= members.len(),
                        self@ is Object,
                        members_match(names_of(self@), values_of(self@), members@),
                        member_index(names_of(self@), key@, 0) == member_index(
                            names_of(self@),
                            key@,
                            i as int,
                        ),
                    decreases members.len() - i,
                {
                    if same_text(members[i].0.as_str(), key) {
                        assert(member_index(names_of(self@), key@, i as int) == i);
                        return Some(&members[i].1);
                    }
                    i += 1;
                }
                None
            },
            None => None,
        }
    }

    /// The text of a string value.
    pub fn as_text(&self) -> (r: Option<&String>)
        ensures
            match r {
                Some(s) => self@.text() == Some(s@),
                None => self@.text() is None,
            },
    {
        match self {
            Json::Text(s) => Some(s),
            _ => None,
        }
    }

    /// Follows a dotted path such as `data.access_token` through nested
    /// objects. A missing member, or a step through anything but an object,
    /// gives `None`; an array cannot be stepped into.
    pub fn lookup(&self, path: &str) -> (r: Option<&Json>)
        ensures
            match r {
                Some(j) => self@.walk(split(path@, '.'), 0) == Some(j@),
                None => self@.walk(split(path@, '.'), 0) is None,
            },
    {
        let p = chars_of(path);
        let keys = split_chars(&p, '.');
        let mut current: &Json = self;
        let mut i: usize = 0;
        while i < keys.len()
            invariant
                i <= keys.len(),
                pieces_view(keys@) == split(path@, '.'),
                self@.walk(split(path@, '.'), 0) == current@.walk(split(path@, '.'), i as int),
            decreases keys.len() - i,
        {
            let key = string_of(&keys[i]);
            assert(key@ == split(path@, '.')[i as int]);
            match current.get(key.as_str()) {
                Some(next) => {
                    current = next;
                },
                None => {
                    return None;
                },
            }
            i += 1;
        }
        Some(current)
    }
}

} // verus!
