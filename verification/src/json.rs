//! JSON documents as trees, read and written through `serde_json`.

use crate::text::{
    decimal_digits, first_value, lemma_first_value, position_of, push_decimal,
};
use vstd::prelude::*;

verus! {

/// A JSON document.
#[derive(Debug)]
pub enum Json {
    Null,
    Bool(bool),
    /// A number that is an integer from zero up.
    Unsigned(u64),
    /// A number that is an integer below zero.
    Signed(i64),
    /// Any other number, kept as its decimal text.
    Fraction(String),
    Text(String),
    Array(Vec<Json>),
    /// The members of an object, in the order in which they are written.
    Object(Vec<(String, Json)>),
}

/// The mathematical value of a [`Json`] document.
pub enum JsonView {
    Null,
    Bool(bool),
    Unsigned(u64),
    Signed(i64),
    Fraction(Seq<char>),
    Text(Seq<char>),
    Array(Seq<JsonView>),
    Object(Seq<(Seq<char>, JsonView)>),
}

/// The value of a document.
pub open spec fn tree_view(j: Json) -> JsonView
    decreases j, 0nat,
{
    match j {
        Json::Null => JsonView::Null,
        Json::Bool(b) => JsonView::Bool(b),
        Json::Unsigned(n) => JsonView::Unsigned(n),
        Json::Signed(n) => JsonView::Signed(n),
        Json::Fraction(t) => JsonView::Fraction(t@),
        Json::Text(t) => JsonView::Text(t@),
        Json::Array(items) => JsonView::Array(items_view_to(items@, items@.len())),
        Json::Object(fields) => JsonView::Object(fields_view_to(fields@, fields@.len())),
    }
}

/// The values of the first `n` items.
pub open spec fn items_view_to(items: Seq<Json>, n: nat) -> Seq<JsonView>
    decreases items, n,
{
    if n == 0 || n > items.len() {
        Seq::empty()
    } else {
        items_view_to(items, (n - 1) as nat).push(tree_view(items[n - 1]))
    }
}

/// The names and values of the first `n` members.
pub open spec fn fields_view_to(fields: Seq<(String, Json)>, n: nat) -> Seq<
    (Seq<char>, JsonView),
>
    decreases fields, n,
{
    if n == 0 || n > fields.len() {
        Seq::empty()
    } else {
        fields_view_to(fields, (n - 1) as nat).push((fields[n - 1].0@, tree_view(fields[n - 1].1)))
    }
}

impl View for Json {
    type V = JsonView;

    open spec fn view(&self) -> JsonView {
        tree_view(*self)
    }
}

impl JsonView {
    /// The member `key` of an object: the first one of that name. There is
    /// none where no member has the name or the document is no object.
    pub open spec fn member(self, key: Seq<char>) -> Option<JsonView> {
        match self {
            JsonView::Object(fields) => first_value(fields, key),
            _ => None,
        }
    }

    /// The characters of a string.
    pub open spec fn text(self) -> Option<Seq<char>> {
        match self {
            JsonView::Text(t) => Some(t),
            _ => None,
        }
    }

    /// The items of an array.
    pub open spec fn items(self) -> Option<Seq<JsonView>> {
        match self {
            JsonView::Array(items) => Some(items),
            _ => None,
        }
    }
}


/// The views of the items of an array.
pub open spec fn items_view(items: Seq<Json>) -> Seq<JsonView> {
    Seq::new(items.len(), |i: int| items[i]@)
}

/// The views of the members of an object.
pub open spec fn fields_view(fields: Seq<(String, Json)>) -> Seq<(Seq<char>, JsonView)> {
    Seq::new(fields.len(), |i: int| (fields[i].0@, fields[i].1@))
}

proof fn lemma_items_view_to(items: Seq<Json>, n: nat)
    requires
        n <= items.len(),
    ensures
        items_view_to(items, n) == items_view(items).take(n as int),
    decreases n,
{
    if n > 0 {
        lemma_items_view_to(items, (n - 1) as nat);
        assert(items_view(items).take(n as int) =~= items_view(items).take(n - 1).push(
            items[n - 1]@,
        ));
    } else {
        assert(items_view(items).take(0) =~= Seq::empty());
    }
}

proof fn lemma_fields_view_to(fields: Seq<(String, Json)>, n: nat)
    requires
        n <= fields.len(),
    ensures
        fields_view_to(fields, n) == fields_view(fields).take(n as int),
    decreases n,
{
    if n > 0 {
        lemma_fields_view_to(fields, (n - 1) as nat);
        assert(fields_view(fields).take(n as int) =~= fields_view(fields).take(n - 1).push(
            (fields[n - 1].0@, fields[n - 1].1@),
        ));
    } else {
        assert(fields_view(fields).take(0) =~= Seq::empty());
    }
}

/// The view of an array or an object is made of the views of its parts.
pub proof fn lemma_view_parts(j: Json)
    ensures
        j matches Json::Array(items) ==> j@ == JsonView::Array(items_view(items@)),
        j matches Json::Object(fields) ==> j@ == JsonView::Object(fields_view(fields@)),
{
    match j {
        Json::Array(items) => {
            lemma_items_view_to(items@, items@.len());
            assert(items_view(items@).take(items@.len() as int) =~= items_view(items@));
        },
        Json::Object(fields) => {
            lemma_fields_view_to(fields@, fields@.len());
            assert(fields_view(fields@).take(fields@.len() as int) =~= fields_view(fields@));
        },
        _ => {},
    }
}

impl Json {
    /// A string.
    pub fn text(s: &str) -> (j: Json)
        ensures
            j@ == JsonView::Text(s@),
    {
        Json::Text(s.to_owned())
    }

    /// An array of the given items.
    pub fn array(items: Vec<Json>) -> (j: Json)
        ensures
            j@ == JsonView::Array(items_view(items@)),
    {
        let j = Json::Array(items);
        proof {
            lemma_view_parts(j);
        }
        j
    }

    /// An object of the given members.
    pub fn object(fields: Vec<(String, Json)>) -> (j: Json)
        ensures
            j@ == JsonView::Object(fields_view(fields@)),
    {
        let j = Json::Object(fields);
        proof {
            lemma_view_parts(j);
        }
        j
    }

    /// The member `key` of an object.
    pub fn get(&self, key: &str) -> (found: Option<&Json>)
        ensures
            match found {
                Some(j) => self@.member(key@) == Some(j@),
                None => self@.member(key@) is None,
            },
    {
        match self {
            Json::Object(fields) => {
                let at = position_of(fields, key);
                proof {
                    lemma_view_parts(*self);
                    let views = fields_view(fields@);
                    let stop = match at {
                        Some(i) => i as int,
                        None => views.len() as int,
                    };
                    assert forall|j: int| 0 <= j < stop implies (#[trigger] views[j]).0 != key@ by {
                        assert(views[j].0 == fields@[j].0@);
                    }
                    lemma_first_value(views, key@, stop);
                }
                match at {
                    Some(i) => Some(&fields[i].1),
                    None => None,
                }
            },
            _ => None,
        }
    }

    /// The characters of a string.
    pub fn as_str(&self) -> (text: Option<&str>)
        ensures
            match text {
                Some(t) => self@.text() == Some(t@),
                None => self@.text() is None,
            },
    {
        match self {
            Json::Text(t) => Some(t.as_str()),
            _ => None,
        }
    }

    /// The items of an array.
    pub fn as_array(&self) -> (items: Option<&Vec<Json>>)
        ensures
            match items {
                Some(v) => self@.items() == Some(items_view(v@)),
                None => self@.items() is None,
            },
    {
        proof {
            lemma_view_parts(*self);
        }
        match self {
            Json::Array(items) => Some(items),
            _ => None,
        }
    }

    /// The value of a number that is an integer from zero up.
    pub fn as_u64(&self) -> (n: Option<u64>)
        ensures
            n == self@.unsigned(),
    {
        match self {
            Json::Unsigned(n) => Some(*n),
            _ => None,
        }
    }

    /// The value of a boolean.
    pub fn as_bool(&self) -> (b: Option<bool>)
        ensures
            b == self@.boolean(),
    {
        match self {
            Json::Bool(b) => Some(*b),
            _ => None,
        }
    }
}

/// Appends the member `key` with the value `value` to a list of members.
pub fn push_member(fields: &mut Vec<(String, Json)>, key: &str, value: Json)
    ensures
        fields_view(final(fields)@) == fields_view(old(fields)@).push((key@, value@)),
{
    fields.push((key.to_owned(), value));
    assert(fields_view(fields@) =~= fields_view(old(fields)@).push((key@, value@)));
}

/// Appends an item to a list of items.
pub fn push_item(items: &mut Vec<Json>, value: Json)
    ensures
        items_view(final(items)@) == items_view(old(items)@).push(value@),
{
    items.push(value);
    assert(items_view(items@) =~= items_view(old(items)@).push(value@));
}

impl JsonView {
    /// The value of a number that is an integer from zero up.
    pub open spec fn unsigned(self) -> Option<u64> {
        match self {
            JsonView::Unsigned(n) => Some(n),
            _ => None,
        }
    }

    /// The value of a boolean.
    pub open spec fn boolean(self) -> Option<bool> {
        match self {
            JsonView::Bool(b) => Some(b),
            _ => None,
        }
    }
}

/// `serde_json::Value`, carried from the decoder to the function that moves
/// it into a [`Json`]; nothing is known of what is inside.
#[verifier::external_type_specification]
#[verifier::external_body]
pub struct ExValue(serde_json::Value);

/// The document that a `serde_json::Value` holds.
pub uninterp spec fn value_tree(value: serde_json::Value) -> JsonView;

/// What `serde_json` reads from a JSON text: the document, or the message of
/// the error that it reports.
pub uninterp spec fn json_decoded(data: Seq<u8>) -> Result<JsonView, Seq<char>>;

/// The bytes in which `serde_json` writes a string: the quoted and escaped text.
pub uninterp spec fn json_quoted(text: Seq<char>) -> Seq<u8>;

/// `serde_json::from_slice`, read into a `serde_json::Value`. The result is
/// a function of the bytes alone: the value that holds the decoded document,
/// or the error's message.
#[verifier::external_body]
fn value_from_slice(data: &[u8]) -> (r: Result<serde_json::Value, String>)
    ensures
        match r {
            Ok(value) => json_decoded(data@) == Ok::<JsonView, Seq<char>>(value_tree(value)),
            Err(message) => json_decoded(data@) == Err::<JsonView, Seq<char>>(message@),
        },
{
    serde_json::from_slice::<serde_json::Value>(data).map_err(|e| e.to_string())
}

/// Moves a `serde_json::Value` into a [`Json`], variant by variant. A number
/// becomes `Unsigned` where `as_u64` gives it, else `Signed` where `as_i64`
/// gives it, else `Fraction` with its text; the members of an object come in
/// the order in which the map hands them out.
#[verifier::external_body]
fn tree_of_value(value: serde_json::Value) -> (tree: Json)
    ensures
        tree@ == value_tree(value),
{
    match value {
        serde_json::Value::Null => Json::Null,
        serde_json::Value::Bool(b) => Json::Bool(b),
        serde_json::Value::Number(n) => match (n.as_u64(), n.as_i64()) {
            (Some(u), _) => Json::Unsigned(u),
            (None, Some(i)) => Json::Signed(i),
            (None, None) => Json::Fraction(n.to_string()),
        },
        serde_json::Value::String(s) => Json::Text(s),
        serde_json::Value::Array(a) => Json::Array(a.into_iter().map(tree_of_value).collect()),
        serde_json::Value::Object(m) => Json::Object(
            m.into_iter().map(|(k, v)| (k, tree_of_value(v))).collect(),
        ),
    }
}

/// `serde_json::to_vec` on a string slice: the quoted text. Writing a string
/// into a vector has no way to fail.
#[verifier::external_body]
fn quote(text: &str) -> (out: Vec<u8>)
    ensures
        out@ == json_quoted(text@),
{
    serde_json::to_vec(text).unwrap_or_default()
}

/// Reads a JSON text.
pub fn parse_json(data: &[u8]) -> (r: Result<Json, String>)
    ensures
        match r {
            Ok(tree) => json_decoded(data@) == Ok::<JsonView, Seq<char>>(tree@),
            Err(message) => json_decoded(data@) == Err::<JsonView, Seq<char>>(message@),
        },
{
    match value_from_slice(data) {
        Ok(value) => Ok(tree_of_value(value)),
        Err(message) => Err(message),
    }
}

/// The compact JSON text of a document: no white space, the members of an
/// object in their order, strings as `serde_json` quotes them.
pub open spec fn rendered(j: JsonView) -> Seq<u8>
    decreases j, 0nat,
{
    match j {
        JsonView::Null => seq![110u8, 117u8, 108u8, 108u8],
        JsonView::Bool(true) => seq![116u8, 114u8, 117u8, 101u8],
        JsonView::Bool(false) => seq![102u8, 97u8, 108u8, 115u8, 101u8],
        JsonView::Unsigned(n) => decimal_digits(n as nat),
        JsonView::Signed(n) => if n < 0 {
            seq![45u8] + decimal_digits((-n) as nat)
        } else {
            decimal_digits(n as nat)
        },
        JsonView::Fraction(t) => vstd::utf8::encode_utf8(t),
        JsonView::Text(t) => json_quoted(t),
        JsonView::Array(items) => seq![91u8] + rendered_items(items, items.len()) + seq![93u8],
        JsonView::Object(fields) => seq![123u8] + rendered_members(fields, fields.len()) + seq![
            125u8,
        ],
    }
}

/// The first `n` items of an array, with commas between them.
pub open spec fn rendered_items(items: Seq<JsonView>, n: nat) -> Seq<u8>
    decreases items, n,
{
    if n == 0 || n > items.len() {
        Seq::empty()
    } else if n == 1 {
        rendered(items[0])
    } else {
        rendered_items(items, (n - 1) as nat) + seq![44u8] + rendered(items[n - 1])
    }
}

/// The first `n` members of an object, each as its quoted name, a colon and
/// its value, with commas between them.
pub open spec fn rendered_members(fields: Seq<(Seq<char>, JsonView)>, n: nat) -> Seq<u8>
    decreases fields, n,
{
    if n == 0 || n > fields.len() {
        Seq::empty()
    } else if n == 1 {
        json_quoted(fields[0].0) + seq![58u8] + rendered(fields[0].1)
    } else {
        rendered_members(fields, (n - 1) as nat) + seq![44u8] + json_quoted(fields[n - 1].0)
            + seq![58u8] + rendered(fields[n - 1].1)
    }
}

/// Appends `bytes` to `out`.
fn push_all(out: &mut Vec<u8>, bytes: &[u8])
    ensures
        final(out)@ == old(out)@ + bytes@,
{
    let mut i: usize = 0;
    while i < bytes.len()
        invariant
            i <= bytes@.len(),
            out@ == old(out)@ + bytes@.take(i as int),
        decreases bytes@.len() - i,
    {
        out.push(bytes[i]);
        assert(bytes@.take(i + 1) =~= bytes@.take(i as int).push(bytes@[i as int]));
        i += 1;
    }
    assert(bytes@.take(i as int) =~= bytes@);
}

/// Appends the JSON text of `j` to `out`.
pub fn render_into(j: &Json, out: &mut Vec<u8>)
    ensures
        final(out)@ == old(out)@ + rendered(j@),
    decreases j,
{
    proof {
        lemma_view_parts(*j);
    }
    match j {
        Json::Null => {
            out.push(110);
            out.push(117);
            out.push(108);
            out.push(108);
            assert(out@ =~= old(out)@ + rendered(j@));
        },
        Json::Bool(b) => {
            if *b {
                out.push(116);
                out.push(114);
                out.push(117);
                out.push(101);
            } else {
                out.push(102);
                out.push(97);
                out.push(108);
                out.push(115);
                out.push(101);
            }
            assert(out@ =~= old(out)@ + rendered(j@));
        },
        Json::Unsigned(n) => {
            push_decimal(out, *n);
        },
        Json::Signed(n) => {
            if *n < 0 {
                out.push(45);
                let magnitude: u64 = if *n == i64::MIN {
                    9223372036854775808u64
                } else {
                    (-*n) as u64
                };
                push_decimal(out, magnitude);
                assert(out@ =~= old(out)@ + rendered(j@));
            } else {
                push_decimal(out, *n as u64);
            }
        },
        Json::Fraction(t) => {
            push_all(out, t.as_str().as_bytes());
        },
        Json::Text(t) => {
            let quoted = quote(t.as_str());
            push_all(out, quoted.as_slice());
        },
        Json::Array(items) => {
            let ghost views = items_view(items@);
            out.push(91);
            let mut i: usize = 0;
            while i < items.len()
                invariant
                    i <= items@.len(),
                    views == items_view(items@),
                    j == Json::Array(*items),
                    out@ == old(out)@ + seq![91u8] + rendered_items(views, i as nat),
                decreases items@.len() - i,
            {
                if i > 0 {
                    out.push(44);
                }
                assert(decreases_to!(j => j->Array_0));
                assert(decreases_to!(*items => items[i as int]));
                render_into(&items[i], out);
                assert(out@ =~= old(out)@ + seq![91u8] + rendered_items(views, (i + 1) as nat));
                i += 1;
            }
            out.push(93);
            assert(out@ =~= old(out)@ + rendered(j@));
        },
        Json::Object(fields) => {
            let ghost views = fields_view(fields@);
            out.push(123);
            let mut i: usize = 0;
            while i < fields.len()
                invariant
                    i <= fields@.len(),
                    views == fields_view(fields@),
                    j == Json::Object(*fields),
                    out@ == old(out)@ + seq![123u8] + rendered_members(views, i as nat),
                decreases fields@.len() - i,
            {
                if i > 0 {
                    out.push(44);
                }
                let name = quote(fields[i].0.as_str());
                push_all(out, name.as_slice());
                out.push(58);
                assert(decreases_to!(j => j->Object_0));
                assert(decreases_to!(*fields => fields[i as int]));
                render_into(&fields[i].1, out);
                assert(out@ =~= old(out)@ + seq![123u8] + rendered_members(
                    views,
                    (i + 1) as nat,
                ));
                i += 1;
            }
            out.push(125);
            assert(out@ =~= old(out)@ + rendered(j@));
        },
    }
}

/// The compact JSON text of a document.
pub fn render(j: &Json) -> (out: Vec<u8>)
    ensures
        out@ == rendered(j@),
{
    let mut out: Vec<u8> = Vec::new();
    render_into(j, &mut out);
    assert(out@ =~= rendered(j@));
    out
}

} // verus!
