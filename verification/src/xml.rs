//! XML documents as streams of tokens, read through `quick_xml`, and XML
//! elements written as text.

use crate::text::{first_value, lemma_first_value, position_of};
use quick_xml::events::attributes::AttrError;
use quick_xml::events::Event;
use vstd::prelude::*;

verus! {

/// The name and the attributes of a start tag.
#[derive(Debug)]
pub struct XmlTag {
    pub name: String,
    /// Names and values, in the order in which they are written.
    pub attributes: Vec<(String, String)>,
}

pub struct XmlTagView {
    pub name: Seq<char>,
    pub attributes: Seq<(Seq<char>, Seq<char>)>,
}

pub open spec fn attributes_view(attributes: Seq<(String, String)>) -> Seq<(Seq<char>, Seq<char>)> {
    attributes.map_values(|a: (String, String)| (a.0@, a.1@))
}

impl View for XmlTag {
    type V = XmlTagView;

    open spec fn view(&self) -> XmlTagView {
        XmlTagView { name: self.name@, attributes: attributes_view(self.attributes@) }
    }
}

/// One piece of an XML document.
#[derive(Debug)]
pub enum XmlToken {
    /// A start tag. The one tag of an empty element counts as a start tag
    /// with an end tag after it.
    Open(XmlTag),
    /// An end tag.
    Close,
    /// Text, a comment, a declaration or anything else between tags.
    Other,
    /// The end of the document.
    Finish,
    /// The document is not well-formed from here on; the reason is the reader's.
    Broken(String),
}

pub enum XmlTokenView {
    Open(XmlTagView),
    Close,
    Other,
    Finish,
    Broken(Seq<char>),
}

impl View for XmlToken {
    type V = XmlTokenView;

    open spec fn view(&self) -> XmlTokenView {
        match self {
            XmlToken::Open(tag) => XmlTokenView::Open(tag@),
            XmlToken::Close => XmlTokenView::Close,
            XmlToken::Other => XmlTokenView::Other,
            XmlToken::Finish => XmlTokenView::Finish,
            XmlToken::Broken(reason) => XmlTokenView::Broken(reason@),
        }
    }
}

pub open spec fn tokens_view(tokens: Seq<XmlToken>) -> Seq<XmlTokenView> {
    tokens.map_values(|t: XmlToken| t@)
}

/// Whether nothing follows a token: the document ends or breaks there.
pub open spec fn is_last(token: XmlTokenView) -> bool {
    token is Finish || token is Broken
}

/// A token stream ends with its only last token.
pub open spec fn ends_once(tokens: Seq<XmlTokenView>) -> bool {
    &&& tokens.len() > 0
    &&& forall|i: int| 0 <= i < tokens.len() ==> (is_last(#[trigger] tokens[i]) <==> i == tokens.len() - 1)
}

/// `quick_xml::Reader`, the reader that hands out the tokens of a text one
/// by one; nothing is known of what is inside.
#[verifier::external_type_specification]
#[verifier::external_body]
#[verifier::reject_recursive_types(R)]
pub struct ExReader<R>(quick_xml::Reader<R>);

/// The tokens that `quick_xml` reads from a text, up to and with the end of
/// the document or the first error.
pub uninterp spec fn xml_tokens(text: Seq<char>) -> Seq<XmlTokenView>;

/// The tokens that a reader has yet to hand out.
pub uninterp spec fn pending_tokens(reader: quick_xml::Reader<&[u8]>) -> Seq<XmlTokenView>;

/// `quick_xml::Reader::from_str`, set to hand out an empty element as a
/// start and an end: a reader at the start of `text`, which has all the
/// tokens of the text to hand out. The reader reaches the end of a text or
/// an error after finitely many tokens, so the stream ends once.
#[verifier::external_body]
fn open_reader<'a>(text: &'a str) -> (reader: quick_xml::Reader<&'a [u8]>)
    ensures
        pending_tokens(reader) == xml_tokens(text@),
        ends_once(pending_tokens(reader)),
{
    let mut reader = quick_xml::Reader::from_str(text);
    reader.config_mut().expand_empty_elements = true;
    reader
}

/// `quick_xml::Reader::read_event`, with the event moved into a token: the
/// next token leaves the reader. A start tag comes with its name and its
/// attributes as written, the values not unescaped; an attribute that
/// cannot be read makes the token `Broken`, as a reader's error does.
#[verifier::external_body]
fn next_token(reader: &mut quick_xml::Reader<&[u8]>) -> (token: XmlToken)
    requires
        pending_tokens(*old(reader)).len() > 0,
    ensures
        token@ == pending_tokens(*old(reader))[0],
        pending_tokens(*final(reader)) == pending_tokens(*old(reader)).skip(1),
{
    let tag = match reader.read_event() {
        Ok(Event::Start(tag)) => tag,
        Ok(Event::End(_)) => return XmlToken::Close,
        Ok(Event::Eof) => return XmlToken::Finish,
        Ok(_) => return XmlToken::Other,
        Err(e) => return XmlToken::Broken(e.to_string()),
    };
    let pairs = tag.attributes().map(|a| a.map(|a| (a.key.0.to_owned(), a.value.into_owned())));
    match pairs.collect::<Result<_, AttrError>>() {
        Ok(attributes) => XmlToken::Open(XmlTag { name: tag.name().0.to_owned(), attributes }),
        Err(e) => XmlToken::Broken(e.to_string()),
    }
}

impl XmlToken {
    /// Whether nothing follows this token.
    pub fn is_last(&self) -> (last: bool)
        ensures
            last == is_last(self@),
    {
        match self {
            XmlToken::Finish => true,
            XmlToken::Broken(_) => true,
            _ => false,
        }
    }
}

/// The tokens of an XML text, up to and with the end of the document or the
/// first error.
pub fn read_tokens(text: &str) -> (tokens: Vec<XmlToken>)
    ensures
        tokens_view(tokens@) == xml_tokens(text@),
        ends_once(tokens_view(tokens@)),
{
    let mut reader = open_reader(text);
    let mut tokens: Vec<XmlToken> = Vec::new();
    let ghost all = xml_tokens(text@);
    assert(tokens_view(tokens@) + pending_tokens(reader) =~= all);
    loop
        invariant_except_break
            pending_tokens(reader).len() > 0,
            all == tokens_view(tokens@) + pending_tokens(reader),
        invariant
            all == xml_tokens(text@),
            ends_once(all),
        ensures
            tokens_view(tokens@) == all,
        decreases pending_tokens(reader).len(),
    {
        let ghost before = tokens_view(tokens@);
        let ghost pending = pending_tokens(reader);
        let token = next_token(&mut reader);
        let last = token.is_last();
        tokens.push(token);
        proof {
            assert(tokens_view(tokens@) =~= before.push(pending[0]));
            assert(all[before.len() as int] == pending[0]);
            assert(tokens_view(tokens@) + pending.skip(1) =~= all);
        }
        if last {
            assert(pending.skip(1).len() == 0);
            assert(tokens_view(tokens@) =~= all);
            break ;
        }
    }
    tokens
}


/// What `quick_xml` makes of an escaped text: the text with its character
/// and entity references resolved, or the message of the error.
pub uninterp spec fn xml_unescaped(raw: Seq<char>) -> Result<Seq<char>, Seq<char>>;

/// `quick_xml::escape::unescape`. The result is a function of the text alone.
#[verifier::external_body]
fn unescape_text(raw: &str) -> (r: Result<String, String>)
    ensures
        match r {
            Ok(text) => xml_unescaped(raw@) == Ok::<Seq<char>, Seq<char>>(text@),
            Err(reason) => xml_unescaped(raw@) == Err::<Seq<char>, Seq<char>>(reason@),
        },
{
    match quick_xml::escape::unescape(raw) {
        Ok(text) => Ok(text.into_owned()),
        Err(e) => Err(e.to_string()),
    }
}

/// The value of the attribute `key` of a tag, the first of that name:
/// nothing where the tag has no such attribute, else its unescaped value or
/// the reason why it has none.
pub open spec fn attribute_value(tag: XmlTagView, key: Seq<char>) -> Option<
    Result<Seq<char>, Seq<char>>,
> {
    match first_value(tag.attributes, key) {
        Some(raw) => Some(xml_unescaped(raw)),
        None => None,
    }
}

impl XmlTag {
    /// The value of the attribute `key`.
    pub fn attribute(&self, key: &str) -> (value: Option<Result<String, String>>)
        ensures
            match value {
                Some(Ok(text)) => attribute_value(self@, key@) == Some(
                    Ok::<Seq<char>, Seq<char>>(text@),
                ),
                Some(Err(reason)) => attribute_value(self@, key@) == Some(
                    Err::<Seq<char>, Seq<char>>(reason@),
                ),
                None => attribute_value(self@, key@) is None,
            },
    {
        let at = position_of(&self.attributes, key);
        proof {
            let views = attributes_view(self.attributes@);
            let stop = match at {
                Some(i) => i as int,
                None => views.len() as int,
            };
            assert forall|j: int| 0 <= j < stop implies (#[trigger] views[j]).0 != key@ by {
                assert(views[j].0 == self.attributes@[j].0@);
            }
            lemma_first_value(views, key@, stop);
        }
        match at {
            Some(i) => Some(unescape_text(self.attributes[i].1.as_str())),
            None => None,
        }
    }
}

/// What stands for one character in escaped XML text.
pub open spec fn escaped_char(c: char) -> Seq<char> {
    if c == '<' {
        "&lt;"@
    } else if c == '>' {
        "&gt;"@
    } else if c == '&' {
        "&amp;"@
    } else if c == '\'' {
        "&apos;"@
    } else if c == '"' {
        "&quot;"@
    } else if c == '\r' {
        "&#13;"@
    } else {
        seq![c]
    }
}

/// A text with its special characters escaped, one by one.
pub open spec fn escaped(text: Seq<char>) -> Seq<char>
    decreases text.len(),
{
    if text.len() == 0 {
        Seq::empty()
    } else {
        escaped(text.drop_last()) + escaped_char(text.last())
    }
}

/// `quick_xml::escape::escape`: replaces each of `<`, `>`, `&`, `'`, `"` and
/// the carriage return by its entity and leaves every other character.
#[verifier::external_body]
fn escape_text(text: &str) -> (out: String)
    ensures
        out@ == escaped(text@),
{
    quick_xml::escape::escape(text).into_owned()
}

/// Appends the attribute `key` with the value `value`, escaped and quoted,
/// to a tag that is being written.
pub fn push_attribute(out: &mut String, key: &str, value: &str)
    ensures
        final(out)@ == old(out)@ + attribute_text(key@, value@),
{
    out.append(" ");
    out.append(key);
    out.append("=\"");
    let safe = escape_text(value);
    out.append(safe.as_str());
    out.append("\"");
    assert(out@ =~= old(out)@ + attribute_text(key@, value@));
}

/// An attribute as it stands in a tag: a space, the name, and the escaped
/// value in double quotes.
pub open spec fn attribute_text(key: Seq<char>, value: Seq<char>) -> Seq<char> {
    " "@ + key + "=\""@ + escaped(value) + "\""@
}

} // verus!
