//! Reading a WebDAV multistatus response (RFC 4918): for each `response`
//! element, its `href` and the text of the elements in it.  The XML is
//! tokenized by quick-xml; what is done with the tokens is verified here.
use vstd::prelude::*;
use vstd::string::*;

use quick_xml::events::Event as Ev;

use crate::props::{insert, Props, PropsModel};
use crate::text::{lit, same_text, trim, trim_str};

verus! {

broadcast use vstd::string::group_string_axioms;

#[verifier::external_type_specification]
#[verifier::external_body]
#[verifier::reject_recursive_types(R)]
pub struct ExXmlReader<R>(quick_xml::Reader<R>);

/// An XML token as this library reads it.
pub enum XmlToken {
    /// A start tag, by its local name.
    Start(String),
    /// An empty-element tag, by its local name.
    Empty(String),
    /// Character data with its entities replaced, or nothing where they could
    /// not be replaced.
    Text(Option<String>),
    /// A CDATA section's content.
    CData(String),
    /// An end tag, by its local name.
    End(String),
    /// A comment, declaration, processing instruction or document type.
    Other,
}

/// The model of an `XmlToken`.
pub enum XmlItem {
    Start(Seq<char>),
    Empty(Seq<char>),
    Text(Option<Seq<char>>),
    CData(Seq<char>),
    End(Seq<char>),
    Other,
}

impl View for XmlToken {
    type V = XmlItem;

    open spec fn view(&self) -> XmlItem {
        match self {
            XmlToken::Start(n) => XmlItem::Start(n@),
            XmlToken::Empty(n) => XmlItem::Empty(n@),
            XmlToken::Text(t) => XmlItem::Text(
                match t {
                    Some(s) => Some(s@),
                    None => None,
                },
            ),
            XmlToken::CData(t) => XmlItem::CData(t@),
            XmlToken::End(n) => XmlItem::End(n@),
            XmlToken::Other => XmlItem::Other,
        }
    }
}

/// The tokens quick-xml reads from `xml`, up to its end or its first error.
pub uninterp spec fn xml_items(xml: Seq<char>) -> Seq<XmlItem>;

/// The tokens a quick-xml reader has still to yield before the end of its
/// input or its first error.
pub uninterp spec fn pending_items(reader: quick_xml::Reader<&[u8]>) -> Seq<XmlItem>;

/// A quick-xml reader over `xml` (`quick_xml::Reader::from_str`).  Claimed:
/// the tokens it will yield are `xml_items(xml)`, a function of the text
/// alone.
#[verifier::external_body]
fn xml_reader<'a>(xml: &'a str) -> (r: quick_xml::Reader<&'a [u8]>)
    ensures
        pending_items(r) == xml_items(xml@),
{
    quick_xml::Reader::from_str(xml)
}

/// The next token of a quick-xml reader (`Reader::read_event_into`), its
/// names and CDATA decoded lossily from UTF-8 and its text unescaped with
/// `BytesText::unescape`; nothing at the end of the input or on an error.
/// Claimed: the token is the first of the reader's pending tokens, which the
/// call removes, and there is none where none is pending.
#[verifier::external_body]
fn next_xml_token(reader: &mut quick_xml::Reader<&[u8]>, buf: &mut Vec<u8>) -> (r: Option<
    XmlToken,
>)
    ensures
        pending_items(*old(reader)).len() == 0 ==> r is None,
        pending_items(*old(reader)).len() > 0 ==> (r matches Some(t) && t@ == pending_items(
            *old(reader),
        )[0] && pending_items(*final(reader)) == pending_items(*old(reader)).drop_first()),
{
    let lossy = |b: &[u8]| String::from_utf8_lossy(b).into_owned();
    let t = match reader.read_event_into(buf) {
        Ok(Ev::Start(e)) => XmlToken::Start(lossy(e.local_name().as_ref())),
        Ok(Ev::Empty(e)) => XmlToken::Empty(lossy(e.local_name().as_ref())),
        Ok(Ev::End(e)) => XmlToken::End(lossy(e.local_name().as_ref())),
        Ok(Ev::Text(e)) => XmlToken::Text(e.unescape().ok().map(String::from)),
        Ok(Ev::CData(e)) => XmlToken::CData(lossy(&e)),
        Ok(Ev::Eof) | Err(_) => return None,
        Ok(_) => XmlToken::Other,
    };
    Some(t)
}

/// The state of reading a multistatus: the responses read so far, and the
/// `href`, properties and text of the element being read, and whether a
/// `response` element is open.
pub struct MultistatusState {
    pub responses: Seq<(Seq<char>, PropsModel)>,
    pub href: Seq<char>,
    pub props: PropsModel,
    pub text: Seq<char>,
    pub in_response: bool,
}

/// The state before any token is read.
pub open spec fn initial_state() -> MultistatusState {
    MultistatusState {
        responses: Seq::empty(),
        href: Seq::empty(),
        props: Seq::empty(),
        text: Seq::empty(),
        in_response: false,
    }
}

/// The property that marks a calendar collection.
pub open spec fn calendar_flag() -> Seq<char> {
    "__is_calendar__"@
}

/// The property that marks an address book collection.
pub open spec fn addressbook_flag() -> Seq<char> {
    "__is_addressbook__"@
}

/// An end tag named `n` read in state `st`: inside a response, the trimmed
/// text, where not empty, is stored under `n` (and becomes the `href` where
/// `n` is the first non-empty `href`); the end of `response` adds the
/// response read.  The text is emptied in every case.
pub open spec fn end_tag(st: MultistatusState, n: Seq<char>) -> MultistatusState {
    if st.in_response {
        let t = trim(st.text);
        let href = if t.len() > 0 && n == "href"@ && st.href.len() == 0 {
            t
        } else {
            st.href
        };
        let props = if t.len() > 0 {
            insert(st.props, n, t)
        } else {
            st.props
        };
        if n == "response"@ {
            MultistatusState {
                responses: st.responses.push((href, props)),
                href,
                props,
                text: Seq::empty(),
                in_response: false,
            }
        } else {
            MultistatusState { href, props, text: Seq::empty(), ..st }
        }
    } else {
        MultistatusState { text: Seq::empty(), ..st }
    }
}

/// One token read in state `st`.
pub open spec fn step(st: MultistatusState, item: XmlItem) -> MultistatusState {
    match item {
        XmlItem::Start(n) => if n == "response"@ {
            MultistatusState {
                href: Seq::empty(),
                props: Seq::empty(),
                text: Seq::empty(),
                in_response: true,
                ..st
            }
        } else {
            MultistatusState { text: Seq::empty(), ..st }
        },
        XmlItem::Empty(n) => if st.in_response && n == "calendar"@ {
            MultistatusState { props: insert(st.props, calendar_flag(), "1"@), ..st }
        } else if st.in_response && n == "addressbook"@ {
            MultistatusState { props: insert(st.props, addressbook_flag(), "1"@), ..st }
        } else {
            st
        },
        XmlItem::Text(Some(t)) => if st.in_response {
            MultistatusState { text: st.text + t, ..st }
        } else {
            st
        },
        XmlItem::Text(None) => st,
        XmlItem::CData(t) => if st.in_response {
            MultistatusState { text: st.text + t, ..st }
        } else {
            st
        },
        XmlItem::End(n) => end_tag(st, n),
        XmlItem::Other => st,
    }
}

/// The tokens read one after the other from state `st`.
pub open spec fn run(st: MultistatusState, items: Seq<XmlItem>) -> MultistatusState
    decreases items.len(),
{
    if items.len() == 0 {
        st
    } else {
        run(step(st, items[0]), items.drop_first())
    }
}

/// The responses of a multistatus, read from its tokens.
pub open spec fn multistatus_of(items: Seq<XmlItem>) -> Seq<(Seq<char>, PropsModel)> {
    run(initial_state(), items).responses
}

/// The model of the responses returned.
pub open spec fn responses_view(r: Seq<(String, Props)>) -> Seq<(Seq<char>, PropsModel)> {
    r.map_values(|e: (String, Props)| (e.0@, e.1@))
}

/// The state that the reading variables stand for.
pub open spec fn current(
    responses: Seq<(String, Props)>,
    href: Seq<char>,
    props: PropsModel,
    text: Seq<char>,
    in_response: bool,
) -> MultistatusState {
    MultistatusState { responses: responses_view(responses), href, props, text, in_response }
}

/// The models of a list of tokens.
pub open spec fn token_views(v: Seq<XmlToken>) -> Seq<XmlItem> {
    v.map_values(|t: XmlToken| t@)
}

/// The tokens quick-xml reads from `xml`, up to its end or its first error.
fn xml_tokens(xml: &str) -> (r: Vec<XmlToken>)
    ensures
        token_views(r@) == xml_items(xml@),
{
    let mut reader = xml_reader(xml);
    let mut buf: Vec<u8> = Vec::new();
    let mut out: Vec<XmlToken> = Vec::new();
    assert(token_views(out@) =~= Seq::<XmlItem>::empty());
    loop
        invariant_except_break
            xml_items(xml@) == token_views(out@) + pending_items(reader),
        ensures
            xml_items(xml@) == token_views(out@),
        decreases pending_items(reader).len(),
    {
        let ghost pending = pending_items(reader);
        let ghost before = token_views(out@);
        match next_xml_token(&mut reader, &mut buf) {
            Some(t) => {
                let ghost tv = t@;
                out.push(t);
                assert(token_views(out@) =~= before.push(tv));
                assert(pending =~= seq![pending[0]] + pending.drop_first());
                assert(xml_items(xml@) =~= token_views(out@) + pending_items(reader));
            },
            None => {
                assert(pending =~= Seq::<XmlItem>::empty());
                assert(xml_items(xml@) =~= token_views(out@) + pending);
                break;
            },
        }
        buf.clear();
    }
    out
}

/// Reads the responses of a multistatus from its tokens: one (`href`,
/// properties) pair per `response` element, in document order.  The
/// properties map the local name of each element inside the response to its
/// trimmed text, where that is not empty; an empty `calendar` or
/// `addressbook` element inside the response is recorded as
/// `__is_calendar__` or `__is_addressbook__` with the value `1`.
pub fn multistatus_from_tokens(tokens: &Vec<XmlToken>) -> (r: Vec<(String, Props)>)
    ensures
        responses_view(r@) == multistatus_of(token_views(tokens@)),
{
    let ghost items = token_views(tokens@);
    let mut responses: Vec<(String, Props)> = Vec::new();
    let mut href = String::new();
    let mut props = Props::new();
    let mut text = String::new();
    let mut in_response = false;
    assert(responses_view(responses@) =~= Seq::<(Seq<char>, PropsModel)>::empty());
    assert(items.skip(0) =~= items);
    let mut i: usize = 0;
    while i < tokens.len()
        invariant
            i <= tokens@.len(),
            items == token_views(tokens@),
            run(initial_state(), items) == run(
                current(responses@, href@, props@, text@, in_response),
                items.skip(i as int),
            ),
        decreases tokens@.len() - i,
    {
        let ghost before = current(responses@, href@, props@, text@, in_response);
        proof {
            reveal_strlit("response");
            reveal_strlit("calendar");
            reveal_strlit("addressbook");
            reveal_strlit("href");
        }
        match &tokens[i] {
            XmlToken::Start(n) => {
                if same_text(n.as_str(), "response") {
                    in_response = true;
                    href = String::new();
                    props = Props::new();
                }
                text = String::new();
            },
            XmlToken::Empty(n) => {
                if in_response {
                    if same_text(n.as_str(), "calendar") {
                        props.insert(lit("__is_calendar__"), lit("1"));
                    } else if same_text(n.as_str(), "addressbook") {
                        props.insert(lit("__is_addressbook__"), lit("1"));
                    }
                }
            },
            XmlToken::Text(t) => {
                if in_response {
                    match t {
                        Some(t) => {
                            text.append(t.as_str());
                        },
                        None => {},
                    }
                }
            },
            XmlToken::CData(t) => {
                if in_response {
                    text.append(t.as_str());
                }
            },
            XmlToken::End(n) => {
                if in_response {
                    let t = trim_str(text.as_str());
                    if !t.as_str().is_empty() {
                        if same_text(n.as_str(), "href") && href.as_str().is_empty() {
                            href = t.clone();
                        }
                        props.insert(n.clone(), t);
                    }
                    if same_text(n.as_str(), "response") {
                        let ghost old_view = responses_view(responses@);
                        responses.push((href.clone(), props.copy()));
                        assert(responses_view(responses@) =~= old_view.push((href@, props@)));
                        in_response = false;
                    }
                }
                text = String::new();
            },
            XmlToken::Other => {},
        }
        assert(items.skip(i as int).drop_first() =~= items.skip(i + 1));
        assert(items.skip(i as int)[0] == tokens@[i as int]@);
        assert(step(before, tokens@[i as int]@) == current(responses@, href@, props@, text@, in_response));
        i = i + 1;
    }
    assert(items.skip(tokens@.len() as int) =~= Seq::<XmlItem>::empty());
    responses
}

/// Parses a WebDAV multistatus response into one (`href`, properties) pair
/// per `response` element, in document order (see
/// `multistatus_from_tokens`).  Reading stops at the end of the text or at
/// the first XML error.
pub fn parse_multistatus(xml: &str) -> (r: Vec<(String, Props)>)
    ensures
        responses_view(r@) == multistatus_of(xml_items(xml@)),
{
    let tokens = xml_tokens(xml);
    multistatus_from_tokens(&tokens)
}

} // verus!
