//! The events of an XML document, as the reader of the `xml` crate gives
//! them, turned into values that the decoder can look into.

use crate::reading::text_of;
use vstd::prelude::*;
use xml::reader::ParserConfig;
use xml::reader::XmlEvent::{CData, Characters, EndDocument, EndElement, StartElement};

verus! {

/// The mathematical value of an [`Attribute`].
pub struct AttributeView {
    pub prefix: Option<Seq<char>>,
    pub name: Seq<char>,
    pub value: Seq<char>,
}

/// An attribute of an element: its name, split at the colon if it has one,
/// and its value with the references resolved.
#[derive(Debug, PartialEq, Eq)]
pub struct Attribute {
    pub prefix: Option<String>,
    pub name: String,
    pub value: String,
}

impl View for Attribute {
    type V = AttributeView;

    open spec fn view(&self) -> AttributeView {
        AttributeView { prefix: text_of(self.prefix), name: self.name@, value: self.value@ }
    }
}

/// The mathematical values of a list of attributes, in its order.
pub open spec fn attributes_view(attributes: Seq<Attribute>) -> Seq<AttributeView> {
    Seq::new(attributes.len(), |i: int| attributes[i]@)
}

/// The mathematical value of an [`Element`].
pub struct ElementView {
    pub prefix: Option<Seq<char>>,
    pub name: Seq<char>,
    pub attributes: Seq<AttributeView>,
}

/// The opening tag of an element: its name, split at the colon if it has
/// one, and its attributes in the order of the document.
#[derive(Debug, PartialEq, Eq)]
pub struct Element {
    pub prefix: Option<String>,
    pub name: String,
    pub attributes: Vec<Attribute>,
}

impl View for Element {
    type V = ElementView;

    open spec fn view(&self) -> ElementView {
        ElementView {
            prefix: text_of(self.prefix),
            name: self.name@,
            attributes: attributes_view(self.attributes@),
        }
    }
}

/// The mathematical value of a [`Token`].
pub enum TokenView {
    Open(ElementView),
    Text(Seq<char>),
    Close,
    End,
    Other,
}

/// One event of a document: an element opens, character data, an element
/// closes, the document ends, or anything else (a declaration, a processing
/// instruction, a comment), which carries no content of the document.
#[derive(Debug, PartialEq, Eq)]
pub enum Token {
    Open(Element),
    Text(String),
    Close,
    End,
    Other,
}

impl View for Token {
    type V = TokenView;

    open spec fn view(&self) -> TokenView {
        match self {
            Token::Open(element) => TokenView::Open(element@),
            Token::Text(text) => TokenView::Text(text@),
            Token::Close => TokenView::Close,
            Token::End => TokenView::End,
            Token::Other => TokenView::Other,
        }
    }
}

/// The mathematical values of a list of tokens, in its order.
pub open spec fn tokens_view(tokens: Seq<Token>) -> Seq<TokenView> {
    Seq::new(tokens.len(), |i: int| tokens[i]@)
}

/// The events that the reader of the `xml` crate gives for a document, up to
/// and including the end of the document; none where the reader reports an
/// error. The reader trims character data, drops what is only white space,
/// gives CDATA sections as character data and joins adjacent character data.
pub uninterp spec fn xml_tokens(text: Seq<char>) -> Option<Seq<TokenView>>;

/// The error of the `xml` crate's reader. Nothing is known of its content.
#[verifier::external_type_specification]
#[verifier::external_body]
pub struct ExReaderError(xml::reader::Error);

/// What a scan hands back, as mathematical values.
pub open spec fn scanned_view(scanned: Result<Vec<Token>, xml::reader::Error>) -> Option<
    Seq<TokenView>,
> {
    match scanned {
        Ok(tokens) => Some(tokens_view(tokens@)),
        Err(_) => None,
    }
}

/// Runs the `xml::reader::EventReader` that `ParserConfig::create_reader`
/// makes over the document, and collects the events that its iterator gives,
/// each turned into a token, or hands back the reader's error. Comments are
/// left out and adjacent character data is joined, as the reader does unless
/// told otherwise. Trusted: whether there is an error, and the tokens if
/// there is none, depend on the text alone. Nothing else is claimed.
#[verifier::external_body]
pub(crate) fn scan(text: &str) -> (scanned: Result<Vec<Token>, xml::reader::Error>)
    ensures
        scanned_view(scanned) == xml_tokens(text@),
{
    let reader = ParserConfig::new().trim_whitespace(true).whitespace_to_characters(true)
        .cdata_to_characters(true).create_reader(text.as_bytes());
    reader.into_iter().map(|event| Ok(match event? {
        StartElement { name, attributes, .. } => Token::Open(Element {
            prefix: name.prefix,
            name: name.local_name,
            attributes: attributes.into_iter().map(|a| Attribute {
                prefix: a.name.prefix, name: a.name.local_name, value: a.value,
            }).collect(),
        }),
        Characters(data) | CData(data) => Token::Text(data),
        EndElement { .. } => Token::Close,
        EndDocument => Token::End,
        _ => Token::Other,
    })).collect()
}

} // verus!
