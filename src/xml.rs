//! A plain XML element tree, read from text by xmltree.
use vstd::prelude::*;

verus! {

/// One node below an element.
#[derive(Debug)]
pub enum XmlNode {
    Element(XmlElement),
    /// Character data: text or a CDATA section.
    Text(String),
    /// A comment or a processing instruction.
    Other,
}

/// An element: its local name, its attributes in document order, and its children.
#[derive(Debug)]
pub struct XmlElement {
    pub name: String,
    pub attributes: Vec<(String, String)>,
    pub children: Vec<XmlNode>,
}

/// The value of the first attribute named `key`.
pub open spec fn find_attr(attrs: Seq<(String, String)>, key: Seq<char>) -> Option<String>
    decreases attrs.len(),
{
    if attrs.len() == 0 {
        None
    } else if attrs[0].0@ == key {
        Some(attrs[0].1)
    } else {
        find_attr(attrs.drop_first(), key)
    }
}

/// The root element that xmltree reads from `text`, or none where the text is not
/// well-formed XML.
pub uninterp spec fn xml_document_of(text: Seq<char>) -> Option<XmlElement>;

#[verifier::external_type_specification]
#[verifier::external_body]
pub struct ExXmlTreeElement(xmltree::Element);

/// Relies on xmltree::Element::parse: the root element of the document, with its
/// attributes in document order (the `attribute-order` feature), so that the tree
/// depends on the text alone.
#[verifier::external_body]
pub(crate) fn parse_document(text: &str) -> (r: Option<XmlElement>)
    ensures
        r == xml_document_of(text@),
{
    match xmltree::Element::parse(text.as_bytes()) {
        Ok(root) => Some(element_from_tree(root)),
        Err(_) => None,
    }
}

/// Relies on the public fields of xmltree::Element and xmltree::XMLNode: copies the
/// local name, the attributes in order and the children one for one (xmltree
/// reports a CDATA section inside an element as text).
#[verifier::external_body]
fn element_from_tree(e: xmltree::Element) -> XmlElement {
    XmlElement {
        name: e.name,
        attributes: e.attributes.into_iter().collect(),
        children: e.children.into_iter().map(|c| match c {
            xmltree::XMLNode::Element(child) => XmlNode::Element(element_from_tree(child)),
            xmltree::XMLNode::CData(s) => XmlNode::Text(s),
            xmltree::XMLNode::Text(s) => XmlNode::Text(s),
            _ => XmlNode::Other,
        }).collect(),
    }
}

/// Whether two strings hold the same characters.
pub fn str_equal(a: &str, b: &str) -> (r: bool)
    ensures
        r == (a@ == b@),
{
    a.to_owned() == b.to_owned()
}

impl XmlElement {
    /// Whether the element's local name is `name`.
    pub fn is_named(&self, name: &str) -> (r: bool)
        ensures
            r == (self.name@ == name@),
    {
        str_equal(self.name.as_str(), name)
    }

    /// The value of the attribute named `key`, if the element has one.
    pub fn attribute(&self, key: &str) -> (r: Option<String>)
        ensures
            r == find_attr(self.attributes@, key@),
    {
        let mut i: usize = 0;
        assert(self.attributes@.subrange(0, self.attributes@.len() as int) =~= self.attributes@);
        while i < self.attributes.len()
            invariant
                0 <= i <= self.attributes@.len(),
                find_attr(self.attributes@, key@) == find_attr(
                    self.attributes@.subrange(i as int, self.attributes@.len() as int),
                    key@,
                ),
            decreases self.attributes@.len() - i,
        {
            let rest = Ghost(self.attributes@.subrange(i as int, self.attributes@.len() as int));
            assert(rest@.drop_first() =~= self.attributes@.subrange(
                i + 1,
                self.attributes@.len() as int,
            ));
            assert(rest@[0] == self.attributes@[i as int]);
            if str_equal(self.attributes[i].0.as_str(), key) {
                return Some(self.attributes[i].1.clone());
            }
            i = i + 1;
        }
        None
    }
}

} // verus!
