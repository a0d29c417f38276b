//! Parsing the text of a data file into its element tree, with roxmltree.
use crate::element::{Attr, Elem, ElemV};
use vstd::prelude::*;

verus! {

#[verifier::external_type_specification]
#[verifier::external_body]
pub struct ExXmlNode<'a, 'input: 'a>(roxmltree::Node<'a, 'input>);

#[verifier::external_type_specification]
#[verifier::external_body]
pub struct ExXmlError(roxmltree::Error);

/// The root element of the XML document `text`, as plain values, or
/// `None` where `text` is not a well-formed XML document (what
/// `roxmltree::Document::parse` decides).
pub uninterp spec fn xml_root_of(text: Seq<char>) -> Option<ElemV>;

/// The element `node` of a parsed document, one for one: its local name,
/// its attributes in order (namespace, local name, value), the text that
/// is its first child (as `roxmltree::Node::text` gives it for an
/// element) and its child elements in order. This only converts the
/// tree that `parse_xml` got from roxmltree; nothing is said of it apart
/// from that call.
#[verifier::external_body]
fn elem_of_node(node: roxmltree::Node) -> Elem {
    Elem {
        name: node.tag_name().name().to_string(),
        attrs: node.attributes().map(|a| Attr {
            ns: a.namespace().map(String::from),
            name: a.name().to_string(),
            value: a.value().to_string(),
        }).collect(),
        text: node.text().map(String::from),
        children: node.children().filter(|c| c.is_element()).map(elem_of_node).collect(),
    }
}

/// Parse `text` with `roxmltree::Document::parse` and give its root
/// element (`Document::root_element`) as an `Elem`. Trusted: the result is
/// the named `xml_root_of(text@)`, and the error comes exactly where that
/// name is `None`; nothing more is said of the parser.
#[verifier::external_body]
pub fn parse_xml(text: &str) -> (r: Result<Elem, roxmltree::Error>)
    ensures
        r matches Ok(e) ==> xml_root_of(text@) == Some(e@),
        r is Err <==> xml_root_of(text@) is None,
{
    match roxmltree::Document::parse(text) {
        Ok(doc) => Ok(elem_of_node(doc.root_element())),
        Err(e) => Err(e),
    }
}

} // verus!
