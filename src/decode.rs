//! Decoding DBGp replies from their XML element tree.
use vstd::prelude::*;

use crate::dbgp::CommandResponse;
use crate::dbgp::ContextGetResponse;
use crate::dbgp::ContinuationResponse;
use crate::dbgp::ContinuationStatus;
use crate::dbgp::EvalError;
use crate::dbgp::EvalResponse;
use crate::dbgp::Init;
use crate::dbgp::Message;
use crate::dbgp::Property;
use crate::dbgp::PropertyType;
use crate::dbgp::Response;
use crate::dbgp::StackEntry;
use crate::dbgp::StackGetResponse;
use crate::text::base64_text;
use crate::text::decimal_value;
use crate::text::decode_utf8;
use crate::text::utf8_decoded;
use crate::text::decode_base64_text;
use crate::text::is_decimal;
use crate::text::parse_u32;
use crate::xml::find_attr;
use crate::xml::parse_document;
use crate::xml::str_equal;
use crate::xml::xml_document_of;
use crate::xml::XmlElement;
use crate::xml::XmlNode;

verus! {

broadcast use vstd::std_specs::vec::group_vec_axioms;

/// Why a frame could not be turned into a message.
#[derive(PartialEq, Eq, Structural, Clone, Copy, Debug)]
pub enum DbgpError {
    /// The transport failed or the frame was cut short.
    Transport,
    /// The frame held no payload.
    EmptyFrame,
    /// The payload is not a DBGp message of the expected shape.
    Protocol,
}

// ---- attributes --------------------------------------------------------------

/// An optional numeric attribute: `Some(None)` when absent, `Some(Some(n))` when
/// it holds a `u32`, and `None` when it holds anything else.
pub open spec fn optional_number(a: Option<String>) -> Option<Option<u32>> {
    match a {
        None => Some(None),
        Some(s) => if is_decimal(s@) && decimal_value(s@) <= u32::MAX {
            Some(Some(decimal_value(s@) as u32))
        } else {
            None
        },
    }
}

fn read_optional_number(a: Option<String>) -> (r: Option<Option<u32>>)
    ensures
        r == optional_number(a),
{
    match a {
        None => Some(None),
        Some(s) => match parse_u32(s.as_str()) {
            Some(n) => Some(Some(n)),
            None => None,
        },
    }
}

// ---- continuation ------------------------------------------------------------

/// The status that a `status` attribute names.
pub open spec fn status_of(s: String) -> ContinuationStatus {
    if s@ == "break"@ {
        ContinuationStatus::Break
    } else if s@ == "stopping"@ {
        ContinuationStatus::Stopping
    } else {
        ContinuationStatus::Unknown(s)
    }
}

/// The continuation reply that a response element carries: present whenever the
/// element has a `status`; the `reason` is optional.
pub open spec fn continuation_of(attrs: Seq<(String, String)>) -> Option<ContinuationResponse> {
    match find_attr(attrs, "status"@) {
        Some(s) => Some(ContinuationResponse { status: status_of(s), reason: find_attr(attrs, "reason"@) }),
        None => None,
    }
}

/// Reads the `status` and `reason` attributes of a continuation reply.
pub fn parse_continuation_response(e: &XmlElement) -> (r: Option<ContinuationResponse>)
    ensures
        r == continuation_of(e.attributes@),
{
    let status = match e.attribute("status") {
        Some(s) => s,
        None => return None,
    };
    let reason = e.attribute("reason");
    let st = if str_equal(status.as_str(), "break") {
        ContinuationStatus::Break
    } else if str_equal(status.as_str(), "stopping") {
        ContinuationStatus::Stopping
    } else {
        ContinuationStatus::Unknown(status)
    };
    Some(ContinuationResponse { status: st, reason })
}

// ---- stack -------------------------------------------------------------------

/// The stack entry that a `stack` element describes.
pub open spec fn stack_entry_of(e: XmlElement) -> Option<StackEntry> {
    match (find_attr(e.attributes@, "filename"@), find_attr(e.attributes@, "lineno"@)) {
        (Some(filename), Some(l)) => match optional_number(Some(l)) {
            Some(Some(line)) => Some(StackEntry { filename, line }),
            _ => None,
        },
        _ => None,
    }
}

/// The entries of the `stack` elements among `nodes`, in document order.
pub open spec fn stack_entries(nodes: Seq<XmlNode>) -> Option<Seq<StackEntry>>
    decreases nodes.len(),
{
    if nodes.len() == 0 {
        Some(Seq::empty())
    } else {
        match stack_entries(nodes.drop_last()) {
            None => None,
            Some(prev) => match nodes.last() {
                XmlNode::Element(e) => if e.name@ == "stack"@ {
                    match stack_entry_of(e) {
                        Some(entry) => Some(prev.push(entry)),
                        None => None,
                    }
                } else {
                    Some(prev)
                },
                _ => Some(prev),
            },
        }
    }
}

fn stack_entry_from(e: &XmlElement) -> (r: Option<StackEntry>)
    ensures
        r == stack_entry_of(*e),
{
    let filename = match e.attribute("filename") {
        Some(s) => s,
        None => return None,
    };
    let l = match e.attribute("lineno") {
        Some(s) => s,
        None => return None,
    };
    match read_optional_number(Some(l)) {
        Some(Some(line)) => Some(StackEntry { filename, line }),
        _ => None,
    }
}

/// Reads the stack of a `stack_get` reply, innermost frame first.
pub fn parse_stack_get(root: &XmlElement) -> (r: Option<StackGetResponse>)
    ensures
        match r {
            Some(s) => stack_entries(root.children@) == Some(s.entries@),
            None => stack_entries(root.children@).is_none(),
        },
{
    let mut entries: Vec<StackEntry> = Vec::new();
    let mut i: usize = 0;
    while i < root.children.len()
        invariant
            0 <= i <= root.children@.len(),
            stack_entries(root.children@.subrange(0, i as int)) == Some(entries@),
        decreases root.children@.len() - i,
    {
        assert(root.children@.subrange(0, (i + 1) as int).drop_last() =~= root.children@.subrange(
            0,
            i as int,
        ));
        match &root.children[i] {
            XmlNode::Element(e) => {
                if e.is_named("stack") {
                    match stack_entry_from(e) {
                        Some(entry) => entries.push(entry),
                        None => {
                            proof {
                                lemma_stack_entries_fail(root.children@, (i + 1) as nat);
                            }
                            return None;
                        },
                    }
                }
            },
            _ => {},
        }
        i = i + 1;
    }
    assert(root.children@.subrange(0, root.children@.len() as int) =~= root.children@);
    Some(StackGetResponse { entries })
}

/// Once a prefix of the nodes fails to read as a stack, so does the whole.
proof fn lemma_stack_entries_fail(nodes: Seq<XmlNode>, k: nat)
    requires
        k <= nodes.len(),
        stack_entries(nodes.subrange(0, k as int)).is_none(),
    ensures
        stack_entries(nodes).is_none(),
    decreases nodes.len() - k,
{
    if k == nodes.len() {
        assert(nodes.subrange(0, k as int) =~= nodes);
    } else {
        assert(nodes.subrange(0, (k + 1) as int).drop_last() =~= nodes.subrange(0, k as int));
        lemma_stack_entries_fail(nodes, k + 1);
    }
}

// ---- source ------------------------------------------------------------------

/// The text of a `source` reply: its first child, base64 character data.
pub open spec fn source_text(root: XmlElement) -> Option<Seq<char>> {
    if root.children@.len() > 0 {
        match root.children@[0] {
            XmlNode::Text(c) => base64_text(c@),
            _ => None,
        }
    } else {
        None
    }
}

/// Reads the source text of a `source` reply.
pub fn parse_source(root: &XmlElement) -> (r: Option<String>)
    ensures
        match r {
            Some(s) => source_text(*root) == Some(s@),
            None => source_text(*root).is_none(),
        },
{
    if root.children.len() == 0 {
        return None;
    }
    match &root.children[0] {
        XmlNode::Text(c) => decode_base64_text(c.as_str()),
        _ => None,
    }
}

// ---- properties --------------------------------------------------------------

/// The type that a `type` attribute names; unknown names are `Undefined`.
pub open spec fn property_type_of(s: Seq<char>) -> PropertyType {
    if s == "bool"@ {
        PropertyType::Bool
    } else if s == "int"@ {
        PropertyType::Int
    } else if s == "float"@ {
        PropertyType::Float
    } else if s == "string"@ {
        PropertyType::String
    } else if s == "null"@ {
        PropertyType::Null
    } else if s == "array"@ {
        PropertyType::Array
    } else if s == "hash"@ {
        PropertyType::Hash
    } else if s == "object"@ {
        PropertyType::Object
    } else if s == "resource"@ {
        PropertyType::Resource
    } else {
        PropertyType::Undefined
    }
}

/// The name of each property type.
pub open spec fn property_type_name(t: PropertyType) -> Seq<char> {
    match t {
        PropertyType::Bool => "bool"@,
        PropertyType::Int => "int"@,
        PropertyType::Float => "float"@,
        PropertyType::String => "string"@,
        PropertyType::Null => "null"@,
        PropertyType::Array => "array"@,
        PropertyType::Hash => "hash"@,
        PropertyType::Object => "object"@,
        PropertyType::Resource => "resource"@,
        PropertyType::Undefined => "undefined"@,
    }
}

impl PropertyType {
    /// The type's name in the protocol.
    pub fn as_str(&self) -> (r: &'static str)
        ensures
            r@ == property_type_name(*self),
    {
        match self {
            PropertyType::Bool => "bool",
            PropertyType::Int => "int",
            PropertyType::Float => "float",
            PropertyType::String => "string",
            PropertyType::Null => "null",
            PropertyType::Array => "array",
            PropertyType::Hash => "hash",
            PropertyType::Object => "object",
            PropertyType::Resource => "resource",
            PropertyType::Undefined => "undefined",
        }
    }

    /// The type that the protocol name `expect` names; unknown names are `Undefined`.
    pub fn from_str(expect: &str) -> (r: PropertyType)
        ensures
            r == property_type_of(expect@),
    {
        if str_equal(expect, "bool") {
            PropertyType::Bool
        } else if str_equal(expect, "int") {
            PropertyType::Int
        } else if str_equal(expect, "float") {
            PropertyType::Float
        } else if str_equal(expect, "string") {
            PropertyType::String
        } else if str_equal(expect, "null") {
            PropertyType::Null
        } else if str_equal(expect, "array") {
            PropertyType::Array
        } else if str_equal(expect, "hash") {
            PropertyType::Hash
        } else if str_equal(expect, "object") {
            PropertyType::Object
        } else if str_equal(expect, "resource") {
            PropertyType::Resource
        } else {
            PropertyType::Undefined
        }
    }
}

/// Whether a node is a nested `property` element.
pub open spec fn is_property_node(n: XmlNode) -> bool {
    match n {
        XmlNode::Element(e) => e.name@ == "property"@,
        _ => false,
    }
}

/// The nested `property` elements among `nodes`, in document order.
pub open spec fn property_elements(nodes: Seq<XmlNode>) -> Seq<XmlElement>
    decreases nodes.len(),
{
    if nodes.len() == 0 {
        Seq::empty()
    } else {
        let prev = property_elements(nodes.drop_last());
        match nodes.last() {
            XmlNode::Element(e) => if e.name@ == "property"@ {
                prev.push(e)
            } else {
                prev
            },
            _ => prev,
        }
    }
}

/// The first node among `nodes` that is not a nested property.
pub open spec fn first_value_node(nodes: Seq<XmlNode>) -> Option<XmlNode>
    decreases nodes.len(),
{
    if nodes.len() == 0 {
        None
    } else {
        match first_value_node(nodes.drop_last()) {
            Some(n) => Some(n),
            None => if is_property_node(nodes.last()) {
                None
            } else {
                Some(nodes.last())
            },
        }
    }
}

/// The value of a property: the character data of its first non-property child,
/// base64-decoded when the encoding is `base64`. `None` when that child is not
/// character data; `Some(None)`
/// when the base64 does not decode to UTF-8 text.
pub open spec fn property_value(nodes: Seq<XmlNode>, encoding: Option<String>) -> Option<
    Option<Seq<char>>,
> {
    match first_value_node(nodes) {
        Some(XmlNode::Text(c)) => if encoding.is_some() && encoding->0@ == "base64"@ {
            Some(base64_text(c@))
        } else {
            Some(Some(c@))
        },
        _ => None,
    }
}

/// The attributes and value of a property element can be read.
pub open spec fn property_fields_readable(e: XmlElement) -> bool {
    let a = e.attributes@;
    &&& find_attr(a, "type"@).is_some()
    &&& optional_number(find_attr(a, "page"@)).is_some()
    &&& optional_number(find_attr(a, "pagesize"@)).is_some()
    &&& optional_number(find_attr(a, "size"@)).is_some()
    &&& match property_value(e.children@, find_attr(a, "encoding"@)) {
        Some(v) => v.is_some(),
        None => true,
    }
}

/// The `name` attribute, or an empty name where there is none (as in the result of
/// an evaluation).
pub open spec fn name_is(attr: Option<String>, name: String) -> bool {
    match attr {
        Some(n) => name == n,
        None => name@ == Seq::<char>::empty(),
    }
}

/// `p` holds what the attributes and value of the element `e` say. Its full name is
/// read from the `name` attribute, as the engine's short names are the ones matched
/// against source variables.
pub open spec fn property_fields(e: XmlElement, p: Property) -> bool {
    let a = e.attributes@;
    &&& name_is(find_attr(a, "name"@), p.name)
    &&& name_is(find_attr(a, "name"@), p.fullname)
    &&& p.classname == find_attr(a, "classname"@)
    &&& optional_number(find_attr(a, "page"@)) == Some(p.page)
    &&& optional_number(find_attr(a, "pagesize"@)) == Some(p.pagesize)
    &&& optional_number(find_attr(a, "size"@)) == Some(p.size)
    &&& find_attr(a, "type"@) matches Some(t) && p.property_type == property_type_of(t@)
    &&& p.facet == find_attr(a, "facet"@)
    &&& p.key == find_attr(a, "key"@)
    &&& p.address == find_attr(a, "address"@)
    &&& p.encoding == find_attr(a, "encoding"@)
    &&& match property_value(e.children@, p.encoding) {
        Some(Some(v)) => p.value matches Some(s) && s@ == v,
        Some(None) => false,
        None => p.value.is_none(),
    }
}

/// Every property element down to `depth` levels below `e` can be read.
pub open spec fn property_readable(e: XmlElement, depth: nat) -> bool
    decreases depth,
{
    &&& property_fields_readable(e)
    &&& depth > 0 ==> forall|i: int|
        0 <= i < property_elements(e.children@).len() ==> property_readable(
            #[trigger] property_elements(e.children@)[i],
            (depth - 1) as nat,
        )
}

/// `props` are the properties read from `elems`, one for one, down to `depth` levels.
pub open spec fn properties_read(elems: Seq<XmlElement>, props: Seq<Property>, depth: nat) -> bool
    decreases depth, 1nat,
{
    &&& props.len() == elems.len()
    &&& forall|i: int|
        0 <= i < elems.len() ==> property_read(#[trigger] elems[i], props[i], depth)
}

/// `p` is the property read from `e`, down to `depth` levels of nesting.
pub open spec fn property_read(e: XmlElement, p: Property, depth: nat) -> bool
    decreases depth, 0nat,
{
    &&& property_fields(e, p)
    &&& depth > 0 ==> properties_read(property_elements(e.children@), p.children@, (depth - 1) as nat)
}

/// `p` is the property read from `e`, at every depth.
pub open spec fn property_decodes(e: XmlElement, p: Property) -> bool {
    forall|d: nat| #[trigger] property_read(e, p, d)
}

/// Every nested property element of `e` can be read, at every depth.
pub open spec fn property_decodable(e: XmlElement) -> bool {
    forall|d: nat| #[trigger] property_readable(e, d)
}

fn property_value_from(children: &Vec<XmlNode>, encoding: &Option<String>) -> (r: Option<
    Option<String>,
>)
    ensures
        match property_value(children@, *encoding) {
            None => r.is_none(),
            Some(None) => r == Some(None::<String>),
            Some(Some(v)) => r matches Some(Some(s)) && s@ == v,
        },
{
    let mut i: usize = 0;
    while i < children.len()
        invariant
            0 <= i <= children@.len(),
            first_value_node(children@.subrange(0, i as int)).is_none(),
        decreases children@.len() - i,
    {
        assert(children@.subrange(0, (i + 1) as int).drop_last() =~= children@.subrange(0, i as int));
        let is_prop = match &children[i] {
            XmlNode::Element(e) => e.is_named("property"),
            _ => false,
        };
        if !is_prop {
            proof {
                lemma_first_value_node_stays(children@, (i + 1) as nat);
            }
            return match &children[i] {
                XmlNode::Text(c) => {
                    let is_base64 = match encoding {
                        Some(enc) => str_equal(enc.as_str(), "base64"),
                        None => false,
                    };
                    if is_base64 {
                        Some(decode_base64_text(c.as_str()))
                    } else {
                        Some(Some(c.clone()))
                    }
                },
                _ => None,
            };
        }
        i = i + 1;
    }
    assert(children@.subrange(0, children@.len() as int) =~= children@);
    None
}

/// Once a prefix of the nodes has a value node, the whole has the same one.
proof fn lemma_first_value_node_stays(nodes: Seq<XmlNode>, k: nat)
    requires
        k <= nodes.len(),
        first_value_node(nodes.subrange(0, k as int)).is_some(),
    ensures
        first_value_node(nodes) == first_value_node(nodes.subrange(0, k as int)),
    decreases nodes.len() - k,
{
    if k == nodes.len() {
        assert(nodes.subrange(0, k as int) =~= nodes);
    } else {
        assert(nodes.subrange(0, (k + 1) as int).drop_last() =~= nodes.subrange(0, k as int));
        lemma_first_value_node_stays(nodes, k + 1);
    }
}

/// Reads one `property` element and the properties nested in it.
pub fn parse_property(e: &XmlElement) -> (r: Result<Property, DbgpError>)
    ensures
        match r {
            Ok(p) => property_decodes(*e, p),
            Err(err) => err == DbgpError::Protocol && !property_decodable(*e),
        },
    decreases e,
{
    let name = match e.attribute("name") {
        Some(s) => s,
        None => String::new(),
    };
    let type_attr = match e.attribute("type") {
        Some(s) => s,
        None => {
            proof { assert(!property_readable(*e, 0)); }
            return Err(DbgpError::Protocol);
        },
    };
    let page = match read_optional_number(e.attribute("page")) {
        Some(n) => n,
        None => {
            proof { assert(!property_readable(*e, 0)); }
            return Err(DbgpError::Protocol);
        },
    };
    let pagesize = match read_optional_number(e.attribute("pagesize")) {
        Some(n) => n,
        None => {
            proof { assert(!property_readable(*e, 0)); }
            return Err(DbgpError::Protocol);
        },
    };
    let size = match read_optional_number(e.attribute("size")) {
        Some(n) => n,
        None => {
            proof { assert(!property_readable(*e, 0)); }
            return Err(DbgpError::Protocol);
        },
    };
    let encoding = e.attribute("encoding");
    let value = match property_value_from(&e.children, &encoding) {
        Some(Some(v)) => Some(v),
        Some(None) => {
            proof { assert(!property_readable(*e, 0)); }
            return Err(DbgpError::Protocol);
        },
        None => None,
    };
    let mut children: Vec<Property> = Vec::new();
    let mut i: usize = 0;
    while i < e.children.len()
        invariant
            0 <= i <= e.children@.len(),
            children@.len() == property_elements(e.children@.subrange(0, i as int)).len(),
            forall|j: int|
                0 <= j < children@.len() ==> property_decodes(
                    #[trigger] property_elements(e.children@.subrange(0, i as int))[j],
                    children@[j],
                ),
        decreases e.children@.len() - i,
    {
        let ghost before = property_elements(e.children@.subrange(0, i as int));
        assert(e.children@.subrange(0, (i + 1) as int).drop_last() =~= e.children@.subrange(0, i as int));
        match &e.children[i] {
            XmlNode::Element(child) => {
                if child.is_named("property") {
                    proof {
                        vstd::std_specs::vec::axiom_vec_index_decreases(e.children, i as int);
                        assert(e.children@[i as int] == XmlNode::Element(*child));
                        assert(decreases_to!(*e => e.children));
                        assert(decreases_to!(e.children@[i as int] => *child));
                        assert(decreases_to!(*e => *child));
                    }
                    match parse_property(child) {
                        Ok(p) => {
                            children.push(p);
                        },
                        Err(err) => {
                            proof {
                                lemma_properties_fail(e.children@, (i + 1) as nat, *child);
                                assert(property_elements(e.children@.subrange(0, (i + 1) as int)).last()
                                    == *child);
                                lemma_unreadable_parent(*e, *child);
                            }
                            return Err(err);
                        },
                    }
                }
            },
            _ => {},
        }
        i = i + 1;
    }
    assert(e.children@.subrange(0, e.children@.len() as int) =~= e.children@);
    let property_type = PropertyType::from_str(type_attr.as_str());
    let fullname = name.clone();
    let p = Property {
        name,
        fullname,
        classname: e.attribute("classname"),
        page,
        pagesize,
        property_type,
        facet: e.attribute("facet"),
        size,
        children,
        key: e.attribute("key"),
        address: e.attribute("address"),
        encoding,
        value,
    };
    proof {
        assert forall|d: nat| #[trigger] property_read(*e, p, d) by {
            if d > 0 {
                let elems = property_elements(e.children@);
                assert forall|j: int| 0 <= j < elems.len() implies property_read(
                    #[trigger] elems[j],
                    p.children@[j],
                    (d - 1) as nat,
                ) by {
                    assert(property_decodes(elems[j], p.children@[j]));
                }
            }
        }
    }
    Ok(p)
}

/// The element `child` is the last nested property of a prefix of `nodes`, so it is
/// one of the nested properties of `nodes`.
proof fn lemma_properties_fail(nodes: Seq<XmlNode>, k: nat, child: XmlElement)
    requires
        0 < k <= nodes.len(),
        nodes[k - 1] == XmlNode::Element(child),
        child.name@ == "property"@,
    ensures
        exists|j: int|
            0 <= j < property_elements(nodes).len() && #[trigger] property_elements(nodes)[j]
                == child,
    decreases nodes.len() - k,
{
    if k == nodes.len() {
        assert(property_elements(nodes).last() == child);
    } else {
        lemma_properties_fail(nodes.drop_last(), k, child);
        let j = choose|j: int|
            0 <= j < property_elements(nodes.drop_last()).len() && #[trigger] property_elements(
                nodes.drop_last(),
            )[j] == child;
        assert(property_elements(nodes)[j] == child);
    }
}

/// A property with an unreadable nested property is unreadable.
proof fn lemma_unreadable_parent(e: XmlElement, child: XmlElement)
    requires
        !property_decodable(child),
        exists|j: int|
            0 <= j < property_elements(e.children@).len() && #[trigger] property_elements(
                e.children@,
            )[j] == child,
    ensures
        !property_decodable(e),
{
    let d = choose|d: nat| !#[trigger] property_readable(child, d);
    let j = choose|j: int|
        0 <= j < property_elements(e.children@).len() && #[trigger] property_elements(
            e.children@,
        )[j] == child;
    assert(!property_readable(e, d + 1));
}

// ---- contexts and messages ---------------------------------------------------

/// `props` are the properties read from `elems`, one for one.
pub open spec fn properties_decode(elems: Seq<XmlElement>, props: Seq<Property>) -> bool {
    &&& props.len() == elems.len()
    &&& forall|j: int| 0 <= j < elems.len() ==> property_decodes(#[trigger] elems[j], props[j])
}

/// Every one of `elems` can be read as a property.
pub open spec fn properties_decodable(elems: Seq<XmlElement>) -> bool {
    forall|j: int| 0 <= j < elems.len() ==> property_decodable(#[trigger] elems[j])
}

/// Reads the properties of a `context_get` reply.
pub fn parse_context_get(root: &XmlElement) -> (r: Result<ContextGetResponse, DbgpError>)
    ensures
        match r {
            Ok(c) => properties_decode(property_elements(root.children@), c.properties@),
            Err(err) => err == DbgpError::Protocol && !properties_decodable(
                property_elements(root.children@),
            ),
        },
{
    let mut properties: Vec<Property> = Vec::new();
    let mut i: usize = 0;
    while i < root.children.len()
        invariant
            0 <= i <= root.children@.len(),
            properties_decode(property_elements(root.children@.subrange(0, i as int)), properties@),
        decreases root.children@.len() - i,
    {
        assert(root.children@.subrange(0, (i + 1) as int).drop_last() =~= root.children@.subrange(
            0,
            i as int,
        ));
        match &root.children[i] {
            XmlNode::Element(child) => {
                if child.is_named("property") {
                    match parse_property(child) {
                        Ok(p) => properties.push(p),
                        Err(err) => {
                            proof {
                                lemma_properties_fail(root.children@, (i + 1) as nat, *child);
                            }
                            return Err(err);
                        },
                    }
                }
            },
            _ => {},
        }
        i = i + 1;
    }
    assert(root.children@.subrange(0, root.children@.len() as int) =~= root.children@);
    Ok(ContextGetResponse { properties })
}

/// The first element among `nodes` named `name`.
pub open spec fn first_element_named(nodes: Seq<XmlNode>, name: Seq<char>) -> Option<XmlElement>
    decreases nodes.len(),
{
    if nodes.len() == 0 {
        None
    } else {
        match nodes[0] {
            XmlNode::Element(e) => if e.name@ == name {
                Some(e)
            } else {
                first_element_named(nodes.drop_first(), name)
            },
            _ => first_element_named(nodes.drop_first(), name),
        }
    }
}

fn find_element<'a>(nodes: &'a Vec<XmlNode>, name: &str) -> (r: Option<&'a XmlElement>)
    ensures
        match r {
            Some(e) => first_element_named(nodes@, name@) == Some(*e),
            None => first_element_named(nodes@, name@).is_none(),
        },
{
    let mut i: usize = 0;
    assert(nodes@.subrange(0, nodes@.len() as int) =~= nodes@);
    while i < nodes.len()
        invariant
            0 <= i <= nodes@.len(),
            first_element_named(nodes@, name@) == first_element_named(
                nodes@.subrange(i as int, nodes@.len() as int),
                name@,
            ),
        decreases nodes@.len() - i,
    {
        let ghost rest = nodes@.subrange(i as int, nodes@.len() as int);
        assert(rest.drop_first() =~= nodes@.subrange(i + 1, nodes@.len() as int));
        assert(rest[0] == nodes@[i as int]);
        match &nodes[i] {
            XmlNode::Element(e) => {
                if e.is_named(name) {
                    return Some(e);
                }
            },
            _ => {},
        }
        i = i + 1;
    }
    None
}

/// The text of an evaluation error: the character data that starts its `message`
/// element, or nothing.
pub open spec fn error_message(err: XmlElement) -> Seq<char> {
    match first_element_named(err.children@, "message"@) {
        Some(m) => if m.children@.len() > 0 {
            match m.children@[0] {
                XmlNode::Text(t) => t@,
                _ => Seq::empty(),
            }
        } else {
            Seq::empty()
        },
        None => Seq::empty(),
    }
}

/// `ev` is what an `eval` reply carries: the `error` element's code and message
/// where there is one, else the properties.
pub open spec fn eval_decodes(root: XmlElement, ev: EvalResponse) -> bool {
    match first_element_named(root.children@, "error"@) {
        Some(err) => {
            &&& ev.properties@.len() == 0
            &&& ev.error matches Some(x) && name_is(find_attr(err.attributes@, "code"@), x.code)
                && x.message@ == error_message(err)
        },
        None => ev.error.is_none() && properties_decode(
            property_elements(root.children@),
            ev.properties@,
        ),
    }
}

/// An `eval` reply can be read: it holds an error, or readable properties.
pub open spec fn eval_decodable(root: XmlElement) -> bool {
    first_element_named(root.children@, "error"@).is_some() || properties_decodable(
        property_elements(root.children@),
    )
}

/// Reads the result of an `eval` reply.
pub fn parse_eval(root: &XmlElement) -> (r: Result<EvalResponse, DbgpError>)
    ensures
        match r {
            Ok(ev) => eval_decodes(*root, ev),
            Err(err) => err == DbgpError::Protocol && !eval_decodable(*root),
        },
{
    match find_element(&root.children, "error") {
        Some(err) => {
            let code = match err.attribute("code") {
                Some(c) => c,
                None => String::new(),
            };
            let message = match find_element(&err.children, "message") {
                Some(m) => {
                    if m.children.len() > 0 {
                        match &m.children[0] {
                            XmlNode::Text(t) => t.clone(),
                            _ => String::new(),
                        }
                    } else {
                        String::new()
                    }
                },
                None => String::new(),
            };
            Ok(EvalResponse { properties: Vec::new(), error: Some(EvalError { code, message }) })
        },
        None => match parse_context_get(root) {
            Ok(c) => Ok(EvalResponse { properties: c.properties, error: None }),
            Err(e) => Err(e),
        },
    }
}

/// `body` is what a reply to `command` carries in `root`.
pub open spec fn body_decodes(root: XmlElement, command: Seq<char>, body: CommandResponse) -> bool {
    if command == "step_into"@ {
        body matches CommandResponse::StepInto(c) && continuation_of(root.attributes@) == Some(c)
    } else if command == "step_over"@ {
        body matches CommandResponse::StepOver(c) && continuation_of(root.attributes@) == Some(c)
    } else if command == "step_out"@ {
        body matches CommandResponse::StepOut(c) && continuation_of(root.attributes@) == Some(c)
    } else if command == "run"@ {
        body matches CommandResponse::Run(c) && continuation_of(root.attributes@) == Some(c)
    } else if command == "stack_get"@ {
        body matches CommandResponse::StackGet(s) && stack_entries(root.children@) == Some(
            s.entries@,
        )
    } else if command == "source"@ {
        body matches CommandResponse::Source(t) && source_text(root) == Some(t@)
    } else if command == "context_get"@ {
        body matches CommandResponse::ContextGet(c) && properties_decode(
            property_elements(root.children@),
            c.properties@,
        )
    } else if command == "eval"@ {
        body matches CommandResponse::Eval(ev) && eval_decodes(root, ev)
    } else {
        body matches CommandResponse::Unknown
    }
}

/// The body of a reply to `command` can be read from `root`.
pub open spec fn body_decodable(root: XmlElement, command: Seq<char>) -> bool {
    if command == "step_into"@ || command == "step_over"@ || command == "step_out"@ || command
        == "run"@ {
        continuation_of(root.attributes@).is_some()
    } else if command == "stack_get"@ {
        stack_entries(root.children@).is_some()
    } else if command == "source"@ {
        source_text(root).is_some()
    } else if command == "context_get"@ {
        properties_decodable(property_elements(root.children@))
    } else if command == "eval"@ {
        eval_decodable(root)
    } else {
        true
    }
}

/// `m` is the message that the root element `root` carries.
pub open spec fn message_decodes(root: XmlElement, m: Message) -> bool {
    let a = root.attributes@;
    if root.name@ == "init"@ {
        m matches Message::Init(i) && find_attr(a, "fileuri"@) == Some(i.fileuri)
    } else if root.name@ == "response"@ {
        &&& m matches Message::Response(r)
        &&& find_attr(a, "transaction_id"@) == Some(r.transaction_id)
        &&& find_attr(a, "command"@) matches Some(c) && body_decodes(root, c@, r.command)
    } else {
        false
    }
}

/// `root` is an init packet or a reply that can be read.
pub open spec fn message_decodable(root: XmlElement) -> bool {
    let a = root.attributes@;
    if root.name@ == "init"@ {
        find_attr(a, "fileuri"@).is_some()
    } else if root.name@ == "response"@ {
        &&& find_attr(a, "transaction_id"@).is_some()
        &&& find_attr(a, "command"@) matches Some(c) && body_decodable(root, c@)
    } else {
        false
    }
}

fn parse_body(root: &XmlElement, command: &String) -> (r: Result<CommandResponse, DbgpError>)
    ensures
        match r {
            Ok(b) => body_decodes(*root, command@, b),
            Err(err) => err == DbgpError::Protocol && !body_decodable(*root, command@),
        },
{
    let c = command.as_str();
    if str_equal(c, "step_into") || str_equal(c, "step_over") || str_equal(c, "step_out")
        || str_equal(c, "run") {
        let cont = match parse_continuation_response(root) {
            Some(x) => x,
            None => return Err(DbgpError::Protocol),
        };
        if str_equal(c, "step_into") {
            Ok(CommandResponse::StepInto(cont))
        } else if str_equal(c, "step_over") {
            Ok(CommandResponse::StepOver(cont))
        } else if str_equal(c, "step_out") {
            Ok(CommandResponse::StepOut(cont))
        } else {
            Ok(CommandResponse::Run(cont))
        }
    } else if str_equal(c, "stack_get") {
        match parse_stack_get(root) {
            Some(s) => Ok(CommandResponse::StackGet(s)),
            None => Err(DbgpError::Protocol),
        }
    } else if str_equal(c, "source") {
        match parse_source(root) {
            Some(t) => Ok(CommandResponse::Source(t)),
            None => Err(DbgpError::Protocol),
        }
    } else if str_equal(c, "context_get") {
        match parse_context_get(root) {
            Ok(ctx) => Ok(CommandResponse::ContextGet(ctx)),
            Err(e) => Err(e),
        }
    } else if str_equal(c, "eval") {
        match parse_eval(root) {
            Ok(ev) => Ok(CommandResponse::Eval(ev)),
            Err(e) => Err(e),
        }
    } else {
        Ok(CommandResponse::Unknown)
    }
}

/// Reads the message that a root element carries.
pub fn decode_message(root: &XmlElement) -> (r: Result<Message, DbgpError>)
    ensures
        match r {
            Ok(m) => message_decodes(*root, m),
            Err(err) => err == DbgpError::Protocol && !message_decodable(*root),
        },
{
    if root.is_named("init") {
        match root.attribute("fileuri") {
            Some(fileuri) => Ok(Message::Init(Init { fileuri })),
            None => Err(DbgpError::Protocol),
        }
    } else if root.is_named("response") {
        let transaction_id = match root.attribute("transaction_id") {
            Some(t) => t,
            None => return Err(DbgpError::Protocol),
        };
        let command_name = match root.attribute("command") {
            Some(c) => c,
            None => return Err(DbgpError::Protocol),
        };
        match parse_body(root, &command_name) {
            Ok(command) => Ok(Message::Response(Response { transaction_id, command })),
            Err(e) => Err(e),
        }
    } else {
        Err(DbgpError::Protocol)
    }
}

/// What decoding the document `xml` gives: the outcome of `decode_message` on its
/// root element, and a protocol error where it is not well-formed XML.
pub open spec fn xml_decodes(xml: Seq<char>, r: Result<Message, DbgpError>) -> bool {
    match xml_document_of(xml) {
        None => r == Err::<Message, DbgpError>(DbgpError::Protocol),
        Some(root) => match r {
            Ok(m) => message_decodes(root, m),
            Err(err) => err == DbgpError::Protocol && !message_decodable(root),
        },
    }
}

/// Decodes the XML payload of a frame.
pub fn parse_xml(xml: &str) -> (r: Result<Message, DbgpError>)
    ensures
        xml_decodes(xml@, r),
{
    match parse_document(xml) {
        Some(root) => decode_message(&root),
        None => Err(DbgpError::Protocol),
    }
}

/// A decoded reply carries the transaction id that its frame's root element gives.
pub proof fn lemma_transaction_id_kept(xml: Seq<char>, r: Result<Message, DbgpError>)
    requires
        xml_decodes(xml, r),
        r matches Ok(Message::Response(_)),
    ensures
        xml_document_of(xml) matches Some(root) && find_attr(root.attributes@, "transaction_id"@)
            == Some(r->Ok_0->Response_0.transaction_id),
{
}

/// A decoded property with base64 encoding holds the base64-decoded text of the
/// character data that stands for its value.
pub proof fn lemma_base64_value(e: XmlElement, p: Property)
    requires
        property_decodes(e, p),
        find_attr(e.attributes@, "encoding"@) matches Some(enc) && enc@ == "base64"@,
        first_value_node(e.children@) matches Some(XmlNode::Text(_)),
    ensures
        first_value_node(e.children@) matches Some(XmlNode::Text(c)) && p.value matches Some(v)
            && base64_text(c@) == Some(v@),
{
    assert(property_read(e, p, 0));
}

// ---- frames ------------------------------------------------------------------

/// The index of the first NUL byte of `s` at or after `from`, or the length of `s`.
pub open spec fn nul_from(s: Seq<u8>, from: int) -> int
    decreases s.len() - from,
{
    if from >= s.len() || from < 0 {
        s.len() as int
    } else if s[from] == 0 {
        from
    } else {
        nul_from(s, from + 1)
    }
}

/// The payload of a frame `<length> NUL <payload> NUL`: the bytes between the first
/// NUL and the next one (or the end); none where there is no first NUL.
pub open spec fn frame_payload_of(data: Seq<u8>) -> Option<Seq<u8>> {
    let i = nul_from(data, 0);
    if i >= data.len() {
        None
    } else {
        Some(data.subrange(i + 1, nul_from(data, i + 1)))
    }
}

fn find_nul(data: &Vec<u8>, from: usize) -> (r: usize)
    requires
        from <= data@.len(),
    ensures
        r == nul_from(data@, from as int),
{
    let mut i = from;
    while i < data.len()
        invariant
            from <= i <= data@.len(),
            nul_from(data@, from as int) == nul_from(data@, i as int),
        decreases data@.len() - i,
    {
        if data[i] == 0 {
            return i;
        }
        i = i + 1;
    }
    i
}

/// Extracts the payload of a frame: a transport error where the length segment is
/// not terminated, an empty-frame error where the payload is empty.
pub fn frame_payload(data: &Vec<u8>) -> (r: Result<Vec<u8>, DbgpError>)
    ensures
        match frame_payload_of(data@) {
            None => r == Err::<Vec<u8>, DbgpError>(DbgpError::Transport),
            Some(p) => if p.len() == 0 {
                r == Err::<Vec<u8>, DbgpError>(DbgpError::EmptyFrame)
            } else {
                r matches Ok(v) && v@ == p
            },
        },
{
    let i = find_nul(data, 0);
    if i >= data.len() {
        return Err(DbgpError::Transport);
    }
    let j = find_nul(data, i + 1);
    proof {
        lemma_nul_from_bounds(data@, i + 1);
    }
    if j == i + 1 {
        return Err(DbgpError::EmptyFrame);
    }
    let mut payload: Vec<u8> = Vec::new();
    let mut k = i + 1;
    while k < j
        invariant
            i + 1 <= k <= j <= data@.len(),
            payload@ == data@.subrange(i + 1, k as int),
        decreases j - k,
    {
        payload.push(data[k]);
        k = k + 1;
        assert(payload@ =~= data@.subrange(i + 1, k as int));
    }
    Ok(payload)
}

proof fn lemma_nul_from_bounds(s: Seq<u8>, from: int)
    requires
        0 <= from <= s.len(),
    ensures
        from <= nul_from(s, from) <= s.len(),
    decreases s.len() - from,
{
    if from < s.len() && s[from] != 0 {
        lemma_nul_from_bounds(s, from + 1);
    }
}

/// What decoding a whole frame gives.
pub open spec fn frame_decodes(data: Seq<u8>, r: Result<Message, DbgpError>) -> bool {
    match frame_payload_of(data) {
        None => r == Err::<Message, DbgpError>(DbgpError::Transport),
        Some(p) => if p.len() == 0 {
            r == Err::<Message, DbgpError>(DbgpError::EmptyFrame)
        } else {
            match utf8_decoded(p) {
                None => r == Err::<Message, DbgpError>(DbgpError::Protocol),
                Some(text) => xml_decodes(text, r),
            }
        },
    }
}

/// Decodes one frame read from the transport.
pub fn decode_frame(data: &Vec<u8>) -> (r: Result<Message, DbgpError>)
    ensures
        frame_decodes(data@, r),
{
    let payload = match frame_payload(data) {
        Ok(p) => p,
        Err(e) => return Err(e),
    };
    match decode_utf8(payload) {
        Some(text) => parse_xml(text.as_str()),
        None => Err(DbgpError::Protocol),
    }
}

} // verus!
