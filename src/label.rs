//! The inline labels shown beside variables: a property's value in one line.
use vstd::prelude::*;

use crate::dbgp::type_label_of;
use crate::dbgp::Property;
use crate::dbgp::PropertyType;
use crate::text::char_vec;
use crate::text::string_from_chars;

verus! {

broadcast use vstd::std_specs::vec::group_vec_axioms;

/// Whether values of this type are shown with their children.
pub open spec fn is_composite(t: PropertyType) -> bool {
    t == PropertyType::Object || t == PropertyType::Array || t == PropertyType::Hash
}

/// The value text, or nothing.
pub open spec fn value_text(p: Property) -> Seq<char> {
    match p.value {
        Some(v) => v@,
        None => Seq::empty(),
    }
}

/// The label of a value without children.
pub open spec fn scalar_label(p: Property) -> Seq<char> {
    match p.property_type {
        PropertyType::Bool => if p.value matches Some(v) && v@ == "1"@ {
            "true"@
        } else {
            "false"@
        },
        PropertyType::String => seq!['"'] + value_text(p) + seq!['"'],
        PropertyType::Null => "null"@,
        PropertyType::Undefined => "undefined"@,
        _ => value_text(p),
    }
}

/// The label of a property: `Type{name:label,...}` for objects, arrays and hashes,
/// else its value as it reads in source.
pub open spec fn property_label(p: Property) -> Seq<char>
    decreases p, 1nat,
    via property_label_decreases
{
    if is_composite(p.property_type) {
        type_label_of(p) + seq!['{'] + child_labels(p.children@) + seq!['}']
    } else {
        scalar_label(p)
    }
}

/// `name:label` of each child, separated by commas.
pub open spec fn child_labels(children: Seq<Property>) -> Seq<char>
    decreases children, 0nat,
    via child_labels_decreases
{
    if children.len() == 0 {
        Seq::empty()
    } else {
        let entry = children.last().name@ + seq![':'] + property_label(children.last());
        if children.len() == 1 {
            entry
        } else {
            child_labels(children.drop_last()) + seq![','] + entry
        }
    }
}

#[via_fn]
proof fn property_label_decreases(p: Property) {
    assert(decreases_to!(p => p.children));
}

#[via_fn]
proof fn child_labels_decreases(children: Seq<Property>) {
    if children.len() > 0 {
        vstd::seq::axiom_seq_index_decreases(children, children.len() - 1);
        vstd::seq::axiom_seq_subrange_decreases(children, 0, children.len() - 1);
    }
}

fn append_str(out: &mut Vec<char>, s: &str)
    ensures
        final(out)@ == old(out)@ + s@,
{
    let cs = char_vec(s);
    let mut i: usize = 0;
    while i < cs.len()
        invariant
            0 <= i <= cs@.len(),
            cs@ == s@,
            out@ == old(out)@ + cs@.subrange(0, i as int),
        decreases cs@.len() - i,
    {
        out.push(cs[i]);
        i = i + 1;
        assert(out@ =~= old(out)@ + cs@.subrange(0, i as int));
    }
    assert(cs@.subrange(0, cs@.len() as int) =~= cs@);
}

fn append_label(out: &mut Vec<char>, p: &Property)
    ensures
        final(out)@ == old(out)@ + property_label(*p),
    decreases p,
{
    match p.property_type {
        PropertyType::Object | PropertyType::Array | PropertyType::Hash => {
            let t = p.type_label();
            append_str(out, t.as_str());
            out.push('{');
            let ghost start = out@;
            let mut i: usize = 0;
            while i < p.children.len()
                invariant
                    0 <= i <= p.children@.len(),
                    out@ == start + child_labels(p.children@.subrange(0, i as int)),
                decreases p.children@.len() - i,
            {
                let ghost prefix = p.children@.subrange(0, (i + 1) as int);
                assert(prefix.drop_last() =~= p.children@.subrange(0, i as int));
                if i > 0 {
                    out.push(',');
                }
                append_str(out, p.children[i].name.as_str());
                out.push(':');
                proof {
                    vstd::std_specs::vec::axiom_vec_index_decreases(p.children, i as int);
                    assert(decreases_to!(*p => p.children));
                }
                append_label(out, &p.children[i]);
                i = i + 1;
                assert(out@ =~= start + child_labels(prefix));
            }
            assert(p.children@.subrange(0, p.children@.len() as int) =~= p.children@);
            out.push('}');
        },
        PropertyType::Bool => {
            if p.value_is("1") {
                append_str(out, "true");
            } else {
                append_str(out, "false");
            }
        },
        PropertyType::String => {
            out.push('"');
            match &p.value {
                Some(v) => append_str(out, v.as_str()),
                None => {},
            }
            out.push('"');
        },
        PropertyType::Null => append_str(out, "null"),
        PropertyType::Undefined => append_str(out, "undefined"),
        _ => match &p.value {
            Some(v) => append_str(out, v.as_str()),
            None => {},
        },
    }
    assert(out@ =~= old(out)@ + property_label(*p));
}

/// The inline label of a property.
pub fn render_label(property: &Property) -> (r: Option<String>)
    ensures
        r matches Some(s) && s@ == property_label(*property),
{
    let mut out: Vec<char> = Vec::new();
    append_label(&mut out, property);
    assert(out@ =~= property_label(*property));
    Some(string_from_chars(&out))
}

/// Two spaces for each level.
pub open spec fn indent(level: nat) -> Seq<char> {
    Seq::new(2 * level, |i: int| ' ')
}

/// The line that introduces a property in a listing.
pub open spec fn property_head(p: Property, level: nat) -> Seq<char> {
    indent(level) + p.name@ + (if p.name@.len() > 0 {
        seq![' ']
    } else {
        Seq::empty()
    }) + type_label_of(p) + " = "@ + value_text(p) + (if p.children@.len() > 0 {
        seq![open_delimiter(p.property_type)]
    } else {
        Seq::empty()
    })
}

/// `[` for arrays, `{` for the rest.
pub open spec fn open_delimiter(t: PropertyType) -> char {
    if t == PropertyType::Array {
        '['
    } else {
        '{'
    }
}

/// `]` for arrays, `}` for the rest.
pub open spec fn close_delimiter(t: PropertyType) -> char {
    if t == PropertyType::Array {
        ']'
    } else {
        '}'
    }
}

/// One level deeper, as far as a `usize` counts.
pub open spec fn child_level(level: nat) -> nat {
    if level + 1 < usize::MAX {
        level + 1
    } else {
        level
    }
}

/// The listing of one property at `level`: its line, then its children one level
/// deeper and a closing line where it has children.
pub open spec fn property_listing(p: Property, level: nat) -> Seq<Seq<char>>
    decreases p, 1nat,
    via property_listing_decreases
{
    if p.children@.len() > 0 {
        seq![property_head(p, level)] + properties_listing(p.children@, child_level(level)) + seq![
            indent(level).push(close_delimiter(p.property_type)),
        ]
    } else {
        seq![property_head(p, level)]
    }
}

/// The listings of the properties in order.
pub open spec fn properties_listing(props: Seq<Property>, level: nat) -> Seq<Seq<char>>
    decreases props, 0nat,
    via properties_listing_decreases
{
    if props.len() == 0 {
        Seq::empty()
    } else {
        properties_listing(props.drop_last(), level) + property_listing(props.last(), level)
    }
}

#[via_fn]
proof fn property_listing_decreases(p: Property, level: nat) {
    assert(decreases_to!(p => p.children));
}

#[via_fn]
proof fn properties_listing_decreases(props: Seq<Property>, level: nat) {
    if props.len() > 0 {
        vstd::seq::axiom_seq_index_decreases(props, props.len() - 1);
        vstd::seq::axiom_seq_subrange_decreases(props, 0, props.len() - 1);
    }
}

/// The text of each line.
pub open spec fn lines_text(lines: Seq<String>) -> Seq<Seq<char>> {
    lines.map_values(|l: String| l@)
}

fn push_line(lines: &mut Vec<String>, text: &Vec<char>)
    ensures
        lines_text(final(lines)@) == lines_text(old(lines)@).push(text@),
{
    let s = string_from_chars(text);
    lines.push(s);
    assert(lines_text(lines@) =~= lines_text(old(lines)@).push(text@));
}

fn push_indent(out: &mut Vec<char>, level: usize)
    ensures
        final(out)@ == old(out)@ + indent(level as nat),
{
    let mut i: usize = 0;
    while i < level
        invariant
            0 <= i <= level,
            out@ == old(out)@ + indent(i as nat),
        decreases level - i,
    {
        out.push(' ');
        out.push(' ');
        i = i + 1;
        assert(out@ =~= old(out)@ + indent(i as nat));
    }
}

/// Appends the listing of `properties` at `level` to `lines`, one line per
/// property and one closing line after each property with children.
pub fn draw_properties(properties: &Vec<Property>, lines: &mut Vec<String>, level: usize)
    requires
        level < usize::MAX,
    ensures
        lines_text(final(lines)@) == lines_text(old(lines)@) + properties_listing(
            properties@,
            level as nat,
        ),
    decreases properties@, 0nat,
{
    let mut i: usize = 0;
    while i < properties.len()
        invariant
            0 <= i <= properties@.len(),
            level < usize::MAX,
            lines_text(lines@) == lines_text(old(lines)@) + properties_listing(
                properties@.subrange(0, i as int),
                level as nat,
            ),
        decreases properties@.len() - i,
    {
        let ghost prefix = properties@.subrange(0, (i + 1) as int);
        assert(prefix.drop_last() =~= properties@.subrange(0, i as int));
        proof {
            vstd::std_specs::vec::axiom_vec_index_decreases(*properties, i as int);
        }
        draw_property(&properties[i], lines, level);
        i = i + 1;
        assert(lines_text(lines@) =~= lines_text(old(lines)@) + properties_listing(prefix, level as nat));
    }
    assert(properties@.subrange(0, properties@.len() as int) =~= properties@);
}

fn draw_property(p: &Property, lines: &mut Vec<String>, level: usize)
    requires
        level < usize::MAX,
    ensures
        lines_text(final(lines)@) == lines_text(old(lines)@) + property_listing(*p, level as nat),
    decreases p, 1nat,
{
    let mut head: Vec<char> = Vec::new();
    push_indent(&mut head, level);
    append_str(&mut head, p.name.as_str());
    if !p.name.as_str().is_empty() {
        head.push(' ');
    }
    let t = p.type_label();
    append_str(&mut head, t.as_str());
    append_str(&mut head, " = ");
    match &p.value {
        Some(v) => append_str(&mut head, v.as_str()),
        None => {},
    }
    let has_children = p.children.len() > 0;
    let is_array = match p.property_type {
        PropertyType::Array => true,
        _ => false,
    };
    if has_children {
        head.push(if is_array { '[' } else { '{' });
    }
    assert(head@ =~= property_head(*p, level as nat));
    push_line(lines, &head);
    if has_children {
        let child_level: usize = if level < usize::MAX - 1 { level + 1 } else { level };
        draw_properties(&p.children, lines, child_level);
        let mut close: Vec<char> = Vec::new();
        push_indent(&mut close, level);
        close.push(if is_array { ']' } else { '}' });
        push_line(lines, &close);
    }
    assert(lines_text(lines@) =~= lines_text(old(lines)@) + property_listing(*p, level as nat));
}

} // verus!
