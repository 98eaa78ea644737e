//! DBGp protocol values: the typed replies of the debugger engine.
use vstd::prelude::*;

use crate::decode::property_type_name;

verus! {

/// The first frame that an engine sends on a new connection.
#[derive(Debug, Clone)]
pub struct Init {
    pub fileuri: String,
}

/// A reply to a command, correlated by its transaction id.
#[derive(Debug)]
pub struct Response {
    pub transaction_id: String,
    pub command: CommandResponse,
}

/// The command-specific body of a reply.
#[derive(Debug)]
pub enum CommandResponse {
    StepInto(ContinuationResponse),
    StepOver(ContinuationResponse),
    StepOut(ContinuationResponse),
    Run(ContinuationResponse),
    Unknown,
    StackGet(StackGetResponse),
    Source(String),
    ContextGet(ContextGetResponse),
    Eval(EvalResponse),
}

/// The properties of one stack frame.
#[derive(Debug)]
pub struct ContextGetResponse {
    pub properties: Vec<Property>,
}

/// The error body of a failed evaluation.
#[derive(Debug, Clone, PartialEq)]
pub struct EvalError {
    pub code: String,
    pub message: String,
}

/// The result of an evaluation: properties, or an error.
#[derive(Debug)]
pub struct EvalResponse {
    pub properties: Vec<Property>,
    pub error: Option<EvalError>,
}

/// The type of a runtime value.
#[derive(PartialEq, Eq, Structural, Clone, Copy, Debug)]
pub enum PropertyType {
    Bool,
    Int,
    Float,
    String,
    Null,
    Array,
    Hash,
    Object,
    Resource,
    Undefined,
}

/// A runtime value and its nested values.
#[derive(Debug)]
pub struct Property {
    pub name: String,
    pub fullname: String,
    pub classname: Option<String>,
    pub page: Option<u32>,
    pub pagesize: Option<u32>,
    pub property_type: PropertyType,
    pub facet: Option<String>,
    pub size: Option<u32>,
    pub children: Vec<Property>,
    pub key: Option<String>,
    pub address: Option<String>,
    pub encoding: Option<String>,
    pub value: Option<String>,
}

/// What the engine reports after a continuation command.
#[derive(Clone, Debug)]
pub enum ContinuationStatus {
    Break,
    Stopping,
    Unknown(String),
}

/// A continuation reply: its status and the engine's reason, where it gave one.
#[derive(Debug, Clone)]
pub struct ContinuationResponse {
    pub status: ContinuationStatus,
    pub reason: Option<String>,
}

/// The stack, innermost frame first.
#[derive(Debug, Clone)]
pub struct StackGetResponse {
    pub entries: Vec<StackEntry>,
}

/// One frame of the stack: its file and line.
#[derive(Debug, Clone)]
pub struct StackEntry {
    pub filename: String,
    pub line: u32,
}

/// A decoded frame: the init packet or a reply.
#[derive(Debug)]
pub enum Message {
    Init(Init),
    Response(Response),
}

/// The type shown for a value: an object's class name (or `object`), else the
/// type's name.
pub open spec fn type_label_of(p: Property) -> Seq<char> {
    match p.property_type {
        PropertyType::Object => match p.classname {
            Some(c) => c@,
            None => "object"@,
        },
        t => property_type_name(t),
    }
}

impl Property {
    /// The type shown for the value: the class name of an object (or `object`
    /// when it has none), else the type's name.
    pub fn type_label(&self) -> (r: String)
        ensures
            r@ == type_label_of(*self),
    {
        match self.property_type {
            PropertyType::Object => match &self.classname {
                Some(c) => c.clone(),
                None => "object".to_owned(),
            },
            t => t.as_str().to_owned(),
        }
    }

    /// Whether the property has a value and it is `value`.
    pub fn value_is(&self, value: &str) -> (r: bool)
        ensures
            r == (self.value matches Some(v) && v@ == value@),
    {
        match &self.value {
            Some(v) => crate::xml::str_equal(v.as_str(), value),
            None => false,
        }
    }
}

impl StackGetResponse {
    /// The number of frames.
    pub fn depth(&self) -> (r: usize)
        ensures
            r == self.entries@.len(),
    {
        self.entries.len()
    }

    /// The innermost frame.
    pub fn top(&self) -> (r: &StackEntry)
        requires
            self.entries@.len() > 0,
        ensures
            *r == self.entries@[0],
    {
        &self.entries[0]
    }

    /// The innermost frame, if there is one.
    pub fn top_or_none(&self) -> (r: Option<&StackEntry>)
        ensures
            match r {
                Some(e) => self.entries@.len() > 0 && *e == self.entries@[0],
                None => self.entries@.len() == 0,
            },
    {
        if self.entries.len() > 0 {
            Some(&self.entries[0])
        } else {
            None
        }
    }
}

/// `a` and `b` agree in every field, down to `depth` levels of nesting.
pub open spec fn same_property(a: Property, b: Property, depth: nat) -> bool
    decreases depth,
{
    &&& a.name == b.name
    &&& a.fullname == b.fullname
    &&& a.classname == b.classname
    &&& a.page == b.page
    &&& a.pagesize == b.pagesize
    &&& a.property_type == b.property_type
    &&& a.facet == b.facet
    &&& a.size == b.size
    &&& a.key == b.key
    &&& a.address == b.address
    &&& a.encoding == b.encoding
    &&& a.value == b.value
    &&& a.children@.len() == b.children@.len()
    &&& depth > 0 ==> forall|i: int|
        0 <= i < a.children@.len() ==> same_property(
            #[trigger] a.children@[i],
            b.children@[i],
            (depth - 1) as nat,
        )
}

/// `a` and `b` agree in every field at every depth.
pub open spec fn property_copy(a: Property, b: Property) -> bool {
    forall|d: nat| #[trigger] same_property(a, b, d)
}

fn copy_text(s: &Option<String>) -> (r: Option<String>)
    ensures
        r == *s,
{
    match s {
        Some(t) => Some(t.clone()),
        None => None,
    }
}

impl Property {
    /// A copy of the property and everything nested in it.
    pub fn duplicate(&self) -> (r: Property)
        ensures
            property_copy(r, *self),
        decreases self,
    {
        let mut children: Vec<Property> = Vec::new();
        let mut i: usize = 0;
        while i < self.children.len()
            invariant
                0 <= i <= self.children@.len(),
                children@.len() == i,
                forall|j: int| 0 <= j < i ==> property_copy(#[trigger] children@[j], self.children@[j]),
            decreases self.children@.len() - i,
        {
            proof {
                vstd::std_specs::vec::axiom_vec_index_decreases(self.children, i as int);
                assert(decreases_to!(*self => self.children));
            }
            let c = self.children[i].duplicate();
            children.push(c);
            i = i + 1;
        }
        let r = Property {
            name: self.name.clone(),
            fullname: self.fullname.clone(),
            classname: copy_text(&self.classname),
            page: self.page,
            pagesize: self.pagesize,
            property_type: self.property_type,
            facet: copy_text(&self.facet),
            size: self.size,
            children,
            key: copy_text(&self.key),
            address: copy_text(&self.address),
            encoding: copy_text(&self.encoding),
            value: copy_text(&self.value),
        };
        proof {
            assert forall|d: nat| #[trigger] same_property(r, *self, d) by {
                if d > 0 {
                    assert forall|j: int| 0 <= j < r.children@.len() implies same_property(
                        #[trigger] r.children@[j],
                        self.children@[j],
                        (d - 1) as nat,
                    ) by {
                        assert(property_copy(r.children@[j], self.children@[j]));
                    }
                }
            }
        }
        r
    }
}

} // verus!
