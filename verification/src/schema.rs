//! The schema visitor driver: renders a nested struct schema into a
//! caller-owned representation without exposing the library's own schema
//! types. The engine supplies callbacks that build its own field lists.
//!
//! What the driver hands to those callbacks is fixed by contract: a verified
//! planner, [`schema_events`], turns the schema into the exact sequence of
//! rendering steps — which lists are created and with what capacity
//! reservation, which field is appended to which list under which name and
//! type, in declaration order, each child list fully populated before its
//! struct entry, and which fields are skipped as unsupported. The driver
//! then replays that plan one step per callback, keeping the engine's list
//! handles on a plain stack.

use vstd::prelude::*;

verus! {

/// A primitive logical type of a schema field.
#[derive(Debug, Clone, Copy, PartialEq, Eq, Structural)]
pub enum PrimitiveType {
    /// 32-bit signed integer.
    Integer,
    /// 64-bit signed integer.
    Long,
    /// Text.
    String,
    /// Truth value. The visitor driver does not support it yet: such a
    /// field is skipped.
    Boolean,
}

/// The logical type of a schema field.
#[derive(Debug)]
pub enum DataType {
    /// A primitive type.
    Primitive(PrimitiveType),
    /// A nested struct of named fields.
    Struct(StructType),
}

/// One named field of a struct schema.
#[derive(Debug)]
pub struct StructField {
    /// The field name.
    pub name: String,
    /// The field's logical type.
    pub data_type: DataType,
}

/// A struct schema: named fields in declaration order.
#[derive(Debug)]
pub struct StructType {
    /// The fields, in declaration order.
    pub fields: Vec<StructField>,
}

/// The engine's schema-building callbacks. Each "visit" call must
/// instantiate the appropriate entry and append it to the given field list;
/// the engine must not retain the name references past the call.
pub trait EngineSchemaVisitor {
    /// Create a new field list, optionally reserving capacity up front, and
    /// return its handle.
    fn make_field_list(&mut self, reserve: usize) -> usize;

    /// Free a field list that will not be returned to the engine, so the
    /// engine's own allocator does not leak. The driver itself cannot fail
    /// mid-traversal; this exists for embeddings whose construction can.
    fn free_field_list(&mut self, siblings: usize);

    /// Append a struct entry holding an already-built child list.
    fn visit_struct(&mut self, siblings: usize, name: &str, children: usize);

    /// Append a string field entry.
    fn visit_string(&mut self, siblings: usize, name: &str);

    /// Append a 32-bit integer field entry.
    fn visit_integer(&mut self, siblings: usize, name: &str);

    /// Append a 64-bit integer field entry.
    fn visit_long(&mut self, siblings: usize, name: &str);
}

/// One step of rendering a schema into engine-owned field lists. The steps
/// speak of a stack of lists under construction: a new list is pushed when
/// created, every append goes to the list on top, and a struct entry pops
/// its fully populated child list and appends to the list beneath.
#[derive(Debug, Clone, PartialEq)]
pub enum SchemaEvent {
    /// Create a new field list, reserving capacity for the struct's field
    /// count, and push it.
    NewList {
        /// The capacity reservation: the owning struct's field count.
        reserve: usize,
    },
    /// Append a 32-bit integer field to the top list.
    Integer {
        /// The field name.
        name: String,
    },
    /// Append a 64-bit integer field to the top list.
    Long {
        /// The field name.
        name: String,
    },
    /// Append a string field to the top list.
    String {
        /// The field name.
        name: String,
    },
    /// Pop the fully populated child list and append it as a struct field
    /// to the list beneath.
    Struct {
        /// The field name.
        name: String,
    },
    /// A field of an unsupported logical type was skipped: the diagnostic
    /// record of this known limitation. No callback is invoked for it.
    Skipped {
        /// The field name.
        name: String,
    },
}

/// The rendering steps of one field: one append for a supported primitive,
/// a skip record for an unsupported one, and for a nested struct the whole
/// child rendering followed by the struct entry.
pub open spec fn spec_field_events(f: StructField) -> Seq<SchemaEvent>
    decreases f,
{
    match f.data_type {
        DataType::Primitive(PrimitiveType::Integer) => seq![
            SchemaEvent::Integer { name: f.name },
        ],
        DataType::Primitive(PrimitiveType::Long) => seq![SchemaEvent::Long { name: f.name }],
        DataType::Primitive(PrimitiveType::String) => seq![SchemaEvent::String { name: f.name }],
        DataType::Primitive(_) => seq![SchemaEvent::Skipped { name: f.name }],
        DataType::Struct(s) => spec_struct_events(s) + seq![SchemaEvent::Struct { name: f.name }],
    }
}

/// The rendering steps of the first `upto` fields of a struct, in
/// declaration order.
pub open spec fn spec_fields_events(s: StructType, upto: int) -> Seq<SchemaEvent>
    decreases s, upto,
    when 0 <= upto <= s.fields@.len()
    via spec_fields_events_decreases
{
    if upto <= 0 {
        Seq::empty()
    } else {
        spec_fields_events(s, upto - 1) + spec_field_events(s.fields@[upto - 1])
    }
}

#[via_fn]
proof fn spec_fields_events_decreases(s: StructType, upto: int) {
    if 0 < upto <= s.fields@.len() {
        assert(decreases_to!(s => s.fields));
        assert(decreases_to!(s.fields => s.fields@));
        assert(decreases_to!(s.fields@ => s.fields@[upto - 1]));
    }
}

/// The rendering steps of a whole struct: its own list first, then its
/// fields in declaration order.
pub open spec fn spec_struct_events(s: StructType) -> Seq<SchemaEvent>
    decreases s, s.fields@.len() as int + 1,
{
    seq![SchemaEvent::NewList { reserve: s.fields@.len() as usize }] + spec_fields_events(
        s,
        s.fields@.len() as int,
    )
}

/// The stack effect of one step: a new list is pushed, a struct entry
/// consumes its child list, every other step leaves the stack as it is.
pub open spec fn spec_event_delta(e: SchemaEvent) -> int {
    match e {
        SchemaEvent::NewList { .. } => 1,
        SchemaEvent::Struct { .. } => -1,
        _ => 0,
    }
}

/// Number of lists on the replay stack after the first `k` steps.
pub open spec fn spec_depth_after(evs: Seq<SchemaEvent>, k: int) -> int
    decreases k,
{
    if k <= 0 {
        0
    } else {
        spec_depth_after(evs, k - 1) + spec_event_delta(evs[k - 1])
    }
}

/// Whether one step finds the lists it needs on a stack of the given depth:
/// an append needs its target list, a struct entry its child and the parent
/// beneath.
pub open spec fn spec_event_ok(e: SchemaEvent, depth: int) -> bool {
    match e {
        SchemaEvent::NewList { .. } => true,
        SchemaEvent::Struct { .. } => depth >= 2,
        _ => depth >= 1,
    }
}

/// Replay safety over a stack that starts `base` lists deep: every step
/// finds the lists it needs.
pub open spec fn spec_events_wf_at(evs: Seq<SchemaEvent>, base: int) -> bool {
    forall|k: int|
        0 <= k < evs.len() ==> spec_event_ok(#[trigger] evs[k], base + spec_depth_after(evs, k))
}

proof fn lemma_depth_prefix(a: Seq<SchemaEvent>, b: Seq<SchemaEvent>, k: int)
    requires
        0 <= k <= a.len(),
    ensures
        spec_depth_after(a + b, k) == spec_depth_after(a, k),
    decreases k,
{
    if k > 0 {
        lemma_depth_prefix(a, b, k - 1);
        assert((a + b)[k - 1] == a[k - 1]);
    }
}

proof fn lemma_depth_concat(a: Seq<SchemaEvent>, b: Seq<SchemaEvent>, k: int)
    requires
        0 <= k <= b.len(),
    ensures
        spec_depth_after(a + b, a.len() + k) == spec_depth_after(a, a.len() as int)
            + spec_depth_after(b, k),
    decreases k,
{
    if k == 0 {
        lemma_depth_prefix(a, b, a.len() as int);
    } else {
        lemma_depth_concat(a, b, k - 1);
        assert((a + b)[a.len() + k - 1] == b[k - 1]);
    }
}

/// Safety composes over concatenation: run the first plan, then the second
/// on the stack the first one left.
proof fn lemma_wf_concat(a: Seq<SchemaEvent>, b: Seq<SchemaEvent>, base: int)
    requires
        spec_events_wf_at(a, base),
        spec_events_wf_at(b, base + spec_depth_after(a, a.len() as int)),
    ensures
        spec_events_wf_at(a + b, base),
{
    assert forall|k: int|
        0 <= k < (a + b).len() implies spec_event_ok(
        #[trigger] (a + b)[k],
        base + spec_depth_after(a + b, k),
    ) by {
        if k < a.len() {
            lemma_depth_prefix(a, b, k);
            assert((a + b)[k] == a[k]);
        } else {
            lemma_depth_concat(a, b, k - a.len());
            assert((a + b)[k] == b[k - a.len()]);
        }
    }
}

/// A field's plan needs one open list, adds nothing to the stack, and is
/// safe at any depth of at least one.
proof fn lemma_field_events_ok(f: StructField, base: int)
    requires
        base >= 1,
    ensures
        spec_depth_after(spec_field_events(f), spec_field_events(f).len() as int) == 0,
        spec_events_wf_at(spec_field_events(f), base),
    decreases f,
{
    let evs = spec_field_events(f);
    match f.data_type {
        DataType::Struct(s) => {
            let tail = seq![SchemaEvent::Struct { name: f.name }];
            lemma_struct_events_ok(s, base);
            assert(spec_depth_after(tail, 0) == 0);
            assert(spec_depth_after(tail, 1) == spec_event_delta(tail[0]));
            assert(spec_events_wf_at(tail, base + 1)) by {
                assert(spec_event_ok(tail[0], base + 1 + spec_depth_after(tail, 0)));
            }
            lemma_wf_concat(spec_struct_events(s), tail, base);
            lemma_depth_concat(spec_struct_events(s), tail, 1);
        },
        _ => {
            assert(evs.len() == 1);
            assert(spec_depth_after(evs, 0) == 0);
            assert(spec_depth_after(evs, 1) == spec_event_delta(evs[0]));
            assert(spec_event_ok(evs[0], base + spec_depth_after(evs, 0)));
        },
    }
}

/// The plan of a struct's first `upto` fields needs one open list, adds
/// nothing to the stack, and is safe at any depth of at least one.
proof fn lemma_fields_events_ok(s: StructType, upto: int, base: int)
    requires
        0 <= upto <= s.fields@.len(),
        base >= 1,
    ensures
        spec_depth_after(spec_fields_events(s, upto), spec_fields_events(s, upto).len() as int)
            == 0,
        spec_events_wf_at(spec_fields_events(s, upto), base),
    decreases s, upto,
{
    if upto > 0 {
        let a = spec_fields_events(s, upto - 1);
        let b = spec_field_events(s.fields@[upto - 1]);
        lemma_fields_events_ok(s, upto - 1, base);
        lemma_field_events_ok(s.fields@[upto - 1], base);
        lemma_wf_concat(a, b, base);
        lemma_depth_concat(a, b, b.len() as int);
    }
}

/// A struct's whole plan leaves exactly one new list on the stack — the one
/// holding the struct's rendered fields — and is safe at any depth.
proof fn lemma_struct_events_ok(s: StructType, base: int)
    requires
        base >= 0,
    ensures
        spec_depth_after(spec_struct_events(s), spec_struct_events(s).len() as int) == 1,
        spec_events_wf_at(spec_struct_events(s), base),
    decreases s, s.fields@.len() as int + 1,
{
    let head = seq![SchemaEvent::NewList { reserve: s.fields@.len() as usize }];
    let b = spec_fields_events(s, s.fields@.len() as int);
    assert(spec_depth_after(head, 0) == 0);
    assert(spec_depth_after(head, 1) == spec_event_delta(head[0]));
    assert(spec_events_wf_at(head, base)) by {
        assert(spec_event_ok(head[0], base + spec_depth_after(head, 0)));
    }
    lemma_fields_events_ok(s, s.fields@.len() as int, base + 1);
    lemma_wf_concat(head, b, base);
    lemma_depth_concat(head, b, b.len() as int);
}

/// Append the rendering steps of one field.
fn push_field_events(f: &StructField, evs: &mut Vec<SchemaEvent>)
    ensures
        final (evs)@ == old(evs)@ + spec_field_events(*f),
    decreases *f,
{
    match &f.data_type {
        DataType::Primitive(PrimitiveType::Integer) => {
            evs.push(SchemaEvent::Integer { name: f.name.clone() });
        },
        DataType::Primitive(PrimitiveType::Long) => {
            evs.push(SchemaEvent::Long { name: f.name.clone() });
        },
        DataType::Primitive(PrimitiveType::String) => {
            evs.push(SchemaEvent::String { name: f.name.clone() });
        },
        DataType::Struct(s) => {
            push_struct_events(s, evs);
            evs.push(SchemaEvent::Struct { name: f.name.clone() });
        },
        DataType::Primitive(_) => {
            evs.push(SchemaEvent::Skipped { name: f.name.clone() });
        },
    }
    proof {
        assert(evs@ =~= old(evs)@ + spec_field_events(*f));
    }
}

/// Append the rendering steps of a whole struct.
fn push_struct_events(s: &StructType, evs: &mut Vec<SchemaEvent>)
    ensures
        final (evs)@ == old(evs)@ + spec_struct_events(*s),
    decreases *s,
{
    evs.push(SchemaEvent::NewList { reserve: s.fields.len() });
    let ghost base = evs@;
    let mut i: usize = 0;
    proof {
        assert(evs@ =~= base + spec_fields_events(*s, 0));
    }
    while i < s.fields.len()
        invariant
            i <= s.fields@.len(),
            evs@ == base + spec_fields_events(*s, i as int),
        decreases s.fields@.len() - i,
    {
        push_field_events(&s.fields[i], evs);
        proof {
            assert(evs@ =~= base + spec_fields_events(*s, i as int + 1));
        }
        i = i + 1;
    }
    proof {
        assert(evs@ =~= old(evs)@ + spec_struct_events(*s));
    }
}

/// The schema's rendering plan: the exact callback sequence the driver will
/// perform — every list creation with its reservation, every field append
/// with its name and type in declaration order, every child list completed
/// before its struct entry, and every skipped field.
pub fn schema_events(schema: &StructType) -> (evs: Vec<SchemaEvent>)
    ensures
        evs@ == spec_struct_events(*schema),
{
    let mut evs: Vec<SchemaEvent> = Vec::new();
    push_struct_events(schema, &mut evs);
    proof {
        assert(evs@ =~= spec_struct_events(*schema));
    }
    evs
}

/// Visit a whole schema: replay its rendering plan one step per callback,
/// keeping the engine's list handles on a stack, and return the engine's
/// handle for the top-level field list.
///
/// The callback sequence is exactly [`schema_events`]`(schema)`: each
/// `NewList` becomes `make_field_list(reserve)`, each primitive step the
/// matching typed visit on the list on top, each `Struct` step
/// `visit_struct` on the list beneath with the popped child, and each
/// `Skipped` step no call at all — the skip record is the diagnostic, which
/// an embedding reads from the plan.
pub fn visit_schema<V: EngineSchemaVisitor>(schema: &StructType, visitor: &mut V) -> (children:
    usize) {
    let events = schema_events(schema);
    proof {
        lemma_struct_events_ok(*schema, 0);
    }
    let mut stack: Vec<usize> = Vec::new();
    let mut k: usize = 0;
    while k < events.len()
        invariant
            k <= events@.len(),
            events@ == spec_struct_events(*schema),
            spec_events_wf_at(events@, 0),
            stack@.len() == spec_depth_after(events@, k as int),
        decreases events@.len() - k,
    {
        proof {
            assert(spec_event_ok(events@[k as int], spec_depth_after(events@, k as int)));
            assert(spec_depth_after(events@, k as int + 1) == spec_depth_after(events@, k as int)
                + spec_event_delta(events@[k as int]));
        }
        match &events[k] {
            SchemaEvent::NewList { reserve } => {
                let handle = visitor.make_field_list(*reserve);
                stack.push(handle);
            },
            SchemaEvent::Integer { name } => {
                let top = stack[stack.len() - 1];
                visitor.visit_integer(top, name.as_str());
            },
            SchemaEvent::Long { name } => {
                let top = stack[stack.len() - 1];
                visitor.visit_long(top, name.as_str());
            },
            SchemaEvent::String { name } => {
                let top = stack[stack.len() - 1];
                visitor.visit_string(top, name.as_str());
            },
            SchemaEvent::Struct { name } => {
                let child = stack.pop().unwrap();
                let parent = stack[stack.len() - 1];
                visitor.visit_struct(parent, name.as_str(), child);
            },
            SchemaEvent::Skipped { .. } => {},
        }
        k = k + 1;
    }
    stack.pop().unwrap()
}

} // verus!
