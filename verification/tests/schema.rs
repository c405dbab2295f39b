use deltakernel::schema::{
    schema_events, visit_schema, DataType, EngineSchemaVisitor, PrimitiveType, SchemaEvent,
    StructField, StructType,
};

#[derive(Debug, Clone, PartialEq)]
enum Entry {
    Integer(String),
    Long(String),
    Str(String),
    Struct(String, usize),
}

/// A counting visitor that builds its own field lists as vectors of entries.
struct CountingVisitor {
    lists: Vec<Vec<Entry>>,
    freed: Vec<usize>,
}

impl CountingVisitor {
    fn new() -> Self {
        CountingVisitor { lists: Vec::new(), freed: Vec::new() }
    }
}

impl EngineSchemaVisitor for CountingVisitor {
    fn make_field_list(&mut self, reserve: usize) -> usize {
        let handle = self.lists.len();
        self.lists.push(Vec::with_capacity(reserve));
        handle
    }

    fn free_field_list(&mut self, siblings: usize) {
        self.freed.push(siblings);
    }

    fn visit_struct(&mut self, siblings: usize, name: &str, children: usize) {
        self.lists[siblings].push(Entry::Struct(name.to_string(), children));
    }

    fn visit_string(&mut self, siblings: usize, name: &str) {
        self.lists[siblings].push(Entry::Str(name.to_string()));
    }

    fn visit_integer(&mut self, siblings: usize, name: &str) {
        self.lists[siblings].push(Entry::Integer(name.to_string()));
    }

    fn visit_long(&mut self, siblings: usize, name: &str) {
        self.lists[siblings].push(Entry::Long(name.to_string()));
    }
}

fn field(name: &str, data_type: DataType) -> StructField {
    StructField { name: name.to_string(), data_type }
}

#[test]
fn nested_struct_schema_builds_nested_lists() {
    // { a: Integer, b: { c: String } }
    let schema = StructType {
        fields: vec![
            field("a", DataType::Primitive(PrimitiveType::Integer)),
            field(
                "b",
                DataType::Struct(StructType {
                    fields: vec![field("c", DataType::Primitive(PrimitiveType::String))],
                }),
            ),
        ],
    };
    let mut visitor = CountingVisitor::new();
    let root = visit_schema(&schema, &mut visitor);

    let top = &visitor.lists[root];
    assert_eq!(top.len(), 2);
    assert_eq!(top[0], Entry::Integer("a".to_string()));
    let Entry::Struct(name, child) = &top[1] else {
        panic!("expected a struct entry");
    };
    assert_eq!(name, "b");
    assert_eq!(visitor.lists[*child].len(), 1);
    assert_eq!(visitor.lists[*child][0], Entry::Str("c".to_string()));
    assert!(visitor.freed.is_empty());
}

#[test]
fn fields_visit_in_declaration_order_with_matching_types() {
    let schema = StructType {
        fields: vec![
            field("id", DataType::Primitive(PrimitiveType::Long)),
            field("name", DataType::Primitive(PrimitiveType::String)),
            field("count", DataType::Primitive(PrimitiveType::Integer)),
        ],
    };
    let mut visitor = CountingVisitor::new();
    let root = visit_schema(&schema, &mut visitor);
    assert_eq!(
        visitor.lists[root],
        vec![
            Entry::Long("id".to_string()),
            Entry::Str("name".to_string()),
            Entry::Integer("count".to_string()),
        ],
    );
}

#[test]
fn unsupported_field_types_are_skipped() {
    let schema = StructType {
        fields: vec![
            field("ok", DataType::Primitive(PrimitiveType::Integer)),
            field("skipped", DataType::Primitive(PrimitiveType::Boolean)),
        ],
    };
    let mut visitor = CountingVisitor::new();
    let root = visit_schema(&schema, &mut visitor);
    assert_eq!(visitor.lists[root], vec![Entry::Integer("ok".to_string())]);
}

#[test]
fn empty_schema_yields_empty_list() {
    let schema = StructType { fields: Vec::new() };
    let mut visitor = CountingVisitor::new();
    let root = visit_schema(&schema, &mut visitor);
    assert!(visitor.lists[root].is_empty());
}

#[test]
fn schema_events_plan_nested_struct() {
    // { a: Integer, b: { c: String } }: the plan creates the root list,
    // appends `a`, fully builds the child list for `b`, then appends the
    // struct entry.
    let schema = StructType {
        fields: vec![
            field("a", DataType::Primitive(PrimitiveType::Integer)),
            field(
                "b",
                DataType::Struct(StructType {
                    fields: vec![field("c", DataType::Primitive(PrimitiveType::String))],
                }),
            ),
        ],
    };
    assert_eq!(
        schema_events(&schema),
        vec![
            SchemaEvent::NewList { reserve: 2 },
            SchemaEvent::Integer { name: "a".to_string() },
            SchemaEvent::NewList { reserve: 1 },
            SchemaEvent::String { name: "c".to_string() },
            SchemaEvent::Struct { name: "b".to_string() },
        ],
    );
}

#[test]
fn schema_events_records_skipped_fields() {
    let schema = StructType {
        fields: vec![
            field("id", DataType::Primitive(PrimitiveType::Long)),
            field("flag", DataType::Primitive(PrimitiveType::Boolean)),
        ],
    };
    assert_eq!(
        schema_events(&schema),
        vec![
            SchemaEvent::NewList { reserve: 2 },
            SchemaEvent::Long { name: "id".to_string() },
            SchemaEvent::Skipped { name: "flag".to_string() },
        ],
    );
}
