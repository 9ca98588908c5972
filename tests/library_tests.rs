use triton::generator::LocoGenerator;
use triton::ingest::MigrationParser;
use triton::migration::{ColumnInfo, MigrationInfo, Operation};
use triton::modifier::MigrationModifier;
use triton::parser::MermaidParser;
use triton::types::{Cardinality, LocoDataType, RelationshipType, Schema};

fn parse(content: &str) -> Schema {
    let mut parser = MermaidParser::new();
    parser.parse(content).unwrap()
}

#[test]
fn scaffold_excludes_primary_key() {
    let schema = parse("User {\n    int id PK\n    string name\n    string email\n}\n");
    assert_eq!(schema.entities.len(), 1);
    assert_eq!(schema.relationships.len(), 0);
    let commands = LocoGenerator::new().generate_commands(&schema);
    assert_eq!(commands, vec!["cargo loco generate scaffold User name:string email:string".to_string()]);
    assert!(!commands[0].contains("id:"));
}

#[test]
fn one_to_many_relationship_adds_reference() {
    let schema = parse(
        "User {\n  int id PK\n}\nPost {\n  int id PK\n  string title\n}\nUser ||--o{ Post : \"has many\"\n",
    );
    assert_eq!(schema.relationships.len(), 1);
    let rel = &schema.relationships[0];
    assert_eq!(rel.from_entity, "User");
    assert_eq!(rel.to_entity, "Post");
    assert_eq!(rel.relationship_type, RelationshipType::OneToMany);
    assert_eq!(rel.from_cardinality, Cardinality::One);
    assert_eq!(rel.to_cardinality, Cardinality::ZeroOrMany);
    let commands = LocoGenerator::new().generate_commands(&schema);
    assert_eq!(commands.len(), 3);
    assert_eq!(commands[2], "cargo loco generate migration AddUserRefToPost user:references");
}

#[test]
fn many_to_many_relationship_creates_join_table() {
    let schema = parse("Post {\n}\nTag {\n}\nPost o{--o{ Tag : \"tagged\"\n");
    let rel = &schema.relationships[0];
    assert_eq!(rel.relationship_type, RelationshipType::ManyToMany);
    assert_eq!(rel.from_cardinality, Cardinality::ZeroOrMany);
    assert_eq!(rel.to_cardinality, Cardinality::ZeroOrMany);
    let commands = LocoGenerator::new().generate_commands(&schema);
    assert_eq!(
        commands[2],
        "cargo loco generate migration create_join_table_posts_tags post:references tag:references"
    );
}

#[test]
fn many_to_one_symbol_swaps_cardinalities() {
    let schema = parse("Post o{--|| User : \"belongs to\"");
    let rel = &schema.relationships[0];
    assert_eq!(rel.relationship_type, RelationshipType::OneToMany);
    assert_eq!(rel.from_cardinality, Cardinality::ZeroOrMany);
    assert_eq!(rel.to_cardinality, Cardinality::One);
}

#[test]
fn one_to_one_relationship_emits_no_command() {
    let schema = parse("User ||--|| Profile : \"has\"\n");
    assert_eq!(schema.relationships[0].relationship_type, RelationshipType::OneToOne);
    let commands = LocoGenerator::new().generate_commands(&schema);
    assert!(commands.is_empty());
}

#[test]
fn other_symbol_defaults_to_one_to_many() {
    let schema = parse("User }o--o{ Group : \"joins\"\n");
    let rel = &schema.relationships[0];
    assert_eq!(rel.relationship_type, RelationshipType::OneToMany);
    assert_eq!(rel.from_cardinality, Cardinality::One);
    assert_eq!(rel.to_cardinality, Cardinality::ZeroOrMany);
}

#[test]
fn relationship_without_quoted_label_is_ignored() {
    let schema = parse("User ||--o{ Post : creates\n");
    assert_eq!(schema.relationships.len(), 0);
}

#[test]
fn unterminated_entity_keeps_its_attributes() {
    let schema = parse("User {\n    int id PK\n    string name\n");
    assert_eq!(schema.entities.len(), 1);
    let user = &schema.entities[0];
    assert_eq!(user.name, "User");
    assert_eq!(user.attributes.len(), 2);
    assert_eq!(user.attributes[0].name, "id");
    assert!(user.attributes[0].is_primary_key);
    assert_eq!(user.attributes[1].name, "name");
    assert_eq!(user.attributes[1].data_type, "string");
}

#[test]
fn new_header_commits_open_entity() {
    let schema = parse("A {\n  int x\nB {\n  text y\n}\n");
    assert_eq!(schema.entities.len(), 2);
    assert_eq!(schema.entities[0].name, "A");
    assert_eq!(schema.entities[0].attributes.len(), 1);
    assert_eq!(schema.entities[1].name, "B");
    assert_eq!(schema.entities[1].attributes[0].data_type, "text");
}

#[test]
fn entities_come_out_in_source_order() {
    let schema = parse("erDiagram\nC {\n}\nA {\n}\nB {\n}\n");
    let names: Vec<&str> = schema.entities.iter().map(|e| e.name.as_str()).collect();
    assert_eq!(names, vec!["C", "A", "B"]);
}

#[test]
fn attribute_markers_are_read() {
    let schema = parse("T {\n  int a PK FK ?\n  int b FK\n  string c ?\n  string d PK\n}\n");
    let attrs = &schema.entities[0].attributes;
    assert_eq!(attrs.len(), 4);
    assert!(attrs[0].is_primary_key && attrs[0].is_foreign_key && attrs[0].is_nullable);
    assert!(!attrs[1].is_primary_key && attrs[1].is_foreign_key && !attrs[1].is_nullable);
    assert!(!attrs[2].is_primary_key && !attrs[2].is_foreign_key && attrs[2].is_nullable);
    let pk = attrs.iter().filter(|a| a.is_primary_key).count();
    assert_eq!(pk, 2);
}

#[test]
fn markers_out_of_order_drop_the_attribute() {
    let schema = parse("T {\n  int a FK PK\n  int b\n}\n");
    assert_eq!(schema.entities[0].attributes.len(), 1);
    assert_eq!(schema.entities[0].attributes[0].name, "b");
}

#[test]
fn diagnostics_report_what_was_passed_over() {
    let mut parser = MermaidParser::new();
    let (schema, notes) = parser.parse_with_diagnostics(
        "erDiagram\nUser {\n  bad\n  datetime created\n  INT id PK\n}\nUser }o--o{ Group : \"x\"\nUser ||--o{ Post : \"y\"\n",
    );
    assert_eq!(schema.entities[0].attributes.len(), 2);
    assert_eq!(
        notes,
        vec![
            "skipped line in entity block: bad".to_string(),
            "unknown type 'datetime' read as string".to_string(),
            "relationship symbol '}o--o{' read as one-to-many".to_string(),
        ]
    );
}

#[test]
fn type_tokens_are_read_without_case() {
    assert_eq!(LocoDataType::from_mermaid_type("INT"), LocoDataType::IntNullable);
    assert_eq!(LocoDataType::from_mermaid_type("String!"), LocoDataType::String);
    assert_eq!(LocoDataType::from_mermaid_type("uuid^"), LocoDataType::UuidUnique);
    assert_eq!(LocoDataType::from_mermaid_type("big_unsigned"), LocoDataType::BigUnsignedNullable);
    assert_eq!(LocoDataType::from_mermaid_type("TSTZ!").to_loco_type(), "tstz!");
}

#[test]
fn unknown_type_token_falls_back_to_string() {
    assert_eq!(LocoDataType::from_mermaid_type("datetime"), LocoDataType::StringNullable);
    assert_eq!(LocoDataType::from_mermaid_type("bool^"), LocoDataType::StringNullable);
    assert_eq!(LocoDataType::from_mermaid_type(""), LocoDataType::StringNullable);
}

#[test]
fn type_token_round_trip() {
    let tokens = [
        "uuid", "uuid!", "uuid^", "string", "text^", "small_unsigned!", "big_unsigned^",
        "small_int", "int!", "big_int^", "float", "double!", "decimal^", "decimal_len",
        "decimal_len!", "bool", "bool!", "tstz", "date^", "date_time!", "blob", "json!",
        "jsonb^", "money", "unsigned!", "binary_len^", "var_binary!", "array^",
    ];
    for token in tokens {
        let t = LocoDataType::from_mermaid_type(token);
        assert_eq!(t.to_loco_type(), token);
        assert_eq!(LocoDataType::from_mermaid_type(t.to_loco_type()).to_loco_type(), token);
    }
}

#[test]
fn foreign_key_is_written_as_reference() {
    let schema = parse("Post {\n  int id PK\n  int user_id FK\n  text body\n  date_time at\n  date_time! skipped\n}\n");
    let command = LocoGenerator::new().generate_scaffold_command(&schema.entities[0]);
    assert_eq!(command, "cargo loco generate scaffold Post user_id:references body:text at:date_time");
}

#[test]
fn add_and_remove_column_commands() {
    let generator = LocoGenerator::new();
    let columns = [("title", "string!"), ("views", "INT")];
    assert_eq!(
        generator.generate_add_column_command("post", &columns),
        "cargo loco generate migration AddTitleAndViewsToPost title:string! views:int"
    );
    assert_eq!(
        generator.generate_remove_column_command("post", &columns[..1]),
        "cargo loco generate migration RemoveTitleFromPost title:string!"
    );
    assert_eq!(generator.generate_add_column_command("post", &[]), "cargo loco generate migration AddToPost");
}

#[test]
fn missing_relationship_ends_are_reported() {
    let schema = parse("User {\n}\nUser ||--o{ Post : \"x\"\nGhost ||--|| User : \"y\"\n");
    let warnings = LocoGenerator::new().validate_relationship_entities(&schema);
    assert_eq!(
        warnings,
        vec![
            "to_entity 'Post' not found in entities".to_string(),
            "from_entity 'Ghost' not found in entities".to_string(),
        ]
    );
}

fn users_log() -> MigrationInfo {
    let mut info = MigrationInfo::empty();
    info.up_operations.push(Operation::CreateTable {
        name: "users".to_string(),
        columns: vec![
            ColumnInfo::new("name".to_string(), "string".to_string()),
            ColumnInfo::new("email".to_string(), "text".to_string()).nullable().default_value("none"),
        ],
    });
    info.down_operations.push(Operation::DropTable { name: "users".to_string() });
    info
}

#[test]
fn column_builders_set_fields() {
    let c = ColumnInfo::new("age".to_string(), "integer".to_string());
    assert!(!c.nullable);
    assert!(c.default.is_none());
    let c = c.nullable().default_value("7");
    assert!(c.nullable);
    assert_eq!(c.default.as_deref(), Some("7"));
    let c = c.not_null();
    assert!(!c.nullable);
}

#[test]
fn add_column_appends_up_and_prepends_down() {
    let mut m = MigrationModifier::new("m.rs".to_string(), users_log());
    let code = m.add_column("users", ColumnInfo::new("phone".to_string(), "string".to_string()).nullable());
    let info = m.get_migration_info();
    assert_eq!(info.up_operations.len(), 2);
    assert_eq!(info.down_operations.len(), 2);
    match &info.up_operations[1] {
        Operation::AddColumn { table, column } => {
            assert_eq!(table, "users");
            assert_eq!(column.name, "phone");
        }
        other => panic!("unexpected {:?}", other),
    }
    match &info.down_operations[0] {
        Operation::DropColumn { table, column_name } => {
            assert_eq!(table, "users");
            assert_eq!(column_name, "phone");
        }
        other => panic!("unexpected {:?}", other),
    }
    assert_eq!(code, m.generate_migration_code());
    assert!(code.contains("                    .add_column(ColumnDef::new(Alias::PHONE).string())\n"));
    assert!(code.contains("                    .drop_column(USERS::PHONE)\n"));
    assert!(code.contains("                    .table(USERS::Table)\n"));
}

#[test]
fn drop_column_restores_registered_column() {
    let mut m = MigrationModifier::new("m.rs".to_string(), users_log());
    m.drop_column("users", "email");
    let info = m.get_migration_info();
    match &info.down_operations[0] {
        Operation::AddColumn { table, column } => {
            assert_eq!(table, "users");
            assert_eq!(column.name, "email");
            assert_eq!(column.column_type, "text");
            assert!(column.nullable);
            assert_eq!(column.default.as_deref(), Some("none"));
        }
        other => panic!("unexpected {:?}", other),
    }
}

#[test]
fn drop_unknown_column_falls_back_and_reingests() {
    let mut m = MigrationModifier::new("m.rs".to_string(), MigrationInfo::empty());
    assert!(m.find_column_info("users", "phone").is_none());
    let code = m.drop_column("users", "phone");
    let info = m.get_migration_info();
    match &info.down_operations[0] {
        Operation::AddColumn { column, .. } => {
            assert_eq!(column.name, "phone");
            assert_eq!(column.column_type, "string");
            assert!(column.nullable);
            assert!(column.default.is_none());
        }
        other => panic!("unexpected {:?}", other),
    }
    let back = MigrationParser::parse_migration_file(&code).unwrap();
    assert_eq!(back.up_operations.len(), 1);
    assert_eq!(back.down_operations.len(), 1);
    match &back.up_operations[0] {
        Operation::DropColumn { table, column_name } => {
            assert_eq!(table, "USERS");
            assert_eq!(column_name, "PHONE");
        }
        other => panic!("unexpected {:?}", other),
    }
    match &back.down_operations[0] {
        Operation::AddColumn { table, column } => {
            assert_eq!(table, "USERS");
            assert_eq!(column.name, "PHONE");
            assert_eq!(column.column_type, "string");
            assert!(column.nullable);
            assert!(column.default.is_none());
        }
        other => panic!("unexpected {:?}", other),
    }
}

#[test]
fn add_then_drop_keeps_net_columns() {
    let mut m = MigrationModifier::new("m.rs".to_string(), users_log());
    let before: Vec<String> = m.list_columns("users").iter().map(|c| c.name.clone()).collect();
    m.add_column("users", ColumnInfo::new("phone".to_string(), "string".to_string()));
    m.drop_column("users", "phone");
    let info = m.get_migration_info();
    let mut net: Vec<String> = Vec::new();
    for op in &info.up_operations {
        match op {
            Operation::CreateTable { columns, .. } => net = columns.iter().map(|c| c.name.clone()).collect(),
            Operation::AddColumn { column, .. } => net.push(column.name.clone()),
            Operation::DropColumn { column_name, .. } => net.retain(|n| n != column_name),
            Operation::DropTable { .. } => net.clear(),
        }
    }
    assert_eq!(net, before);
    match (&info.down_operations[0], &info.down_operations[1]) {
        (Operation::AddColumn { column, .. }, Operation::DropColumn { column_name, .. }) => {
            assert_eq!(column.name, "phone");
            assert_eq!(column_name, "phone");
        }
        other => panic!("unexpected {:?}", other),
    }
}

#[test]
fn down_mirrors_up_after_edits() {
    let mut m = MigrationModifier::new("m.rs".to_string(), MigrationInfo::empty());
    m.add_column("a", ColumnInfo::new("x".to_string(), "string".to_string()));
    m.add_column("b", ColumnInfo::new("y".to_string(), "integer".to_string()));
    m.drop_column("a", "x");
    let info = m.get_migration_info();
    let n = info.up_operations.len();
    assert_eq!(n, 3);
    for i in 0..n {
        match (&info.up_operations[n - 1 - i], &info.down_operations[i]) {
            (Operation::AddColumn { table, column }, Operation::DropColumn { table: t2, column_name }) => {
                assert_eq!(table, t2);
                assert_eq!(&column.name, column_name);
            }
            (Operation::DropColumn { table, column_name }, Operation::AddColumn { table: t2, column }) => {
                assert_eq!(table, t2);
                assert_eq!(column_name, &column.name);
                assert_eq!(column.column_type, "string");
            }
            other => panic!("unexpected {:?}", other),
        }
    }
}

#[test]
fn list_columns_and_all_columns() {
    let mut m = MigrationModifier::new("m.rs".to_string(), users_log());
    m.add_column("posts", ColumnInfo::new("title".to_string(), "text".to_string()));
    m.add_column("users", ColumnInfo::new("age".to_string(), "integer".to_string()));
    let users: Vec<String> = m.list_columns("users").iter().map(|c| c.name.clone()).collect();
    assert_eq!(users, vec!["name", "email", "age"]);
    assert!(m.list_columns("nothing").is_empty());
    let all = m.list_all_columns();
    assert_eq!(all.len(), 2);
    assert_eq!(all[0].0, "users");
    assert_eq!(all[0].1.len(), 3);
    assert_eq!(all[1].0, "posts");
    assert_eq!(all[1].1[0].name, "title");
}

#[test]
fn serialized_create_table_is_reingested() {
    let mut info = MigrationInfo::empty();
    info.up_operations.push(Operation::CreateTable {
        name: "USERS".to_string(),
        columns: vec![
            ColumnInfo::new("ID".to_string(), "integer".to_string()),
            ColumnInfo::new("BIO".to_string(), "text".to_string()).nullable().default_value("n/a"),
        ],
    });
    info.down_operations.push(Operation::DropTable { name: "USERS".to_string() });
    let m = MigrationModifier::new("m.rs".to_string(), info);
    let code = m.generate_migration_code();
    assert!(code.contains(".col(ColumnDef::new(Alias::ID).integer().not_null())"));
    assert!(code.contains(".col(ColumnDef::new(Alias::BIO).text().default(\"n/a\"))"));
    assert!(code.contains(".drop_table(Table::drop().table(USERS::Table).to_owned())"));
    let back = MigrationParser::parse_migration_file(&code).unwrap();
    match &back.up_operations[..] {
        [Operation::CreateTable { name, columns }] => {
            assert_eq!(name, "USERS");
            assert_eq!(columns.len(), 2);
            assert_eq!(columns[0].name, "ID");
            assert_eq!(columns[0].column_type, "integer");
            assert!(!columns[0].nullable);
            assert_eq!(columns[1].default.as_deref(), Some("n/a"));
            assert!(columns[1].nullable);
        }
        other => panic!("unexpected {:?}", other),
    }
    match &back.down_operations[..] {
        [Operation::DropTable { name }] => assert_eq!(name, "USERS"),
        other => panic!("unexpected {:?}", other),
    }
}

#[test]
fn text_without_procedures_is_rejected() {
    assert!(MigrationParser::parse_migration_file("fn main() {}\n").is_err());
}
