use vstd::prelude::*;
use vstd::string::StringExecFns;
use crate::text::{
    char_to_upper, char_upper_of, chars_of, lower_of, slice_of, string_of, to_lower,
};
use crate::types::{
    from_token, token_of, AttributeModel, Entity, EntityModel, LocoDataType,
    Relationship, RelationshipModel, RelationshipType, Schema, SchemaModel,
};

verus! {

/// `s` with its first character made a capital, the rest kept.
pub open spec fn capitalized(s: Seq<char>) -> Seq<char> {
    if s.len() == 0 {
        Seq::empty()
    } else {
        char_upper_of(s[0]) + s.drop_first()
    }
}

/// The column type that the scaffold command gives an attribute: a reference for
/// a foreign key, else the token of its type.
pub open spec fn field_type(a: AttributeModel) -> Seq<char> {
    if a.is_foreign_key {
        "references"@
    } else {
        token_of(from_token(a.data_type))
    }
}

/// The `name:type` fields of the attributes that are not primary keys, each after a space.
pub open spec fn scaffold_fields(attrs: Seq<AttributeModel>) -> Seq<char>
    decreases attrs.len(),
{
    if attrs.len() == 0 {
        Seq::empty()
    } else {
        let before = scaffold_fields(attrs.drop_last());
        let a = attrs.last();
        if a.is_primary_key {
            before
        } else {
            before + " "@ + a.name + ":"@ + field_type(a)
        }
    }
}

/// The command that scaffolds one entity.
pub open spec fn scaffold_command(e: EntityModel) -> Seq<char> {
    "cargo loco generate scaffold "@ + e.name + scaffold_fields(e.attributes)
}

/// The command that adds a reference to the parent (`from`) on the child (`to`).
pub open spec fn reference_command(r: RelationshipModel) -> Seq<char> {
    "cargo loco generate migration Add"@ + capitalized(r.from_entity) + "RefTo"@ + capitalized(
        r.to_entity,
    ) + " "@ + lower_of(r.from_entity) + ":references"@
}

/// The name of the join table of two entities: `posts_tags` for `Post` and `Tag`.
pub open spec fn join_table_name(from: Seq<char>, to: Seq<char>) -> Seq<char> {
    lower_of(from) + "s_"@ + lower_of(to) + "s"@
}

/// The command that creates the join table of a many-to-many relationship, with
/// a reference to each side.
pub open spec fn join_table_command(r: RelationshipModel) -> Seq<char> {
    "cargo loco generate migration create_join_table_"@ + join_table_name(
        r.from_entity,
        r.to_entity,
    ) + " "@ + lower_of(r.from_entity) + ":references "@ + lower_of(r.to_entity)
        + ":references"@
}

/// The commands that the relationships call for, in order: one-to-one ones call for none.
pub open spec fn relationship_commands(rels: Seq<RelationshipModel>) -> Seq<Seq<char>>
    decreases rels.len(),
{
    if rels.len() == 0 {
        seq![]
    } else {
        let before = relationship_commands(rels.drop_last());
        let r = rels.last();
        match r.relationship_type {
            RelationshipType::OneToMany => before.push(reference_command(r)),
            RelationshipType::ManyToMany => before.push(join_table_command(r)),
            RelationshipType::OneToOne => before,
        }
    }
}

/// All commands for a schema: one scaffold per entity, then the relationships' commands.
pub open spec fn schema_commands(s: SchemaModel) -> Seq<Seq<char>> {
    s.entities.map_values(|e: EntityModel| scaffold_command(e)) + relationship_commands(
        s.relationships,
    )
}

/// The column names of a column list, capitalised and joined by `And`.
pub open spec fn joined_column_names(cols: Seq<(&str, &str)>) -> Seq<char>
    decreases cols.len(),
{
    if cols.len() == 0 {
        Seq::empty()
    } else if cols.len() == 1 {
        capitalized(cols[0].0@)
    } else {
        joined_column_names(cols.drop_last()) + "And"@ + capitalized(cols.last().0@)
    }
}

/// The `name:type` fields of a column list, each after a space.
pub open spec fn column_fields(cols: Seq<(&str, &str)>) -> Seq<char>
    decreases cols.len(),
{
    if cols.len() == 0 {
        Seq::empty()
    } else {
        column_fields(cols.drop_last()) + " "@ + cols.last().0@ + ":"@ + token_of(
            from_token(cols.last().1@),
        )
    }
}

pub open spec fn add_column_command(table: Seq<char>, cols: Seq<(&str, &str)>) -> Seq<char> {
    "cargo loco generate migration Add"@ + joined_column_names(cols) + "To"@ + capitalized(table)
        + column_fields(cols)
}

pub open spec fn remove_column_command(table: Seq<char>, cols: Seq<(&str, &str)>) -> Seq<char> {
    "cargo loco generate migration Remove"@ + joined_column_names(cols) + "From"@ + capitalized(
        table,
    ) + column_fields(cols)
}

/// Whether some entity has that name.
pub open spec fn names_entity(s: SchemaModel, name: Seq<char>) -> bool {
    exists|i: int| 0 <= i < s.entities.len() && s.entities[i].name == name
}

/// The warnings for relationship ends that name no entity: for each relationship
/// in order, one for its `from` end, then one for its `to` end, where they are missing.
pub open spec fn missing_entity_warnings(s: SchemaModel, n: int) -> Seq<Seq<char>>
    decreases n,
{
    if n <= 0 {
        seq![]
    } else {
        let before = missing_entity_warnings(s, n - 1);
        let r = s.relationships[n - 1];
        let with_from = if names_entity(s, r.from_entity) {
            before
        } else {
            before.push("from_entity '"@ + r.from_entity + "' not found in entities"@)
        };
        if names_entity(s, r.to_entity) {
            with_from
        } else {
            with_from.push("to_entity '"@ + r.to_entity + "' not found in entities"@)
        }
    }
}

/// `s` with its first character made a capital.
pub fn capitalize(s: &str) -> (r: String)
    ensures
        r@ == capitalized(s@),
{
    let cs = chars_of(s);
    if cs.len() == 0 {
        String::new()
    } else {
        let mut r = char_to_upper(cs[0]);
        let rest = string_of(slice_of(&cs, 1, cs.len()).as_slice());
        proof {
            assert(cs@.subrange(1, cs@.len() as int) =~= s@.drop_first());
        }
        r.append(rest.as_str());
        r
    }
}

/// Turns schemas into the generator's commands.
pub struct LocoGenerator {}

impl LocoGenerator {
    pub fn new() -> (r: Self) {
        LocoGenerator {}
    }

    /// One scaffold command per entity, in schema order, then one command per
    /// one-to-many or many-to-many relationship, in schema order.
    pub fn generate_commands(&self, schema: &Schema) -> (r: Vec<String>)
        ensures
            r@.map_values(|c: String| c@) == schema_commands(schema@),
    {
        let mut commands: Vec<String> = Vec::new();
        let mut i: usize = 0;
        while i < schema.entities.len()
            invariant
                i <= schema.entities@.len(),
                commands@.map_values(|c: String| c@) =~= schema@.entities.take(i as int).map_values(
                    |e: EntityModel| scaffold_command(e),
                ),
            decreases schema.entities@.len() - i,
        {
            let c = self.generate_scaffold_command(&schema.entities[i]);
            let ghost before = commands@.map_values(|c: String| c@);
            commands.push(c);
            assert(commands@.map_values(|c: String| c@) =~= before.push(c@));
            assert(schema@.entities[i as int] == schema.entities@[i as int]@);
            assert(schema@.entities.take(i + 1) =~= schema@.entities.take(i as int).push(
                schema@.entities[i as int],
            ));
            i = i + 1;
            assert(commands@.map_values(|c: String| c@) =~= schema@.entities.take(
                i as int,
            ).map_values(|e: EntityModel| scaffold_command(e)));
        }
        assert(schema@.entities.take(i as int) =~= schema@.entities);
        let ghost scaffolds = commands@.map_values(|c: String| c@);
        let mut k: usize = 0;
        while k < schema.relationships.len()
            invariant
                k <= schema.relationships@.len(),
                commands@.map_values(|c: String| c@) =~= scaffolds + relationship_commands(
                    schema@.relationships.take(k as int),
                ),
            decreases schema.relationships@.len() - k,
        {
            let rel = &schema.relationships[k];
            let ghost before = commands@.map_values(|c: String| c@);
            assert(schema@.relationships.take(k + 1).drop_last() =~= schema@.relationships.take(
                k as int,
            ));
            match rel.relationship_type {
                RelationshipType::OneToMany => {
                    commands.push(self.generate_reference_command(rel));
                    assert(commands@.map_values(|c: String| c@) =~= before.push(
                        reference_command(rel@),
                    ));
                },
                RelationshipType::ManyToMany => {
                    commands.push(self.generate_join_table_command(rel));
                    assert(commands@.map_values(|c: String| c@) =~= before.push(
                        join_table_command(rel@),
                    ));
                },
                RelationshipType::OneToOne => {},
            }
            k = k + 1;
        }
        assert(schema@.relationships.take(k as int) =~= schema@.relationships);
        commands
    }

    /// `cargo loco generate scaffold <Name>` followed by `name:type` for each
    /// attribute that is not a primary key, in the entity's order.
    pub fn generate_scaffold_command(&self, entity: &Entity) -> (r: String)
        ensures
            r@ == scaffold_command(entity@),
    {
        let mut r = String::new();
        r.append("cargo loco generate scaffold ");
        r.append(entity.name.as_str());
        let mut i: usize = 0;
        while i < entity.attributes.len()
            invariant
                i <= entity.attributes@.len(),
                r@ =~= "cargo loco generate scaffold "@ + entity@.name + scaffold_fields(
                    entity@.attributes.take(i as int),
                ),
            decreases entity.attributes@.len() - i,
        {
            let attr = &entity.attributes[i];
            assert(entity@.attributes.take(i + 1).drop_last() =~= entity@.attributes.take(
                i as int,
            ));
            assert(entity@.attributes.take(i + 1).last() == attr@);
            if !attr.is_primary_key {
                r.append(" ");
                r.append(attr.name.as_str());
                r.append(":");
                if attr.is_foreign_key {
                    r.append("references");
                } else {
                    let ty = LocoDataType::from_mermaid_type(attr.data_type.as_str());
                    r.append(ty.to_loco_type());
                }
            }
            i = i + 1;
        }
        assert(entity@.attributes.take(i as int) =~= entity@.attributes);
        r
    }

    fn generate_reference_command(&self, relationship: &Relationship) -> (r: String)
        ensures
            r@ == reference_command(relationship@),
    {
        let mut r = String::new();
        r.append("cargo loco generate migration Add");
        r.append(capitalize(relationship.from_entity.as_str()).as_str());
        r.append("RefTo");
        r.append(capitalize(relationship.to_entity.as_str()).as_str());
        r.append(" ");
        r.append(to_lower(relationship.from_entity.as_str()).as_str());
        r.append(":references");
        r
    }

    fn generate_join_table_command(&self, relationship: &Relationship) -> (r: String)
        ensures
            r@ == join_table_command(relationship@),
    {
        let t1 = to_lower(relationship.from_entity.as_str());
        let t2 = to_lower(relationship.to_entity.as_str());
        let mut r = String::new();
        r.append("cargo loco generate migration create_join_table_");
        r.append(t1.as_str());
        r.append("s_");
        r.append(t2.as_str());
        r.append("s");
        r.append(" ");
        r.append(t1.as_str());
        r.append(":references ");
        r.append(t2.as_str());
        r.append(":references");
        r
    }
    /// `cargo loco generate migration Add<Names>To<Table>` followed by
    /// `name:type` for each column, where `<Names>` are the capitalised column
    /// names joined by `And`.
    pub fn generate_add_column_command(&self, table_name: &str, columns: &[(&str, &str)]) -> (r:
        String)
        ensures
            r@ == add_column_command(table_name@, columns@),
    {
        let mut r = String::new();
        r.append("cargo loco generate migration Add");
        r.append(column_names_joined(columns).as_str());
        r.append("To");
        r.append(capitalize(table_name).as_str());
        r.append(column_fields_of(columns).as_str());
        r
    }

    /// `cargo loco generate migration Remove<Names>From<Table>` followed by
    /// `name:type` for each column.
    pub fn generate_remove_column_command(
        &self,
        table_name: &str,
        columns: &[(&str, &str)],
    ) -> (r: String)
        ensures
            r@ == remove_column_command(table_name@, columns@),
    {
        let mut r = String::new();
        r.append("cargo loco generate migration Remove");
        r.append(column_names_joined(columns).as_str());
        r.append("From");
        r.append(capitalize(table_name).as_str());
        r.append(column_fields_of(columns).as_str());
        r
    }

    /// The warnings for relationship ends that name no entity of the schema.
    /// Generation does not stop on them: the caller decides how to show them.
    pub fn validate_relationship_entities(&self, schema: &Schema) -> (r: Vec<String>)
        ensures
            r@.map_values(|w: String| w@) == missing_entity_warnings(
                schema@,
                schema@.relationships.len() as int,
            ),
    {
        let mut warnings: Vec<String> = Vec::new();
        let mut k: usize = 0;
        while k < schema.relationships.len()
            invariant
                k <= schema.relationships@.len(),
                warnings@.map_values(|w: String| w@) =~= missing_entity_warnings(
                    schema@,
                    k as int,
                ),
            decreases schema.relationships@.len() - k,
        {
            let rel = &schema.relationships[k];
            assert(schema@.relationships[k as int] == rel@);
            let ghost before = warnings@.map_values(|w: String| w@);
            if !has_entity(schema, &rel.from_entity) {
                let mut w = String::new();
                w.append("from_entity '");
                w.append(rel.from_entity.as_str());
                w.append("' not found in entities");
                warnings.push(w);
                assert(warnings@.map_values(|w: String| w@) =~= before.push(w@));
            }
            let ghost middle = warnings@.map_values(|w: String| w@);
            if !has_entity(schema, &rel.to_entity) {
                let mut w = String::new();
                w.append("to_entity '");
                w.append(rel.to_entity.as_str());
                w.append("' not found in entities");
                warnings.push(w);
                assert(warnings@.map_values(|w: String| w@) =~= middle.push(w@));
            }
            k = k + 1;
        }
        warnings
    }
}

fn has_entity(schema: &Schema, name: &String) -> (r: bool)
    ensures
        r == names_entity(schema@, name@),
{
    let mut i: usize = 0;
    while i < schema.entities.len()
        invariant
            i <= schema.entities@.len(),
            forall|m: int| 0 <= m < i ==> schema@.entities[m].name != name@,
        decreases schema.entities@.len() - i,
    {
        if schema.entities[i].name == *name {
            assert(schema@.entities[i as int].name == name@);
            return true;
        }
        i = i + 1;
    }
    false
}

fn column_names_joined(columns: &[(&str, &str)]) -> (r: String)
    ensures
        r@ == joined_column_names(columns@),
{
    let mut r = String::new();
    let mut i: usize = 0;
    while i < columns.len()
        invariant
            i <= columns@.len(),
            r@ == joined_column_names(columns@.take(i as int)),
        decreases columns@.len() - i,
    {
        let ghost before = columns@.take(i as int);
        assert(columns@.take(i + 1).drop_last() =~= before);
        if i > 0 {
            r.append("And");
        } else {
            assert(columns@.take(1)[0] == columns@[0]);
        }
        r.append(capitalize(columns[i].0).as_str());
        i = i + 1;
    }
    assert(columns@.take(i as int) =~= columns@);
    r
}

fn column_fields_of(columns: &[(&str, &str)]) -> (r: String)
    ensures
        r@ == column_fields(columns@),
{
    let mut r = String::new();
    let mut i: usize = 0;
    while i < columns.len()
        invariant
            i <= columns@.len(),
            r@ =~= column_fields(columns@.take(i as int)),
        decreases columns@.len() - i,
    {
        assert(columns@.take(i + 1).drop_last() =~= columns@.take(i as int));
        let (name, data_type) = columns[i];
        r.append(" ");
        r.append(name);
        r.append(":");
        r.append(LocoDataType::from_mermaid_type(data_type).to_loco_type());
        i = i + 1;
    }
    assert(columns@.take(i as int) =~= columns@);
    r
}

} // verus!
