use vstd::prelude::*;
use crate::text::{
    ascii_lower, chars_of, lower_ascii, same_chars, skip_word, skip_ws, slice_of, string_of, trim, trim_chars,
    word_end, ws_end,
};
use crate::types::{
    from_token, token_of, Attribute, AttributeModel, Cardinality, Entity, EntityModel,
    LocoDataType, Relationship, RelationshipModel, RelationshipType, Schema, SchemaModel,
};

verus! {

/// The lines of a text: the pieces between its line feeds, the last one possibly empty.
pub open spec fn lines_of(s: Seq<char>) -> Seq<Seq<char>>
    decreases s.len(),
{
    if s.len() == 0 {
        seq![Seq::empty()]
    } else {
        let prev = lines_of(s.drop_last());
        if s.last() == '\n' {
            prev.push(Seq::empty())
        } else {
            prev.update(prev.len() - 1, prev.last().push(s.last()))
        }
    }
}

/// Where the parser stands after some lines: what it has committed, and the
/// entity whose block is open, if any.
pub ghost struct ParseState {
    pub entities: Seq<EntityModel>,
    pub relationships: Seq<RelationshipModel>,
    pub current: Option<EntityModel>,
}

pub open spec fn initial_state() -> ParseState {
    ParseState { entities: seq![], relationships: seq![], current: None }
}

/// The entities committed, with the open one added at the end.
pub open spec fn committed(st: ParseState) -> Seq<EntityModel> {
    match st.current {
        Some(e) => st.entities.push(e),
        None => st.entities,
    }
}

/// The name of an entity that a line opens: `name {`, with anything after the brace.
pub open spec fn header_name(line: Seq<char>) -> Option<Seq<char>> {
    let k = word_end(line, 0);
    let j = ws_end(line, k);
    if 0 < k && j < line.len() && line[j] == '{' {
        Some(line.subrange(0, k))
    } else {
        None
    }
}

/// Whether the two characters `a`, `b` stand at `i` in `s`.
pub open spec fn marker_at(s: Seq<char>, i: int, a: char, b: char) -> bool {
    0 <= i && i + 1 < s.len() && s[i] == a && s[i + 1] == b
}

/// The attribute that a line declares: `type name`, then optionally `PK`, `FK`
/// and `?` in this order, with nothing else on the line.
pub open spec fn attribute_of(line: Seq<char>) -> Option<AttributeModel> {
    let k1 = word_end(line, 0);
    let j1 = ws_end(line, k1);
    let k2 = word_end(line, j1);
    let at0 = ws_end(line, k2);
    let pk = marker_at(line, at0, 'P', 'K');
    let at1 = ws_end(line, if pk { at0 + 2 } else { at0 });
    let fk = marker_at(line, at1, 'F', 'K');
    let at2 = ws_end(line, if fk { at1 + 2 } else { at1 });
    let q = at2 < line.len() && line[at2] == '?';
    let at3 = ws_end(line, if q { at2 + 1 } else { at2 });
    if 0 < k1 && k1 < j1 && j1 < k2 && at3 == line.len() {
        Some(
            AttributeModel {
                name: line.subrange(j1, k2),
                data_type: token_of(from_token(line.subrange(0, k1))),
                is_primary_key: pk,
                is_foreign_key: fk,
                is_nullable: q,
            },
        )
    } else {
        None
    }
}

/// The relationship symbols that a relationship line may use.
pub open spec fn is_symbol(s: Seq<char>) -> bool {
    s == "||--||"@ || s == "||--o{"@ || s == "o{--||"@ || s == "o{--o{"@ || s == "}o--||"@
        || s == "}o--o{"@ || s == "|o--||"@ || s == "o|--o{"@ || s == "|o--o{"@ || s
        == "}o--o|"@ || s == "o|--||"@
}

/// The kind and the two cardinalities that a symbol stands for. A symbol outside
/// the four that are known is read as one-to-many.
pub open spec fn symbol_meaning(s: Seq<char>) -> (RelationshipType, Cardinality, Cardinality) {
    if s == "||--||"@ {
        (RelationshipType::OneToOne, Cardinality::One, Cardinality::One)
    } else if s == "||--o{"@ {
        (RelationshipType::OneToMany, Cardinality::One, Cardinality::ZeroOrMany)
    } else if s == "o{--||"@ {
        (RelationshipType::OneToMany, Cardinality::ZeroOrMany, Cardinality::One)
    } else if s == "o{--o{"@ {
        (RelationshipType::ManyToMany, Cardinality::ZeroOrMany, Cardinality::ZeroOrMany)
    } else {
        (RelationshipType::OneToMany, Cardinality::One, Cardinality::ZeroOrMany)
    }
}

/// Whether a double quote stands at `i` or later in `s`.
pub open spec fn has_quote_from(s: Seq<char>, i: int) -> bool {
    exists|e: int| i <= e < s.len() && s[e] == '"'
}

/// The relationship that a line states: `from symbol to : "label"`, where the
/// label holds at least one character.
pub open spec fn relationship_of(line: Seq<char>) -> Option<RelationshipModel> {
    let k1 = word_end(line, 0);
    let s0 = ws_end(line, k1);
    let sym = line.subrange(s0, s0 + 6);
    let j = ws_end(line, s0 + 6);
    let k2 = word_end(line, j);
    let c = ws_end(line, k2);
    let d = ws_end(line, c + 1);
    if 0 < k1 && s0 + 6 <= line.len() && is_symbol(sym) && j < k2 && c < line.len() && line[c]
        == ':' && d < line.len() && line[d] == '"' && has_quote_from(line, d + 2) {
        let m = symbol_meaning(sym);
        Some(
            RelationshipModel {
                from_entity: line.subrange(0, k1),
                to_entity: line.subrange(j, k2),
                relationship_type: m.0,
                from_cardinality: m.1,
                to_cardinality: m.2,
            },
        )
    } else {
        None
    }
}

/// What one line does to the parser's state.
pub open spec fn step(st: ParseState, raw: Seq<char>) -> ParseState {
    let line = trim(raw);
    match header_name(line) {
        Some(name) => ParseState {
            entities: committed(st),
            relationships: st.relationships,
            current: Some(EntityModel { name, attributes: seq![] }),
        },
        None => match st.current {
            Some(e) => if line == seq!['}'] {
                ParseState {
                    entities: st.entities.push(e),
                    relationships: st.relationships,
                    current: None,
                }
            } else {
                match attribute_of(line) {
                    Some(a) => ParseState {
                        entities: st.entities,
                        relationships: st.relationships,
                        current: Some(
                            EntityModel { name: e.name, attributes: e.attributes.push(a) },
                        ),
                    },
                    None => st,
                }
            },
            None => match relationship_of(line) {
                Some(r) => ParseState {
                    entities: st.entities,
                    relationships: st.relationships.push(r),
                    current: None,
                },
                None => st,
            },
        },
    }
}

/// The state after the given lines, taken in order.
pub open spec fn run(st: ParseState, lines: Seq<Seq<char>>) -> ParseState
    decreases lines.len(),
{
    if lines.len() == 0 {
        st
    } else {
        step(run(st, lines.drop_last()), lines.last())
    }
}

/// The schema that a diagram text describes. An entity whose block is still
/// open at the end of the text is kept.
pub open spec fn parse_diagram(content: Seq<char>) -> SchemaModel {
    let st = run(initial_state(), lines_of(content));
    SchemaModel { entities: committed(st), relationships: st.relationships }
}

pub(crate) proof fn lemma_lines_nonempty(s: Seq<char>)
    ensures
        lines_of(s).len() >= 1,
    decreases s.len(),
{
    if s.len() > 0 {
        lemma_lines_nonempty(s.drop_last());
    }
}

/// Whether a symbol is one of the four whose meaning is known; any other is read
/// as one-to-many.
pub open spec fn is_known_symbol(s: Seq<char>) -> bool {
    s == "||--||"@ || s == "||--o{"@ || s == "o{--||"@ || s == "o{--o{"@
}

/// The symbol of a relationship line.
pub open spec fn symbol_of(line: Seq<char>) -> Seq<char> {
    let s0 = ws_end(line, word_end(line, 0));
    line.subrange(s0, s0 + 6)
}

/// The notes that one line calls for, given whether an entity block is open:
/// a non-blank line in a block that declares nothing is skipped; a type token that
/// names no type is read as a string; a relationship symbol whose meaning is not
/// known is read as one-to-many.
pub open spec fn line_notes(open: bool, raw: Seq<char>) -> Seq<Seq<char>> {
    let line = trim(raw);
    if header_name(line) is Some {
        seq![]
    } else if open {
        if line == seq!['}'] || line.len() == 0 {
            seq![]
        } else {
            match attribute_of(line) {
                None => seq!["skipped line in entity block: "@ + line],
                Some(a) => {
                    let raw_type = line.subrange(0, word_end(line, 0));
                    if token_of(from_token(raw_type)) == ascii_lower(raw_type) {
                        seq![]
                    } else {
                        seq!["unknown type '"@ + raw_type + "' read as string"@]
                    }
                },
            }
        }
    } else {
        match relationship_of(line) {
            Some(r) => if is_known_symbol(symbol_of(line)) {
                seq![]
            } else {
                seq!["relationship symbol '"@ + symbol_of(line) + "' read as one-to-many"@]
            },
            None => seq![],
        }
    }
}

/// The notes for the given lines, in order.
pub open spec fn notes_of(lines: Seq<Seq<char>>) -> Seq<Seq<char>>
    decreases lines.len(),
{
    if lines.len() == 0 {
        seq![]
    } else {
        notes_of(lines.drop_last()) + line_notes(
            run(initial_state(), lines.drop_last()).current is Some,
            lines.last(),
        )
    }
}

/// The notes for a diagram text.
pub open spec fn parse_notes(content: Seq<char>) -> Seq<Seq<char>> {
    notes_of(lines_of(content))
}

/// The names of the entities that the given lines open, in order.
pub open spec fn header_names(lines: Seq<Seq<char>>) -> Seq<Seq<char>>
    decreases lines.len(),
{
    if lines.len() == 0 {
        seq![]
    } else {
        let before = header_names(lines.drop_last());
        match header_name(trim(lines.last())) {
            Some(n) => before.push(n),
            None => before,
        }
    }
}

pub open spec fn entity_names(es: Seq<EntityModel>) -> Seq<Seq<char>> {
    es.map_values(|e: EntityModel| e.name)
}

/// The attributes that the given lines declare, in order.
pub open spec fn declared_attributes(lines: Seq<Seq<char>>) -> Seq<AttributeModel>
    decreases lines.len(),
{
    if lines.len() == 0 {
        seq![]
    } else {
        let before = declared_attributes(lines.drop_last());
        match attribute_of(trim(lines.last())) {
            Some(a) => before.push(a),
            None => before,
        }
    }
}

/// How many of the attributes carry the primary-key mark.
pub open spec fn primary_key_count(attrs: Seq<AttributeModel>) -> nat
    decreases attrs.len(),
{
    if attrs.len() == 0 {
        0
    } else {
        primary_key_count(attrs.drop_last()) + if attrs.last().is_primary_key {
            1nat
        } else {
            0nat
        }
    }
}

/// How many of the lines declare an attribute marked `PK`.
pub open spec fn primary_key_lines(lines: Seq<Seq<char>>) -> nat
    decreases lines.len(),
{
    if lines.len() == 0 {
        0
    } else {
        primary_key_lines(lines.drop_last()) + match attribute_of(trim(lines.last())) {
            Some(a) => if a.is_primary_key {
                1nat
            } else {
                0nat
            },
            None => 0nat,
        }
    }
}

proof fn lemma_run_append(st: ParseState, a: Seq<Seq<char>>, b: Seq<Seq<char>>)
    ensures
        run(st, a + b) == run(run(st, a), b),
    decreases b.len(),
{
    if b.len() == 0 {
        assert(a + b =~= a);
    } else {
        assert((a + b).drop_last() =~= a + b.drop_last());
        lemma_run_append(st, a, b.drop_last());
    }
}

proof fn lemma_run_one(st: ParseState, line: Seq<char>)
    ensures
        run(st, seq![line]) == step(st, line),
{
    assert(seq![line].drop_last() =~= Seq::<Seq<char>>::empty());
    assert(run(st, Seq::<Seq<char>>::empty()) == st);
}

proof fn lemma_committed_names_follow_headers(st: ParseState, lines: Seq<Seq<char>>)
    ensures
        entity_names(committed(run(st, lines))) == entity_names(committed(st)) + header_names(
            lines,
        ),
    decreases lines.len(),
{
    if lines.len() == 0 {
        assert(entity_names(committed(st)) + header_names(lines) =~= entity_names(committed(st)));
    } else {
        lemma_committed_names_follow_headers(st, lines.drop_last());
        let before = run(st, lines.drop_last());
        let after = step(before, lines.last());
        let line = trim(lines.last());
        match header_name(line) {
            Some(n) => {
                assert(entity_names(committed(after)) =~= entity_names(committed(before)).push(
                    n,
                ));
            },
            None => {
                assert(entity_names(committed(after)) =~= entity_names(committed(before)));
            },
        }
        assert(entity_names(committed(after)) =~= entity_names(committed(st)) + header_names(
            lines,
        ));
    }
}

/// One entity comes out of each line that opens an entity block, in the order of
/// those lines and under the names they give, whether or not its block is closed.
pub proof fn lemma_one_entity_per_header(content: Seq<char>)
    ensures
        entity_names(parse_diagram(content).entities) == header_names(lines_of(content)),
{
    lemma_committed_names_follow_headers(initial_state(), lines_of(content));
    assert(entity_names(committed(initial_state())) =~= seq![]);
    assert(seq![] + header_names(lines_of(content)) =~= header_names(lines_of(content)));
}

proof fn lemma_block_body(st: ParseState, e: EntityModel, body: Seq<Seq<char>>)
    requires
        st.current == Some(e),
        forall|i: int|
            0 <= i < body.len() ==> header_name(trim(#[trigger] body[i])) is None && trim(body[i])
                != seq!['}'],
    ensures
        run(st, body).entities == st.entities,
        run(st, body).relationships == st.relationships,
        run(st, body).current == Some(
            EntityModel { name: e.name, attributes: e.attributes + declared_attributes(body) },
        ),
    decreases body.len(),
{
    if body.len() == 0 {
        assert(e.attributes + declared_attributes(body) =~= e.attributes);
    } else {
        let last = body.last();
        assert(body[body.len() - 1] == last);
        lemma_block_body(st, e, body.drop_last());
        assert(e.attributes + declared_attributes(body) =~= match attribute_of(trim(last)) {
            Some(a) => (e.attributes + declared_attributes(body.drop_last())).push(a),
            None => e.attributes + declared_attributes(body.drop_last()),
        });
    }
}

/// A block that opens an entity, declares attributes and is closed by `}` adds
/// that one entity, holding the declared attributes in order with their marks.
pub proof fn lemma_block_entity(
    st: ParseState,
    open: Seq<char>,
    body: Seq<Seq<char>>,
    close: Seq<char>,
)
    requires
        header_name(trim(open)) is Some,
        forall|i: int|
            0 <= i < body.len() ==> header_name(trim(#[trigger] body[i])) is None && trim(body[i])
                != seq!['}'],
        trim(close) == seq!['}'],
    ensures
        run(st, seq![open] + body + seq![close]).entities == committed(st).push(
            EntityModel {
                name: header_name(trim(open))->Some_0,
                attributes: declared_attributes(body),
            },
        ),
        run(st, seq![open] + body + seq![close]).current is None,
{
    let name = header_name(trim(open))->Some_0;
    let fresh = EntityModel { name, attributes: seq![] };
    assert(header_name(seq!['}']) is None) by {
        assert(word_end(seq!['}'], 0) == 0);
    }
    let s1 = step(st, open);
    lemma_run_one(st, open);
    lemma_run_append(st, seq![open], body);
    lemma_block_body(s1, fresh, body);
    assert(fresh.attributes + declared_attributes(body) =~= declared_attributes(body));
    lemma_run_append(st, seq![open] + body, seq![close]);
    lemma_run_one(run(st, seq![open] + body), close);
}

/// The primary-key marks of a block come out one for one: the entity holds as many
/// primary-key attributes as its block has attribute lines marked `PK`.
pub proof fn lemma_primary_keys_kept(body: Seq<Seq<char>>)
    ensures
        primary_key_count(declared_attributes(body)) == primary_key_lines(body),
    decreases body.len(),
{
    if body.len() > 0 {
        lemma_primary_keys_kept(body.drop_last());
        let before = declared_attributes(body.drop_last());
        match attribute_of(trim(body.last())) {
            Some(a) => {
                assert(before.push(a).drop_last() =~= before);
            },
            None => {},
        }
    }
}

/// What the parser holds between lines.
struct Progress {
    entities: Vec<Entity>,
    relationships: Vec<Relationship>,
    current: Option<Entity>,
}

impl View for Progress {
    type V = ParseState;

    closed spec fn view(&self) -> ParseState {
        ParseState {
            entities: self.entities@.map_values(|e: Entity| e@),
            relationships: self.relationships@.map_values(|r: Relationship| r@),
            current: match self.current {
                Some(e) => Some(e@),
                None => None,
            },
        }
    }
}

fn read_header(line: &Vec<char>) -> (r: Option<String>)
    ensures
        match r {
            Some(n) => header_name(line@) == Some(n@),
            None => header_name(line@) is None,
        },
{
    let k = skip_word(line, 0);
    let j = skip_ws(line, k);
    if 0 < k && j < line.len() && line[j] == '{' {
        Some(string_of(slice_of(line, 0, k).as_slice()))
    } else {
        None
    }
}

fn read_marker(s: &Vec<char>, i: usize, a: char, b: char) -> (r: bool)
    ensures
        r == marker_at(s@, i as int, a, b),
{
    i < s.len() && i + 1 < s.len() && s[i] == a && s[i + 1] == b
}

fn read_attribute(line: &Vec<char>) -> (r: Option<Attribute>)
    ensures
        match r {
            Some(a) => attribute_of(line@) == Some(a@),
            None => attribute_of(line@) is None,
        },
{
    let n = line.len();
    let k1 = skip_word(line, 0);
    let j1 = skip_ws(line, k1);
    let k2 = skip_word(line, j1);
    let at0 = skip_ws(line, k2);
    let pk = read_marker(line, at0, 'P', 'K');
    let at1 = skip_ws(line, if pk { at0 + 2 } else { at0 });
    let fk = read_marker(line, at1, 'F', 'K');
    let at2 = skip_ws(line, if fk { at1 + 2 } else { at1 });
    let q = at2 < line.len() && line[at2] == '?';
    let at3 = skip_ws(line, if q { at2 + 1 } else { at2 });
    if 0 < k1 && k1 < j1 && j1 < k2 && at3 == n {
        let raw_type = string_of(slice_of(line, 0, k1).as_slice());
        let ty = LocoDataType::from_mermaid_type(raw_type.as_str());
        Some(
            Attribute {
                name: string_of(slice_of(line, j1, k2).as_slice()),
                data_type: ty.to_loco_type().to_owned(),
                is_primary_key: pk,
                is_foreign_key: fk,
                is_nullable: q,
            },
        )
    } else {
        None
    }
}

/// The symbol of six characters that stands at `i`, if it is one of the vocabulary.
fn read_symbol(line: &Vec<char>, i: usize) -> (r: Option<Vec<char>>)
    requires
        i <= line@.len(),
    ensures
        match r {
            Some(s) => i + 6 <= line@.len() && s@ == line@.subrange(i as int, i + 6) && is_symbol(
                s@,
            ),
            None => !(i + 6 <= line@.len() && is_symbol(line@.subrange(i as int, i + 6))),
        },
{
    if line.len() - i < 6 {
        return None;
    }
    let s = slice_of(line, i, i + 6);
    if same_chars(&s, "||--||") || same_chars(&s, "||--o{") || same_chars(&s, "o{--||")
        || same_chars(&s, "o{--o{") || same_chars(&s, "}o--||") || same_chars(&s, "}o--o{")
        || same_chars(&s, "|o--||") || same_chars(&s, "o|--o{") || same_chars(&s, "|o--o{")
        || same_chars(&s, "}o--o|") || same_chars(&s, "o|--||") {
        Some(s)
    } else {
        None
    }
}

fn symbol_kind(s: &Vec<char>) -> (r: (RelationshipType, Cardinality, Cardinality))
    ensures
        r == symbol_meaning(s@),
{
    if same_chars(s, "||--||") {
        (RelationshipType::OneToOne, Cardinality::One, Cardinality::One)
    } else if same_chars(s, "||--o{") {
        (RelationshipType::OneToMany, Cardinality::One, Cardinality::ZeroOrMany)
    } else if same_chars(s, "o{--||") {
        (RelationshipType::OneToMany, Cardinality::ZeroOrMany, Cardinality::One)
    } else if same_chars(s, "o{--o{") {
        (RelationshipType::ManyToMany, Cardinality::ZeroOrMany, Cardinality::ZeroOrMany)
    } else {
        (RelationshipType::OneToMany, Cardinality::One, Cardinality::ZeroOrMany)
    }
}

fn find_quote(s: &Vec<char>, i: usize) -> (r: bool)
    ensures
        r == has_quote_from(s@, i as int),
{
    let mut e = i;
    while e < s.len()
        invariant
            i <= e,
            forall|m: int| i <= m < e && m < s@.len() ==> s@[m] != '"',
        decreases s@.len() - e,
    {
        if s[e] == '"' {
            return true;
        }
        e = e + 1;
    }
    false
}

fn read_relationship(line: &Vec<char>) -> (r: Option<Relationship>)
    ensures
        match r {
            Some(x) => relationship_of(line@) == Some(x@),
            None => relationship_of(line@) is None,
        },
{
    let n = line.len();
    let k1 = skip_word(line, 0);
    let s0 = skip_ws(line, k1);
    if k1 == 0 {
        return None;
    }
    let sym = match read_symbol(line, s0) {
        Some(s) => s,
        None => return None,
    };
    let j = skip_ws(line, s0 + 6);
    let k2 = skip_word(line, j);
    let c = skip_ws(line, k2);
    if !(j < k2 && c < line.len() && line[c] == ':') {
        return None;
    }
    let d = skip_ws(line, c + 1);
    if n - d >= 2 && line[d] == '"' && find_quote(line, d + 2) {
        let (kind, from_card, to_card) = symbol_kind(&sym);
        Some(
            Relationship {
                from_entity: string_of(slice_of(line, 0, k1).as_slice()),
                to_entity: string_of(slice_of(line, j, k2).as_slice()),
                relationship_type: kind,
                from_cardinality: from_card,
                to_cardinality: to_card,
            },
        )
    } else {
        None
    }
}

fn note_line(open: bool, raw: &Vec<char>) -> (r: Vec<String>)
    ensures
        r@.map_values(|n: String| n@) == line_notes(open, raw@),
{
    let line = trim_chars(raw);
    let mut notes: Vec<String> = Vec::new();
    if read_header(&line).is_some() {
        assert(notes@.map_values(|n: String| n@) =~= line_notes(open, raw@));
        return notes;
    }
    if open {
        if (line.len() == 1 && line[0] == '}') || line.len() == 0 {
            proof {
                if line.len() == 1 {
                    assert(line@ =~= seq!['}']);
                }
            }
            assert(notes@.map_values(|n: String| n@) =~= line_notes(open, raw@));
            return notes;
        }
        assert(line@ != seq!['}']) by {
            if line@ == seq!['}'] {
                assert(line@.len() == 1);
            }
        }
        match read_attribute(&line) {
            None => {
                let mut n = String::new();
                n.append("skipped line in entity block: ");
                n.append(string_of(line.as_slice()).as_str());
                notes.push(n);
            },
            Some(_) => {
                let k = skip_word(&line, 0);
                let raw_type = slice_of(&line, 0, k);
                let raw_text = string_of(raw_type.as_slice());
                let ty = LocoDataType::from_mermaid_type(raw_text.as_str());
                if !same_chars(&lower_ascii(&raw_type), ty.to_loco_type()) {
                    let mut n = String::new();
                    n.append("unknown type '");
                    n.append(raw_text.as_str());
                    n.append("' read as string");
                    notes.push(n);
                }
            },
        }
    } else {
        match read_relationship(&line) {
            Some(_) => {
                let n = line.len();
                let k = skip_word(&line, 0);
                let s0 = skip_ws(&line, k);
                assert(s0 + 6 <= n);
                let sym = slice_of(&line, s0, s0 + 6);
                if !(same_chars(&sym, "||--||") || same_chars(&sym, "||--o{") || same_chars(
                    &sym,
                    "o{--||",
                ) || same_chars(&sym, "o{--o{")) {
                    let mut n = String::new();
                    n.append("relationship symbol '");
                    n.append(string_of(sym.as_slice()).as_str());
                    n.append("' read as one-to-many");
                    notes.push(n);
                }
            },
            None => {},
        }
    }
    assert(notes@.map_values(|n: String| n@) =~= line_notes(open, raw@));
    notes
}

fn apply_line(st: Progress, raw: &Vec<char>) -> (r: Progress)
    ensures
        r@ == step(st@, raw@),
{
    let line = trim_chars(raw);
    let Progress { mut entities, mut relationships, current } = st;
    let ghost old_entities = entities@;
    let ghost old_relationships = relationships@;
    match read_header(&line) {
        Some(name) => {
            if let Some(e) = current {
                entities.push(e);
                assert(entities@.map_values(|e: Entity| e@) =~= old_entities.map_values(
                    |e: Entity| e@,
                ).push(e@));
            }
            let fresh = Entity { name, attributes: Vec::new() };
            assert(fresh@.attributes =~= seq![]);
            Progress { entities, relationships, current: Some(fresh) }
        },
        None => {
            match current {
                Some(mut e) => {
                    if line.len() == 1 && line[0] == '}' {
                        assert(line@ =~= seq!['}']);
                        entities.push(e);
                        assert(entities@.map_values(|e: Entity| e@) =~= old_entities.map_values(
                            |e: Entity| e@,
                        ).push(e@));
                        Progress { entities, relationships, current: None }
                    } else {
                        assert(line@ != seq!['}'] ) by {
                            if line@ == seq!['}'] {
                                assert(line@.len() == 1);
                            }
                        }
                        match read_attribute(&line) {
                            Some(a) => {
                                let ghost old_attrs = e.attributes@;
                                e.attributes.push(a);
                                assert(e.attributes@.map_values(|a: Attribute| a@)
                                    =~= old_attrs.map_values(|a: Attribute| a@).push(a@));
                                Progress { entities, relationships, current: Some(e) }
                            },
                            None => Progress { entities, relationships, current: Some(e) },
                        }
                    }
                },
                None => {
                    match read_relationship(&line) {
                        Some(x) => {
                            relationships.push(x);
                            assert(relationships@.map_values(|r: Relationship| r@)
                                =~= old_relationships.map_values(|r: Relationship| r@).push(
                                x@,
                            ));
                            Progress { entities, relationships, current: None }
                        },
                        None => Progress { entities, relationships, current: None },
                    }
                },
            }
        },
    }
}

/// Reads diagrams: entity blocks, their attributes, and relationship lines.
pub struct MermaidParser {}

impl MermaidParser {
    pub fn new() -> (r: Self) {
        MermaidParser {}
    }

    /// Reads a diagram line by line. Lines that fit no shape are passed over, so
    /// reading always succeeds.
    pub fn parse(&mut self, content: &str) -> (r: Result<Schema, String>)
        ensures
            *final(self) == *old(self),
            match r {
                Ok(s) => s@ == parse_diagram(content@),
                Err(_) => false,
            },
    {
        let (schema, _notes) = self.parse_with_diagnostics(content);
        Ok(schema)
    }

    /// Reads a diagram as `parse` does, and also returns, in line order, a note
    /// for each line skipped inside an entity block, each type token that names no
    /// type, and each relationship symbol whose meaning is guessed.
    pub fn parse_with_diagnostics(&mut self, content: &str) -> (r: (Schema, Vec<String>))
        ensures
            *final(self) == *old(self),
            r.0@ == parse_diagram(content@),
            r.1@.map_values(|n: String| n@) == parse_notes(content@),
    {
        let s = chars_of(content);
        let mut st = Progress { entities: Vec::new(), relationships: Vec::new(), current: None };
        let mut notes: Vec<String> = Vec::new();
        let mut line: Vec<char> = Vec::new();
        let mut i: usize = 0;
        proof {
            assert(s@.take(0) =~= Seq::<char>::empty());
            assert(st@.entities =~= seq![]);
            assert(st@.relationships =~= seq![]);
            assert(lines_of(s@.take(0)).drop_last() =~= Seq::<Seq<char>>::empty());
            assert(notes@.map_values(|n: String| n@) =~= Seq::<Seq<char>>::empty());
        }
        while i < s.len()
            invariant
                i <= s@.len(),
                s@ == content@,
                lines_of(s@.take(i as int)).len() >= 1,
                st@ == run(initial_state(), lines_of(s@.take(i as int)).drop_last()),
                notes@.map_values(|n: String| n@) == notes_of(
                    lines_of(s@.take(i as int)).drop_last(),
                ),
                line@ == lines_of(s@.take(i as int)).last(),
            decreases s@.len() - i,
        {
            let c = s[i];
            let ghost prev = lines_of(s@.take(i as int));
            assert(s@.take(i + 1).drop_last() =~= s@.take(i as int));
            if c == '\n' {
                let ghost before = notes@.map_values(|n: String| n@);
                let mut more = note_line(st.current.is_some(), &line);
                notes.append(&mut more);
                assert(notes@.map_values(|n: String| n@) =~= before + line_notes(
                    st@.current is Some,
                    line@,
                ));
                st = apply_line(st, &line);
                line = Vec::new();
                assert(lines_of(s@.take(i + 1)) == prev.push(Seq::empty()));
                assert(lines_of(s@.take(i + 1)).drop_last() =~= prev);
            } else {
                line.push(c);
                let ghost next = lines_of(s@.take(i + 1));
                assert(next == prev.update(prev.len() - 1, prev.last().push(c)));
                assert(next.drop_last() =~= prev.drop_last());
            }
            i = i + 1;
        }
        assert(s@.take(i as int) =~= s@);
        let ghost before = notes@.map_values(|n: String| n@);
        let mut more = note_line(st.current.is_some(), &line);
        notes.append(&mut more);
        assert(notes@.map_values(|n: String| n@) =~= before + line_notes(
            st@.current is Some,
            line@,
        ));
        st = apply_line(st, &line);
        let Progress { mut entities, relationships, current } = st;
        let ghost old_entities = entities@;
        if let Some(e) = current {
            entities.push(e);
            assert(entities@.map_values(|e: Entity| e@) =~= old_entities.map_values(
                |e: Entity| e@,
            ).push(e@));
        }
        (Schema { entities, relationships }, notes)
    }
}

} // verus!
