use vstd::prelude::*;
use crate::ingest::{
    between, column_of, emit, ingest, ingest_run, ingest_step, is_builder_type, joined_lines,
    lemma_column_definition_read_back, lemma_lines_of_joined, starts_with, Draft, IngestState,
};
use crate::migration::{ColumnModel, MigrationModel, OperationModel};
use crate::parser::lines_of;
use crate::modifier::{
    column_definition, column_lines, migration_source, operation_source, operations_source,
    source_head, source_middle, source_tail, spaces, type_call,
};
use crate::text::{is_ws, trim, upper_of, ws_end, ws_start};

verus! {

proof fn lemma_differs(t: Seq<char>, p: Seq<char>, i: int)
    requires
        0 <= i < p.len(),
        i < t.len(),
        t[i] != p[i],
    ensures
        !starts_with(t, p),
        t != p,
        forall|q: Seq<char>| #[trigger] between(t, p, q) is None,
{
    if starts_with(t, p) {
        assert(t.take(p.len() as int)[i] == t[i]);
    }
}

proof fn lemma_shorter(t: Seq<char>, p: Seq<char>)
    requires
        t.len() < p.len(),
    ensures
        !starts_with(t, p),
        t != p,
        forall|q: Seq<char>| #[trigger] between(t, p, q) is None,
{
}

proof fn lemma_ws_run(x: Seq<char>, i: int, n: int)
    requires
        0 <= i <= n < x.len(),
        forall|j: int| i <= j < n ==> is_ws(#[trigger] x[j]),
        !is_ws(x[n]),
    ensures
        ws_end(x, i) == n,
    decreases n - i,
{
    if i < n {
        lemma_ws_run(x, i + 1, n);
    }
}

/// A line indented by `n` whitespace characters, whose text starts and ends with
/// other characters, trims to that text.
proof fn lemma_trim_indented(x: Seq<char>, n: int)
    requires
        0 <= n < x.len(),
        forall|j: int| 0 <= j < n ==> is_ws(#[trigger] x[j]),
        !is_ws(x[n]),
        !is_ws(x.last()),
    ensures
        trim(x) == x.skip(n),
{
    lemma_ws_run(x, 0, n);
    assert(x[x.len() - 1] == x.last());
    assert(ws_start(x, x.len() as int, n) == x.len());
}

/// A line whose text is empty or starts with neither `.` nor `a` changes nothing.
proof fn lemma_plain_line(st: IngestState, raw: Seq<char>)
    requires
        trim(raw).len() == 0 || (trim(raw)[0] != '.' && trim(raw)[0] != 'a'),
    ensures
        ingest_step(st, raw) == st,
{
    reveal_strlit("async fn up(");
    reveal_strlit("async fn down(");
    reveal_strlit(".create_table(");
    reveal_strlit(".alter_table(");
    reveal_strlit(".await?;");
    reveal_strlit(".drop_table(Table::drop().table(");
    reveal_strlit(".table(");
    reveal_strlit(".col(");
    reveal_strlit(".add_column(");
    reveal_strlit(".drop_column(");
    let t = trim(raw);
    if t.len() == 0 {
        lemma_shorter(t, "async fn up("@);
    } else {
        lemma_differs(t, "async fn up("@, 0);
    }
    if t.len() == 0 {
        lemma_shorter(t, "async fn down("@);
    } else {
        lemma_differs(t, "async fn down("@, 0);
    }
    if t.len() == 0 {
        lemma_shorter(t, ".create_table("@);
    } else {
        lemma_differs(t, ".create_table("@, 0);
    }
    if t.len() == 0 {
        lemma_shorter(t, ".alter_table("@);
    } else {
        lemma_differs(t, ".alter_table("@, 0);
    }
    if t.len() == 0 {
        lemma_shorter(t, ".await?;"@);
    } else {
        lemma_differs(t, ".await?;"@, 0);
    }
    if t.len() == 0 {
        lemma_shorter(t, ".drop_table(Table::drop().table("@);
    } else {
        lemma_differs(t, ".drop_table(Table::drop().table("@, 0);
    }
    if t.len() == 0 {
        lemma_shorter(t, ".table("@);
    } else {
        lemma_differs(t, ".table("@, 0);
    }
    if t.len() == 0 {
        lemma_shorter(t, ".col("@);
    } else {
        lemma_differs(t, ".col("@, 0);
    }
    if t.len() == 0 {
        lemma_shorter(t, ".add_column("@);
    } else {
        lemma_differs(t, ".add_column("@, 0);
    }
    if t.len() == 0 {
        lemma_shorter(t, ".drop_column("@);
    } else {
        lemma_differs(t, ".drop_column("@, 0);
    }
}

/// `p`, then `x`, then `q` is read as `x` between `p` and `q`.
proof fn lemma_between_parts(p: Seq<char>, x: Seq<char>, q: Seq<char>)
    ensures
        between(p + x + q, p, q) == Some(x),
{
    let t = p + x + q;
    assert(t.take(p.len() as int) =~= p);
    assert(t.skip(t.len() - q.len()) =~= q);
    assert(t.subrange(p.len() as int, t.len() - q.len()) =~= x);
}

proof fn lemma_create_line(st: IngestState, raw: Seq<char>)
    requires
        trim(raw) == ".create_table("@,
    ensures
        ingest_step(st, raw) == (IngestState {
            draft: Some(Draft { creating: true, table: seq![], columns: seq![], change: None }),
            ..st
        }),
{
    reveal_strlit("async fn up(");
    reveal_strlit("async fn down(");
    reveal_strlit(".create_table(");
    reveal_strlit(".alter_table(");
    reveal_strlit(".await?;");
    reveal_strlit(".drop_table(Table::drop().table(");
    reveal_strlit(".table(");
    reveal_strlit(".col(");
    reveal_strlit(".add_column(");
    reveal_strlit(".drop_column(");

    let t = trim(raw);
    lemma_differs(t, "async fn up("@, 0);
    lemma_differs(t, "async fn down("@, 0);

}

proof fn lemma_alter_line(st: IngestState, raw: Seq<char>)
    requires
        trim(raw) == ".alter_table("@,
    ensures
        ingest_step(st, raw) == (IngestState {
            draft: Some(Draft { creating: false, table: seq![], columns: seq![], change: None }),
            ..st
        }),
{
    reveal_strlit("async fn up(");
    reveal_strlit("async fn down(");
    reveal_strlit(".create_table(");
    reveal_strlit(".alter_table(");
    reveal_strlit(".await?;");
    reveal_strlit(".drop_table(Table::drop().table(");
    reveal_strlit(".table(");
    reveal_strlit(".col(");
    reveal_strlit(".add_column(");
    reveal_strlit(".drop_column(");

    let t = trim(raw);
    lemma_differs(t, "async fn up("@, 0);
    lemma_differs(t, "async fn down("@, 0);
    lemma_differs(t, ".create_table("@, 1);

}

proof fn lemma_await_line(st: IngestState, raw: Seq<char>)
    requires
        trim(raw) == ".await?;"@,
        st.draft is Some,
    ensures
        ingest_step(st, raw) == match crate::ingest::draft_operation(st.draft->Some_0) {
            Some(op) => emit(st, op),
            None => IngestState { draft: None, ..st },
        },
{
    reveal_strlit("async fn up(");
    reveal_strlit("async fn down(");
    reveal_strlit(".create_table(");
    reveal_strlit(".alter_table(");
    reveal_strlit(".await?;");
    reveal_strlit(".drop_table(Table::drop().table(");
    reveal_strlit(".table(");
    reveal_strlit(".col(");
    reveal_strlit(".add_column(");
    reveal_strlit(".drop_column(");

    let t = trim(raw);
    lemma_differs(t, "async fn up("@, 0);
    lemma_differs(t, "async fn down("@, 0);
    lemma_differs(t, ".create_table("@, 1);
    lemma_differs(t, ".alter_table("@, 2);

}

proof fn lemma_await_idle_line(st: IngestState, raw: Seq<char>)
    requires
        trim(raw) == ".await?;"@,
        st.draft is None,
    ensures
        ingest_step(st, raw) == st,
{
    reveal_strlit("async fn up(");
    reveal_strlit("async fn down(");
    reveal_strlit(".create_table(");
    reveal_strlit(".alter_table(");
    reveal_strlit(".await?;");
    reveal_strlit(".drop_table(Table::drop().table(");
    reveal_strlit(".table(");
    reveal_strlit(".col(");
    reveal_strlit(".add_column(");
    reveal_strlit(".drop_column(");

    let t = trim(raw);
    lemma_differs(t, "async fn up("@, 0);
    lemma_differs(t, "async fn down("@, 0);
    lemma_differs(t, ".create_table("@, 1);
    lemma_differs(t, ".alter_table("@, 2);

}

proof fn lemma_table_line(st: IngestState, raw: Seq<char>, u: Seq<char>)
    requires
        trim(raw) == ".table("@ + u + "::Table)"@,
        st.draft is Some,
    ensures
        ingest_step(st, raw) == (IngestState {
            draft: Some(Draft { table: u, ..st.draft->Some_0 }),
            ..st
        }),
{
    reveal_strlit("async fn up(");
    reveal_strlit("async fn down(");
    reveal_strlit(".create_table(");
    reveal_strlit(".alter_table(");
    reveal_strlit(".await?;");
    reveal_strlit(".drop_table(Table::drop().table(");
    reveal_strlit(".table(");
    reveal_strlit(".col(");
    reveal_strlit(".add_column(");
    reveal_strlit(".drop_column(");

    let t = trim(raw);
    lemma_differs(t, "async fn up("@, 0);
    lemma_differs(t, "async fn down("@, 0);
    lemma_differs(t, ".create_table("@, 1);
    lemma_differs(t, ".alter_table("@, 1);
    lemma_differs(t, ".await?;"@, 1);
    lemma_differs(t, ".drop_table(Table::drop().table("@, 1);
    lemma_between_parts(".table("@, u, "::Table)"@);
}

proof fn lemma_col_line(st: IngestState, raw: Seq<char>, def: Seq<char>)
    requires
        trim(raw) == ".col("@ + def + ")"@,
        column_of(def) is Some,
        st.draft is Some,
    ensures
        ingest_step(st, raw) == (IngestState {
            draft: Some(
                Draft {
                    columns: st.draft->Some_0.columns.push(column_of(def)->Some_0),
                    ..st.draft->Some_0
                },
            ),
            ..st
        }),
{
    reveal_strlit("async fn up(");
    reveal_strlit("async fn down(");
    reveal_strlit(".create_table(");
    reveal_strlit(".alter_table(");
    reveal_strlit(".await?;");
    reveal_strlit(".drop_table(Table::drop().table(");
    reveal_strlit(".table(");
    reveal_strlit(".col(");
    reveal_strlit(".add_column(");
    reveal_strlit(".drop_column(");

    let t = trim(raw);
    lemma_differs(t, "async fn up("@, 0);
    lemma_differs(t, "async fn down("@, 0);
    lemma_differs(t, ".create_table("@, 2);
    lemma_differs(t, ".alter_table("@, 1);
    lemma_differs(t, ".await?;"@, 1);
    lemma_differs(t, ".drop_table(Table::drop().table("@, 1);
    lemma_differs(t, ".table("@, 1);
    lemma_between_parts(".col("@, def, ")"@);
}

proof fn lemma_add_column_line(st: IngestState, raw: Seq<char>, def: Seq<char>)
    requires
        trim(raw) == ".add_column("@ + def + ")"@,
        column_of(def) is Some,
        st.draft is Some,
    ensures
        ingest_step(st, raw) == (IngestState {
            draft: Some(
                Draft {
                    change: Some(
                        crate::migration::OperationModel::AddColumn {
                            table: st.draft->Some_0.table,
                            column: column_of(def)->Some_0,
                        },
                    ),
                    ..st.draft->Some_0
                },
            ),
            ..st
        }),
{
    reveal_strlit("async fn up(");
    reveal_strlit("async fn down(");
    reveal_strlit(".create_table(");
    reveal_strlit(".alter_table(");
    reveal_strlit(".await?;");
    reveal_strlit(".drop_table(Table::drop().table(");
    reveal_strlit(".table(");
    reveal_strlit(".col(");
    reveal_strlit(".add_column(");
    reveal_strlit(".drop_column(");

    let t = trim(raw);
    lemma_differs(t, "async fn up("@, 0);
    lemma_differs(t, "async fn down("@, 0);
    lemma_differs(t, ".create_table("@, 1);
    lemma_differs(t, ".alter_table("@, 2);
    lemma_differs(t, ".await?;"@, 2);
    lemma_differs(t, ".drop_table(Table::drop().table("@, 1);
    lemma_differs(t, ".table("@, 1);
    lemma_differs(t, ".col("@, 1);
    lemma_between_parts(".add_column("@, def, ")"@);
}

proof fn lemma_drop_column_line(st: IngestState, raw: Seq<char>, u: Seq<char>, c: Seq<char>)
    requires
        trim(raw) == ".drop_column("@ + u + "::"@ + c + ")"@,
        !u.contains(':'),
        st.draft is Some,
    ensures
        ingest_step(st, raw) == (IngestState {
            draft: Some(
                Draft {
                    change: Some(
                        crate::migration::OperationModel::DropColumn {
                            table: st.draft->Some_0.table,
                            column_name: c,
                        },
                    ),
                    ..st.draft->Some_0
                },
            ),
            ..st
        }),
{
    reveal_strlit("async fn up(");
    reveal_strlit("async fn down(");
    reveal_strlit(".create_table(");
    reveal_strlit(".alter_table(");
    reveal_strlit(".await?;");
    reveal_strlit(".drop_table(Table::drop().table(");
    reveal_strlit(".table(");
    reveal_strlit(".col(");
    reveal_strlit(".add_column(");
    reveal_strlit(".drop_column(");

    let t = trim(raw);
    lemma_differs(t, "async fn up("@, 0);
    lemma_differs(t, "async fn down("@, 0);
    lemma_differs(t, ".create_table("@, 1);
    lemma_differs(t, ".alter_table("@, 1);
    lemma_differs(t, ".await?;"@, 1);
    lemma_differs(t, ".drop_table(Table::drop().table("@, 6);
    lemma_differs(t, ".table("@, 1);
    lemma_differs(t, ".col("@, 1);
    lemma_differs(t, ".add_column("@, 1);
    reveal_strlit("::");
    let target = u + "::"@ + c;
    assert(t =~= ".drop_column("@ + target + ")"@);
    lemma_between_parts(".drop_column("@, target, ")"@);
    assert forall|j: int| 0 <= j < u.len() implies target[j] != ':' by {
        assert(target[j] == u[j]);
        if u[j] == ':' {
            assert(u.contains(':'));
        }
    }
    assert(target[u.len() as int] == ':');
    crate::ingest::lemma_index_from_reaches(target, ':', 0, u.len() as int);
    assert(target.skip(u.len() as int + 2) =~= c);
}

proof fn lemma_drop_table_line(st: IngestState, raw: Seq<char>, u: Seq<char>)
    requires
        trim(raw) == ".drop_table(Table::drop().table("@ + u + "::Table).to_owned())"@,
    ensures
        ingest_step(st, raw) == emit(st, crate::migration::OperationModel::DropTable { name: u }),
{
    reveal_strlit("async fn up(");
    reveal_strlit("async fn down(");
    reveal_strlit(".create_table(");
    reveal_strlit(".alter_table(");
    reveal_strlit(".await?;");
    reveal_strlit(".drop_table(Table::drop().table(");
    reveal_strlit(".table(");
    reveal_strlit(".col(");
    reveal_strlit(".add_column(");
    reveal_strlit(".drop_column(");

    let t = trim(raw);
    lemma_differs(t, "async fn up("@, 0);
    lemma_differs(t, "async fn down("@, 0);
    lemma_differs(t, ".create_table("@, 1);
    lemma_differs(t, ".alter_table("@, 1);
    lemma_differs(t, ".await?;"@, 1);
    lemma_between_parts(".drop_table(Table::drop().table("@, u, "::Table).to_owned())"@);
}

proof fn lemma_to_owned_line(st: IngestState, raw: Seq<char>)
    requires
        trim(raw) == ".to_owned(),"@,
    ensures
        ingest_step(st, raw) == st,
{
    reveal_strlit("async fn up(");
    reveal_strlit("async fn down(");
    reveal_strlit(".create_table(");
    reveal_strlit(".alter_table(");
    reveal_strlit(".await?;");
    reveal_strlit(".drop_table(Table::drop().table(");
    reveal_strlit(".table(");
    reveal_strlit(".col(");
    reveal_strlit(".add_column(");
    reveal_strlit(".drop_column(");

    reveal_strlit(".to_owned(),");
    let t = trim(raw);
    lemma_differs(t, "async fn up("@, 0);
    lemma_differs(t, "async fn down("@, 0);
    lemma_differs(t, ".create_table("@, 1);
    lemma_differs(t, ".alter_table("@, 1);
    lemma_differs(t, ".await?;"@, 1);
    lemma_differs(t, ".drop_table(Table::drop().table("@, 1);
    lemma_differs(t, ".table("@, 2);
    lemma_differs(t, ".col("@, 1);
    lemma_differs(t, ".add_column("@, 1);
    lemma_differs(t, ".drop_column("@, 1);

}

proof fn lemma_up_line(st: IngestState, raw: Seq<char>)
    requires
        trim(raw) == "async fn up(&self, manager: &SchemaManager) -> Result<(), DbErr> {"@,
    ensures
        ingest_step(st, raw) == (IngestState { section: 1, draft: None, ..st }),
{
    reveal_strlit("async fn up(");
    reveal_strlit("async fn down(");
    reveal_strlit(".create_table(");
    reveal_strlit(".alter_table(");
    reveal_strlit(".await?;");
    reveal_strlit(".drop_table(Table::drop().table(");
    reveal_strlit(".table(");
    reveal_strlit(".col(");
    reveal_strlit(".add_column(");
    reveal_strlit(".drop_column(");
    reveal_strlit("async fn up(&self, manager: &SchemaManager) -> Result<(), DbErr> {");
    let t = trim(raw);

    assert(t.take(12) =~= "async fn up("@);
}

proof fn lemma_down_line(st: IngestState, raw: Seq<char>)
    requires
        trim(raw) == "async fn down(&self, manager: &SchemaManager) -> Result<(), DbErr> {"@,
    ensures
        ingest_step(st, raw) == (IngestState { section: 2, draft: None, ..st }),
{
    reveal_strlit("async fn up(");
    reveal_strlit("async fn down(");
    reveal_strlit(".create_table(");
    reveal_strlit(".alter_table(");
    reveal_strlit(".await?;");
    reveal_strlit(".drop_table(Table::drop().table(");
    reveal_strlit(".table(");
    reveal_strlit(".col(");
    reveal_strlit(".add_column(");
    reveal_strlit(".drop_column(");
    reveal_strlit("async fn down(&self, manager: &SchemaManager) -> Result<(), DbErr> {");
    let t = trim(raw);
    lemma_differs(t, "async fn up("@, 9);
    assert(t.take(14) =~= "async fn down("@);
}

proof fn lemma_ingest_run_prefix(st: IngestState, ls: Seq<Seq<char>>, k: int)
    requires
        0 <= k < ls.len(),
    ensures
        ingest_run(st, ls.take(k + 1)) == ingest_step(ingest_run(st, ls.take(k)), ls[k]),
{
    assert(ls.take(k + 1).drop_last() =~= ls.take(k));
    assert(ls.take(k + 1).last() == ls[k]);
}

proof fn lemma_ingest_run_append(st: IngestState, a: Seq<Seq<char>>, b: Seq<Seq<char>>)
    ensures
        ingest_run(st, a + b) == ingest_run(ingest_run(st, a), b),
    decreases b.len(),
{
    if b.len() == 0 {
        assert(a + b =~= a);
    } else {
        assert((a + b).drop_last() =~= a + b.drop_last());
        lemma_ingest_run_append(st, a, b.drop_last());
    }
}

proof fn lemma_no_newline_concat(a: Seq<char>, b: Seq<char>)
    requires
        !a.contains('\n'),
        !b.contains('\n'),
    ensures
        !(a + b).contains('\n'),
{
    if (a + b).contains('\n') {
        let i = choose|i: int| 0 <= i < (a + b).len() && (a + b)[i] == '\n';
        if i < a.len() {
            assert(a[i] == '\n');
        } else {
            assert(b[i - a.len()] == '\n');
        }
    }
}

proof fn lemma_spaces_plain(n: nat)
    ensures
        !spaces(n).contains('\n'),
        forall|j: int| 0 <= j < n ==> is_ws(#[trigger] spaces(n)[j]),
{
}

/// The name in capitals and the column, as reading them back gives them.
pub open spec fn upper_column(c: ColumnModel) -> ColumnModel {
    ColumnModel { name: upper_of(c.name), ..c }
}

/// A column that reads back as written: its name in capitals holds no `)` and no
/// line feed, its type has a builder call, and its default holds no line feed.
pub open spec fn column_reads_back(c: ColumnModel) -> bool {
    &&& !upper_of(c.name).contains(')')
    &&& !upper_of(c.name).contains('\n')
    &&& is_builder_type(c.column_type)
    &&& (c.default matches Some(d) ==> !d.contains('\n'))
}

proof fn lemma_definition_plain(c: ColumnModel)
    requires
        column_reads_back(c),
    ensures
        !column_definition(c).contains('\n'),
        column_of(column_definition(c)) == Some(upper_column(c)),
        column_definition(c).len() > 0,
{
    lemma_column_definition_read_back(c);
    reveal_strlit("ColumnDef::new(Alias::");
    reveal_strlit(")");
    reveal_strlit(".string()");
    reveal_strlit(".integer()");
    reveal_strlit(".boolean()");
    reveal_strlit(".text()");
    reveal_strlit(".timestamp()");
    reveal_strlit(".not_null()");
    reveal_strlit(".default(\"");
    reveal_strlit("\")");
    let head = "ColumnDef::new(Alias::"@ + upper_of(c.name);
    lemma_no_newline_concat("ColumnDef::new(Alias::"@, upper_of(c.name));
    let with_type = head + ")"@ + type_call(c.column_type);
    lemma_no_newline_concat(head, ")"@);
    lemma_no_newline_concat(head + ")"@, type_call(c.column_type));
    let nn = if c.nullable {
        Seq::<char>::empty()
    } else {
        ".not_null()"@
    };
    lemma_no_newline_concat(with_type, nn);
    match c.default {
        Some(d) => {
            lemma_no_newline_concat(".default(\""@, d);
            lemma_no_newline_concat(".default(\""@ + d, "\")"@);
            lemma_no_newline_concat(with_type + nn, ".default(\""@ + d + "\")"@);
        },
        None => {
            assert(with_type + nn + Seq::<char>::empty() =~= with_type + nn);
        },
    }
}

proof fn lemma_trimmed(k: nat, body: Seq<char>)
    requires
        body.len() > 0,
        !is_ws(body[0]),
        !is_ws(body.last()),
    ensures
        trim(spaces(k) + body) == body,
{
    let x = spaces(k) + body;
    assert(x[k as int] == body[0]);
    assert(x.last() == body.last());
    lemma_trim_indented(x, k as int);
    assert(x.skip(k as int) =~= body);
}

/// The lines of a column addition as the serializer writes it.
pub open spec fn add_column_lines(table: Seq<char>, column: ColumnModel) -> Seq<Seq<char>> {
    seq![
        spaces(8) + "manager"@,
        spaces(12) + ".alter_table("@,
        spaces(16) + "Table::alter()"@,
        spaces(20) + ".table("@ + upper_of(table) + "::Table)"@,
        spaces(20) + ".add_column("@ + column_definition(column) + ")"@,
        spaces(20) + ".to_owned(),"@,
        spaces(12) + ")"@,
        spaces(12) + ".await?;"@,
        Seq::<char>::empty(),
    ]
}

#[verifier::rlimit(40)]
proof fn lemma_add_column_text(table: Seq<char>, column: ColumnModel)
    ensures
        operation_source(OperationModel::AddColumn { table, column }, spaces(8)) =~= joined_lines(
            add_column_lines(table, column),
        ),
{
    reveal_with_fuel(joined_lines, 10);
    reveal_strlit("manager\n");
    reveal_strlit("    .alter_table(\n");
    reveal_strlit("        Table::alter()\n");
    reveal_strlit("            .table(");
    reveal_strlit("::Table)\n");
    reveal_strlit("            .add_column(");
    reveal_strlit(")\n");
    reveal_strlit("            .to_owned(),\n");
    reveal_strlit("    )\n");
    reveal_strlit("    .await?;\n\n");
    reveal_strlit("manager");
    reveal_strlit(".alter_table(");
    reveal_strlit("Table::alter()");
    reveal_strlit(".table(");
    reveal_strlit("::Table)");
    reveal_strlit(".add_column(");
    reveal_strlit(")");
    reveal_strlit(".to_owned(),");
    reveal_strlit(".await?;");
}

proof fn lemma_add_column_read(st: IngestState, table: Seq<char>, column: ColumnModel)
    requires
        column_reads_back(column),
    ensures
        ingest_run(st, add_column_lines(table, column)) == emit(
            st,
            OperationModel::AddColumn { table: upper_of(table), column: upper_column(column) },
        ),
{
    reveal_strlit("manager");
    reveal_strlit(".alter_table(");
    reveal_strlit("Table::alter()");
    reveal_strlit(".table(");
    reveal_strlit("::Table)");
    reveal_strlit(".add_column(");
    reveal_strlit(")");
    reveal_strlit(".to_owned(),");
    reveal_strlit(".await?;");
    let ls = add_column_lines(table, column);
    let u = upper_of(table);
    let def = column_definition(column);
    lemma_definition_plain(column);
    lemma_trimmed(8, "manager"@);
    lemma_trimmed(12, ".alter_table("@);
    lemma_trimmed(16, "Table::alter()"@);
    lemma_trimmed(20, ".table("@ + u + "::Table)"@);
    lemma_trimmed(20, ".add_column("@ + def + ")"@);
    lemma_trimmed(20, ".to_owned(),"@);
    lemma_trimmed(12, ")"@);
    lemma_trimmed(12, ".await?;"@);
    assert(trim(Seq::<char>::empty()) =~= Seq::<char>::empty());
    assert(ls.take(0) =~= Seq::<Seq<char>>::empty());
    let s0 = st;
    lemma_ingest_run_prefix(st, ls, 0);
    lemma_plain_line(s0, ls[0]);
    lemma_ingest_run_prefix(st, ls, 1);
    lemma_alter_line(s0, ls[1]);
    let d1 = Draft { creating: false, table: seq![], columns: seq![], change: None };
    let s2 = IngestState { draft: Some(d1), ..st };
    lemma_ingest_run_prefix(st, ls, 2);
    lemma_plain_line(s2, ls[2]);
    lemma_ingest_run_prefix(st, ls, 3);
    assert(ls[3] =~= spaces(20) + (".table("@ + u + "::Table)"@));
    lemma_table_line(s2, ls[3], u);
    let d3 = Draft { table: u, ..d1 };
    let s3 = IngestState { draft: Some(d3), ..st };
    lemma_ingest_run_prefix(st, ls, 4);
    assert(ls[4] =~= spaces(20) + (".add_column("@ + def + ")"@));
    lemma_add_column_line(s3, ls[4], def);
    let op = OperationModel::AddColumn { table: u, column: upper_column(column) };
    let s4 = IngestState { draft: Some(Draft { change: Some(op), ..d3 }), ..st };
    lemma_ingest_run_prefix(st, ls, 5);
    lemma_to_owned_line(s4, ls[5]);
    lemma_ingest_run_prefix(st, ls, 6);
    lemma_plain_line(s4, ls[6]);
    lemma_ingest_run_prefix(st, ls, 7);
    lemma_await_line(s4, ls[7]);
    lemma_ingest_run_prefix(st, ls, 8);
    lemma_plain_line(emit(s4, op), ls[8]);
    assert(ls.take(9) =~= ls);
    assert(emit(s4, op) == emit(st, op));
}

/// The lines of a column drop as the serializer writes it.
pub open spec fn drop_column_lines(table: Seq<char>, column_name: Seq<char>) -> Seq<Seq<char>> {
    seq![
        spaces(8) + "manager"@,
        spaces(12) + ".alter_table("@,
        spaces(16) + "Table::alter()"@,
        spaces(20) + ".table("@ + upper_of(table) + "::Table)"@,
        spaces(20) + ".drop_column("@ + upper_of(table) + "::"@ + upper_of(column_name) + ")"@,
        spaces(20) + ".to_owned(),"@,
        spaces(12) + ")"@,
        spaces(12) + ".await?;"@,
        Seq::<char>::empty(),
    ]
}

#[verifier::rlimit(40)]
proof fn lemma_drop_column_text(table: Seq<char>, column_name: Seq<char>)
    ensures
        operation_source(OperationModel::DropColumn { table, column_name }, spaces(8))
            =~= joined_lines(drop_column_lines(table, column_name)),
{
    reveal_with_fuel(joined_lines, 10);
    reveal_strlit("manager\n");
    reveal_strlit("    .alter_table(\n");
    reveal_strlit("        Table::alter()\n");
    reveal_strlit("            .table(");
    reveal_strlit("::Table)\n");
    reveal_strlit("            .drop_column(");
    reveal_strlit("::");
    reveal_strlit(")\n");
    reveal_strlit("            .to_owned(),\n");
    reveal_strlit("    )\n");
    reveal_strlit("    .await?;\n\n");
    reveal_strlit("manager");
    reveal_strlit(".alter_table(");
    reveal_strlit("Table::alter()");
    reveal_strlit(".table(");
    reveal_strlit("::Table)");
    reveal_strlit(".drop_column(");
    reveal_strlit(")");
    reveal_strlit(".to_owned(),");
    reveal_strlit(".await?;");
}

proof fn lemma_drop_column_read(st: IngestState, table: Seq<char>, column_name: Seq<char>)
    requires
        !upper_of(table).contains(':'),
    ensures
        ingest_run(st, drop_column_lines(table, column_name)) == emit(
            st,
            OperationModel::DropColumn {
                table: upper_of(table),
                column_name: upper_of(column_name),
            },
        ),
{
    reveal_strlit("manager");
    reveal_strlit(".alter_table(");
    reveal_strlit("Table::alter()");
    reveal_strlit(".table(");
    reveal_strlit("::Table)");
    reveal_strlit(".drop_column(");
    reveal_strlit("::");
    reveal_strlit(")");
    reveal_strlit(".to_owned(),");
    reveal_strlit(".await?;");
    let ls = drop_column_lines(table, column_name);
    let u = upper_of(table);
    let c = upper_of(column_name);
    lemma_trimmed(8, "manager"@);
    lemma_trimmed(12, ".alter_table("@);
    lemma_trimmed(16, "Table::alter()"@);
    lemma_trimmed(20, ".table("@ + u + "::Table)"@);
    lemma_trimmed(20, ".drop_column("@ + u + "::"@ + c + ")"@);
    lemma_trimmed(20, ".to_owned(),"@);
    lemma_trimmed(12, ")"@);
    lemma_trimmed(12, ".await?;"@);
    assert(trim(Seq::<char>::empty()) =~= Seq::<char>::empty());
    assert(ls.take(0) =~= Seq::<Seq<char>>::empty());
    let s0 = st;
    lemma_ingest_run_prefix(st, ls, 0);
    lemma_plain_line(s0, ls[0]);
    lemma_ingest_run_prefix(st, ls, 1);
    lemma_alter_line(s0, ls[1]);
    let d1 = Draft { creating: false, table: seq![], columns: seq![], change: None };
    let s2 = IngestState { draft: Some(d1), ..st };
    lemma_ingest_run_prefix(st, ls, 2);
    lemma_plain_line(s2, ls[2]);
    lemma_ingest_run_prefix(st, ls, 3);
    assert(ls[3] =~= spaces(20) + (".table("@ + u + "::Table)"@));
    lemma_table_line(s2, ls[3], u);
    let d3 = Draft { table: u, ..d1 };
    let s3 = IngestState { draft: Some(d3), ..st };
    lemma_ingest_run_prefix(st, ls, 4);
    assert(ls[4] =~= spaces(20) + (".drop_column("@ + u + "::"@ + c + ")"@));
    lemma_drop_column_line(s3, ls[4], u, c);
    let op = OperationModel::DropColumn { table: u, column_name: c };
    let s4 = IngestState { draft: Some(Draft { change: Some(op), ..d3 }), ..st };
    lemma_ingest_run_prefix(st, ls, 5);
    lemma_to_owned_line(s4, ls[5]);
    lemma_ingest_run_prefix(st, ls, 6);
    lemma_plain_line(s4, ls[6]);
    lemma_ingest_run_prefix(st, ls, 7);
    lemma_await_line(s4, ls[7]);
    lemma_ingest_run_prefix(st, ls, 8);
    lemma_plain_line(emit(s4, op), ls[8]);
    assert(ls.take(9) =~= ls);
    assert(emit(s4, op) == emit(st, op));
}

/// The lines of a table drop as the serializer writes it.
pub open spec fn drop_table_lines(name: Seq<char>) -> Seq<Seq<char>> {
    seq![
        spaces(8) + "manager"@,
        spaces(12) + ".drop_table(Table::drop().table("@ + upper_of(name)
            + "::Table).to_owned())"@,
        spaces(12) + ".await?;"@,
        Seq::<char>::empty(),
    ]
}

#[verifier::rlimit(40)]
proof fn lemma_drop_table_text(name: Seq<char>)
    ensures
        operation_source(OperationModel::DropTable { name }, spaces(8)) =~= joined_lines(
            drop_table_lines(name),
        ),
{
    reveal_with_fuel(joined_lines, 5);
    reveal_strlit("manager\n");
    reveal_strlit("    .drop_table(Table::drop().table(");
    reveal_strlit("::Table).to_owned())\n");
    reveal_strlit("    .await?;\n\n");
    reveal_strlit("manager");
    reveal_strlit(".drop_table(Table::drop().table(");
    reveal_strlit("::Table).to_owned())");
    reveal_strlit(".await?;");
}

proof fn lemma_drop_table_read(st: IngestState, name: Seq<char>)
    ensures
        ingest_run(st, drop_table_lines(name)) == emit(
            st,
            OperationModel::DropTable { name: upper_of(name) },
        ),
{
    reveal_strlit("manager");
    reveal_strlit(".drop_table(Table::drop().table(");
    reveal_strlit("::Table).to_owned())");
    reveal_strlit(".await?;");
    let ls = drop_table_lines(name);
    let u = upper_of(name);
    lemma_trimmed(8, "manager"@);
    lemma_trimmed(12, ".drop_table(Table::drop().table("@ + u + "::Table).to_owned())"@);
    lemma_trimmed(12, ".await?;"@);
    assert(trim(Seq::<char>::empty()) =~= Seq::<char>::empty());
    assert(ls.take(0) =~= Seq::<Seq<char>>::empty());
    lemma_ingest_run_prefix(st, ls, 0);
    lemma_plain_line(st, ls[0]);
    lemma_ingest_run_prefix(st, ls, 1);
    assert(ls[1] =~= spaces(12) + (".drop_table(Table::drop().table("@ + u
        + "::Table).to_owned())"@));
    lemma_drop_table_line(st, ls[1], u);
    let op = OperationModel::DropTable { name: u };
    lemma_ingest_run_prefix(st, ls, 2);
    lemma_await_idle_line(emit(st, op), ls[2]);
    lemma_ingest_run_prefix(st, ls, 3);
    lemma_plain_line(emit(st, op), ls[3]);
    assert(ls.take(4) =~= ls);
}

proof fn lemma_joined_append(a: Seq<Seq<char>>, b: Seq<Seq<char>>)
    ensures
        joined_lines(a + b) =~= joined_lines(a) + joined_lines(b),
    decreases b.len(),
{
    if b.len() == 0 {
        assert(a + b =~= a);
    } else {
        assert((a + b).drop_last() =~= a + b.drop_last());
        assert((a + b).last() == b.last());
        lemma_joined_append(a, b.drop_last());
    }
}

pub open spec fn column_line(c: ColumnModel) -> Seq<char> {
    spaces(20) + ".col("@ + column_definition(c) + ")"@
}

pub open spec fn column_line_list(cols: Seq<ColumnModel>) -> Seq<Seq<char>> {
    cols.map_values(|c: ColumnModel| column_line(c))
}

pub open spec fn create_head_lines(name: Seq<char>) -> Seq<Seq<char>> {
    seq![
        spaces(8) + "manager"@,
        spaces(12) + ".create_table("@,
        spaces(16) + "Table::create()"@,
        spaces(20) + ".table("@ + upper_of(name) + "::Table)"@,
    ]
}

pub open spec fn statement_tail_lines() -> Seq<Seq<char>> {
    seq![
        spaces(20) + ".to_owned(),"@,
        spaces(12) + ")"@,
        spaces(12) + ".await?;"@,
        Seq::<char>::empty(),
    ]
}

/// The lines of a table creation as the serializer writes it.
pub open spec fn create_table_lines(name: Seq<char>, cols: Seq<ColumnModel>) -> Seq<Seq<char>> {
    create_head_lines(name) + column_line_list(cols) + statement_tail_lines()
}

proof fn lemma_column_lines_text(cols: Seq<ColumnModel>)
    ensures
        column_lines(spaces(8), cols) =~= joined_lines(column_line_list(cols)),
    decreases cols.len(),
{
    reveal_strlit("            .col(");
    reveal_strlit(")\n");
    reveal_strlit(".col(");
    reveal_strlit(")");
    if cols.len() > 0 {
        lemma_column_lines_text(cols.drop_last());
        let ls = column_line_list(cols);
        assert(ls.drop_last() =~= column_line_list(cols.drop_last()));
        assert(ls.last() == column_line(cols.last()));
    } else {
        assert(column_line_list(cols) =~= Seq::<Seq<char>>::empty());
    }
}

proof fn lemma_create_head_text(name: Seq<char>)
    ensures
        joined_lines(create_head_lines(name)) =~= spaces(8) + "manager\n"@ + spaces(8)
            + "    .create_table(\n"@ + spaces(8) + "        Table::create()\n"@ + spaces(8)
            + "            .table("@ + upper_of(name) + "::Table)\n"@,
{
    reveal_with_fuel(joined_lines, 5);
    reveal_strlit("manager\n");
    reveal_strlit("    .create_table(\n");
    reveal_strlit("        Table::create()\n");
    reveal_strlit("            .table(");
    reveal_strlit("::Table)\n");
    reveal_strlit("manager");
    reveal_strlit(".create_table(");
    reveal_strlit("Table::create()");
    reveal_strlit(".table(");
    reveal_strlit("::Table)");
}

proof fn lemma_statement_tail_text()
    ensures
        joined_lines(statement_tail_lines()) =~= spaces(8) + "            .to_owned(),\n"@
            + spaces(8) + "    )\n"@ + spaces(8) + "    .await?;\n\n"@,
{
    reveal_with_fuel(joined_lines, 5);
    reveal_strlit("            .to_owned(),\n");
    reveal_strlit("    )\n");
    reveal_strlit("    .await?;\n\n");
    reveal_strlit(".to_owned(),");
    reveal_strlit(")");
    reveal_strlit(".await?;");
}

#[verifier::rlimit(40)]
proof fn lemma_create_table_text(name: Seq<char>, cols: Seq<ColumnModel>)
    ensures
        operation_source(OperationModel::CreateTable { name, columns: cols }, spaces(8))
            =~= joined_lines(create_table_lines(name, cols)),
{
    let head = create_head_lines(name);
    let mid = column_line_list(cols);
    let tail = statement_tail_lines();
    lemma_joined_append(head + mid, tail);
    lemma_joined_append(head, mid);
    lemma_column_lines_text(cols);
    lemma_create_head_text(name);
    lemma_statement_tail_text();
}

proof fn lemma_column_lines_read(st: IngestState, d: Draft, cols: Seq<ColumnModel>)
    requires
        st.draft == Some(d),
        forall|i: int| 0 <= i < cols.len() ==> column_reads_back(#[trigger] cols[i]),
    ensures
        ingest_run(st, column_line_list(cols)) == (IngestState {
            draft: Some(
                Draft {
                    columns: d.columns + cols.map_values(|c: ColumnModel| upper_column(c)),
                    ..d
                },
            ),
            ..st
        }),
    decreases cols.len(),
{
    reveal_strlit(".col(");
    reveal_strlit(")");
    if cols.len() == 0 {
        assert(column_line_list(cols) =~= Seq::<Seq<char>>::empty());
        assert(d.columns + cols.map_values(|c: ColumnModel| upper_column(c)) =~= d.columns);
    } else {
        let init = cols.drop_last();
        let c = cols.last();
        assert(cols[cols.len() - 1] == c);
        assert forall|i: int| 0 <= i < init.len() implies column_reads_back(#[trigger] init[i]) by {
            assert(init[i] == cols[i]);
        }
        lemma_column_lines_read(st, d, init);
        let ls = column_line_list(cols);
        assert(ls.drop_last() =~= column_line_list(init));
        let before = IngestState {
            draft: Some(
                Draft {
                    columns: d.columns + init.map_values(|c: ColumnModel| upper_column(c)),
                    ..d
                },
            ),
            ..st
        };
        let def = column_definition(c);
        lemma_definition_plain(c);
        lemma_trimmed(20, ".col("@ + def + ")"@);
        assert(ls.last() =~= spaces(20) + (".col("@ + def + ")"@));
        lemma_col_line(before, ls.last(), def);
        assert(d.columns + cols.map_values(|c: ColumnModel| upper_column(c)) =~= (d.columns
            + init.map_values(|c: ColumnModel| upper_column(c))).push(upper_column(c)));
    }
}

proof fn lemma_create_table_read(st: IngestState, name: Seq<char>, cols: Seq<ColumnModel>)
    requires
        forall|i: int| 0 <= i < cols.len() ==> column_reads_back(#[trigger] cols[i]),
    ensures
        ingest_run(st, create_table_lines(name, cols)) == emit(
            st,
            OperationModel::CreateTable {
                name: upper_of(name),
                columns: cols.map_values(|c: ColumnModel| upper_column(c)),
            },
        ),
{
    reveal_strlit("manager");
    reveal_strlit(".create_table(");
    reveal_strlit("Table::create()");
    reveal_strlit(".table(");
    reveal_strlit("::Table)");
    reveal_strlit(".to_owned(),");
    reveal_strlit(")");
    reveal_strlit(".await?;");
    let u = upper_of(name);
    let head = create_head_lines(name);
    let tail = statement_tail_lines();
    let mid = column_line_list(cols);
    lemma_trimmed(8, "manager"@);
    lemma_trimmed(12, ".create_table("@);
    lemma_trimmed(16, "Table::create()"@);
    lemma_trimmed(20, ".table("@ + u + "::Table)"@);
    lemma_trimmed(20, ".to_owned(),"@);
    lemma_trimmed(12, ")"@);
    lemma_trimmed(12, ".await?;"@);
    assert(trim(Seq::<char>::empty()) =~= Seq::<char>::empty());
    assert(head.take(0) =~= Seq::<Seq<char>>::empty());
    lemma_ingest_run_prefix(st, head, 0);
    lemma_plain_line(st, head[0]);
    lemma_ingest_run_prefix(st, head, 1);
    lemma_create_line(st, head[1]);
    let d1 = Draft { creating: true, table: seq![], columns: seq![], change: None };
    let s2 = IngestState { draft: Some(d1), ..st };
    lemma_ingest_run_prefix(st, head, 2);
    lemma_plain_line(s2, head[2]);
    lemma_ingest_run_prefix(st, head, 3);
    assert(head[3] =~= spaces(20) + (".table("@ + u + "::Table)"@));
    lemma_table_line(s2, head[3], u);
    assert(head.take(4) =~= head);
    let d3 = Draft { table: u, ..d1 };
    let s3 = IngestState { draft: Some(d3), ..st };
    lemma_ingest_run_append(st, head, mid);
    lemma_column_lines_read(s3, d3, cols);
    let ucols = cols.map_values(|c: ColumnModel| upper_column(c));
    assert(d3.columns + ucols =~= ucols);
    let d4 = Draft { columns: ucols, ..d3 };
    let s4 = IngestState { draft: Some(d4), ..st };
    lemma_ingest_run_append(st, head + mid, tail);
    assert(tail.take(0) =~= Seq::<Seq<char>>::empty());
    lemma_ingest_run_prefix(s4, tail, 0);
    lemma_to_owned_line(s4, tail[0]);
    lemma_ingest_run_prefix(s4, tail, 1);
    lemma_plain_line(s4, tail[1]);
    lemma_ingest_run_prefix(s4, tail, 2);
    lemma_await_line(s4, tail[2]);
    let op = OperationModel::CreateTable { name: u, columns: ucols };
    lemma_ingest_run_prefix(s4, tail, 3);
    lemma_plain_line(emit(s4, op), tail[3]);
    assert(tail.take(4) =~= tail);
    assert(emit(s4, op) == emit(st, op));
}

/// The lines of one statement as the serializer writes it.
pub open spec fn statement_lines(op: OperationModel) -> Seq<Seq<char>> {
    match op {
        OperationModel::CreateTable { name, columns } => create_table_lines(name, columns),
        OperationModel::DropTable { name } => drop_table_lines(name),
        OperationModel::AddColumn { table, column } => add_column_lines(table, column),
        OperationModel::DropColumn { table, column_name } => drop_column_lines(table, column_name),
    }
}

/// The lines of a list of statements.
pub open spec fn operations_lines(ops: Seq<OperationModel>) -> Seq<Seq<char>>
    decreases ops.len(),
{
    if ops.len() == 0 {
        seq![]
    } else {
        operations_lines(ops.drop_last()) + statement_lines(ops.last())
    }
}

/// An operation as reading back its statement gives it: every name in capitals.
pub open spec fn read_back_operation(op: OperationModel) -> OperationModel {
    match op {
        OperationModel::CreateTable { name, columns } => OperationModel::CreateTable {
            name: upper_of(name),
            columns: columns.map_values(|c: ColumnModel| upper_column(c)),
        },
        OperationModel::DropTable { name } => OperationModel::DropTable { name: upper_of(name) },
        OperationModel::AddColumn { table, column } => OperationModel::AddColumn {
            table: upper_of(table),
            column: upper_column(column),
        },
        OperationModel::DropColumn { table, column_name } => OperationModel::DropColumn {
            table: upper_of(table),
            column_name: upper_of(column_name),
        },
    }
}

/// An operation whose statement reads back: no name in capitals holds a line
/// feed, the table of a column drop holds no `:`, and its columns read back.
pub open spec fn operation_reads_back(op: OperationModel) -> bool {
    match op {
        OperationModel::CreateTable { name, columns } => !upper_of(name).contains('\n') && forall|
            i: int,
        |
            0 <= i < columns.len() ==> column_reads_back(#[trigger] columns[i]),
        OperationModel::DropTable { name } => !upper_of(name).contains('\n'),
        OperationModel::AddColumn { table, column } => !upper_of(table).contains('\n')
            && column_reads_back(column),
        OperationModel::DropColumn { table, column_name } => !upper_of(table).contains('\n')
            && !upper_of(table).contains(':') && !upper_of(column_name).contains('\n'),
    }
}

/// The state after the operations are read in turn.
pub open spec fn emit_all(st: IngestState, ops: Seq<OperationModel>) -> IngestState
    decreases ops.len(),
{
    if ops.len() == 0 {
        st
    } else {
        emit(emit_all(st, ops.drop_last()), ops.last())
    }
}

proof fn lemma_statement_text(op: OperationModel)
    ensures
        operation_source(op, spaces(8)) =~= joined_lines(statement_lines(op)),
{
    match op {
        OperationModel::CreateTable { name, columns } => lemma_create_table_text(name, columns),
        OperationModel::DropTable { name } => lemma_drop_table_text(name),
        OperationModel::AddColumn { table, column } => lemma_add_column_text(table, column),
        OperationModel::DropColumn { table, column_name } => lemma_drop_column_text(
            table,
            column_name,
        ),
    }
}

proof fn lemma_operations_text(ops: Seq<OperationModel>)
    ensures
        operations_source(ops) =~= joined_lines(operations_lines(ops)),
    decreases ops.len(),
{
    if ops.len() > 0 {
        lemma_operations_text(ops.drop_last());
        lemma_statement_text(ops.last());
        lemma_joined_append(operations_lines(ops.drop_last()), statement_lines(ops.last()));
    } else {
        assert(operations_lines(ops) =~= Seq::<Seq<char>>::empty());
    }
}

proof fn lemma_statement_read(st: IngestState, op: OperationModel)
    requires
        operation_reads_back(op),
    ensures
        ingest_run(st, statement_lines(op)) == emit(st, read_back_operation(op)),
{
    match op {
        OperationModel::CreateTable { name, columns } => lemma_create_table_read(st, name, columns),
        OperationModel::DropTable { name } => lemma_drop_table_read(st, name),
        OperationModel::AddColumn { table, column } => lemma_add_column_read(st, table, column),
        OperationModel::DropColumn { table, column_name } => lemma_drop_column_read(
            st,
            table,
            column_name,
        ),
    }
}

proof fn lemma_operations_read(st: IngestState, ops: Seq<OperationModel>)
    requires
        forall|i: int| 0 <= i < ops.len() ==> operation_reads_back(#[trigger] ops[i]),
    ensures
        ingest_run(st, operations_lines(ops)) == emit_all(
            st,
            ops.map_values(|op: OperationModel| read_back_operation(op)),
        ),
    decreases ops.len(),
{
    let rops = ops.map_values(|op: OperationModel| read_back_operation(op));
    if ops.len() == 0 {
        assert(operations_lines(ops) =~= Seq::<Seq<char>>::empty());
    } else {
        let init = ops.drop_last();
        assert forall|i: int| 0 <= i < init.len() implies operation_reads_back(
            #[trigger] init[i],
        ) by {
            assert(init[i] == ops[i]);
        }
        lemma_operations_read(st, init);
        lemma_ingest_run_append(st, operations_lines(init), statement_lines(ops.last()));
        assert(ops[ops.len() - 1] == ops.last());
        lemma_statement_read(ingest_run(st, operations_lines(init)), ops.last());
        assert(rops.drop_last() =~= init.map_values(|op: OperationModel| read_back_operation(op)));
        assert(rops.last() == read_back_operation(ops.last()));
    }
}

proof fn lemma_emit_all_up(st: IngestState, ops: Seq<OperationModel>)
    requires
        st.section == 1,
        st.draft is None,
    ensures
        emit_all(st, ops) == (IngestState { up: st.up + ops, ..st }),
    decreases ops.len(),
{
    if ops.len() == 0 {
        assert(st.up + ops =~= st.up);
    } else {
        lemma_emit_all_up(st, ops.drop_last());
        assert(st.up + ops =~= (st.up + ops.drop_last()).push(ops.last()));
    }
}

proof fn lemma_emit_all_down(st: IngestState, ops: Seq<OperationModel>)
    requires
        st.section == 2,
        st.draft is None,
    ensures
        emit_all(st, ops) == (IngestState { down: st.down + ops, ..st }),
    decreases ops.len(),
{
    if ops.len() == 0 {
        assert(st.down + ops =~= st.down);
    } else {
        lemma_emit_all_down(st, ops.drop_last());
        assert(st.down + ops =~= (st.down + ops.drop_last()).push(ops.last()));
    }
}

/// Every line of the list is free of line feeds.
pub open spec fn single_lines(ls: Seq<Seq<char>>) -> bool {
    forall|i: int| 0 <= i < ls.len() ==> !(#[trigger] ls[i]).contains('\n')
}

proof fn lemma_single_lines_append(a: Seq<Seq<char>>, b: Seq<Seq<char>>)
    requires
        single_lines(a),
        single_lines(b),
    ensures
        single_lines(a + b),
{
    assert forall|i: int| 0 <= i < (a + b).len() implies !(#[trigger] (a + b)[i]).contains('\n') by {
        if i < a.len() {
            assert((a + b)[i] == a[i]);
        } else {
            assert((a + b)[i] == b[i - a.len()]);
        }
    }
}

proof fn lemma_indented_plain(k: nat, a: Seq<char>)
    requires
        !a.contains('\n'),
    ensures
        !(spaces(k) + a).contains('\n'),
{
    lemma_spaces_plain(k);
    lemma_no_newline_concat(spaces(k), a);
}

proof fn lemma_indented_plain3(k: nat, a: Seq<char>, u: Seq<char>, b: Seq<char>)
    requires
        !a.contains('\n'),
        !u.contains('\n'),
        !b.contains('\n'),
    ensures
        !(spaces(k) + a + u + b).contains('\n'),
{
    lemma_indented_plain(k, a);
    lemma_no_newline_concat(spaces(k) + a, u);
    lemma_no_newline_concat(spaces(k) + a + u, b);
}

proof fn lemma_tail_plain()
    ensures
        single_lines(statement_tail_lines()),
{
    reveal_strlit(".to_owned(),");
    reveal_strlit(")");
    reveal_strlit(".await?;");
    lemma_indented_plain(20, ".to_owned(),"@);
    lemma_indented_plain(12, ")"@);
    lemma_indented_plain(12, ".await?;"@);
}

proof fn lemma_statement_plain(op: OperationModel)
    requires
        operation_reads_back(op),
    ensures
        single_lines(statement_lines(op)),
{
    reveal_strlit("manager");
    reveal_strlit(".alter_table(");
    reveal_strlit(".create_table(");
    reveal_strlit("Table::alter()");
    reveal_strlit("Table::create()");
    reveal_strlit(".table(");
    reveal_strlit("::Table)");
    reveal_strlit(".add_column(");
    reveal_strlit(".drop_column(");
    reveal_strlit("::");
    reveal_strlit(")");
    reveal_strlit(".to_owned(),");
    reveal_strlit(".await?;");
    reveal_strlit(".drop_table(Table::drop().table(");
    reveal_strlit("::Table).to_owned())");
    reveal_strlit(".col(");
    lemma_indented_plain(8, "manager"@);
    lemma_indented_plain(20, ".to_owned(),"@);
    lemma_indented_plain(12, ")"@);
    lemma_indented_plain(12, ".await?;"@);
    assert(!Seq::<char>::empty().contains('\n'));
    match op {
        OperationModel::CreateTable { name, columns } => {
            lemma_indented_plain(12, ".create_table("@);
            lemma_indented_plain(16, "Table::create()"@);
            lemma_indented_plain3(20, ".table("@, upper_of(name), "::Table)"@);
            let mid = column_line_list(columns);
            assert forall|i: int| 0 <= i < mid.len() implies !(#[trigger] mid[i]).contains('\n') by {
                let c = columns[i];
                lemma_definition_plain(c);
                lemma_indented_plain3(20, ".col("@, column_definition(c), ")"@);
            }
            lemma_single_lines_append(create_head_lines(name), mid);
            lemma_tail_plain();
            lemma_single_lines_append(create_head_lines(name) + mid, statement_tail_lines());
        },
        OperationModel::DropTable { name } => {
            lemma_indented_plain3(
                12,
                ".drop_table(Table::drop().table("@,
                upper_of(name),
                "::Table).to_owned())"@,
            );
        },
        OperationModel::AddColumn { table, column } => {
            lemma_indented_plain(12, ".alter_table("@);
            lemma_indented_plain(16, "Table::alter()"@);
            lemma_indented_plain3(20, ".table("@, upper_of(table), "::Table)"@);
            lemma_definition_plain(column);
            lemma_indented_plain3(20, ".add_column("@, column_definition(column), ")"@);
        },
        OperationModel::DropColumn { table, column_name } => {
            lemma_indented_plain(12, ".alter_table("@);
            lemma_indented_plain(16, "Table::alter()"@);
            lemma_indented_plain3(20, ".table("@, upper_of(table), "::Table)"@);
            lemma_no_newline_concat(upper_of(table), "::"@);
            lemma_no_newline_concat(upper_of(table) + "::"@, upper_of(column_name));
            lemma_indented_plain3(
                20,
                ".drop_column("@,
                upper_of(table) + "::"@ + upper_of(column_name),
                ")"@,
            );
            assert(spaces(20) + ".drop_column("@ + upper_of(table) + "::"@ + upper_of(column_name)
                + ")"@ =~= spaces(20) + ".drop_column("@ + (upper_of(table) + "::"@ + upper_of(
                column_name,
            )) + ")"@);
        },
    }
}

proof fn lemma_operations_plain(ops: Seq<OperationModel>)
    requires
        forall|i: int| 0 <= i < ops.len() ==> operation_reads_back(#[trigger] ops[i]),
    ensures
        single_lines(operations_lines(ops)),
    decreases ops.len(),
{
    if ops.len() > 0 {
        let init = ops.drop_last();
        assert forall|i: int| 0 <= i < init.len() implies operation_reads_back(
            #[trigger] init[i],
        ) by {
            assert(init[i] == ops[i]);
        }
        lemma_operations_plain(init);
        assert(ops[ops.len() - 1] == ops.last());
        lemma_statement_plain(ops.last());
        lemma_single_lines_append(operations_lines(init), statement_lines(ops.last()));
    } else {
        assert(operations_lines(ops) =~= Seq::<Seq<char>>::empty());
    }
}

/// A line that the reader passes over: its text is empty or starts with neither
/// `.` nor `a`.
pub open spec fn passed_over(l: Seq<char>) -> bool {
    trim(l).len() == 0 || (trim(l)[0] != '.' && trim(l)[0] != 'a')
}

proof fn lemma_passed_over_lines(st: IngestState, ls: Seq<Seq<char>>)
    requires
        forall|i: int| 0 <= i < ls.len() ==> passed_over(#[trigger] ls[i]),
    ensures
        ingest_run(st, ls) == st,
    decreases ls.len(),
{
    if ls.len() > 0 {
        let init = ls.drop_last();
        assert forall|i: int| 0 <= i < init.len() implies passed_over(#[trigger] init[i]) by {
            assert(init[i] == ls[i]);
        }
        lemma_passed_over_lines(st, init);
        assert(ls[ls.len() - 1] == ls.last());
        lemma_plain_line(st, ls.last());
    }
}

pub open spec fn head_lines() -> Seq<Seq<char>> {
    seq![
        "use sea_orm_migration::prelude::*;"@,
        Seq::<char>::empty(),
        "#[derive(DeriveMigrationName)]"@,
        "pub struct Migration;"@,
        Seq::<char>::empty(),
        "#[async_trait::async_trait]"@,
        "impl MigrationTrait for Migration {"@,
    ]
}

pub open spec fn up_line() -> Seq<char> {
    spaces(4) + "async fn up(&self, manager: &SchemaManager) -> Result<(), DbErr> {"@
}

pub open spec fn closing_lines() -> Seq<Seq<char>> {
    seq![spaces(8) + "Ok(())"@, spaces(4) + "}"@]
}

pub open spec fn down_line() -> Seq<char> {
    spaces(4) + "async fn down(&self, manager: &SchemaManager) -> Result<(), DbErr> {"@
}

/// The lines of the source text of a log.
pub open spec fn source_lines(m: MigrationModel) -> Seq<Seq<char>> {
    head_lines() + seq![up_line()] + operations_lines(m.up_operations) + closing_lines() + seq![
        Seq::<char>::empty(),
        down_line(),
    ] + operations_lines(m.down_operations) + closing_lines() + seq!["}"@]
}

#[verifier::rlimit(40)]
proof fn lemma_frame_text()
    ensures
        source_head() =~= joined_lines(head_lines() + seq![up_line()]),
        source_middle() =~= joined_lines(
            closing_lines() + seq![Seq::<char>::empty(), down_line()],
        ),
        source_tail() =~= joined_lines(closing_lines() + seq!["}"@]),
{
    reveal_with_fuel(joined_lines, 10);
    reveal_strlit("use sea_orm_migration::prelude::*;\n\n");
    reveal_strlit("#[derive(DeriveMigrationName)]\n");
    reveal_strlit("pub struct Migration;\n\n");
    reveal_strlit("#[async_trait::async_trait]\n");
    reveal_strlit("impl MigrationTrait for Migration {\n");
    reveal_strlit("    async fn up(&self, manager: &SchemaManager) -> Result<(), DbErr> {\n");
    reveal_strlit("        Ok(())\n    }\n\n    async fn down(&self, manager: &SchemaManager) -> Result<(), DbErr> {\n");
    reveal_strlit("        Ok(())\n    }\n}\n");
    reveal_strlit("use sea_orm_migration::prelude::*;");
    reveal_strlit("#[derive(DeriveMigrationName)]");
    reveal_strlit("pub struct Migration;");
    reveal_strlit("#[async_trait::async_trait]");
    reveal_strlit("impl MigrationTrait for Migration {");
    reveal_strlit("async fn up(&self, manager: &SchemaManager) -> Result<(), DbErr> {");
    reveal_strlit("Ok(())");
    reveal_strlit("}");
    reveal_strlit("async fn down(&self, manager: &SchemaManager) -> Result<(), DbErr> {");
    assert(head_lines() + seq![up_line()] =~= seq![
        "use sea_orm_migration::prelude::*;"@,
        Seq::<char>::empty(),
        "#[derive(DeriveMigrationName)]"@,
        "pub struct Migration;"@,
        Seq::<char>::empty(),
        "#[async_trait::async_trait]"@,
        "impl MigrationTrait for Migration {"@,
        up_line(),
    ]);
    assert(closing_lines() + seq![Seq::<char>::empty(), down_line()] =~= seq![
        spaces(8) + "Ok(())"@,
        spaces(4) + "}"@,
        Seq::<char>::empty(),
        down_line(),
    ]);
    assert(closing_lines() + seq!["}"@] =~= seq![spaces(8) + "Ok(())"@, spaces(4) + "}"@, "}"@]);
}

proof fn lemma_frame_plain()
    ensures
        single_lines(head_lines() + seq![up_line()]),
        single_lines(closing_lines() + seq![Seq::<char>::empty(), down_line()]),
        single_lines(closing_lines() + seq!["}"@]),
        forall|i: int| 0 <= i < head_lines().len() ==> passed_over(#[trigger] head_lines()[i]),
        forall|i: int| 0 <= i < closing_lines().len() ==> passed_over(#[trigger] closing_lines()[i]),
        passed_over(Seq::<char>::empty()),
        passed_over("}"@),
        trim(up_line()) == "async fn up(&self, manager: &SchemaManager) -> Result<(), DbErr> {"@,
        trim(down_line()) == "async fn down(&self, manager: &SchemaManager) -> Result<(), DbErr> {"@,
{
    reveal_strlit("use sea_orm_migration::prelude::*;");
    reveal_strlit("#[derive(DeriveMigrationName)]");
    reveal_strlit("pub struct Migration;");
    reveal_strlit("#[async_trait::async_trait]");
    reveal_strlit("impl MigrationTrait for Migration {");
    reveal_strlit("async fn up(&self, manager: &SchemaManager) -> Result<(), DbErr> {");
    reveal_strlit("Ok(())");
    reveal_strlit("}");
    reveal_strlit("async fn down(&self, manager: &SchemaManager) -> Result<(), DbErr> {");
    assert(trim(Seq::<char>::empty()) =~= Seq::<char>::empty());
    lemma_trimmed(0, "use sea_orm_migration::prelude::*;"@);
    lemma_trimmed(0, "#[derive(DeriveMigrationName)]"@);
    lemma_trimmed(0, "pub struct Migration;"@);
    lemma_trimmed(0, "#[async_trait::async_trait]"@);
    lemma_trimmed(0, "impl MigrationTrait for Migration {"@);
    lemma_trimmed(0, "}"@);
    lemma_trimmed(8, "Ok(())"@);
    lemma_trimmed(4, "}"@);
    lemma_trimmed(4, "async fn up(&self, manager: &SchemaManager) -> Result<(), DbErr> {"@);
    lemma_trimmed(4, "async fn down(&self, manager: &SchemaManager) -> Result<(), DbErr> {"@);
    assert(spaces(0) + "use sea_orm_migration::prelude::*;"@ =~= "use sea_orm_migration::prelude::*;"@);
    assert(spaces(0) + "#[derive(DeriveMigrationName)]"@ =~= "#[derive(DeriveMigrationName)]"@);
    assert(spaces(0) + "pub struct Migration;"@ =~= "pub struct Migration;"@);
    assert(spaces(0) + "#[async_trait::async_trait]"@ =~= "#[async_trait::async_trait]"@);
    assert(spaces(0) + "impl MigrationTrait for Migration {"@ =~= "impl MigrationTrait for Migration {"@);
    assert(spaces(0) + "}"@ =~= "}"@);
    lemma_indented_plain(4, "async fn up(&self, manager: &SchemaManager) -> Result<(), DbErr> {"@);
    lemma_indented_plain(4, "async fn down(&self, manager: &SchemaManager) -> Result<(), DbErr> {"@);
    lemma_indented_plain(8, "Ok(())"@);
    lemma_indented_plain(4, "}"@);
    assert(!Seq::<char>::empty().contains('\n'));
}

proof fn lemma_up_line_any(st: IngestState)
    ensures
        ingest_run(st, seq![up_line()]) == (IngestState { section: 1, draft: None, ..st }),
{
    lemma_frame_plain();
    assert(seq![up_line()].take(0) =~= Seq::<Seq<char>>::empty());
    lemma_ingest_run_prefix(st, seq![up_line()], 0);
    lemma_up_line(st, up_line());
    assert(seq![up_line()].take(1) =~= seq![up_line()]);
}

proof fn lemma_down_line_after_blank(st: IngestState)
    ensures
        ingest_run(st, seq![Seq::<char>::empty(), down_line()]) == (IngestState {
            section: 2,
            draft: None,
            ..st
        }),
{
    lemma_frame_plain();
    let ls = seq![Seq::<char>::empty(), down_line()];
    assert(ls.take(0) =~= Seq::<Seq<char>>::empty());
    lemma_ingest_run_prefix(st, ls, 0);
    lemma_plain_line(st, ls[0]);
    lemma_ingest_run_prefix(st, ls, 1);
    lemma_down_line(st, ls[1]);
    assert(ls.take(2) =~= ls);
}

/// The source text that the serializer writes for a log reads back as that log's
/// operations, every name in capitals, when each of its operations reads back.
pub proof fn lemma_source_read_back(m: MigrationModel)
    requires
        forall|i: int|
            0 <= i < m.up_operations.len() ==> operation_reads_back(#[trigger] m.up_operations[i]),
        forall|i: int|
            0 <= i < m.down_operations.len() ==> operation_reads_back(
                #[trigger] m.down_operations[i],
            ),
    ensures
        ingest(migration_source(m)) == (IngestState {
            section: 2,
            up: m.up_operations.map_values(|op: OperationModel| read_back_operation(op)),
            down: m.down_operations.map_values(|op: OperationModel| read_back_operation(op)),
            draft: None,
        }),
{
    let h = head_lines() + seq![up_line()];
    let ul = operations_lines(m.up_operations);
    let mid = closing_lines() + seq![Seq::<char>::empty(), down_line()];
    let dl = operations_lines(m.down_operations);
    let t = closing_lines() + seq!["}"@];
    let all = h + ul + mid + dl + t;
    lemma_frame_text();
    lemma_frame_plain();
    lemma_operations_text(m.up_operations);
    lemma_operations_text(m.down_operations);
    lemma_operations_plain(m.up_operations);
    lemma_operations_plain(m.down_operations);
    lemma_joined_append(h, ul);
    lemma_joined_append(h + ul, mid);
    lemma_joined_append(h + ul + mid, dl);
    lemma_joined_append(h + ul + mid + dl, t);
    assert(migration_source(m) =~= joined_lines(all) + Seq::<char>::empty());
    lemma_single_lines_append(h, ul);
    lemma_single_lines_append(h + ul, mid);
    lemma_single_lines_append(h + ul + mid, dl);
    lemma_single_lines_append(h + ul + mid + dl, t);
    lemma_lines_of_joined(all, Seq::<char>::empty());
    assert(lines_of(Seq::<char>::empty()) == seq![Seq::<char>::empty()]);
    let st0 = crate::ingest::ingest_start();
    let rup = m.up_operations.map_values(|op: OperationModel| read_back_operation(op));
    let rdown = m.down_operations.map_values(|op: OperationModel| read_back_operation(op));
    // the frame before `up`
    lemma_ingest_run_append(st0, head_lines(), seq![up_line()]);
    lemma_passed_over_lines(st0, head_lines());
    lemma_up_line_any(st0);
    let s1 = IngestState { section: 1, draft: None, ..st0 };
    assert(ingest_run(st0, h) == s1);
    // the statements of `up`
    lemma_ingest_run_append(st0, h, ul);
    lemma_operations_read(s1, m.up_operations);
    lemma_emit_all_up(s1, rup);
    let s2 = IngestState { up: s1.up + rup, ..s1 };
    // the frame between `up` and `down`
    lemma_ingest_run_append(st0, h + ul, mid);
    lemma_ingest_run_append(s2, closing_lines(), seq![Seq::<char>::empty(), down_line()]);
    lemma_passed_over_lines(s2, closing_lines());
    lemma_down_line_after_blank(s2);
    let s3 = IngestState { section: 2, draft: None, ..s2 };
    // the statements of `down`
    lemma_ingest_run_append(st0, h + ul + mid, dl);
    lemma_operations_read(s3, m.down_operations);
    lemma_emit_all_down(s3, rdown);
    let s4 = IngestState { down: s3.down + rdown, ..s3 };
    // the closing frame and the empty last line
    lemma_ingest_run_append(st0, h + ul + mid + dl, t);
    lemma_ingest_run_append(s4, closing_lines(), seq!["}"@]);
    lemma_passed_over_lines(s4, closing_lines());
    lemma_passed_over_lines(s4, seq!["}"@]);
    lemma_ingest_run_append(st0, all, seq![Seq::<char>::empty()]);
    lemma_passed_over_lines(s4, seq![Seq::<char>::empty()]);
    assert(s1.up + rup =~= rup);
    assert(s3.down + rdown =~= rdown);
}

} // verus!
