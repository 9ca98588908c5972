use vstd::prelude::*;
use vstd::string::StringExecFns;
use crate::migration::{
    columns_view, operations_view, ColumnInfo, ColumnModel, MigrationInfo, MigrationModel,
    Operation, OperationModel,
};
use crate::text::{chars_of, same_chars, to_upper, upper_of};

verus! {

/// The first column named `n` in `cols`, looking from index `j` on.
pub open spec fn column_named_from(cols: Seq<ColumnModel>, n: Seq<char>, j: int) -> Option<
    ColumnModel,
>
    decreases cols.len() - j,
{
    if 0 <= j < cols.len() {
        if cols[j].name == n {
            Some(cols[j])
        } else {
            column_named_from(cols, n, j + 1)
        }
    } else {
        None
    }
}

/// The first description of column `n` of table `t` in `ops`, looking from index
/// `i` on: in a table creation, or in a column addition.
pub open spec fn column_described_from(
    ops: Seq<OperationModel>,
    i: int,
    t: Seq<char>,
    n: Seq<char>,
) -> Option<ColumnModel>
    decreases ops.len() - i,
{
    if 0 <= i < ops.len() {
        match ops[i] {
            OperationModel::CreateTable { name, columns } => if name == t && column_named_from(
                columns,
                n,
                0,
            ) is Some {
                column_named_from(columns, n, 0)
            } else {
                column_described_from(ops, i + 1, t, n)
            },
            OperationModel::AddColumn { table, column } => if table == t && column.name == n {
                Some(column)
            } else {
                column_described_from(ops, i + 1, t, n)
            },
            _ => column_described_from(ops, i + 1, t, n),
        }
    } else {
        None
    }
}

/// The column that stands in for one that the log never described: a nullable
/// string with no default.
pub open spec fn fallback_column(n: Seq<char>) -> ColumnModel {
    ColumnModel { name: n, column_type: "string"@, nullable: true, default: None }
}

/// What a rollback restores when column `n` of table `t` is dropped.
pub open spec fn rollback_column(ops: Seq<OperationModel>, t: Seq<char>, n: Seq<char>) -> ColumnModel {
    match column_described_from(ops, 0, t, n) {
        Some(c) => c,
        None => fallback_column(n),
    }
}

/// The log after a column is added: the addition runs last in `up`, and its
/// undoing runs first in `down`.
pub open spec fn after_add_column(m: MigrationModel, t: Seq<char>, c: ColumnModel) -> MigrationModel {
    MigrationModel {
        up_operations: m.up_operations.push(OperationModel::AddColumn { table: t, column: c }),
        down_operations: seq![OperationModel::DropColumn { table: t, column_name: c.name }]
            + m.down_operations,
        ..m
    }
}

/// The log after a column is dropped: the drop runs last in `up`, and the
/// re-addition of the column as the log last described it runs first in `down`.
pub open spec fn after_drop_column(m: MigrationModel, t: Seq<char>, n: Seq<char>) -> MigrationModel {
    MigrationModel {
        up_operations: m.up_operations.push(OperationModel::DropColumn { table: t, column_name: n }),
        down_operations: seq![
            OperationModel::AddColumn { table: t, column: rollback_column(m.up_operations, t, n) },
        ] + m.down_operations,
        ..m
    }
}

/// The columns that the operations give table `t`, in order: those of its
/// creation, then those added; drops are not taken into account.
pub open spec fn table_columns(ops: Seq<OperationModel>, t: Seq<char>) -> Seq<ColumnModel>
    decreases ops.len(),
{
    if ops.len() == 0 {
        seq![]
    } else {
        let before = table_columns(ops.drop_last(), t);
        match ops.last() {
            OperationModel::CreateTable { name, columns } => if name == t {
                before + columns
            } else {
                before
            },
            OperationModel::AddColumn { table, column } => if table == t {
                before.push(column)
            } else {
                before
            },
            _ => before,
        }
    }
}

/// The table that an operation creates or adds a column to.
pub open spec fn column_source_table(op: OperationModel) -> Option<Seq<char>> {
    match op {
        OperationModel::CreateTable { name, .. } => Some(name),
        OperationModel::AddColumn { table, .. } => Some(table),
        _ => None,
    }
}

/// The tables that receive columns, each once, in order of first appearance.
pub open spec fn column_tables(ops: Seq<OperationModel>) -> Seq<Seq<char>>
    decreases ops.len(),
{
    if ops.len() == 0 {
        seq![]
    } else {
        let before = column_tables(ops.drop_last());
        match column_source_table(ops.last()) {
            Some(t) => if before.contains(t) {
                before
            } else {
                before.push(t)
            },
            None => before,
        }
    }
}

pub open spec fn spaces(n: nat) -> Seq<char> {
    Seq::new(n, |i: int| ' ')
}

/// The builder call for a column type; types without one are built as strings.
pub open spec fn type_call(t: Seq<char>) -> Seq<char> {
    if t == "integer"@ {
        ".integer()"@
    } else if t == "boolean"@ {
        ".boolean()"@
    } else if t == "text"@ {
        ".text()"@
    } else if t == "timestamp"@ {
        ".timestamp()"@
    } else {
        ".string()"@
    }
}

/// The builder expression that defines a column.
pub open spec fn column_definition(c: ColumnModel) -> Seq<char> {
    "ColumnDef::new(Alias::"@ + upper_of(c.name) + ")"@ + type_call(c.column_type) + (if c.nullable {
        Seq::empty()
    } else {
        ".not_null()"@
    }) + match c.default {
        Some(d) => ".default(\""@ + d + "\")"@,
        None => Seq::empty(),
    }
}

/// The `.col(...)` lines of a table creation.
pub open spec fn column_lines(ind: Seq<char>, cols: Seq<ColumnModel>) -> Seq<char>
    decreases cols.len(),
{
    if cols.len() == 0 {
        Seq::empty()
    } else {
        column_lines(ind, cols.drop_last()) + ind + "            .col("@ + column_definition(
            cols.last(),
        ) + ")\n"@
    }
}

/// The statement that performs one operation, indented by `ind`.
pub open spec fn operation_source(op: OperationModel, ind: Seq<char>) -> Seq<char> {
    match op {
        OperationModel::CreateTable { name, columns } => ind + "manager\n"@ + ind
            + "    .create_table(\n"@ + ind + "        Table::create()\n"@ + ind
            + "            .table("@ + upper_of(name) + "::Table)\n"@ + column_lines(ind, columns)
            + ind + "            .to_owned(),\n"@ + ind + "    )\n"@ + ind + "    .await?;\n\n"@,
        OperationModel::AddColumn { table, column } => ind + "manager\n"@ + ind
            + "    .alter_table(\n"@ + ind + "        Table::alter()\n"@ + ind
            + "            .table("@ + upper_of(table) + "::Table)\n"@ + ind
            + "            .add_column("@ + column_definition(column) + ")\n"@ + ind
            + "            .to_owned(),\n"@ + ind + "    )\n"@ + ind + "    .await?;\n\n"@,
        OperationModel::DropColumn { table, column_name } => ind + "manager\n"@ + ind
            + "    .alter_table(\n"@ + ind + "        Table::alter()\n"@ + ind
            + "            .table("@ + upper_of(table) + "::Table)\n"@ + ind
            + "            .drop_column("@ + upper_of(table) + "::"@ + upper_of(column_name)
            + ")\n"@ + ind + "            .to_owned(),\n"@ + ind + "    )\n"@ + ind
            + "    .await?;\n\n"@,
        OperationModel::DropTable { name } => ind + "manager\n"@ + ind
            + "    .drop_table(Table::drop().table("@ + upper_of(name) + "::Table).to_owned())\n"@
            + ind + "    .await?;\n\n"@,
    }
}

/// The statements of a list of operations, in order.
pub open spec fn operations_source(ops: Seq<OperationModel>) -> Seq<char>
    decreases ops.len(),
{
    if ops.len() == 0 {
        Seq::empty()
    } else {
        operations_source(ops.drop_last()) + operation_source(ops.last(), spaces(8))
    }
}

pub open spec fn source_head() -> Seq<char> {
    "use sea_orm_migration::prelude::*;\n\n"@ + "#[derive(DeriveMigrationName)]\n"@
        + "pub struct Migration;\n\n"@ + "#[async_trait::async_trait]\n"@
        + "impl MigrationTrait for Migration {\n"@
        + "    async fn up(&self, manager: &SchemaManager) -> Result<(), DbErr> {\n"@
}

pub open spec fn source_middle() -> Seq<char> {
    "        Ok(())\n    }\n\n    async fn down(&self, manager: &SchemaManager) -> Result<(), DbErr> {\n"@
}

pub open spec fn source_tail() -> Seq<char> {
    "        Ok(())\n    }\n}\n"@
}

/// The migration source text of a log, made from its operations alone.
pub open spec fn migration_source(m: MigrationModel) -> Seq<char> {
    source_head() + operations_source(m.up_operations) + source_middle() + operations_source(
        m.down_operations,
    ) + source_tail()
}

/// `names` without any occurrence of `n`.
pub open spec fn without(names: Seq<Seq<char>>, n: Seq<char>) -> Seq<Seq<char>>
    decreases names.len(),
{
    if names.len() == 0 {
        seq![]
    } else {
        let before = without(names.drop_last(), n);
        if names.last() == n {
            before
        } else {
            before.push(names.last())
        }
    }
}

/// The column names that table `t` has once the operations have run on a table
/// whose columns were `start`.
pub open spec fn net_columns_from(
    start: Seq<Seq<char>>,
    ops: Seq<OperationModel>,
    t: Seq<char>,
) -> Seq<Seq<char>>
    decreases ops.len(),
{
    if ops.len() == 0 {
        start
    } else {
        let before = net_columns_from(start, ops.drop_last(), t);
        match ops.last() {
            OperationModel::CreateTable { name, columns } => if name == t {
                columns.map_values(|c: ColumnModel| c.name)
            } else {
                before
            },
            OperationModel::DropTable { name } => if name == t {
                seq![]
            } else {
                before
            },
            OperationModel::AddColumn { table, column } => if table == t {
                before.push(column.name)
            } else {
                before
            },
            OperationModel::DropColumn { table, column_name } => if table == t {
                without(before, column_name)
            } else {
                before
            },
        }
    }
}

/// Whether `d` undoes `u`: a column addition is undone by dropping that column,
/// a column drop by adding back a column of that name.
pub open spec fn undoes(d: OperationModel, u: OperationModel) -> bool {
    match u {
        OperationModel::AddColumn { table, column } => d == OperationModel::DropColumn {
            table,
            column_name: column.name,
        },
        OperationModel::DropColumn { table, column_name } => match d {
            OperationModel::AddColumn { table: dt, column: dc } => dt == table && dc.name
                == column_name,
            _ => false,
        },
        _ => false,
    }
}

/// The last `k` operations of `up` are undone, the latest first, by the first `k`
/// operations of `down`.
pub open spec fn rollback_mirrors(m: MigrationModel, k: nat) -> bool {
    &&& k <= m.up_operations.len()
    &&& k <= m.down_operations.len()
    &&& forall|i: int|
        0 <= i < k ==> undoes(
            #[trigger] m.down_operations[i],
            m.up_operations[m.up_operations.len() - 1 - i],
        )
}

proof fn lemma_without_absent(names: Seq<Seq<char>>, n: Seq<char>)
    requires
        !names.contains(n),
    ensures
        without(names, n) == names,
    decreases names.len(),
{
    if names.len() > 0 {
        assert(!names.drop_last().contains(n)) by {
            if names.drop_last().contains(n) {
                let i = choose|i: int| 0 <= i < names.drop_last().len() && names.drop_last()[i] == n;
                assert(names[i] == n);
            }
        }
        lemma_without_absent(names.drop_last(), n);
        assert(names.last() != n) by {
            assert(names[names.len() - 1] == names.last());
        }
        assert(names.drop_last().push(names.last()) =~= names);
    }
}

proof fn lemma_named_column_has_name(cols: Seq<ColumnModel>, n: Seq<char>, j: int)
    ensures
        column_named_from(cols, n, j) matches Some(c) ==> c.name == n,
    decreases cols.len() - j,
{
    if 0 <= j < cols.len() && cols[j].name != n {
        lemma_named_column_has_name(cols, n, j + 1);
    }
}

proof fn lemma_described_column_has_name(
    ops: Seq<OperationModel>,
    i: int,
    t: Seq<char>,
    n: Seq<char>,
)
    ensures
        column_described_from(ops, i, t, n) matches Some(c) ==> c.name == n,
    decreases ops.len() - i,
{
    if 0 <= i < ops.len() {
        lemma_described_column_has_name(ops, i + 1, t, n);
        match ops[i] {
            OperationModel::CreateTable { name, columns } => {
                lemma_named_column_has_name(columns, n, 0);
            },
            _ => {},
        }
    }
}

/// The column that a rollback restores carries the name of the dropped column.
pub proof fn lemma_rollback_column_name(ops: Seq<OperationModel>, t: Seq<char>, n: Seq<char>)
    ensures
        rollback_column(ops, t, n).name == n,
{
    lemma_described_column_has_name(ops, 0, t, n);
}

proof fn lemma_net_columns_append(
    start: Seq<Seq<char>>,
    a: Seq<OperationModel>,
    b: Seq<OperationModel>,
    t: Seq<char>,
)
    ensures
        net_columns_from(start, a + b, t) == net_columns_from(net_columns_from(start, a, t), b, t),
    decreases b.len(),
{
    if b.len() == 0 {
        assert(a + b =~= a);
    } else {
        assert((a + b).drop_last() =~= a + b.drop_last());
        lemma_net_columns_append(start, a, b.drop_last(), t);
    }
}

/// Adding a column and then dropping it again leaves every table of `up` with the
/// columns it had, provided the table did not have a column of that name already.
pub proof fn lemma_add_then_drop_keeps_up_columns(
    m: MigrationModel,
    t: Seq<char>,
    c: ColumnModel,
    u: Seq<char>,
)
    requires
        !net_columns_from(seq![], m.up_operations, t).contains(c.name),
    ensures
        net_columns_from(
            seq![],
            after_drop_column(after_add_column(m, t, c), t, c.name).up_operations,
            u,
        ) == net_columns_from(seq![], m.up_operations, u),
{
    let up1 = after_add_column(m, t, c).up_operations;
    let up2 = after_drop_column(after_add_column(m, t, c), t, c.name).up_operations;
    assert(up2.drop_last() == up1);
    assert(up1.drop_last() == m.up_operations);
    let before = net_columns_from(seq![], m.up_operations, u);
    if u == t {
        assert(net_columns_from(seq![], up1, u) == before.push(c.name));
        assert(before.push(c.name).drop_last() =~= before);
        assert(without(before.push(c.name), c.name) == without(before, c.name));
        lemma_without_absent(before, c.name);
    } else {
        assert(net_columns_from(seq![], up1, u) == before);
    }
}

/// The two rollback steps that an addition and a drop of the same column put at
/// the start of `down` cancel out, on any table that has no column of that name
/// when the rollback starts.
pub proof fn lemma_add_then_drop_keeps_down_columns(
    m: MigrationModel,
    t: Seq<char>,
    c: ColumnModel,
    u: Seq<char>,
    start: Seq<Seq<char>>,
)
    requires
        u == t ==> !start.contains(c.name),
    ensures
        net_columns_from(
            start,
            after_drop_column(after_add_column(m, t, c), t, c.name).down_operations,
            u,
        ) == net_columns_from(start, m.down_operations, u),
{
    let m1 = after_add_column(m, t, c);
    let restored = rollback_column(m1.up_operations, t, c.name);
    lemma_rollback_column_name(m1.up_operations, t, c.name);
    let pair = seq![
        OperationModel::AddColumn { table: t, column: restored },
        OperationModel::DropColumn { table: t, column_name: c.name },
    ];
    let down2 = after_drop_column(m1, t, c.name).down_operations;
    assert(down2 =~= pair + m.down_operations);
    lemma_net_columns_append(start, pair, m.down_operations, u);
    let first = pair.drop_last();
    assert(first.drop_last() =~= Seq::<OperationModel>::empty());
    assert(net_columns_from(start, first.drop_last(), u) == start);
    assert(first.last() == OperationModel::AddColumn { table: t, column: restored });
    assert(pair.last() == OperationModel::DropColumn { table: t, column_name: c.name });
    if u == t {
        assert(net_columns_from(start, first, u) == start.push(c.name));
        assert(start.push(c.name).drop_last() =~= start);
        assert(without(start.push(c.name), c.name) == without(start, c.name));
        lemma_without_absent(start, c.name);
    } else {
        assert(net_columns_from(start, first, u) == start);
    }
    assert(net_columns_from(start, pair, u) == start);
}

/// Each column addition or drop keeps `down` the mirror of `up`: one more
/// operation of `up` is then undone, in reverse order, at the start of `down`.
pub proof fn lemma_mutations_keep_rollback_mirrored(
    m: MigrationModel,
    k: nat,
    t: Seq<char>,
    c: ColumnModel,
    n: Seq<char>,
)
    requires
        rollback_mirrors(m, k),
    ensures
        rollback_mirrors(after_add_column(m, t, c), k + 1),
        rollback_mirrors(after_drop_column(m, t, n), k + 1),
{
    let ma = after_add_column(m, t, c);
    assert forall|i: int| 0 <= i < k + 1 implies undoes(
        #[trigger] ma.down_operations[i],
        ma.up_operations[ma.up_operations.len() - 1 - i],
    ) by {
        if i > 0 {
            assert(ma.down_operations[i] == m.down_operations[i - 1]);
            assert(ma.up_operations[ma.up_operations.len() - 1 - i] == m.up_operations[m.up_operations.len() - 1 - (i - 1)]);
        }
    }
    let md = after_drop_column(m, t, n);
    lemma_rollback_column_name(m.up_operations, t, n);
    assert forall|i: int| 0 <= i < k + 1 implies undoes(
        #[trigger] md.down_operations[i],
        md.up_operations[md.up_operations.len() - 1 - i],
    ) by {
        if i > 0 {
            assert(md.down_operations[i] == m.down_operations[i - 1]);
            assert(md.up_operations[md.up_operations.len() - 1 - i] == m.up_operations[m.up_operations.len() - 1 - (i - 1)]);
        }
    }
}

fn same_text(a: &str, b: &str) -> (r: bool)
    ensures
        r == (a@ == b@),
{
    same_chars(&chars_of(a), b)
}

fn contains_text(names: &Vec<String>, t: &String) -> (r: bool)
    ensures
        r == names@.map_values(|n: String| n@).contains(t@),
{
    let mut i: usize = 0;
    while i < names.len()
        invariant
            i <= names@.len(),
            forall|m: int| 0 <= m < i ==> names@[m]@ != t@,
        decreases names@.len() - i,
    {
        if names[i] == *t {
            assert(names@.map_values(|n: String| n@)[i as int] == t@);
            return true;
        }
        i = i + 1;
    }
    proof {
        let nv = names@.map_values(|n: String| n@);
        if nv.contains(t@) {
            let m = choose|m: int| 0 <= m < nv.len() && #[trigger] nv[m] == t@;
            assert(names@[m]@ == t@);
        }
    }
    false
}

fn copy_operation(op: &Operation) -> (r: Operation)
    ensures
        r@ == op@,
{
    match op {
        Operation::CreateTable { name, columns } => {
            let mut cols: Vec<ColumnInfo> = Vec::new();
            let mut i: usize = 0;
            while i < columns.len()
                invariant
                    i <= columns@.len(),
                    columns_view(cols@) =~= columns_view(columns@.take(i as int)),
                decreases columns@.len() - i,
            {
                let ghost before = cols@;
                cols.push(columns[i].duplicate());
                assert(columns_view(cols@) =~= columns_view(before).push(columns@[i as int]@));
                assert(columns@.take(i + 1) =~= columns@.take(i as int).push(columns@[i as int]));
                i = i + 1;
            }
            assert(columns@.take(i as int) =~= columns@);
            Operation::CreateTable { name: name.clone(), columns: cols }
        },
        Operation::DropTable { name } => Operation::DropTable { name: name.clone() },
        Operation::AddColumn { table, column } => Operation::AddColumn {
            table: table.clone(),
            column: column.duplicate(),
        },
        Operation::DropColumn { table, column_name } => Operation::DropColumn {
            table: table.clone(),
            column_name: column_name.clone(),
        },
    }
}

/// Edits the operation log of one migration file, and writes the log back out as
/// source text.
pub struct MigrationModifier {
    migration_info: MigrationInfo,
    file_path: String,
}

impl MigrationModifier {
    /// The operation log that this modifier holds.
    pub closed spec fn log(&self) -> MigrationModel {
        self.migration_info@
    }

    /// The path of the file that the log belongs to.
    pub closed spec fn path(&self) -> Seq<char> {
        self.file_path@
    }

    /// A modifier for the file at `file_path`, whose log has been read as `migration_info`.
    pub fn new(file_path: String, migration_info: MigrationInfo) -> (r: Self)
        ensures
            r.log() == migration_info@,
            r.path() == file_path@,
    {
        MigrationModifier { migration_info, file_path }
    }

    pub fn file_path(&self) -> (r: &str)
        ensures
            r@ == self.path(),
    {
        self.file_path.as_str()
    }

    /// Adds a column to a table: the addition goes to the end of `up`, its undoing to
    /// the start of `down`. Returns the source text regenerated from the new log.
    pub fn add_column(&mut self, table_name: &str, column: ColumnInfo) -> (r: String)
        ensures
            final(self).log() == after_add_column(old(self).log(), table_name@, column@),
            final(self).path() == old(self).path(),
            r@ == migration_source(final(self).log()),
    {
        let drop_column_op = Operation::DropColumn {
            table: table_name.to_owned(),
            column_name: column.name.clone(),
        };
        let add_column_op = Operation::AddColumn { table: table_name.to_owned(), column };
        let ghost old_up = self.migration_info.up_operations@;
        let ghost old_down = self.migration_info.down_operations@;
        self.migration_info.up_operations.push(add_column_op);
        self.migration_info.down_operations.insert(0, drop_column_op);
        proof {
            assert(operations_view(self.migration_info.up_operations@) =~= operations_view(
                old_up,
            ).push(add_column_op@));
            assert(operations_view(self.migration_info.down_operations@) =~= seq![
                drop_column_op@,
            ] + operations_view(old_down));
        }
        self.generate_migration_code()
    }

    /// Drops a column of a table: the drop goes to the end of `up`, and the
    /// re-addition of the column, as the log first described it, to the start of
    /// `down`. A column that the log never described is restored as a nullable
    /// string with no default. Returns the source text regenerated from the new log.
    pub fn drop_column(&mut self, table_name: &str, column_name: &str) -> (r: String)
        ensures
            final(self).log() == after_drop_column(old(self).log(), table_name@, column_name@),
            final(self).path() == old(self).path(),
            r@ == migration_source(final(self).log()),
    {
        let column_info = match self.find_column_info(table_name, column_name) {
            Some(c) => c,
            None => ColumnInfo {
                name: column_name.to_owned(),
                column_type: "string".to_owned(),
                nullable: true,
                default: None,
            },
        };
        let drop_column_op = Operation::DropColumn {
            table: table_name.to_owned(),
            column_name: column_name.to_owned(),
        };
        let add_column_op = Operation::AddColumn { table: table_name.to_owned(), column: column_info };
        let ghost old_up = self.migration_info.up_operations@;
        let ghost old_down = self.migration_info.down_operations@;
        self.migration_info.up_operations.push(drop_column_op);
        self.migration_info.down_operations.insert(0, add_column_op);
        proof {
            assert(operations_view(self.migration_info.up_operations@) =~= operations_view(
                old_up,
            ).push(drop_column_op@));
            assert(operations_view(self.migration_info.down_operations@) =~= seq![
                add_column_op@,
            ] + operations_view(old_down));
        }
        self.generate_migration_code()
    }

    /// The description of column `column_name` of table `table_name` that the log
    /// gives first, in a table creation or a column addition of `up`.
    pub fn find_column_info(&self, table_name: &str, column_name: &str) -> (r: Option<ColumnInfo>)
        ensures
            match r {
                Some(c) => column_described_from(self.log().up_operations, 0, table_name@, column_name@) == Some(c@),
                None => column_described_from(self.log().up_operations, 0, table_name@, column_name@) is None,
            },
    {
        let ops = &self.migration_info.up_operations;
        let ghost opsv = operations_view(ops@);
        let mut i: usize = 0;
        while i < ops.len()
            invariant
                i <= ops@.len(),
                opsv == operations_view(ops@),
                self.log().up_operations == opsv,
                column_described_from(opsv, 0, table_name@, column_name@) == column_described_from(
                    opsv, i as int, table_name@, column_name@),
            decreases ops@.len() - i,
        {
            assert(opsv[i as int] == ops@[i as int]@);
            match &ops[i] {
                Operation::CreateTable { name, columns } => {
                    if same_text(name.as_str(), table_name) {
                        let mut j: usize = 0;
                        while j < columns.len()
                            invariant
                                j <= columns@.len(),
                                i < ops@.len(),
                                opsv.len() == ops@.len(),
                                self.log().up_operations == opsv,
                                opsv[i as int] == (OperationModel::CreateTable {
                                    name: table_name@,
                                    columns: columns_view(columns@),
                                }),
                                column_described_from(opsv, 0, table_name@, column_name@) == column_described_from(
                                    opsv, i as int, table_name@, column_name@),
                                column_named_from(columns_view(columns@), column_name@, 0) == column_named_from(
                                    columns_view(columns@), column_name@, j as int),
                            decreases columns@.len() - j,
                        {
                            assert(columns_view(columns@)[j as int] == columns@[j as int]@);
                            if same_text(columns[j].name.as_str(), column_name) {
                                let c = columns[j].duplicate();
                                proof {
                                    assert(column_named_from(columns_view(columns@), column_name@, j as int)
                                        == Some(columns@[j as int]@));
                                    assert(column_described_from(opsv, i as int, table_name@, column_name@)
                                        == Some(c@));
                                }
                                return Some(c);
                            }
                            j = j + 1;
                        }
                    }
                },
                Operation::AddColumn { table, column } => {
                    if same_text(table.as_str(), table_name) && same_text(column.name.as_str(), column_name) {
                        let c = column.duplicate();
                        proof {
                            assert(column_described_from(opsv, i as int, table_name@, column_name@)
                                == Some(c@));
                        }
                        return Some(c);
                    }
                },
                _ => {},
            }
            i = i + 1;
        }
        None
    }

    /// The columns that `up` gives the table, in order: those of its creation,
    /// then those added.
    pub fn list_columns(&self, table_name: &str) -> (r: Vec<ColumnInfo>)
        ensures
            columns_view(r@) == table_columns(self.log().up_operations, table_name@),
    {
        let ops = &self.migration_info.up_operations;
        let mut columns: Vec<ColumnInfo> = Vec::new();
        let mut i: usize = 0;
        while i < ops.len()
            invariant
                i <= ops@.len(),
                self.log().up_operations == operations_view(ops@),
                columns_view(columns@) =~= table_columns(operations_view(ops@.take(i as int)), table_name@),
            decreases ops@.len() - i,
        {
            assert(operations_view(ops@.take(i + 1)).drop_last() =~= operations_view(ops@.take(i as int)));
            assert(operations_view(ops@.take(i + 1)).last() == ops@[i as int]@);
            match &ops[i] {
                Operation::CreateTable { name, columns: table_columns } => {
                    if same_text(name.as_str(), table_name) {
                        let mut j: usize = 0;
                        let ghost start = columns_view(columns@);
                        while j < table_columns.len()
                            invariant
                                j <= table_columns@.len(),
                                columns_view(columns@) =~= start + columns_view(table_columns@.take(j as int)),
                            decreases table_columns@.len() - j,
                        {
                            let ghost before = columns@;
                            columns.push(table_columns[j].duplicate());
                            assert(columns_view(columns@) =~= columns_view(before).push(
                                table_columns@[j as int]@,
                            ));
                            assert(table_columns@.take(j + 1) =~= table_columns@.take(j as int).push(
                                table_columns@[j as int],
                            ));
                            j = j + 1;
                        }
                        assert(table_columns@.take(j as int) =~= table_columns@);
                    }
                },
                Operation::AddColumn { table, column } => {
                    if same_text(table.as_str(), table_name) {
                        columns.push(column.duplicate());
                    }
                },
                _ => {},
            }
            i = i + 1;
        }
        assert(ops@.take(i as int) =~= ops@);
        columns
    }

    /// Every table that `up` gives columns to, once each and in order of first
    /// appearance, with the columns that `list_columns` gives it.
    pub fn list_all_columns(&self) -> (r: Vec<(String, Vec<ColumnInfo>)>)
        ensures
            r@.len() == column_tables(self.log().up_operations).len(),
            forall|i: int|
                0 <= i < r@.len() ==> #[trigger] r@[i].0@ == column_tables(
                    self.log().up_operations,
                )[i] && columns_view(r@[i].1@) == table_columns(
                    self.log().up_operations,
                    r@[i].0@,
                ),
    {
        let ops = &self.migration_info.up_operations;
        let mut tables: Vec<String> = Vec::new();
        let mut i: usize = 0;
        while i < ops.len()
            invariant
                i <= ops@.len(),
                self.log().up_operations == operations_view(ops@),
                tables@.map_values(|t: String| t@) =~= column_tables(
                    operations_view(ops@.take(i as int)),
                ),
            decreases ops@.len() - i,
        {
            let ghost prefix = operations_view(ops@.take(i as int));
            assert(operations_view(ops@.take(i + 1)).drop_last() =~= prefix);
            assert(operations_view(ops@.take(i + 1)).last() == ops@[i as int]@);
            let source = match &ops[i] {
                Operation::CreateTable { name, .. } => Some(name),
                Operation::AddColumn { table, .. } => Some(table),
                _ => None,
            };
            if let Some(t) = source {
                if !contains_text(&tables, t) {
                    let ghost before = tables@;
                    tables.push(t.clone());
                    assert(tables@.map_values(|t: String| t@) =~= before.map_values(
                        |t: String| t@,
                    ).push(t@));
                }
            }
            i = i + 1;
        }
        assert(ops@.take(i as int) =~= ops@);
        let ghost names = tables@.map_values(|t: String| t@);
        let mut result: Vec<(String, Vec<ColumnInfo>)> = Vec::new();
        let mut k: usize = 0;
        while k < tables.len()
            invariant
                k <= tables@.len(),
                names == tables@.map_values(|t: String| t@),
                names == column_tables(self.log().up_operations),
                result@.len() == k,
                forall|m: int|
                    0 <= m < k ==> #[trigger] result@[m].0@ == names[m] && columns_view(
                        result@[m].1@,
                    ) == table_columns(self.log().up_operations, result@[m].0@),
            decreases tables@.len() - k,
        {
            let cols = self.list_columns(tables[k].as_str());
            result.push((tables[k].clone(), cols));
            k = k + 1;
        }
        result
    }

    /// The operation log.
    pub fn get_migration_info(&self) -> (r: &MigrationInfo)
        ensures
            r@ == self.log(),
    {
        &self.migration_info
    }

    /// The source text of the migration, made from the log alone.
    pub fn generate_migration_code(&self) -> (r: String)
        ensures
            r@ == migration_source(self.log()),
    {
        let mut code = String::new();
        code.append("use sea_orm_migration::prelude::*;\n\n");
        code.append("#[derive(DeriveMigrationName)]\n");
        code.append("pub struct Migration;\n\n");
        code.append("#[async_trait::async_trait]\n");
        code.append("impl MigrationTrait for Migration {\n");
        code.append("    async fn up(&self, manager: &SchemaManager) -> Result<(), DbErr> {\n");
        code.append(operations_code(&self.migration_info.up_operations).as_str());
        code.append("        Ok(())\n    }\n\n    async fn down(&self, manager: &SchemaManager) -> Result<(), DbErr> {\n");
        code.append(operations_code(&self.migration_info.down_operations).as_str());
        code.append("        Ok(())\n    }\n}\n");
        code
    }
}

fn operations_code(ops: &Vec<Operation>) -> (r: String)
    ensures
        r@ == operations_source(operations_view(ops@)),
{
    let mut code = String::new();
    let mut i: usize = 0;
    while i < ops.len()
        invariant
            i <= ops@.len(),
            code@ == operations_source(operations_view(ops@.take(i as int))),
        decreases ops@.len() - i,
    {
        assert(operations_view(ops@.take(i + 1)).drop_last() =~= operations_view(ops@.take(i as int)));
        assert(operations_view(ops@.take(i + 1)).last() == ops@[i as int]@);
        code.append(generate_operation_code(&ops[i], 8).as_str());
        i = i + 1;
    }
    assert(ops@.take(i as int) =~= ops@);
    code
}

fn indent_of(n: usize) -> (r: String)
    ensures
        r@ == spaces(n as nat),
{
    let mut r = String::new();
    let mut i: usize = 0;
    while i < n
        invariant
            i <= n,
            r@ =~= spaces(i as nat),
        decreases n - i,
    {
        r.append(" ");
        i = i + 1;
        assert(r@ =~= spaces(i as nat)) by {
            reveal_strlit(" ");
        }
    }
    r
}

/// The statement that performs one operation, indented by `indent` spaces.
pub fn generate_operation_code(operation: &Operation, indent: usize) -> (r: String)
    ensures
        r@ == operation_source(operation@, spaces(indent as nat)),
{
    let ind = indent_of(indent);
    let i = ind.as_str();
    let mut code = String::new();
    match operation {
        Operation::CreateTable { name, columns } => {
            code.append(i);
            code.append("manager\n");
            code.append(i);
            code.append("    .create_table(\n");
            code.append(i);
            code.append("        Table::create()\n");
            code.append(i);
            code.append("            .table(");
            code.append(to_upper(name.as_str()).as_str());
            code.append("::Table)\n");
            let ghost head = code@;
            let mut k: usize = 0;
            while k < columns.len()
                invariant
                    k <= columns@.len(),
                    i@ == spaces(indent as nat),
                    code@ =~= head + column_lines(i@, columns_view(columns@.take(k as int))),
                decreases columns@.len() - k,
            {
                assert(columns_view(columns@.take(k + 1)).drop_last() =~= columns_view(columns@.take(k as int)));
                assert(columns_view(columns@.take(k + 1)).last() == columns@[k as int]@);
                code.append(i);
                code.append("            .col(");
                code.append(generate_column_definition(&columns[k]).as_str());
                code.append(")\n");
                k = k + 1;
            }
            assert(columns@.take(k as int) =~= columns@);
            code.append(i);
            code.append("            .to_owned(),\n");
            code.append(i);
            code.append("    )\n");
            code.append(i);
            code.append("    .await?;\n\n");
        },
        Operation::AddColumn { table, column } => {
            code.append(i);
            code.append("manager\n");
            code.append(i);
            code.append("    .alter_table(\n");
            code.append(i);
            code.append("        Table::alter()\n");
            code.append(i);
            code.append("            .table(");
            code.append(to_upper(table.as_str()).as_str());
            code.append("::Table)\n");
            code.append(i);
            code.append("            .add_column(");
            code.append(generate_column_definition(column).as_str());
            code.append(")\n");
            code.append(i);
            code.append("            .to_owned(),\n");
            code.append(i);
            code.append("    )\n");
            code.append(i);
            code.append("    .await?;\n\n");
        },
        Operation::DropColumn { table, column_name } => {
            let t = to_upper(table.as_str());
            code.append(i);
            code.append("manager\n");
            code.append(i);
            code.append("    .alter_table(\n");
            code.append(i);
            code.append("        Table::alter()\n");
            code.append(i);
            code.append("            .table(");
            code.append(t.as_str());
            code.append("::Table)\n");
            code.append(i);
            code.append("            .drop_column(");
            code.append(t.as_str());
            code.append("::");
            code.append(to_upper(column_name.as_str()).as_str());
            code.append(")\n");
            code.append(i);
            code.append("            .to_owned(),\n");
            code.append(i);
            code.append("    )\n");
            code.append(i);
            code.append("    .await?;\n\n");
        },
        Operation::DropTable { name } => {
            code.append(i);
            code.append("manager\n");
            code.append(i);
            code.append("    .drop_table(Table::drop().table(");
            code.append(to_upper(name.as_str()).as_str());
            code.append("::Table).to_owned())\n");
            code.append(i);
            code.append("    .await?;\n\n");
        },
    }
    code
}

/// The builder expression that defines a column: its name in capitals, the call
/// for its type, `.not_null()` unless it may be null, and its default if it has one.
pub fn generate_column_definition(column: &ColumnInfo) -> (r: String)
    ensures
        r@ == column_definition(column@),
{
    let mut def = String::new();
    def.append("ColumnDef::new(Alias::");
    def.append(to_upper(column.name.as_str()).as_str());
    def.append(")");
    let ty = chars_of(column.column_type.as_str());
    if same_chars(&ty, "integer") {
        def.append(".integer()");
    } else if same_chars(&ty, "boolean") {
        def.append(".boolean()");
    } else if same_chars(&ty, "text") {
        def.append(".text()");
    } else if same_chars(&ty, "timestamp") {
        def.append(".timestamp()");
    } else {
        def.append(".string()");
    }
    if !column.nullable {
        def.append(".not_null()");
    }
    match &column.default {
        Some(d) => {
            def.append(".default(\"");
            def.append(d.as_str());
            def.append("\")");
        },
        None => {},
    }
    def
}

} // verus!
