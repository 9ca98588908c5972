use vstd::prelude::*;

verus! {

/// One column of a table: its name, type, whether it may be null, and its default.
#[derive(Debug, Clone)]
pub struct ColumnInfo {
    pub name: String,
    pub column_type: String,
    pub nullable: bool,
    pub default: Option<String>,
}

pub ghost struct ColumnModel {
    pub name: Seq<char>,
    pub column_type: Seq<char>,
    pub nullable: bool,
    pub default: Option<Seq<char>>,
}

impl View for ColumnInfo {
    type V = ColumnModel;

    open spec fn view(&self) -> ColumnModel {
        ColumnModel {
            name: self.name@,
            column_type: self.column_type@,
            nullable: self.nullable,
            default: match self.default {
                Some(d) => Some(d@),
                None => None,
            },
        }
    }
}

pub open spec fn columns_view(cols: Seq<ColumnInfo>) -> Seq<ColumnModel> {
    cols.map_values(|c: ColumnInfo| c@)
}

impl ColumnInfo {
    /// A column that may not be null and has no default.
    pub fn new(name: String, column_type: String) -> (r: Self)
        ensures
            r@ == (ColumnModel {
                name: name@,
                column_type: column_type@,
                nullable: false,
                default: None,
            }),
    {
        ColumnInfo { name, column_type, nullable: false, default: None }
    }

    pub fn nullable(self) -> (r: Self)
        ensures
            r@ == (ColumnModel { nullable: true, ..self@ }),
    {
        ColumnInfo { nullable: true, ..self }
    }

    pub fn not_null(self) -> (r: Self)
        ensures
            r@ == (ColumnModel { nullable: false, ..self@ }),
    {
        ColumnInfo { nullable: false, ..self }
    }

    pub fn default_value(self, value: &str) -> (r: Self)
        ensures
            r@ == (ColumnModel { default: Some(value@), ..self@ }),
    {
        ColumnInfo { default: Some(value.to_owned()), ..self }
    }

    /// A copy of this column.
    pub fn duplicate(&self) -> (r: Self)
        ensures
            r@ == self@,
    {
        ColumnInfo {
            name: self.name.clone(),
            column_type: self.column_type.clone(),
            nullable: self.nullable,
            default: match &self.default {
                Some(d) => Some(d.clone()),
                None => None,
            },
        }
    }
}

/// One step of a migration.
#[derive(Debug, Clone)]
pub enum Operation {
    CreateTable { name: String, columns: Vec<ColumnInfo> },
    DropTable { name: String },
    AddColumn { table: String, column: ColumnInfo },
    DropColumn { table: String, column_name: String },
}

pub ghost enum OperationModel {
    CreateTable { name: Seq<char>, columns: Seq<ColumnModel> },
    DropTable { name: Seq<char> },
    AddColumn { table: Seq<char>, column: ColumnModel },
    DropColumn { table: Seq<char>, column_name: Seq<char> },
}

impl View for Operation {
    type V = OperationModel;

    open spec fn view(&self) -> OperationModel {
        match self {
            Operation::CreateTable { name, columns } => OperationModel::CreateTable {
                name: name@,
                columns: columns_view(columns@),
            },
            Operation::DropTable { name } => OperationModel::DropTable { name: name@ },
            Operation::AddColumn { table, column } => OperationModel::AddColumn {
                table: table@,
                column: column@,
            },
            Operation::DropColumn { table, column_name } => OperationModel::DropColumn {
                table: table@,
                column_name: column_name@,
            },
        }
    }
}

pub open spec fn operations_view(ops: Seq<Operation>) -> Seq<OperationModel> {
    ops.map_values(|o: Operation| o@)
}

/// A migration as a log: the operations of its `up` step and of its `down` step, in
/// the order they run.
#[derive(Debug, Clone)]
pub struct MigrationInfo {
    pub table_name: String,
    pub columns: Vec<ColumnInfo>,
    pub up_operations: Vec<Operation>,
    pub down_operations: Vec<Operation>,
}

pub ghost struct MigrationModel {
    pub table_name: Seq<char>,
    pub columns: Seq<ColumnModel>,
    pub up_operations: Seq<OperationModel>,
    pub down_operations: Seq<OperationModel>,
}

impl View for MigrationInfo {
    type V = MigrationModel;

    open spec fn view(&self) -> MigrationModel {
        MigrationModel {
            table_name: self.table_name@,
            columns: columns_view(self.columns@),
            up_operations: operations_view(self.up_operations@),
            down_operations: operations_view(self.down_operations@),
        }
    }
}

impl MigrationInfo {
    /// A migration with no operations.
    pub fn empty() -> (r: Self)
        ensures
            r@.table_name.len() == 0,
            r@.columns.len() == 0,
            r@.up_operations.len() == 0,
            r@.down_operations.len() == 0,
    {
        MigrationInfo {
            table_name: String::new(),
            columns: Vec::new(),
            up_operations: Vec::new(),
            down_operations: Vec::new(),
        }
    }
}

} // verus!
