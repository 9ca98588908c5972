use vstd::prelude::*;

verus! {

/// The command line: one command.
pub struct Args {
    pub command: Commands,
}

pub enum Commands {
    /// Reads a diagram and prints or writes the generator's commands.
    Generate { input: String, output: Option<String> },
    /// Works on a migration file.
    Migration { migration_cmd: MigrationCommands },
}

#[allow(inconsistent_fields)]
pub enum MigrationCommands {
    Parse { file: String },
    AddColumn {
        file: String,
        table: String,
        column: String,
        column_type: String,
        nullable: bool,
        default: Option<String>,
    },
    DropColumn { file: String, table: String, column: String },
    List { file: String, table: Option<String> },
    Info { file: String },
}

} // verus!
