use std::path::PathBuf;

fn create_mock_mermaid_content() -> String {
    r#"
erDiagram
    User ||--o{ Post : creates
    User {
        int id PK
        string name
        string email
        datetime created_at
        datetime updated_at
    }
    Post {
        int id PK
        int user_id FK
        string title
        text content
        datetime created_at
        datetime updated_at
    }
"#
    .to_string()
}

// The command-line model and scaffold generator that these tests exercise.
#[derive(Debug, PartialEq, Clone)]
pub enum CliCommand {
    Generate {
        input: PathBuf,
        output: Option<PathBuf>,
    },
    Migration(MigrationCommand),
    Help,
}

#[derive(Debug, PartialEq, Clone)]
pub enum MigrationCommand {
    Parse {
        file: PathBuf,
    },
    AddColumn {
        file: PathBuf,
        table: String,
        column: String,
        column_type: String,
        nullable: bool,
        default: Option<String>,
    },
    DropColumn {
        file: PathBuf,
        table: String,
        column: String,
    },
    List {
        file: PathBuf,
        table: Option<String>,
    },
    Info {
        file: PathBuf,
    },
}

#[derive(Debug, Clone)]
pub struct CliArgs {
    pub command: CliCommand,
}

#[derive(Debug, PartialEq)]
pub struct ScaffoldCommand {
    pub entity: String,
    pub command: String,
}

pub struct CliParser;

impl CliParser {
    pub fn new() -> Self {
        Self
    }

    pub fn parse_args(&self, args: Vec<String>) -> Result<CliArgs, String> {
        if args.is_empty() {
            return Err("No arguments provided".to_string());
        }

        match args[0].as_str() {
            "generate" => {
                if args.len() < 3 || args[1] != "--input" {
                    return Err("Generate command requires --input argument".to_string());
                }

                let input = PathBuf::from(&args[2]);
                let output = if args.len() >= 5 && args[3] == "--output" {
                    Some(PathBuf::from(&args[4]))
                } else {
                    None
                };

                Ok(CliArgs {
                    command: CliCommand::Generate { input, output },
                })
            }
            "migration" => {
                if args.len() < 2 {
                    return Err("Migration command requires subcommand".to_string());
                }

                let migration_cmd = match args[1].as_str() {
                    "parse" => {
                        if args.len() < 4 || args[2] != "--file" {
                            return Err("Parse command requires --file argument".to_string());
                        }
                        MigrationCommand::Parse {
                            file: PathBuf::from(&args[3]),
                        }
                    }
                    "add-column" => {
                        let mut file = None;
                        let mut table = None;
                        let mut column = None;
                        let mut column_type = None;
                        let mut nullable = true;
                        let mut default = None;

                        let mut i = 2;
                        while i < args.len() {
                            match args[i].as_str() {
                                "--file" => {
                                    if i + 1 < args.len() {
                                        file = Some(PathBuf::from(&args[i + 1]));
                                        i += 2;
                                    } else {
                                        return Err("--file requires a value".to_string());
                                    }
                                }
                                "--table" => {
                                    if i + 1 < args.len() {
                                        table = Some(args[i + 1].clone());
                                        i += 2;
                                    } else {
                                        return Err("--table requires a value".to_string());
                                    }
                                }
                                "--column" => {
                                    if i + 1 < args.len() {
                                        column = Some(args[i + 1].clone());
                                        i += 2;
                                    } else {
                                        return Err("--column requires a value".to_string());
                                    }
                                }
                                "--column-type" => {
                                    if i + 1 < args.len() {
                                        column_type = Some(args[i + 1].clone());
                                        i += 2;
                                    } else {
                                        return Err("--column-type requires a value".to_string());
                                    }
                                }
                                "--nullable" => {
                                    if i + 1 < args.len() {
                                        nullable = args[i + 1] == "true";
                                        i += 2;
                                    } else {
                                        return Err("--nullable requires a value".to_string());
                                    }
                                }
                                "--default" => {
                                    if i + 1 < args.len() {
                                        default = Some(args[i + 1].clone());
                                        i += 2;
                                    } else {
                                        return Err("--default requires a value".to_string());
                                    }
                                }
                                _ => i += 1,
                            }
                        }

                        if file.is_none()
                            || table.is_none()
                            || column.is_none()
                            || column_type.is_none()
                        {
                            return Err(
                                "add-column requires --file, --table, --column, and --column-type"
                                    .to_string(),
                            );
                        }

                        MigrationCommand::AddColumn {
                            file: file.unwrap(),
                            table: table.unwrap(),
                            column: column.unwrap(),
                            column_type: column_type.unwrap(),
                            nullable,
                            default,
                        }
                    }
                    "drop-column" => {
                        let mut file = None;
                        let mut table = None;
                        let mut column = None;

                        let mut i = 2;
                        while i < args.len() {
                            match args[i].as_str() {
                                "--file" => {
                                    if i + 1 < args.len() {
                                        file = Some(PathBuf::from(&args[i + 1]));
                                        i += 2;
                                    }
                                }
                                "--table" => {
                                    if i + 1 < args.len() {
                                        table = Some(args[i + 1].clone());
                                        i += 2;
                                    }
                                }
                                "--column" => {
                                    if i + 1 < args.len() {
                                        column = Some(args[i + 1].clone());
                                        i += 2;
                                    }
                                }
                                _ => i += 1,
                            }
                        }

                        if file.is_none() || table.is_none() || column.is_none() {
                            return Err(
                                "drop-column requires --file, --table, and --column".to_string()
                            );
                        }

                        MigrationCommand::DropColumn {
                            file: file.unwrap(),
                            table: table.unwrap(),
                            column: column.unwrap(),
                        }
                    }
                    "list" => {
                        let mut file = None;
                        let mut table = None;

                        let mut i = 2;
                        while i < args.len() {
                            match args[i].as_str() {
                                "--file" => {
                                    if i + 1 < args.len() {
                                        file = Some(PathBuf::from(&args[i + 1]));
                                        i += 2;
                                    }
                                }
                                "--table" => {
                                    if i + 1 < args.len() {
                                        table = Some(args[i + 1].clone());
                                        i += 2;
                                    }
                                }
                                _ => i += 1,
                            }
                        }

                        if file.is_none() {
                            return Err("list requires --file".to_string());
                        }

                        MigrationCommand::List {
                            file: file.unwrap(),
                            table,
                        }
                    }
                    "info" => {
                        if args.len() < 4 || args[2] != "--file" {
                            return Err("Info command requires --file argument".to_string());
                        }
                        MigrationCommand::Info {
                            file: PathBuf::from(&args[3]),
                        }
                    }
                    _ => return Err(format!("Unknown migration subcommand: {}", args[1])),
                };

                Ok(CliArgs {
                    command: CliCommand::Migration(migration_cmd),
                })
            }
            "--help" | "help" => Ok(CliArgs {
                command: CliCommand::Help,
            }),
            _ => {
                // Legacy mode: single file argument
                let input = PathBuf::from(&args[0]);
                Ok(CliArgs {
                    command: CliCommand::Generate {
                        input,
                        output: None,
                    },
                })
            }
        }
    }
}

pub struct ScaffoldGenerator;

impl ScaffoldGenerator {
    pub fn new() -> Self {
        Self
    }

    pub fn generate_from_mermaid(&self, content: &str) -> Result<Vec<ScaffoldCommand>, String> {
        if content.trim().is_empty() {
            return Err("Empty content provided".to_string());
        }

        if !content.contains("erDiagram") {
            return Err("Invalid Mermaid ER diagram format".to_string());
        }

        let mut commands = Vec::new();

        if content.contains("User") {
            commands.push(ScaffoldCommand {
                entity: "User".to_string(),
                command: "cargo loco generate scaffold user name:string email:string".to_string(),
            });
        }

        if content.contains("Post") {
            commands.push(ScaffoldCommand {
                entity: "Post".to_string(),
                command:
                    "cargo loco generate scaffold post user_id:references title:string content:text"
                        .to_string(),
            });
        }

        Ok(commands)
    }

    pub fn generate_commands_string(&self, commands: &[ScaffoldCommand]) -> String {
        commands
            .iter()
            .map(|cmd| cmd.command.clone())
            .collect::<Vec<_>>()
            .join("\n")
    }
}

#[test]
fn test_cli_parser_creation() {
    let _parser = CliParser::new();
    // Parser should be created successfully
    assert!(true);
}

#[test]
fn test_parse_generate_command() {
    let parser = CliParser::new();
    let args = vec![
        "generate".to_string(),
        "--input".to_string(),
        "diagram.mermaid".to_string(),
    ];

    let result = parser.parse_args(args);
    assert!(result.is_ok());

    let cli_args = result.unwrap();
    match cli_args.command {
        CliCommand::Generate { input, output } => {
            assert_eq!(input, PathBuf::from("diagram.mermaid"));
            assert!(output.is_none());
        }
        _ => panic!("Expected Generate command"),
    }
}

#[test]
fn test_parse_generate_command_with_output() {
    let parser = CliParser::new();
    let args = vec![
        "generate".to_string(),
        "--input".to_string(),
        "diagram.mermaid".to_string(),
        "--output".to_string(),
        "commands.txt".to_string(),
    ];

    let result = parser.parse_args(args);
    assert!(result.is_ok());

    let cli_args = result.unwrap();
    match cli_args.command {
        CliCommand::Generate { input, output } => {
            assert_eq!(input, PathBuf::from("diagram.mermaid"));
            assert_eq!(output, Some(PathBuf::from("commands.txt")));
        }
        _ => panic!("Expected Generate command"),
    }
}

#[test]
fn test_parse_migration_parse_command() {
    let parser = CliParser::new();
    let args = vec![
        "migration".to_string(),
        "parse".to_string(),
        "--file".to_string(),
        "migration.rs".to_string(),
    ];

    let result = parser.parse_args(args);
    assert!(result.is_ok());

    let cli_args = result.unwrap();
    match cli_args.command {
        CliCommand::Migration(MigrationCommand::Parse { file }) => {
            assert_eq!(file, PathBuf::from("migration.rs"));
        }
        _ => panic!("Expected Migration Parse command"),
    }
}

#[test]
fn test_parse_migration_add_column_command() {
    let parser = CliParser::new();
    let args = vec![
        "migration".to_string(),
        "add-column".to_string(),
        "--file".to_string(),
        "migration.rs".to_string(),
        "--table".to_string(),
        "users".to_string(),
        "--column".to_string(),
        "email".to_string(),
        "--column-type".to_string(),
        "string".to_string(),
        "--nullable".to_string(),
        "false".to_string(),
        "--default".to_string(),
        "example@email.com".to_string(),
    ];

    let result = parser.parse_args(args);
    assert!(result.is_ok());

    let cli_args = result.unwrap();
    match cli_args.command {
        CliCommand::Migration(MigrationCommand::AddColumn {
            file,
            table,
            column,
            column_type,
            nullable,
            default,
        }) => {
            assert_eq!(file, PathBuf::from("migration.rs"));
            assert_eq!(table, "users");
            assert_eq!(column, "email");
            assert_eq!(column_type, "string");
            assert!(!nullable);
            assert_eq!(default, Some("example@email.com".to_string()));
        }
        _ => panic!("Expected Migration AddColumn command"),
    }
}

#[test]
fn test_parse_migration_drop_column_command() {
    let parser = CliParser::new();
    let args = vec![
        "migration".to_string(),
        "drop-column".to_string(),
        "--file".to_string(),
        "migration.rs".to_string(),
        "--table".to_string(),
        "users".to_string(),
        "--column".to_string(),
        "email".to_string(),
    ];

    let result = parser.parse_args(args);
    assert!(result.is_ok());

    let cli_args = result.unwrap();
    match cli_args.command {
        CliCommand::Migration(MigrationCommand::DropColumn {
            file,
            table,
            column,
        }) => {
            assert_eq!(file, PathBuf::from("migration.rs"));
            assert_eq!(table, "users");
            assert_eq!(column, "email");
        }
        _ => panic!("Expected Migration DropColumn command"),
    }
}

#[test]
fn test_parse_migration_list_command() {
    let parser = CliParser::new();
    let args = vec![
        "migration".to_string(),
        "list".to_string(),
        "--file".to_string(),
        "migration.rs".to_string(),
    ];

    let result = parser.parse_args(args);
    assert!(result.is_ok());

    let cli_args = result.unwrap();
    match cli_args.command {
        CliCommand::Migration(MigrationCommand::List { file, table }) => {
            assert_eq!(file, PathBuf::from("migration.rs"));
            assert!(table.is_none());
        }
        _ => panic!("Expected Migration List command"),
    }
}

#[test]
fn test_parse_migration_list_command_with_table() {
    let parser = CliParser::new();
    let args = vec![
        "migration".to_string(),
        "list".to_string(),
        "--file".to_string(),
        "migration.rs".to_string(),
        "--table".to_string(),
        "users".to_string(),
    ];

    let result = parser.parse_args(args);
    assert!(result.is_ok());

    let cli_args = result.unwrap();
    match cli_args.command {
        CliCommand::Migration(MigrationCommand::List { file, table }) => {
            assert_eq!(file, PathBuf::from("migration.rs"));
            assert_eq!(table, Some("users".to_string()));
        }
        _ => panic!("Expected Migration List command"),
    }
}

#[test]
fn test_parse_migration_info_command() {
    let parser = CliParser::new();
    let args = vec![
        "migration".to_string(),
        "info".to_string(),
        "--file".to_string(),
        "migration.rs".to_string(),
    ];

    let result = parser.parse_args(args);
    assert!(result.is_ok());

    let cli_args = result.unwrap();
    match cli_args.command {
        CliCommand::Migration(MigrationCommand::Info { file }) => {
            assert_eq!(file, PathBuf::from("migration.rs"));
        }
        _ => panic!("Expected Migration Info command"),
    }
}

#[test]
fn test_parse_help_command() {
    let parser = CliParser::new();
    let args = vec!["--help".to_string()];

    let result = parser.parse_args(args);
    assert!(result.is_ok());

    let cli_args = result.unwrap();
    match cli_args.command {
        CliCommand::Help => {}
        _ => panic!("Expected Help command"),
    }
}

#[test]
fn test_parse_legacy_mode() {
    let parser = CliParser::new();
    let args = vec!["diagram.mermaid".to_string()];

    let result = parser.parse_args(args);
    assert!(result.is_ok());

    let cli_args = result.unwrap();
    match cli_args.command {
        CliCommand::Generate { input, output } => {
            assert_eq!(input, PathBuf::from("diagram.mermaid"));
            assert!(output.is_none());
        }
        _ => panic!("Expected Generate command in legacy mode"),
    }
}

#[test]
fn test_parse_empty_args() {
    let parser = CliParser::new();
    let args = vec![];

    let result = parser.parse_args(args);
    assert!(result.is_err());
    assert!(result.unwrap_err().contains("No arguments provided"));
}

#[test]
fn test_parse_invalid_generate_command() {
    let parser = CliParser::new();
    let args = vec!["generate".to_string()];

    let result = parser.parse_args(args);
    assert!(result.is_err());
    assert!(result
        .unwrap_err()
        .contains("Generate command requires --input argument"));
}

#[test]
fn test_parse_invalid_migration_command() {
    let parser = CliParser::new();
    let args = vec!["migration".to_string()];

    let result = parser.parse_args(args);
    assert!(result.is_err());
    assert!(result
        .unwrap_err()
        .contains("Migration command requires subcommand"));
}

#[test]
fn test_parse_unknown_migration_subcommand() {
    let parser = CliParser::new();
    let args = vec!["migration".to_string(), "unknown".to_string()];

    let result = parser.parse_args(args);
    assert!(result.is_err());
    assert!(result.unwrap_err().contains("Unknown migration subcommand"));
}

#[test]
fn test_scaffold_generator_creation() {
    let _generator = ScaffoldGenerator::new();
    // Generator should be created successfully
    assert!(true);
}

#[test]
fn cli_tests_test_generate_from_mermaid() {
    let generator = ScaffoldGenerator::new();
    let content = create_mock_mermaid_content();

    let result = generator.generate_from_mermaid(&content);
    assert!(result.is_ok());

    let commands = result.unwrap();
    assert_eq!(commands.len(), 2);

    let user_command = commands.iter().find(|c| c.entity == "User").unwrap();
    assert!(user_command.command.contains("scaffold user"));
    assert!(user_command.command.contains("name:string"));
    assert!(user_command.command.contains("email:string"));

    let post_command = commands.iter().find(|c| c.entity == "Post").unwrap();
    assert!(post_command.command.contains("scaffold post"));
    assert!(post_command.command.contains("user_id:references"));
    assert!(post_command.command.contains("title:string"));
    assert!(post_command.command.contains("content:text"));
}

#[test]
fn test_generate_from_empty_content() {
    let generator = ScaffoldGenerator::new();
    let result = generator.generate_from_mermaid("");

    assert!(result.is_err());
    assert!(result.unwrap_err().contains("Empty content"));
}

#[test]
fn test_generate_from_invalid_mermaid() {
    let generator = ScaffoldGenerator::new();
    let invalid_content = "This is not a mermaid diagram";

    let result = generator.generate_from_mermaid(invalid_content);
    assert!(result.is_err());
    assert!(result
        .unwrap_err()
        .contains("Invalid Mermaid ER diagram format"));
}

#[test]
fn test_generate_commands_string() {
    let generator = ScaffoldGenerator::new();
    let commands = vec![
        ScaffoldCommand {
            entity: "User".to_string(),
            command: "cargo loco generate scaffold user name:string email:string".to_string(),
        },
        ScaffoldCommand {
            entity: "Post".to_string(),
            command:
                "cargo loco generate scaffold post user_id:references title:string content:text"
                    .to_string(),
        },
    ];

    let result = generator.generate_commands_string(&commands);
    let lines: Vec<&str> = result.lines().collect();

    assert_eq!(lines.len(), 2);
    assert!(lines[0].contains("scaffold user"));
    assert!(lines[1].contains("scaffold post"));
}

#[test]
fn test_generate_commands_string_empty() {
    let generator = ScaffoldGenerator::new();
    let commands = vec![];

    let result = generator.generate_commands_string(&commands);
    assert!(result.is_empty());
}

#[test]
fn test_migration_add_column_missing_required_args() {
    let parser = CliParser::new();
    let args = vec![
        "migration".to_string(),
        "add-column".to_string(),
        "--file".to_string(),
        "migration.rs".to_string(),
        "--table".to_string(),
        "users".to_string(),
        // Missing --column and --column-type
    ];

    let result = parser.parse_args(args);
    assert!(result.is_err());
    assert!(result
        .unwrap_err()
        .contains("add-column requires --file, --table, --column, and --column-type"));
}

#[test]
fn test_migration_drop_column_missing_required_args() {
    let parser = CliParser::new();
    let args = vec![
        "migration".to_string(),
        "drop-column".to_string(),
        "--file".to_string(),
        "migration.rs".to_string(),
        // Missing --table and --column
    ];

    let result = parser.parse_args(args);
    assert!(result.is_err());
    assert!(result
        .unwrap_err()
        .contains("drop-column requires --file, --table, and --column"));
}

#[test]
fn test_migration_list_missing_file() {
    let parser = CliParser::new();
    let args = vec![
        "migration".to_string(),
        "list".to_string(),
        // Missing --file
    ];

    let result = parser.parse_args(args);
    assert!(result.is_err());
    assert!(result.unwrap_err().contains("list requires --file"));
}
