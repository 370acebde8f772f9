//! The database of a project, reached through the command line tool of a module: the
//! commands that list, describe, query and change it, and what their output means.

use vstd::prelude::*;
use vstd::string::*;
use crate::error::{text_result, Error, ErrorView};
use crate::json::{json_text_list, read_text_list};
use crate::numbers::{decimal, format_i64, format_u32, parse_i64, parsed_i64, signed_decimal};
use crate::split::{has_prefix, replace, replaced, starts_with};
use crate::ssh::{CommandOutput, SshClient};
use crate::template::{binding, render_map, rendered, var_views, TemplateVar};
use crate::text::{
    concat, concat3, opt_str, opt_text, opt_texts, texts, trim, trim_start, trim_start_of, trimmed,
    uppercase, uppercase_of,
};

verus! {

/// What a database command gave.
#[derive(Debug)]
pub struct DbResult {
    pub project_id: String,
    pub base_path: Option<String>,
    pub domain: Option<String>,
    pub cli_path: Option<String>,
    pub stdout: Option<String>,
    pub stderr: Option<String>,
    pub exit_code: i32,
    pub success: bool,
    pub tables: Option<Vec<String>>,
    pub table: Option<String>,
    pub sql: Option<String>,
}

/// The ends of a tunnel to a database.
#[derive(Debug)]
pub struct DbTunnelInfo {
    pub local_port: u16,
    pub remote_host: String,
    pub remote_port: u16,
    pub database: String,
    pub user: String,
}

/// How a tunnel to a database ended.
#[derive(Debug)]
pub struct DbTunnelResult {
    pub project_id: String,
    pub base_path: Option<String>,
    pub domain: Option<String>,
    pub exit_code: i32,
    pub success: bool,
    pub tunnel: DbTunnelInfo,
}

/// The command templates of a module's database tool.
#[derive(Debug)]
pub struct DatabaseCliConfig {
    pub tables_command: String,
    pub describe_command: String,
    pub query_command: String,
}

/// What is known of a project before its database is reached.
#[derive(Debug)]
pub struct DbContext {
    pub project_id: String,
    pub base_path: String,
    pub domain: String,
    pub cli_path: String,
    pub db_cli: DatabaseCliConfig,
}

/// What a module offers to reach a database: the command templates of its database tool,
/// and the path of its command line tool.
#[derive(Debug)]
pub struct ModuleTools {
    pub db_cli: Option<DatabaseCliConfig>,
    pub default_cli_path: Option<String>,
}

/// The place of the first module with a database tool, or the number of modules.
pub open spec fn first_db_cli(modules: Seq<ModuleTools>) -> int
    decreases modules.len(),
{
    if modules.len() == 0 {
        0
    } else if modules[0].db_cli is Some {
        0
    } else {
        1 + first_db_cli(modules.drop_first())
    }
}

/// The place of the first module that names the path of its command line tool, or the
/// number of modules.
pub open spec fn first_cli_path(modules: Seq<ModuleTools>) -> int
    decreases modules.len(),
{
    if modules.len() == 0 {
        0
    } else if modules[0].default_cli_path is Some {
        0
    } else {
        1 + first_cli_path(modules.drop_first())
    }
}

/// What is known of a project before its database is reached: the command templates are
/// those of the first module that has a database tool, and there must be one; the path of
/// the command line tool is that of the first module that names one, else empty.
pub fn build_context(project_id: &str, base_path: &str, domain: &str, modules: &Vec<ModuleTools>) -> (r:
    Result<DbContext, Error>)
    ensures
        first_db_cli(modules@) >= modules@.len() ==> r is Err && r->Err_0@ == (ErrorView::Config {
            message: "No module with database CLI configuration found"@,
        }),
        first_db_cli(modules@) < modules@.len() ==> {
            let tool = modules@[first_db_cli(modules@)].db_cli->Some_0;
            &&& r is Ok
            &&& r->Ok_0.project_id@ == project_id@
            &&& r->Ok_0.base_path@ == base_path@
            &&& r->Ok_0.domain@ == domain@
            &&& r->Ok_0.db_cli.tables_command@ == tool.tables_command@
            &&& r->Ok_0.db_cli.describe_command@ == tool.describe_command@
            &&& r->Ok_0.db_cli.query_command@ == tool.query_command@
            &&& r->Ok_0.cli_path@ == if first_cli_path(modules@) < modules@.len() {
                modules@[first_cli_path(modules@)].default_cli_path->Some_0@
            } else {
                Seq::<char>::empty()
            }
        },
{
    let mut i: usize = 0;
    assert(modules@.skip(0) =~= modules@);
    while i < modules.len() && modules[i].db_cli.is_none()
        invariant
            i <= modules.len(),
            first_db_cli(modules@) == i + first_db_cli(modules@.skip(i as int)),
        decreases modules.len() - i,
    {
        proof {
            assert(modules@.skip(i as int).drop_first() =~= modules@.skip(i + 1));
            assert(modules@.skip(i as int)[0] == modules@[i as int]);
        }
        i += 1;
    }
    if i >= modules.len() {
        return Err(
            Error::Config {
                message: String::from_str("No module with database CLI configuration found"),
            },
        );
    }
    assert(modules@.skip(i as int)[0] == modules@[i as int]);
    let mut j: usize = 0;
    while j < modules.len() && modules[j].default_cli_path.is_none()
        invariant
            j <= modules.len(),
            first_cli_path(modules@) == j + first_cli_path(modules@.skip(j as int)),
        decreases modules.len() - j,
    {
        proof {
            assert(modules@.skip(j as int).drop_first() =~= modules@.skip(j + 1));
            assert(modules@.skip(j as int)[0] == modules@[j as int]);
        }
        j += 1;
    }
    let cli_path = if j < modules.len() {
        assert(modules@.skip(j as int)[0] == modules@[j as int]);
        match &modules[j].default_cli_path {
            Some(path) => path.clone(),
            None => String::new(),
        }
    } else {
        String::new()
    };
    match &modules[i].db_cli {
        Some(tool) => Ok(
            DbContext {
                project_id: String::from_str(project_id),
                base_path: String::from_str(base_path),
                domain: String::from_str(domain),
                cli_path,
                db_cli: DatabaseCliConfig {
                    tables_command: tool.tables_command.clone(),
                    describe_command: tool.describe_command.clone(),
                    query_command: tool.query_command.clone(),
                },
            },
        ),
        None => Err(
            Error::Config {
                message: String::from_str("No module with database CLI configuration found"),
            },
        ),
    }
}

/// The list of tables that a JSON text holds; empty where it holds none.
pub open spec fn tables_of(json: Seq<char>) -> Seq<Seq<char>> {
    match json_text_list(json) {
        Some(tables) => tables,
        None => Seq::empty(),
    }
}

/// Reads the names of tables from a JSON array; anything else gives none.
pub fn parse_json_tables(json: &str) -> (r: Vec<String>)
    ensures
        texts(r@) == tables_of(json@),
{
    match read_text_list(json) {
        Some(tables) => tables,
        None => {
            let none: Vec<String> = Vec::new();
            assert(texts(none@) =~= Seq::<Seq<char>>::empty());
            none
        },
    }
}

/// The variables that every database command is given.
pub open spec fn site_vars(ctx: DbContext) -> Seq<(Seq<char>, Seq<char>)> {
    seq![("sitePath"@, ctx.base_path@), ("cliPath"@, ctx.cli_path@)]
}

/// The variables of a command that runs a query.
pub open spec fn query_vars(ctx: DbContext, sql: Seq<char>) -> Seq<(Seq<char>, Seq<char>)> {
    site_vars(ctx) + seq![("query"@, sql), ("format"@, "json"@), ("domain"@, ctx.domain@)]
}

/// The variables that every database command is given.
fn base_vars(ctx: &DbContext) -> (r: Vec<TemplateVar>)
    ensures
        var_views(r@) == site_vars(*ctx),
{
    let mut vars: Vec<TemplateVar> = Vec::new();
    vars.push(binding("sitePath", ctx.base_path.as_str()));
    vars.push(binding("cliPath", ctx.cli_path.as_str()));
    assert(var_views(vars@) =~= site_vars(*ctx));
    vars
}

/// The command that runs a query.
fn render_query(ctx: &DbContext, sql: &str) -> (r: String)
    ensures
        r@ == rendered(ctx.db_cli.query_command@, query_vars(*ctx, sql@)),
{
    let mut vars = base_vars(ctx);
    vars.push(binding("query", sql));
    vars.push(binding("format", "json"));
    vars.push(binding("domain", ctx.domain.as_str()));
    assert(var_views(vars@) =~= query_vars(*ctx, sql@));
    render_map(ctx.db_cli.query_command.as_str(), &vars)
}

/// What a database command gave: the project and what the command printed, with the
/// tables, the table and the query that the command was about.
fn result_of(
    ctx: &DbContext,
    output: CommandOutput,
    tables: Option<Vec<String>>,
    table: Option<String>,
    sql: Option<String>,
) -> (r: DbResult)
    ensures
        reports(r, *ctx, output),
        r.tables == tables,
        r.table == table,
        r.sql == sql,
{
    DbResult {
        project_id: ctx.project_id.clone(),
        base_path: Some(ctx.base_path.clone()),
        domain: Some(ctx.domain.clone()),
        cli_path: Some(ctx.cli_path.clone()),
        stdout: Some(output.stdout),
        stderr: Some(output.stderr),
        exit_code: output.exit_code,
        success: output.success,
        tables,
        table,
        sql,
    }
}

/// The result tells the project and what the command printed.
pub open spec fn reports(r: DbResult, ctx: DbContext, output: CommandOutput) -> bool {
    &&& r.project_id@ == ctx.project_id@
    &&& opt_text(r.base_path) == Some(ctx.base_path@)
    &&& opt_text(r.domain) == Some(ctx.domain@)
    &&& opt_text(r.cli_path) == Some(ctx.cli_path@)
    &&& opt_text(r.stdout) == Some(output.stdout@)
    &&& opt_text(r.stderr) == Some(output.stderr@)
    &&& r.exit_code == output.exit_code
    &&& r.success == output.success
}

/// The command that lists the tables.
pub fn list_tables_command(ctx: &DbContext) -> (r: String)
    ensures
        r@ == rendered(ctx.db_cli.tables_command@, site_vars(*ctx)),
{
    let vars = base_vars(ctx);
    render_map(ctx.db_cli.tables_command.as_str(), &vars)
}

/// The tables of the database, from the output of the command that `list_tables_command`
/// wrote. A command that failed gives no tables.
pub fn list_tables(ctx: &DbContext, output: CommandOutput) -> (r: DbResult)
    ensures
        reports(r, *ctx, output),
        opt_texts(r.tables) == if output.success {
            Some(tables_of(output.stdout@))
        } else {
            None
        },
        r.table is None,
        r.sql is None,
{
    let tables = if output.success {
        Some(parse_json_tables(output.stdout.as_str()))
    } else {
        None
    };
    result_of(ctx, output, tables, None, None)
}

/// The error for a table that is not named.
pub open spec fn table_required() -> ErrorView {
    ErrorView::Config { message: "Table name required"@ }
}

/// The command that describes a table. A table must be named.
pub fn describe_table_command(ctx: &DbContext, table: Option<&str>) -> (r: Result<String, Error>)
    ensures
        text_result(r) == match opt_str(table) {
            None => Err::<Seq<char>, ErrorView>(table_required()),
            Some(t) => Ok(
                rendered(ctx.db_cli.describe_command@, site_vars(*ctx) + seq![("table"@, t)]),
            ),
        },
{
    let table = match table {
        Some(t) => t,
        None => {
            return Err(Error::Config { message: String::from_str("Table name required") });
        },
    };
    let mut vars = base_vars(ctx);
    vars.push(binding("table", table));
    assert(var_views(vars@) =~= site_vars(*ctx) + seq![("table"@, table@)]);
    Ok(render_map(ctx.db_cli.describe_command.as_str(), &vars))
}

/// The description of a table, from the output of the command that
/// `describe_table_command` wrote.
pub fn describe_table(ctx: &DbContext, table: Option<&str>, output: CommandOutput) -> (r: Result<
    DbResult,
    Error,
>)
    ensures
        match opt_str(table) {
            None => r is Err && r->Err_0@ == table_required(),
            Some(t) => r is Ok && reports(r->Ok_0, *ctx, output) && r->Ok_0.tables is None
                && opt_text(r->Ok_0.table) == Some(t) && r->Ok_0.sql is None,
        },
{
    let table = match table {
        Some(t) => t,
        None => {
            return Err(Error::Config { message: String::from_str("Table name required") });
        },
    };
    Ok(result_of(ctx, output, None, Some(String::from_str(table)), None))
}

/// The query starts, after white space and in any case, with a word that changes the
/// database.
pub open spec fn writes(sql: Seq<char>) -> bool {
    let start = trim_start_of(uppercase_of(sql));
    ||| has_prefix(start, "INSERT"@)
    ||| has_prefix(start, "UPDATE"@)
    ||| has_prefix(start, "DELETE"@)
    ||| has_prefix(start, "DROP"@)
    ||| has_prefix(start, "ALTER"@)
    ||| has_prefix(start, "TRUNCATE"@)
    ||| has_prefix(start, "CREATE"@)
    ||| has_prefix(start, "REPLACE"@)
    ||| has_prefix(start, "GRANT"@)
    ||| has_prefix(start, "REVOKE"@)
}

/// The text with each single quote doubled, as SQL wants it inside a string.
pub open spec fn sql_escaped(s: Seq<char>) -> Seq<char> {
    replaced(s, "'"@, "''"@)
}

/// Why a query is refused: it is empty, or it changes the database.
pub open spec fn query_refusal(sql: Seq<char>) -> Option<ErrorView> {
    if trimmed(sql).len() == 0 {
        Some(ErrorView::Config { message: "SQL query required"@ })
    } else if writes(sql) {
        Some(
            ErrorView::Config {
                message: "Write operations not allowed via query. Use the module CLI directly for writes."@,
            },
        )
    } else {
        None
    }
}

/// Refuses a query that is empty or changes the database.
fn check_query(sql: &str) -> (r: Result<(), Error>)
    ensures
        match query_refusal(sql@) {
            Some(e) => r is Err && r->Err_0@ == e,
            None => r is Ok,
        },
{
    if trim(sql).unicode_len() == 0 {
        return Err(Error::Config { message: String::from_str("SQL query required") });
    }
    let upper = uppercase(sql);
    let start = trim_start(upper.as_str());
    if starts_with(start, "INSERT") || starts_with(start, "UPDATE") || starts_with(start, "DELETE")
        || starts_with(start, "DROP") || starts_with(start, "ALTER") || starts_with(
        start,
        "TRUNCATE",
    ) || starts_with(start, "CREATE") || starts_with(start, "REPLACE") || starts_with(
        start,
        "GRANT",
    ) || starts_with(start, "REVOKE") {
        return Err(
            Error::Config {
                message: String::from_str(
                    "Write operations not allowed via query. Use the module CLI directly for writes.",
                ),
            },
        );
    }
    Ok(())
}

/// Doubles the single quotes of a text.
pub fn escape_sql(s: &str) -> (r: String)
    ensures
        r@ == sql_escaped(s@),
{
    proof {
        reveal_strlit("'");
    }
    replace(s, "'", "''")
}

/// The command that runs a query that only reads.
pub fn query_command(ctx: &DbContext, sql: &str) -> (r: Result<String, Error>)
    ensures
        text_result(r) == match query_refusal(sql@) {
            Some(e) => Err::<Seq<char>, ErrorView>(e),
            None => Ok(rendered(ctx.db_cli.query_command@, query_vars(*ctx, sql_escaped(sql@)))),
        },
{
    match check_query(sql) {
        Err(e) => {
            return Err(e);
        },
        Ok(_) => {},
    }
    let escaped = escape_sql(sql);
    Ok(render_query(ctx, escaped.as_str()))
}

/// What a query gave, from the output of the command that `query_command` wrote.
pub fn query(ctx: &DbContext, sql: &str, output: CommandOutput) -> (r: Result<DbResult, Error>)
    ensures
        match query_refusal(sql@) {
            Some(e) => r is Err && r->Err_0@ == e,
            None => r is Ok && reports(r->Ok_0, *ctx, output) && r->Ok_0.tables is None
                && r->Ok_0.table is None && opt_text(r->Ok_0.sql) == Some(sql@),
        },
{
    match check_query(sql) {
        Err(e) => {
            return Err(e);
        },
        Ok(_) => {},
    }
    Ok(result_of(ctx, output, None, None, Some(String::from_str(sql))))
}

/// The number of rows that a search gives where no limit is set.
pub const DEFAULT_SEARCH_LIMIT: u32 = 100;

/// The limit that is set, or 100.
pub open spec fn row_limit(limit: Option<u32>) -> u32 {
    match limit {
        Some(n) => n,
        None => 100,
    }
}

/// Why a search is refused: the table, the column or the pattern is empty.
pub open spec fn search_refusal(table: Seq<char>, column: Seq<char>, pattern: Seq<char>) -> Option<
    ErrorView,
> {
    if trimmed(table).len() == 0 {
        Some(ErrorView::Config { message: "Table name required"@ })
    } else if trimmed(column).len() == 0 {
        Some(ErrorView::Config { message: "Column name required"@ })
    } else if trimmed(pattern).len() == 0 {
        Some(ErrorView::Config { message: "Search pattern required"@ })
    } else {
        None
    }
}

/// The query of a search: the rows of the table whose column equals the pattern, or holds
/// it, up to the limit.
pub open spec fn search_sql(
    table: Seq<char>,
    column: Seq<char>,
    pattern: Seq<char>,
    exact: bool,
    limit: Option<u32>,
) -> Seq<char> {
    let head = "SELECT * FROM "@ + table + " WHERE "@ + column;
    let tail = " LIMIT "@ + decimal(row_limit(limit) as nat);
    if exact {
        head + " = '"@ + sql_escaped(pattern) + "'"@ + tail
    } else {
        head + " LIKE '%"@ + sql_escaped(pattern) + "%'"@ + tail
    }
}

/// Refuses a search without a table, a column or a pattern.
fn check_search(table: &str, column: &str, pattern: &str) -> (r: Result<(), Error>)
    ensures
        match search_refusal(table@, column@, pattern@) {
            Some(e) => r is Err && r->Err_0@ == e,
            None => r is Ok,
        },
{
    if trim(table).unicode_len() == 0 {
        return Err(Error::Config { message: String::from_str("Table name required") });
    }
    if trim(column).unicode_len() == 0 {
        return Err(Error::Config { message: String::from_str("Column name required") });
    }
    if trim(pattern).unicode_len() == 0 {
        return Err(Error::Config { message: String::from_str("Search pattern required") });
    }
    Ok(())
}

/// Writes the query of a search.
pub fn write_search_sql(table: &str, column: &str, pattern: &str, exact: bool, limit: Option<u32>) -> (r:
    String)
    ensures
        r@ == search_sql(table@, column@, pattern@, exact, limit),
{
    let escaped = escape_sql(pattern);
    let rows = match limit {
        Some(n) => n,
        None => DEFAULT_SEARCH_LIMIT,
    };
    let mut sql = concat3("SELECT * FROM ", table, " WHERE ");
    sql.append(column);
    if exact {
        sql.append(" = '");
        sql.append(escaped.as_str());
        sql.append("'");
    } else {
        sql.append(" LIKE '%");
        sql.append(escaped.as_str());
        sql.append("%'");
    }
    let ghost body = sql@;
    sql.append(" LIMIT ");
    sql.append(format_u32(rows).as_str());
    assert(sql@ =~= body + (" LIMIT "@ + decimal(rows as nat)));
    sql
}

/// The command that searches a table.
pub fn search_command(
    ctx: &DbContext,
    table: &str,
    column: &str,
    pattern: &str,
    exact: bool,
    limit: Option<u32>,
) -> (r: Result<String, Error>)
    ensures
        text_result(r) == match search_refusal(table@, column@, pattern@) {
            Some(e) => Err::<Seq<char>, ErrorView>(e),
            None => Ok(
                rendered(
                    ctx.db_cli.query_command@,
                    query_vars(*ctx, search_sql(table@, column@, pattern@, exact, limit)),
                ),
            ),
        },
{
    match check_search(table, column, pattern) {
        Err(e) => {
            return Err(e);
        },
        Ok(_) => {},
    }
    let sql = write_search_sql(table, column, pattern, exact, limit);
    Ok(render_query(ctx, sql.as_str()))
}

/// What a search gave, from the output of the command that `search_command` wrote.
pub fn search(
    ctx: &DbContext,
    table: &str,
    column: &str,
    pattern: &str,
    exact: bool,
    limit: Option<u32>,
    output: CommandOutput,
) -> (r: Result<DbResult, Error>)
    ensures
        match search_refusal(table@, column@, pattern@) {
            Some(e) => r is Err && r->Err_0@ == e,
            None => r is Ok && reports(r->Ok_0, *ctx, output) && r->Ok_0.tables is None
                && opt_text(r->Ok_0.table) == Some(table@) && opt_text(r->Ok_0.sql) == Some(
                search_sql(table@, column@, pattern@, exact, limit),
            ),
        },
{
    match check_search(table, column, pattern) {
        Err(e) => {
            return Err(e);
        },
        Ok(_) => {},
    }
    let sql = write_search_sql(table, column, pattern, exact, limit);
    Ok(result_of(ctx, output, None, Some(String::from_str(table)), Some(sql)))
}

/// The query that deletes a row, or why there is none: the table or the row is not named,
/// or the row is no number.
pub open spec fn delete_sql(table: Option<Seq<char>>, row_id: Option<Seq<char>>) -> Result<
    Seq<char>,
    ErrorView,
> {
    match table {
        None => Err(table_required()),
        Some(t) => match row_id {
            None => Err(ErrorView::Config { message: "Row ID required"@ }),
            Some(id) => match parsed_i64(id) {
                None => Err(ErrorView::Config { message: "Row ID must be numeric"@ }),
                Some(n) => Ok("DELETE FROM "@ + t + " WHERE ID = "@ + signed_decimal(n) + " LIMIT 1"@),
            },
        },
    }
}

/// Writes the query that deletes a row.
pub fn write_delete_sql(table: Option<&str>, row_id: Option<&str>) -> (r: Result<String, Error>)
    ensures
        text_result(r) == delete_sql(opt_str(table), opt_str(row_id)),
{
    let table = match table {
        Some(t) => t,
        None => {
            return Err(Error::Config { message: String::from_str("Table name required") });
        },
    };
    let row_id = match row_id {
        Some(id) => id,
        None => {
            return Err(Error::Config { message: String::from_str("Row ID required") });
        },
    };
    let number = match parse_i64(row_id) {
        Some(n) => n,
        None => {
            return Err(Error::Config { message: String::from_str("Row ID must be numeric") });
        },
    };
    let mut sql = concat3("DELETE FROM ", table, " WHERE ID = ");
    sql.append(format_i64(number).as_str());
    sql.append(" LIMIT 1");
    Ok(sql)
}

/// The command that deletes a row of a table.
pub fn delete_row_command(ctx: &DbContext, table: Option<&str>, row_id: Option<&str>) -> (r: Result<
    String,
    Error,
>)
    ensures
        text_result(r) == match delete_sql(opt_str(table), opt_str(row_id)) {
            Err(e) => Err::<Seq<char>, ErrorView>(e),
            Ok(sql) => Ok(rendered(ctx.db_cli.query_command@, query_vars(*ctx, sql))),
        },
{
    let sql = match write_delete_sql(table, row_id) {
        Ok(s) => s,
        Err(e) => {
            return Err(e);
        },
    };
    Ok(render_query(ctx, sql.as_str()))
}

/// What deleting a row gave, from the output of the command that `delete_row_command`
/// wrote.
pub fn delete_row(
    ctx: &DbContext,
    table: Option<&str>,
    row_id: Option<&str>,
    output: CommandOutput,
) -> (r: Result<DbResult, Error>)
    ensures
        match delete_sql(opt_str(table), opt_str(row_id)) {
            Err(e) => r is Err && r->Err_0@ == e,
            Ok(sql) => r is Ok && reports(r->Ok_0, *ctx, output) && r->Ok_0.tables is None
                && opt_text(r->Ok_0.table) == opt_str(table) && opt_text(r->Ok_0.sql) == Some(sql),
        },
{
    let sql = match write_delete_sql(table, row_id) {
        Ok(s) => s,
        Err(e) => {
            return Err(e);
        },
    };
    let name = match table {
        Some(t) => Some(String::from_str(t)),
        None => None,
    };
    Ok(result_of(ctx, output, None, name, Some(sql)))
}

/// The query that drops a table. A table must be named.
pub open spec fn drop_sql(table: Option<Seq<char>>) -> Result<Seq<char>, ErrorView> {
    match table {
        None => Err(table_required()),
        Some(t) => Ok("DROP TABLE "@ + t),
    }
}

/// The command that drops a table.
pub fn drop_table_command(ctx: &DbContext, table: Option<&str>) -> (r: Result<String, Error>)
    ensures
        text_result(r) == match drop_sql(opt_str(table)) {
            Err(e) => Err::<Seq<char>, ErrorView>(e),
            Ok(sql) => Ok(rendered(ctx.db_cli.query_command@, query_vars(*ctx, sql))),
        },
{
    let table = match table {
        Some(t) => t,
        None => {
            return Err(Error::Config { message: String::from_str("Table name required") });
        },
    };
    let sql = concat("DROP TABLE ", table);
    Ok(render_query(ctx, sql.as_str()))
}

/// What dropping a table gave, from the output of the command that `drop_table_command`
/// wrote.
pub fn drop_table(ctx: &DbContext, table: Option<&str>, output: CommandOutput) -> (r: Result<
    DbResult,
    Error,
>)
    ensures
        match drop_sql(opt_str(table)) {
            Err(e) => r is Err && r->Err_0@ == e,
            Ok(sql) => r is Ok && reports(r->Ok_0, *ctx, output) && r->Ok_0.tables is None
                && opt_text(r->Ok_0.table) == opt_str(table) && opt_text(r->Ok_0.sql) == Some(sql),
        },
{
    let table = match table {
        Some(t) => t,
        None => {
            return Err(Error::Config { message: String::from_str("Table name required") });
        },
    };
    let sql = concat("DROP TABLE ", table);
    Ok(result_of(ctx, output, None, Some(String::from_str(table)), Some(sql)))
}

/// Whether a tunnel ended well: it closed by itself, or it was interrupted at the keyboard.
pub open spec fn tunnel_succeeded(exit_code: i32) -> bool {
    exit_code == 0 || exit_code == 130
}

/// The host of the database: `127.0.0.1` where the project names none.
pub open spec fn tunnel_host(host: Seq<char>) -> Seq<char> {
    if host.len() == 0 {
        "127.0.0.1"@
    } else {
        host
    }
}

/// The ends of a tunnel to the database of a project: the local port is 33306 where none is
/// asked for.
pub fn tunnel_info(
    host: &str,
    remote_port: u16,
    database: &str,
    user: &str,
    local_port: Option<u16>,
) -> (r: DbTunnelInfo)
    ensures
        r.local_port == match local_port {
            Some(p) => p,
            None => 33306u16,
        },
        r.remote_host@ == tunnel_host(host@),
        r.remote_port == remote_port,
        r.database@ == database@,
        r.user@ == user@,
{
    let remote_host = if host.unicode_len() == 0 {
        String::from_str("127.0.0.1")
    } else {
        String::from_str(host)
    };
    let bind_port = match local_port {
        Some(p) => p,
        None => 33306,
    };
    DbTunnelInfo {
        local_port: bind_port,
        remote_host,
        remote_port,
        database: String::from_str(database),
        user: String::from_str(user),
    }
}

/// The forwarding that `ssh` is asked for: the local port, the host and its port.
pub fn tunnel_forward(info: &DbTunnelInfo) -> (r: String)
    ensures
        r@ == decimal(info.local_port as nat) + ":"@ + info.remote_host@ + ":"@ + decimal(
            info.remote_port as nat,
        ),
{
    let mut out = concat3(
        crate::numbers::format_u16(info.local_port).as_str(),
        ":",
        info.remote_host.as_str(),
    );
    out.append(":");
    out.append(crate::numbers::format_u16(info.remote_port).as_str());
    out
}

/// The arguments of `ssh` that open the tunnel: no command is run, and the local port is
/// forwarded to the database.
pub fn create_tunnel_command(client: &SshClient, info: &DbTunnelInfo) -> (r: Vec<String>)
    ensures
        texts(r@) == client.identity_args() + client.port_args("-p"@) + seq![
            "-N"@,
            "-L"@,
            decimal(info.local_port as nat) + ":"@ + info.remote_host@ + ":"@ + decimal(
                info.remote_port as nat,
            ),
            client.destination(),
        ],
{
    let mut args = client.connection_args("-p");
    let ghost head = texts(args@);
    args.push(String::from_str("-N"));
    args.push(String::from_str("-L"));
    args.push(tunnel_forward(info));
    let mut destination = concat(client.user.as_str(), "@");
    destination.append(client.host.as_str());
    args.push(destination);
    assert(texts(args@) =~= head + seq![
        "-N"@,
        "-L"@,
        decimal(info.local_port as nat) + ":"@ + info.remote_host@ + ":"@ + decimal(
            info.remote_port as nat,
        ),
        client.destination(),
    ]);
    args
}

/// How a tunnel ended: well where `ssh` ended with 0, or with 130 as it does where it is
/// interrupted.
pub fn create_tunnel(
    project_id: &str,
    base_path: Option<String>,
    domain: &str,
    exit_code: i32,
    tunnel: DbTunnelInfo,
) -> (r: DbTunnelResult)
    ensures
        r.project_id@ == project_id@,
        r.base_path == base_path,
        opt_text(r.domain) == Some(domain@),
        r.exit_code == exit_code,
        r.success == tunnel_succeeded(exit_code),
        r.tunnel == tunnel,
{
    DbTunnelResult {
        project_id: String::from_str(project_id),
        base_path,
        domain: Some(String::from_str(domain)),
        exit_code,
        success: exit_code == 0 || exit_code == 130,
        tunnel,
    }
}

} // verus!
