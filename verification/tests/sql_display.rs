use saya_cli::json::Json;
use saya_cli::sql_format::{collapse_whitespace, dollar_quote_tag_at, format_sql, keyword_at};
use saya_cli::tool_calls::{sql_tool_call, tool_call_detail};

fn text(s: &str) -> Json {
    Json::String(s.to_string())
}

fn object(members: Vec<(&str, Json)>) -> Json {
    Json::Object(members.into_iter().map(|(k, v)| (k.to_string(), v)).collect())
}

fn chars(s: &str) -> Vec<char> {
    s.chars().collect()
}

#[test]
fn format_sql_breaks_before_keywords_and_preserves_casing() {
    let raw = "select 1 from t where a=1 limit 10";
    let formatted = format_sql(raw);
    assert_eq!(formatted, "select 1\nfrom t\nwhere a=1\nlimit 10");
}

#[test]
fn format_sql_collapses_whitespace_first() {
    let raw = "SELECT   1\n  FROM   t\n\n  WHERE   a = 1";
    let formatted = format_sql(raw);
    assert_eq!(formatted, "SELECT 1\nFROM t\nWHERE a = 1");
}

#[test]
fn format_sql_handles_multibyte_utf8() {
    let raw = "select 'café' from t";
    let formatted = format_sql(raw);
    assert_eq!(formatted, "select 'café'\nfrom t");
}

#[test]
fn format_sql_preserves_quoted_keywords_and_whitespace() {
    let raw = "SELECT 'a   from b', \"order by\" FROM t";
    let formatted = format_sql(raw);
    assert_eq!(formatted, "SELECT 'a   from b', \"order by\"\nFROM t");
}

#[test]
fn format_sql_preserves_mysql_and_postgres_quoted_forms() {
    let raw = "SELECT `from  table`, $tag$where from body$tag$ FROM t";
    let formatted = format_sql(raw);
    assert_eq!(
        formatted,
        "SELECT `from  table`, $tag$where from body$tag$\nFROM t"
    );
}

#[test]
fn format_sql_preserves_keywords_inside_comments() {
    let raw = "SELECT 1 -- from the cache\nFROM t /* where ignored */ WHERE id = 1";
    let formatted = format_sql(raw);
    assert_eq!(
        formatted,
        "SELECT 1 -- from the cache\nFROM t /* where ignored */\nWHERE id = 1"
    );
}

#[test]
fn sql_tool_call_bounded_sql_query_default() {
    let args = object(vec![("sql", text("select 1"))]);
    let call = sql_tool_call("bounded_sql_query", &args).expect("should return SqlCall");
    assert_eq!(call.target, None);
    assert_eq!(call.sql, "select 1");
}

#[test]
fn sql_tool_call_bounded_sql_query_with_connection() {
    let args = object(vec![("sql", text("select 1")), ("connection", text("wh"))]);
    let call = sql_tool_call("bounded_sql_query", &args).expect("should return SqlCall");
    assert_eq!(call.target, Some("@wh".to_string()));
    assert_eq!(call.sql, "select 1");
}

#[test]
fn sql_tool_call_bounded_sql_query_all_no_connection() {
    let args = object(vec![("sql", text("select 1"))]);
    let call = sql_tool_call("bounded_sql_query_all", &args).expect("should return SqlCall");
    assert_eq!(call.target, Some("all connected databases".to_string()));
    assert_eq!(call.sql, "select 1");
}

#[test]
fn sql_tool_call_schema_discovery_returns_none() {
    let args = object(vec![("connection", text("wh"))]);
    assert!(sql_tool_call("schema_discovery", &args).is_none());
}

#[test]
fn workspace_write_completion_names_the_file_it_wrote() {
    let detail = tool_call_detail(
        "workspace_write",
        &object(vec![("path", text("notes.md")), ("content", text("hi"))]),
    )
    .expect("workspace_write detail exists");
    assert!(
        detail.contains("notes.md"),
        "workspace_write completion must name the file: got {detail:?}"
    );
}

#[test]
fn run_command_request_names_the_program() {
    let detail = tool_call_detail(
        "run_command",
        &object(vec![("program", text("pytest")), ("args", Json::Array(vec![text("-q")]))]),
    )
    .expect("run_command detail exists");
    assert!(
        detail.contains("pytest"),
        "run_command request must name the program: got {detail:?}"
    );
}

#[test]
fn an_uncovered_tool_keeps_todays_text_byte_exact() {
    assert_eq!(
        tool_call_detail("workspace_list", &object(vec![("path", text("notes"))])),
        None,
        "workspace_list must keep today's None detail"
    );
    assert_eq!(
        tool_call_detail("schema_discovery", &object(vec![])),
        None,
        "schema_discovery must keep today's None detail"
    );
}

#[test]
fn request_detail_never_carries_values_beyond_the_key_fact() {
    let write = tool_call_detail(
        "workspace_write",
        &object(vec![("path", text("notes.md")), ("content", text("SECRET-BODY"))]),
    )
    .expect("workspace_write detail exists");
    assert!(
        !write.contains("SECRET-BODY"),
        "file content must not reach the line: {write:?}"
    );
    let run = tool_call_detail(
        "run_command",
        &object(vec![
            ("program", text("pytest")),
            ("args", Json::Array(vec![text("--token"), text("SECRET-ARG")])),
        ]),
    )
    .expect("run_command detail exists");
    assert_eq!(run, "pytest", "the request detail names the program only: {run:?}");
}

#[test]
fn render_chart_tool_call_detail_surfaces_sql() {
    let detail = tool_call_detail(
        "render_chart",
        &object(vec![("sql", text("SELECT 1")), ("chart_type", text("bar"))]),
    )
    .expect("render_chart detail exists");
    assert!(detail.contains("SELECT 1"));
    assert!(detail.contains("(chart: bar)"));
}

#[test]
fn render_chart_sql_tool_call_surfaces_sql() {
    let call = sql_tool_call(
        "render_chart",
        &object(vec![("sql", text("SELECT 1")), ("chart_type", text("bar"))]),
    )
    .expect("render_chart SqlCall exists");
    assert_eq!(call.target, None);
    assert_eq!(call.sql, "SELECT 1");
}

#[test]
fn render_chart_detail_names_connection_and_chart_exactly() {
    let both = tool_call_detail(
        "render_chart",
        &object(vec![
            ("sql", text("SELECT  1")),
            ("connection", text("wh")),
            ("chart_type", text("pie")),
        ]),
    );
    assert_eq!(both.as_deref(), Some("SELECT 1  (@wh) (chart: pie)"));
    let chart_only = tool_call_detail(
        "render_chart",
        &object(vec![("sql", text("SELECT 1")), ("chart_type", text("pie"))]),
    );
    assert_eq!(chart_only.as_deref(), Some("SELECT 1  (chart: pie)"));
    let connection_only = tool_call_detail(
        "render_chart",
        &object(vec![("sql", text("SELECT 1")), ("connection", text("wh"))]),
    );
    assert_eq!(connection_only.as_deref(), Some("SELECT 1  (@wh)"));
}

#[test]
fn query_detail_names_the_target_or_all_databases() {
    assert_eq!(
        tool_call_detail(
            "bounded_sql_query",
            &object(vec![("sql", text("select\n  1")), ("connection", text("wh"))])
        )
        .as_deref(),
        Some("select 1  (@wh)")
    );
    assert_eq!(
        tool_call_detail("bounded_sql_query_all", &object(vec![("sql", text("select 1"))]))
            .as_deref(),
        Some("select 1  (all connected databases)")
    );
    assert_eq!(
        tool_call_detail("join_check", &object(vec![("sql", text("   "))])),
        None,
        "whitespace-only SQL shows nothing"
    );
    assert_eq!(
        tool_call_detail("workspace_write", &object(vec![("path", text(""))])),
        None,
        "an empty path shows nothing"
    );
}

#[test]
fn collapse_whitespace_keeps_quoted_and_commented_text() {
    assert_eq!(collapse_whitespace("  select   1  "), "select 1");
    assert_eq!(collapse_whitespace("select 'a   b'"), "select 'a   b'");
    assert_eq!(collapse_whitespace("a -- x   y\n   b"), "a -- x   y\n b");
    assert_eq!(collapse_whitespace("a /*  c  */   b"), "a /*  c  */ b");
    assert_eq!(collapse_whitespace(""), "");
}

#[test]
fn dollar_quote_tags_are_recognised_only_when_valid() {
    assert_eq!(dollar_quote_tag_at(&chars("$tag$ body"), 0), Some(5));
    assert_eq!(dollar_quote_tag_at(&chars("$$ body"), 0), Some(2));
    assert_eq!(dollar_quote_tag_at(&chars("$1$"), 0), None);
    assert_eq!(dollar_quote_tag_at(&chars("$a-b$"), 0), None);
    assert_eq!(dollar_quote_tag_at(&chars("$open"), 0), None);
}

#[test]
fn keywords_match_whole_words_after_whitespace_only() {
    let keywords: Vec<Vec<char>> = vec![chars("FROM"), chars("GROUP BY")];
    let t = chars("select a from t group by a");
    assert!(keyword_at(&t, 9, &keywords));
    assert!(keyword_at(&t, 16, &keywords));
    assert!(!keyword_at(&t, 0, &keywords));
    let glued = chars("select afrom t");
    assert!(!keyword_at(&glued, 8, &keywords));
    let prefix = chars("a fromage");
    assert!(!keyword_at(&prefix, 2, &keywords));
}

#[test]
fn formatting_never_changes_the_visible_characters() {
    let raw = "SELECT a,  b\n FROM t  JOIN u ON t.id=u.id WHERE x > 1 ORDER BY a";
    let formatted = format_sql(raw);
    let visible = |s: &str| s.chars().filter(|c| !c.is_whitespace()).collect::<String>();
    assert_eq!(visible(raw), visible(&formatted));
    assert_eq!(
        formatted,
        "SELECT a, b\nFROM t\nJOIN u ON t.id=u.id\nWHERE x > 1\nORDER BY a"
    );
}

#[test]
fn a_multi_word_keyword_gets_one_break_before_its_first_word() {
    assert_eq!(format_sql("select * from a left join b"), "select *\nfrom a\nleft join b");
    assert_eq!(format_sql("select * from a join b"), "select *\nfrom a\njoin b");
    assert_eq!(
        format_sql("SELECT x FROM a INNER JOIN b ON 1 GROUP BY x ORDER BY x"),
        "SELECT x\nFROM a\nINNER JOIN b ON 1\nGROUP BY x\nORDER BY x"
    );
}

#[test]
fn collapsing_twice_changes_nothing_more() {
    let inputs = [
        "  SELECT   a,\n\tb  FROM t  ",
        "select 'a  b'  ,  \"x  y\"  from  t -- keep  this\n  where  x = 1",
        "select $tag$ body   with  $ signs $tag$  ,  $$ x  y $$ from t",
        "select /*  spaced   comment */  1  ;  - - 2",
        "select 'it''s   fine' , `a  b` from  t",
        "$a b$  x  $bad tag$ y",
    ];
    for input in inputs {
        let once = collapse_whitespace(input);
        assert_eq!(collapse_whitespace(&once), once, "input: {input:?}");
    }
    assert_eq!(
        collapse_whitespace("select $$ a  b $$  ,  'c  d'"),
        "select $$ a  b $$ , 'c  d'"
    );
}

#[test]
fn plain_sql_collapses_to_its_words_joined_by_single_spaces() {
    let input = "  select  a,\tb \n from  t\r\n where x - y > 1 / 2  ";
    let words: Vec<&str> = input.split_whitespace().collect();
    assert_eq!(collapse_whitespace(input), words.join(" "));
    assert_eq!(collapse_whitespace(input), "select a, b from t where x - y > 1 / 2");
}
