use xbatis2sql::dialect::Dialect;
use xbatis2sql::extract::{detect_match, extract, parse, push_file_lines, render_script, SqlStatement};
use xbatis2sql::dialect::Mode;
use xbatis2sql::normalize::{normalize, rules};

#[test]
fn where_and_is_repaired() {
    assert_eq!(normalize(Dialect::MyBatis, "WHERE AND x = 1"), "WHERE x = 1");
    assert_eq!(normalize(Dialect::IBatis, "WHERE AND x = 1"), "WHERE X = 1");
    assert_eq!(normalize(Dialect::MyBatis, "WHERE OR x = 1"), "WHERE x = 1");
}

#[test]
fn comma_before_where_is_repaired() {
    assert_eq!(normalize(Dialect::MyBatis, "a, WHERE b = 1"), "a WHERE b = 1");
    assert_eq!(normalize(Dialect::MyBatis, "update t set a = 1,"), "update t set a = 1");
}

#[test]
fn bind_parameters_become_markers() {
    assert_eq!(normalize(Dialect::IBatis, "select * from t where id = #id#"), "SELECT * FROM T WHERE ID = :?");
    assert_eq!(normalize(Dialect::IBatis, "where a = $a$"), "WHERE A = :?");
    assert_eq!(normalize(Dialect::MyBatis, "select * from t where id = #{id}"), "select * from t where id = :?");
}

#[test]
fn schema_substitution_becomes_placeholder() {
    assert_eq!(normalize(Dialect::MyBatis, "select * from ${schema}.t"), "select * from __REPLACE_SCHEMA__.t");
}

#[test]
fn comments_and_whitespace() {
    assert_eq!(normalize(Dialect::MyBatis, "  select 1 -- note\n\t from   t \n"), "select 1 from t");
}

#[test]
fn normalizing_twice_changes_nothing() {
    for d in [Dialect::IBatis, Dialect::MyBatis] {
        for s in ["select a, b\n from t where and x = #x# and y = #{y}", "  WHERE OR q = 1 ,", "a,, ,", ", where x", "x -- y"] {
            let once = normalize(d, s);
            assert_eq!(normalize(d, &once), once);
        }
    }
}

#[test]
fn dialect_rule_tables_differ() {
    assert_eq!(rules(Dialect::IBatis).len(), 10);
    assert_eq!(rules(Dialect::MyBatis).len(), 9);
}

#[test]
fn signature_detection() {
    let mybatis = "<!DOCTYPE mapper PUBLIC \"-//mybatis.org//DTD Mapper 3.0//EN\" \"x\">";
    let ibatis = "<!DOCTYPE sqlMap PUBLIC \"-//ibatis.apache.org//DTD SQL Map 2.0//EN\" \"x\">";
    assert!(detect_match(Dialect::MyBatis, mybatis));
    assert!(!detect_match(Dialect::IBatis, mybatis));
    assert!(detect_match(Dialect::IBatis, ibatis));
    assert!(!detect_match(Dialect::MyBatis, ""));
}

const MYBATIS_DOC: &str = "<?xml version=\"1.0\" encoding=\"UTF-8\"?>
<!DOCTYPE mapper PUBLIC \"-//mybatis.org//DTD Mapper 3.0//EN\" \"http://mybatis.org/dtd/mybatis-3-mapper.dtd\">
<mapper namespace=\"m\">
  <select id=\"one\">SELECT 1</select>
  <select id=\"two\">SELECT <include refid=\"cols\"/> FROM t WHERE id = #{id}</select>
  <sql id=\"cols\">c1, c2</sql>
</mapper>";

#[test]
fn end_to_end_forward_reference() {
    let out = extract(Dialect::MyBatis, MYBATIS_DOC);
    assert_eq!(out.len(), 2);
    assert_eq!(out[0].id, "one");
    assert_eq!(out[0].sql, "SELECT 1");
    assert_eq!(out[1].id, "two");
    assert_eq!(out[1].mode, Mode::Select);
    assert_eq!(out[1].sql, "SELECT c1, c2 FROM t WHERE id = :?");
}

#[test]
fn malformed_document_keeps_partial_result() {
    let doc = "<mapper><select id=\"a\">SELECT 1</select><select id=\"b\">SELECT 2</mapper>";
    let out = extract(Dialect::MyBatis, doc);
    assert_eq!(out.len(), 1);
    assert_eq!(out[0].sql, "SELECT 1");
}

#[test]
fn script_lines_per_dialect() {
    let stmts = vec![SqlStatement::new(Mode::Select, "q".to_string(), "SELECT 1".to_string())];
    let mut lines: Vec<String> = Vec::new();
    push_file_lines(Dialect::IBatis, "a.xml", &stmts, &mut lines);
    assert_eq!(lines, vec!["-- a.xml", "--- q", "SELECT 1;", ""]);
    let mut lines: Vec<String> = Vec::new();
    push_file_lines(Dialect::MyBatis, "b.xml", &stmts, &mut lines);
    assert_eq!(lines, vec!["-- b.xml", "SELECT 1;", ""]);
    assert_eq!(render_script(&lines), "-- b.xml\nSELECT 1;\n\n");
}

#[test]
fn batch_script_skips_other_dialects() {
    let docs = vec![
        ("m.xml".to_string(), MYBATIS_DOC.to_string()),
        ("other.xml".to_string(), "<beans/>".to_string()),
    ];
    assert_eq!(
        parse(Dialect::MyBatis, &docs),
        "-- m.xml\nSELECT 1;\nSELECT c1, c2 FROM t WHERE id = :?;\n\n"
    );
    assert_eq!(parse(Dialect::IBatis, &docs), "");
}
