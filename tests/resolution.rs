use ssm_env::args::Args;
use ssm_env::environment::{child_environment, exit_code};
use ssm_env::export::{Export, ExportError};
use ssm_env::rename::renamed;
use ssm_env::resolve::{
    filter_export, filter_export_path, path_prefix, resolve_named, resolve_path, StoreParameter,
};
use ssm_env::text::{ends_with_char, find_char, split_once_char, strip_prefix};

fn s(x: &str) -> String {
    x.to_string()
}

fn param(name: &str, value: &str) -> StoreParameter {
    StoreParameter { name: Some(s(name)), value: Some(s(value)) }
}

fn pair(a: &str, b: &str) -> (String, String) {
    (s(a), s(b))
}

fn args(param: Vec<Export>, export: Vec<Export>, export_path: Vec<String>) -> Args {
    Args {
        no_decrypt: false,
        ignore: false,
        param,
        export,
        export_path,
        utility: s("env"),
        arguments: vec![],
    }
}

fn exp(x: &str) -> Export {
    Export::from_str(x).unwrap()
}

fn par(x: &str) -> Export {
    Export::from_param_str(x).unwrap()
}

fn lookup<'a>(env: &'a [(String, String)], name: &str) -> Option<&'a str> {
    env.iter().find(|(k, _)| k == name).map(|(_, v)| v.as_str())
}

#[test]
fn find_char_first_occurrence() {
    assert_eq!(find_char("a=b=c", '='), Some(1));
    assert_eq!(find_char("abc", '='), None);
    assert_eq!(find_char("", '='), None);
    assert_eq!(find_char("é=x", '='), Some(1));
}

#[test]
fn split_once_char_splits_at_first() {
    assert_eq!(split_once_char("a=b=c", '='), Some((s("a"), s("b=c"))));
    assert_eq!(split_once_char("=", '='), Some((s(""), s(""))));
    assert_eq!(split_once_char("abc", '='), None);
}

#[test]
fn ends_with_and_strip_prefix() {
    assert!(ends_with_char("/app/", '/'));
    assert!(!ends_with_char("/app", '/'));
    assert!(!ends_with_char("", '/'));
    assert_eq!(strip_prefix("/app/db/host", "/app/"), Some(s("db/host")));
    assert_eq!(strip_prefix("/other/x", "/app/"), None);
    assert_eq!(strip_prefix("/ap", "/app/"), None);
    assert_eq!(strip_prefix("abc", ""), Some(s("abc")));
}

#[test]
fn export_without_source() {
    let e = exp("DB_HOST");
    assert_eq!(e.env, "DB_HOST");
    assert_eq!(e.param, None);
    assert_eq!(e.store_key(), "DB_HOST");
}

#[test]
fn export_with_source() {
    let e = exp("HOST=/app/db/host");
    assert_eq!(e.env, "HOST");
    assert_eq!(e.param, Some(s("/app/db/host")));
    assert_eq!(e.store_key(), "/app/db/host");
    let e = exp("A=b=c");
    assert_eq!(e.env, "A");
    assert_eq!(e.param, Some(s("b=c")));
}

#[test]
fn param_with_alias() {
    let e = par("DB_HOST:HOST");
    assert_eq!(e.env, "HOST");
    assert_eq!(e.param, Some(s("DB_HOST")));
    assert_eq!(e.store_key(), "DB_HOST");
    let e = par("DB_HOST");
    assert_eq!(e.env, "DB_HOST");
    assert_eq!(e.param, None);
}

#[test]
fn export_errors() {
    assert_eq!(Export::from_str("").unwrap_err(), ExportError::EmptyName);
    assert_eq!(Export::from_str("=KEY").unwrap_err(), ExportError::EmptyName);
    assert_eq!(Export::from_param_str("KEY:").unwrap_err(), ExportError::EmptyName);
    assert_eq!(Export::from_param_str("").unwrap_err(), ExportError::EmptyName);
}

#[test]
fn empty_store_key_accepted() {
    let e = exp("ENV=");
    assert_eq!(e.env, "ENV");
    assert_eq!(e.param, Some(s("")));
    assert_eq!(e.store_key(), "");
    let e = par(":ENV");
    assert_eq!(e.env, "ENV");
    assert_eq!(e.param, Some(s("")));
}

#[test]
fn empty_store_key_not_requested() {
    let a = args(vec![par(":ENV")], vec![exp("X="), exp("A")], vec![]);
    assert_eq!(a.parameter_names(), vec![s("A")]);
    assert!(!a.needs_enumeration());
    let only_empty = args(vec![], vec![exp("X=")], vec![]);
    assert!(only_empty.parameter_names().is_empty());
}

#[test]
fn parameter_names_deduplicated_in_order() {
    let a = args(vec![par("B"), par("A:X")], vec![exp("Y=B"), exp("C"), exp("A")], vec![]);
    assert_eq!(a.parameter_names(), vec![s("B"), s("A"), s("C")]);
}

#[test]
fn export_names_only_aliased() {
    let a = args(vec![par("B"), par("A:X")], vec![exp("Y=B"), exp("C")], vec![]);
    assert_eq!(a.export_names(), vec![pair("A", "X"), pair("B", "Y")]);
}

#[test]
fn renamed_last_entry_wins() {
    let table = vec![pair("K", "A"), pair("L", "B"), pair("K", "C")];
    assert_eq!(renamed(&table, &s("K")), "C");
    assert_eq!(renamed(&table, &s("L")), "B");
    assert_eq!(renamed(&table, &s("M")), "M");
}

#[test]
fn unaliased_export_keeps_store_key() {
    let a = args(vec![], vec![exp("DB_HOST")], vec![]);
    let out = resolve_named(&vec![param("DB_HOST", "h")], &a.export_names());
    assert_eq!(out, vec![pair("DB_HOST", "h")]);
}

#[test]
fn aliased_export_uses_alias() {
    let a = args(vec![par("/x/y/z:SHORT")], vec![exp("OTHER=/p")], vec![]);
    let table = a.export_names();
    let out = resolve_named(&vec![param("/x/y/z", "1"), param("/p", "2")], &table);
    assert_eq!(out, vec![pair("SHORT", "1"), pair("OTHER", "2")]);
}

#[test]
fn filter_export_drops_incomplete() {
    let table = vec![pair("K", "V")];
    let no_value = StoreParameter { name: Some(s("K")), value: None };
    let no_name = StoreParameter { name: None, value: Some(s("x")) };
    assert_eq!(filter_export(&no_value, &table), None);
    assert_eq!(filter_export(&no_name, &table), None);
    assert_eq!(filter_export(&param("K", "x"), &table), Some(pair("V", "x")));
}

#[test]
fn path_with_trailing_separator() {
    assert_eq!(
        filter_export_path(&param("/app/db/host", "h"), "/app/"),
        Some(pair("db/host", "h"))
    );
}

#[test]
fn path_without_trailing_separator() {
    assert_eq!(path_prefix("/app"), "/app/");
    assert_eq!(path_prefix("/app/"), "/app/");
    assert_eq!(
        filter_export_path(&param("/app/db/host", "h"), "/app"),
        Some(pair("db/host", "h"))
    );
}

#[test]
fn path_key_outside_prefix_kept_whole() {
    assert_eq!(
        filter_export_path(&param("/application/x", "v"), "/app"),
        Some(pair("/application/x", "v"))
    );
    let no_value = StoreParameter { name: Some(s("/app/x")), value: None };
    assert_eq!(filter_export_path(&no_value, "/app"), None);
}

#[test]
fn resolve_path_keeps_order() {
    let ps = vec![
        param("/app/a", "1"),
        StoreParameter { name: None, value: Some(s("z")) },
        param("/app/b/c", "2"),
    ];
    assert_eq!(resolve_path(&ps, "/app"), vec![pair("a", "1"), pair("b/c", "2")]);
}

#[test]
fn missing_key_is_absent_not_an_error() {
    let a = args(vec![par("DB_HOST:HOST"), par("DB_USER:USER")], vec![], vec![]);
    let out = resolve_named(&vec![param("DB_HOST", "10.0.0.1")], &a.export_names());
    assert_eq!(out, vec![pair("HOST", "10.0.0.1")]);
    let env = child_environment(&vec![], true, &out);
    assert_eq!(lookup(&env, "USER"), None);
}

#[test]
fn ignore_clears_inherited() {
    let inherited = vec![pair("PATH", "/bin"), pair("HOME", "/root")];
    let resolved = vec![pair("HOME", "/srv"), pair("DB", "x")];
    let env = child_environment(&inherited, true, &resolved);
    assert_eq!(env.len(), 2);
    assert_eq!(lookup(&env, "PATH"), None);
    assert_eq!(lookup(&env, "HOME"), Some("/srv"));
    assert_eq!(lookup(&env, "DB"), Some("x"));
}

#[test]
fn inherited_kept_and_overridden() {
    let inherited = vec![pair("PATH", "/bin"), pair("HOME", "/root")];
    let resolved = vec![pair("HOME", "/srv"), pair("DB", "x"), pair("DB", "y")];
    let env = child_environment(&inherited, false, &resolved);
    assert_eq!(env.len(), 3);
    assert_eq!(lookup(&env, "PATH"), Some("/bin"));
    assert_eq!(lookup(&env, "HOME"), Some("/srv"));
    assert_eq!(lookup(&env, "DB"), Some("y"));
}

#[test]
fn end_to_end_param_alias() {
    let a = args(vec![par("DB_HOST:HOST")], vec![], vec![]);
    assert!(!a.needs_enumeration());
    assert_eq!(a.parameter_names(), vec![s("DB_HOST")]);
    let resolved = resolve_named(&vec![param("DB_HOST", "10.0.0.1")], &a.export_names());
    let env = child_environment(&vec![pair("PATH", "/bin")], a.ignore, &resolved);
    assert_eq!(lookup(&env, "HOST"), Some("10.0.0.1"));
    assert_eq!(lookup(&env, "PATH"), Some("/bin"));
    assert_eq!(exit_code(Some(0)), 0);
}

#[test]
fn no_flags_enumerates() {
    let a = args(vec![], vec![], vec![]);
    assert!(a.needs_enumeration());
    assert!(a.parameter_names().is_empty());
    assert!(a.export_names().is_empty());
    let b = args(vec![], vec![], vec![s("/app")]);
    assert!(!b.needs_enumeration());
    let c = args(vec![], vec![exp("X")], vec![]);
    assert!(!c.needs_enumeration());
}

#[test]
fn decryption_flag() {
    let mut a = args(vec![], vec![], vec![]);
    assert!(a.with_decryption());
    a.no_decrypt = true;
    assert!(!a.with_decryption());
}

#[test]
fn exit_code_propagation() {
    assert_eq!(exit_code(Some(7)), 7);
    assert_eq!(exit_code(Some(0)), 0);
    assert_eq!(exit_code(Some(255)), 255);
    assert_eq!(exit_code(None), 1);
    assert_eq!(exit_code(Some(256)), 1);
    assert_eq!(exit_code(Some(-1)), 1);
}
