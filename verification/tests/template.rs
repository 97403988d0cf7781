use pyexc::inherit::{get_default_inherit_spec, get_inherit_spec, split_dots};
use pyexc::names::arg_name;
use pyexc::template::{scan_template, Placeholder};

#[test]
fn scans_implicit_placeholders() {
    let ps = scan_template("a {} b {} c").unwrap();
    assert_eq!(ps, vec![Placeholder::Implicit, Placeholder::Implicit]);
}

#[test]
fn escaped_braces_are_literal_text() {
    let ps = scan_template("{{}} and }}{{").unwrap();
    assert_eq!(ps, Vec::<Placeholder>::new());
}

#[test]
fn classifies_named_positional_and_formatted_placeholders() {
    let ps = scan_template("a{x}b{007}c{:?}d{width:>8}").unwrap();
    assert_eq!(
        ps,
        vec![
            Placeholder::Named("x".to_string()),
            Placeholder::Positional("007".to_string()),
            Placeholder::Implicit,
            Placeholder::Named("width".to_string()),
        ]
    );
}

#[test]
fn stray_close_brace_fails_the_scan() {
    assert_eq!(scan_template("oh } no"), None);
}

#[test]
fn unterminated_placeholder_fails_the_scan() {
    assert_eq!(scan_template("tail {"), None);
    assert_eq!(scan_template("tail {name"), None);
}

#[test]
fn open_brace_inside_placeholder_fails_the_scan() {
    assert_eq!(scan_template("{na{me}"), None);
}

#[test]
fn garbage_argument_part_fails_the_scan() {
    assert_eq!(scan_template("{a b}"), None);
    assert_eq!(scan_template("{1x}"), None);
}

#[test]
fn splits_on_every_dot() {
    assert_eq!(split_dots("a.b"), vec!["a".to_string(), "b".to_string()]);
    assert_eq!(
        split_dots("a..b"),
        vec!["a".to_string(), "".to_string(), "b".to_string()]
    );
    assert_eq!(split_dots(""), vec!["".to_string()]);
    assert_eq!(split_dots("nodots"), vec!["nodots".to_string()]);
    assert_eq!(split_dots("end."), vec!["end".to_string(), "".to_string()]);
}

#[test]
fn arg_names_render_their_index_in_decimal() {
    assert_eq!(arg_name(0), "arg0");
    assert_eq!(arg_name(7), "arg7");
    assert_eq!(arg_name(12), "arg12");
    assert_eq!(arg_name(105), "arg105");
}

#[test]
fn default_inheritance_is_the_runtime_root_exception() {
    let inh = get_default_inherit_spec();
    assert_eq!(inh.module, None);
    assert_eq!(inh.exception, "PyException");
}

#[test]
fn explicit_inheritance_names_module_then_exception() {
    let parts = vec!["somemodule".to_string(), "SomeException".to_string()];
    let inh = get_inherit_spec(&parts);
    assert_eq!(inh.module, Some("somemodule".to_string()));
    assert_eq!(inh.exception, "SomeException");
}
