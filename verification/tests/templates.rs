use shakey::templates::engine::Templates;
use shakey::templates::parsed::{BorrowedEnv, Parsed, TemplateError};
use shakey::templates::variant::Variant;
use shakey::templates::verify::{verify_response, ResponseRegistry, RegisterError, VerifyError};

fn b(s: &str) -> Vec<u8> {
    s.as_bytes().to_vec()
}

#[test]
fn parse_finds_keys() {
    let p = Parsed::parse(b"hi ${name}").expect("template should parse");
    assert_eq!(p.keys, vec![b("name")]);
}

#[test]
fn apply_substitutes_bound_names() {
    let p = Parsed::parse(b"hi ${name}").expect("template should parse");
    let env = BorrowedEnv::new_empty().insert(b("name"), b("world"));
    assert_eq!(p.apply(&env), b("hi world"));
}

#[test]
fn apply_leaves_unbound_names_literal() {
    let p = Parsed::parse(b"hi ${name}").expect("template should parse");
    let env = BorrowedEnv::new_empty();
    assert_eq!(p.apply(&env), b("hi ${name}"));
}

#[test]
fn later_env_binding_shadows_earlier() {
    let p = Parsed::parse(b"${x}").expect("template should parse");
    let env = BorrowedEnv::new_empty().insert(b("x"), b("one")).insert(b("x"), b("two"));
    assert_eq!(p.apply(&env), b("two"));
}

#[test]
fn nested_template_fails_to_parse() {
    match Parsed::parse(b"${a${b}}") {
        Err(TemplateError::Nested) => {}
        _ => panic!("expected a nested-template error"),
    }
}

#[test]
fn unterminated_template_fails_to_parse() {
    match Parsed::parse(b"oops ${a") {
        Err(TemplateError::Unterminated) => {}
        _ => panic!("expected an unterminated error"),
    }
}

#[test]
fn empty_placeholder_fails_to_parse() {
    match Parsed::parse(b"${}") {
        Err(TemplateError::Empty) => {}
        _ => panic!("expected an empty-placeholder error"),
    }
}

fn one_template(text: &str) -> Templates {
    let mut t = Templates::new_empty();
    let p = Parsed::parse(text.as_bytes()).expect("template should parse");
    assert!(t.add(b("m"), b("k"), Variant::Default, p));
    t
}

#[test]
fn verification_names_the_unknown_key() {
    let t = one_template("${x} and ${z}");
    let fields = vec![b("x"), b("y")];
    match verify_response(&t, b"m", b"k", &fields) {
        Err(VerifyError::MissingVariantKeys { variant, missing }) => {
            assert!(matches!(variant, Variant::Default));
            assert_eq!(missing, vec![b("z")]);
        }
        _ => panic!("expected the verification to name z"),
    }
}

#[test]
fn verification_accepts_subset() {
    let t = one_template("${x}");
    let fields = vec![b("x"), b("y")];
    assert!(verify_response(&t, b"m", b"k", &fields).is_ok());
}

#[test]
fn verification_rejects_zero_fields() {
    let t = one_template("${x}");
    let fields: Vec<Vec<u8>> = vec![];
    assert!(matches!(
        verify_response(&t, b"m", b"k", &fields),
        Err(VerifyError::NoFields)
    ));
}

#[test]
fn verification_rejects_missing_templates() {
    let t = one_template("${x}");
    let fields = vec![b("x")];
    assert!(matches!(
        verify_response(&t, b"other", b"k", &fields),
        Err(VerifyError::NoTemplates)
    ));
}

#[test]
fn registry_rejects_double_registration() {
    let t = one_template("${x}");
    let fields = vec![b("x")];
    let mut reg = ResponseRegistry::new_empty();
    assert!(reg.add_to_registry(&t, b("m"), b("k"), &fields).is_ok());
    assert!(matches!(
        reg.add_to_registry(&t, b("m"), b("k"), &fields),
        Err(RegisterError::AlreadyExists)
    ));
    reg.reset_registry();
    assert!(reg.add_to_registry(&t, b("m"), b("k"), &fields).is_ok());
}

#[test]
fn render_falls_back_to_default_variant() {
    let t = one_template("plain ${x}");
    let env = BorrowedEnv::new_empty().insert(b("x"), b("1"));
    let out = t.render(b"m", b"k", Variant::Discord, &env);
    assert_eq!(out, Some(b("plain 1")));
    assert_eq!(t.render(b"m", b"other", Variant::Default, &env), None);
}

#[test]
fn variants_for_lists_the_filed_variants() {
    let mut t = Templates::new_empty();
    let p1 = Parsed::parse(b"a").unwrap();
    let p2 = Parsed::parse(b"b").unwrap();
    assert!(t.add(b("m"), b("k"), Variant::Default, p1));
    assert!(t.add(b("m"), b("k"), Variant::Discord, p2));
    let vs = t.variants_for(b"m", b"k").expect("group should exist");
    assert_eq!(vs.len(), 2);
    assert!(matches!(vs[0], Variant::Default));
    assert!(matches!(vs[1], Variant::Discord));
    assert!(t.variants_for(b"m", b"nope").is_none());
    let p3 = Parsed::parse(b"c").unwrap();
    assert!(!t.add(b("m"), b("k"), Variant::Default, p3));
}
