use okane::utility::ConfigResolver;

#[derive(Debug)]
struct TestStruct {
    int_field: i32,
    str_field: &'static str,
}

impl TestStruct {
    fn str_opt(&self) -> Option<&'static str> {
        if self.str_field.is_empty() {
            None
        } else {
            Some(self.str_field)
        }
    }
}

fn input() -> ConfigResolver<TestStruct> {
    ConfigResolver::new(
        TestStruct { int_field: 1, str_field: "base" },
        vec![
            ("key1".to_string(), TestStruct { int_field: 0, str_field: "" }),
            ("key2".to_string(), TestStruct { int_field: 2, str_field: "non-empty" }),
        ],
    )
}

#[test]
fn get_returns_base_value_if_no_overrides() {
    assert_eq!(1, input().get("not_existing", |x: &TestStruct| x.int_field));
}

#[test]
fn get_returns_override_value_if_key_exists() {
    assert_eq!(2, input().get("key2", |x: &TestStruct| x.int_field));
}

#[test]
fn get_opt_returns_base_value_if_no_overrides() {
    assert_eq!(Some("base"), input().get_opt("not_existing", TestStruct::str_opt));
}

#[test]
fn get_opt_returns_base_value_if_overrides_returns_none() {
    assert_eq!(Some("base"), input().get_opt("key1", TestStruct::str_opt));
}

#[test]
fn get_opt_returns_override_value() {
    assert_eq!(Some("non-empty"), input().get_opt("key2", TestStruct::str_opt));
}

#[test]
fn get_uses_the_last_override_of_a_key() {
    let r = ConfigResolver::new(
        TestStruct { int_field: 1, str_field: "base" },
        vec![
            ("k".to_string(), TestStruct { int_field: 5, str_field: "" }),
            ("k".to_string(), TestStruct { int_field: 7, str_field: "" }),
        ],
    );
    assert_eq!(7, r.get("k", |x: &TestStruct| x.int_field));
}
