use zbus::utils::{
    can_find_attribute_meta, can_parse_attribute, can_parse_item_attribute,
    can_parse_item_attributes, find_attribute_meta, get_doc_attrs, parse_attribute,
    parse_item_attribute, parse_item_attributes, pascal_case, str_eq, Attribute, ItemAttribute,
    Lit, Meta, MetaList, MetaNameValue, NestedMeta, ParseError, Path,
};

fn ident(name: &str) -> Path {
    Path { ident: Some(name.to_string()) }
}

fn name_value(name: &str, value: &str) -> NestedMeta {
    NestedMeta::Meta(Meta::NameValue(MetaNameValue {
        path: ident(name),
        lit: Lit::Str(value.to_string()),
    }))
}

fn word(name: &str) -> NestedMeta {
    NestedMeta::Meta(Meta::Path(ident(name)))
}

fn list_attr(name: &str, nested: Vec<NestedMeta>) -> Attribute {
    Attribute { path: ident(name), meta: Ok(Meta::List(MetaList { path: ident(name), nested })) }
}

fn doc_attr(text: &str) -> Attribute {
    Attribute {
        path: ident("doc"),
        meta: Ok(Meta::NameValue(MetaNameValue {
            path: ident("doc"),
            lit: Lit::Str(text.to_string()),
        })),
    }
}

#[test]
fn pascal_case_drops_underscores_and_capitalizes() {
    assert_eq!(pascal_case("snake_case"), "SnakeCase");
    assert_eq!(pascal_case("get_machine_id"), "GetMachineId");
    assert_eq!(pascal_case("__a__b_"), "AB");
    assert_eq!(pascal_case("already"), "Already");
    assert_eq!(pascal_case("mIxEd_cASE"), "MIxEdCASE");
    assert_eq!(pascal_case("x_9_é"), "X9é");
    assert_eq!(pascal_case(""), "");
    assert_eq!(pascal_case("_"), "");
}

#[test]
fn is_property_tells_the_variants_apart() {
    assert!(ItemAttribute::Property.is_property());
    assert!(!ItemAttribute::Name("n".to_string()).is_property());
}

#[test]
fn texts_compare_by_their_characters() {
    assert!(str_eq("name", "name"));
    assert!(!str_eq("name", "names"));
    assert!(!str_eq("é", "e"));
    assert!(str_eq("", ""));
}

#[test]
fn doc_attributes_are_selected_in_order() {
    let attrs = vec![
        doc_attr("first"),
        list_attr("dbus_proxy", vec![word("property")]),
        doc_attr("second"),
        Attribute { path: Path { ident: None }, meta: Ok(Meta::Path(Path { ident: None })) },
    ];
    let docs = get_doc_attrs(&attrs);
    assert_eq!(docs.len(), 2);
    assert!(std::ptr::eq(docs[0], &attrs[0]));
    assert!(std::ptr::eq(docs[1], &attrs[2]));
    assert!(get_doc_attrs(&[]).is_empty());
}

#[test]
fn the_first_attribute_of_the_name_is_found() {
    let attrs = vec![
        doc_attr("first"),
        list_attr("dbus_proxy", vec![word("property")]),
        list_attr("dbus_proxy", vec![]),
    ];
    assert!(can_find_attribute_meta(&attrs, "dbus_proxy"));
    let found = find_attribute_meta(&attrs, "dbus_proxy").unwrap().unwrap();
    assert_eq!(found.nested.len(), 1);
    assert!(find_attribute_meta(&attrs, "other").unwrap().is_none());
    assert!(!can_find_attribute_meta(&attrs, "doc"));
}

#[test]
fn a_failure_to_parse_is_handed_on() {
    let attrs = vec![Attribute {
        path: ident("dbus_proxy"),
        meta: Err(ParseError { message: "expected literal".to_string() }),
    }];
    assert!(can_find_attribute_meta(&attrs, "dbus_proxy"));
    assert_eq!(
        find_attribute_meta(&attrs, "dbus_proxy").unwrap_err(),
        &ParseError { message: "expected literal".to_string() }
    );
    assert!(can_parse_item_attributes(&attrs));
    assert_eq!(
        parse_item_attributes(&attrs),
        Err(ParseError { message: "expected literal".to_string() })
    );
}

#[test]
fn a_meta_item_gives_name_and_value() {
    assert_eq!(
        parse_attribute(&name_value("name", "MyName")),
        Ok(("name".to_string(), "MyName".to_string()))
    );
    assert_eq!(parse_attribute(&word("property")), Ok(("property".to_string(), String::new())));
    assert!(can_parse_attribute(&word("anything")));
    assert!(!can_parse_attribute(&NestedMeta::Lit(Lit::Str("x".to_string()))));
    assert!(!can_parse_attribute(&NestedMeta::Meta(Meta::Path(Path { ident: None }))));
    assert!(!can_parse_attribute(&NestedMeta::Meta(Meta::NameValue(MetaNameValue {
        path: ident("name"),
        lit: Lit::Other,
    }))));
    assert!(!can_parse_attribute(&NestedMeta::Meta(Meta::List(MetaList {
        path: ident("name"),
        nested: vec![],
    }))));
}

#[test]
fn item_attributes_are_name_and_property() {
    assert_eq!(
        parse_item_attribute(&name_value("name", "MyName")),
        Ok(ItemAttribute::Name("MyName".to_string()))
    );
    assert_eq!(parse_item_attribute(&word("property")), Ok(ItemAttribute::Property));
    assert_eq!(parse_item_attribute(&word("name")), Ok(ItemAttribute::Name(String::new())));
    assert!(can_parse_item_attribute(&name_value("property", "ignored")));
    assert!(!can_parse_item_attribute(&word("signal")));
    assert!(!can_parse_item_attribute(&NestedMeta::Lit(Lit::Other)));
}

#[test]
fn the_attributes_of_an_item_are_read_from_its_list() {
    let attrs = vec![
        doc_attr("A property."),
        list_attr("dbus_proxy", vec![name_value("name", "MyName"), word("property")]),
    ];
    assert!(can_parse_item_attributes(&attrs));
    assert_eq!(
        parse_item_attributes(&attrs),
        Ok(vec![ItemAttribute::Name("MyName".to_string()), ItemAttribute::Property])
    );
    assert_eq!(parse_item_attributes(&[doc_attr("none")]), Ok(vec![]));
    let odd = vec![list_attr("dbus_proxy", vec![word("property"), word("signal")])];
    assert!(!can_parse_item_attributes(&odd));
}
