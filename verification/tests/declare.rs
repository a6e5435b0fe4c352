use front_line::{
    Attribute, Declaration, Field, FieldKind, Leaf, Method, Payload, Prefix, Route, Schema,
    SchemaError, Value, Variant,
};

fn attribute(name: &str, argument: Option<&str>) -> Attribute {
    Attribute {
        name: name.to_owned(),
        argument: argument.map(|text| text.to_owned()),
    }
}

fn unit(name: &str, attributes: Vec<Attribute>) -> Declaration {
    Declaration {
        name: name.to_owned(),
        attributes,
        payload: Payload::Unit,
    }
}

fn named(name: &str, attributes: Vec<Attribute>, fields: Vec<(&str, FieldKind)>) -> Declaration {
    Declaration {
        name: name.to_owned(),
        attributes,
        payload: Payload::Named(
            fields
                .into_iter()
                .map(|(name, kind)| Field {
                    name: name.to_owned(),
                    kind,
                })
                .collect(),
        ),
    }
}

fn flattened(name: &str, schema: Schema) -> Declaration {
    Declaration {
        name: name.to_owned(),
        attributes: vec![attribute("flatten", None)],
        payload: Payload::Unnamed(vec![schema]),
    }
}

fn api_declarations() -> Vec<Declaration> {
    vec![
        unit("GetAllUsers", vec![attribute("get", Some("/users"))]),
        unit("CreateUser", vec![attribute("post", Some("/users"))]),
        named(
            "GetUser",
            vec![attribute("get", Some("/users/{id}"))],
            vec![("id", FieldKind::U32)],
        ),
        named(
            "GetUserRole",
            vec![attribute("get", Some("/users/{id}/roles/{role}"))],
            vec![("id", FieldKind::U32), ("role", FieldKind::Str)],
        ),
        named(
            "UpdateUserRole",
            vec![attribute("put", Some("/users/{id}/roles/{role}"))],
            vec![("id", FieldKind::U32), ("role", FieldKind::Str)],
        ),
    ]
}

fn marketing_declarations() -> Vec<Declaration> {
    vec![
        unit("RenderIndex", vec![attribute("get", Some("/"))]),
        unit("RenderSignUp", vec![attribute("get", Some("/sign-up"))]),
        unit("ProcessSignUp", vec![attribute("post", Some("/sign-up"))]),
    ]
}

#[test]
fn test_declare_prefixed_schema() {
    let schema = Schema::try_declare(Some("/api"), api_declarations()).unwrap();
    assert_eq!(schema.prefix, Prefix::try_parse(Some("/api")).unwrap());
    assert_eq!(schema.variants.len(), 5);
    assert_eq!(
        schema.variants[2],
        Variant::Leaf(
            Leaf::try_new(
                "GetUser".to_owned(),
                vec![Field {
                    name: "id".to_owned(),
                    kind: FieldKind::U32
                }],
                &[(Method::Get, "/users/{id}")]
            )
            .unwrap()
        )
    );
    assert_eq!(
        schema.handle_parsed(Method::Put, "/api/users/42/roles/admin"),
        Some(Route {
            trail: vec![4],
            fields: vec![Value::U32(42), Value::Str("admin")],
        })
    );
}

#[test]
fn test_declare_flattened_schemas() {
    let marketing = Schema::try_declare(None, marketing_declarations()).unwrap();
    let api = Schema::try_declare(Some("/api"), api_declarations()).unwrap();
    let all = Schema::try_declare(
        None,
        vec![flattened("Marketing", marketing), flattened("Api", api)],
    )
    .unwrap();
    assert_eq!(
        all.variants[1],
        Variant::Flattened(
            "Api".to_owned(),
            Schema::try_declare(Some("/api"), api_declarations()).unwrap()
        )
    );
    assert_eq!(
        all.handle_parsed(Method::Post, "/sign-up"),
        Some(Route {
            trail: vec![0, 2],
            fields: vec![],
        })
    );
    assert_eq!(
        all.handle_parsed(Method::Get, "/api/users/7"),
        Some(Route {
            trail: vec![1, 2],
            fields: vec![Value::U32(7)],
        })
    );
    assert_eq!(all.handle_parsed(Method::Delete, "/api/users/7"), None);
}

#[test]
fn test_declared_order_is_kept() {
    let schema = Schema::try_declare(
        None,
        vec![
            flattened(
                "Inner",
                Schema::try_declare(None, vec![unit("A", vec![attribute("get", Some("/a"))])]).unwrap(),
            ),
            unit("B", vec![attribute("get", Some("/a"))]),
        ],
    )
    .unwrap();
    assert_eq!(
        schema.handle_parsed(Method::Get, "/a"),
        Some(Route {
            trail: vec![0, 0],
            fields: vec![],
        })
    );
}

#[test]
fn test_variant_with_several_routes() {
    let schema = Schema::try_declare(
        None,
        vec![named(
            "Item",
            vec![
                attribute("doc", Some("an item")),
                attribute("get", Some("/items/{id}")),
                attribute("head", Some("/items/{id}")),
                attribute("get", Some("/things/{id}")),
            ],
            vec![("id", FieldKind::U64)],
        )],
    )
    .unwrap();
    let found = Some(Route {
        trail: vec![0],
        fields: vec![Value::U64(9)],
    });
    assert_eq!(schema.handle_parsed(Method::Get, "/items/9"), found);
    assert_eq!(schema.handle_parsed(Method::Head, "/items/9"), found);
    assert_eq!(schema.handle_parsed(Method::Get, "/things/9"), found);
    assert_eq!(schema.handle_parsed(Method::Head, "/things/9"), None);
}

#[test]
fn test_declarations_without_routes_are_left_out() {
    let schema = Schema::try_declare(
        None,
        vec![
            unit("Plain", vec![]),
            unit("Documented", vec![attribute("doc", Some("text"))]),
            unit("Index", vec![attribute("get", Some("/"))]),
        ],
    )
    .unwrap();
    assert_eq!(schema.variants.len(), 1);
    assert_eq!(
        schema.handle_parsed(Method::Get, "/"),
        Some(Route {
            trail: vec![0],
            fields: vec![],
        })
    );
    assert_eq!(unit("Plain", vec![]).try_into_variant(), Ok(None));
}

#[test]
fn test_declaration_errors() {
    let error = |declaration: Declaration| declaration.try_into_variant().err();
    assert_eq!(
        error(unit("V", vec![attribute("get", None)])),
        Some(SchemaError::MissingPath)
    );
    assert_eq!(
        error(unit("V", vec![attribute("get", Some("users"))])),
        Some(SchemaError::PathWithoutSlash)
    );
    assert_eq!(
        error(unit("V", vec![attribute("get", Some("/a/{x}b"))])),
        Some(SchemaError::MalformedPath)
    );
    assert_eq!(
        error(unit("V", vec![attribute("get", Some("/users/{id}"))])),
        Some(SchemaError::FieldsMismatch)
    );
    assert_eq!(
        error(named(
            "V",
            vec![attribute("get", Some("/users"))],
            vec![("id", FieldKind::U8)]
        )),
        Some(SchemaError::FieldsMismatch)
    );
    assert_eq!(
        error(Declaration {
            name: "V".to_owned(),
            attributes: vec![attribute("get", Some("/users"))],
            payload: Payload::Unnamed(vec![]),
        }),
        Some(SchemaError::FieldsMismatch)
    );
    assert_eq!(
        error(unit("V", vec![attribute("flatten", None)])),
        Some(SchemaError::FlattenedShape)
    );
    assert_eq!(
        error(named("V", vec![attribute("flatten", None)], vec![])),
        Some(SchemaError::FlattenedShape)
    );
    assert_eq!(
        error(Declaration {
            name: "V".to_owned(),
            attributes: vec![attribute("flatten", None)],
            payload: Payload::Unnamed(vec![]),
        }),
        Some(SchemaError::FlattenedShape)
    );
    assert_eq!(
        error(Declaration {
            name: "V".to_owned(),
            attributes: vec![attribute("flatten", None)],
            payload: Payload::Unnamed(vec![
                Schema::new(Prefix::none(), vec![]),
                Schema::new(Prefix::none(), vec![])
            ]),
        }),
        Some(SchemaError::FlattenedShape)
    );
    assert_eq!(
        error(unit(
            "V",
            vec![attribute("flatten", None), attribute("get", Some("/a"))]
        )),
        Some(SchemaError::FlattenedShape)
    );
}

#[test]
fn test_schema_errors() {
    assert_eq!(
        Schema::try_declare(Some("api"), api_declarations()).err(),
        Some(SchemaError::PrefixWithoutSlash)
    );
    assert_eq!(
        Schema::try_declare(
            None,
            vec![
                unit("Fine", vec![attribute("get", Some("/fine"))]),
                unit("Pathless", vec![attribute("put", None)]),
                unit("Bare", vec![attribute("get", Some("bare"))]),
            ]
        )
        .err(),
        Some(SchemaError::MissingPath)
    );
    assert_eq!(Schema::try_declare(None, vec![]), Ok(Schema::new(Prefix::none(), vec![])));
}

#[test]
fn test_check_then_declare() {
    assert_eq!(Schema::check(Some("/api"), &api_declarations()), None);
    let schema = Schema::declare(Some("/api"), api_declarations());
    assert_eq!(Ok(schema), Schema::try_declare(Some("/api"), api_declarations()));
    assert_eq!(
        Schema::check(Some("api"), &api_declarations()),
        Some(SchemaError::PrefixWithoutSlash)
    );
    assert_eq!(
        Schema::check(
            None,
            &vec![
                unit("Fine", vec![attribute("get", Some("/fine"))]),
                unit("Bare", vec![attribute("get", Some("bare"))]),
                unit("Pathless", vec![attribute("put", None)]),
            ]
        ),
        Some(SchemaError::PathWithoutSlash)
    );
    assert_eq!(Schema::check(None, &vec![]), None);
    assert_eq!(Schema::declare(None, vec![]), Schema::new(Prefix::none(), vec![]));
}

#[test]
fn test_check_then_into_variant() {
    let declaration = || {
        named(
            "GetUser",
            vec![attribute("get", Some("/users/{id}"))],
            vec![("id", FieldKind::U32)],
        )
    };
    assert_eq!(declaration().check(), None);
    assert_eq!(
        declaration().into_variant(),
        Some(Variant::Leaf(Leaf::new(
            "GetUser".to_owned(),
            vec![Field {
                name: "id".to_owned(),
                kind: FieldKind::U32
            }],
            &[(Method::Get, "/users/{id}")]
        )))
    );
    let inner = || Schema::declare(None, marketing_declarations());
    assert_eq!(flattened("Inner", inner()).check(), None);
    assert_eq!(
        flattened("Inner", inner()).into_variant(),
        Some(Variant::Flattened("Inner".to_owned(), inner()))
    );
    assert_eq!(unit("Plain", vec![attribute("doc", None)]).check(), None);
    assert_eq!(unit("Plain", vec![attribute("doc", None)]).into_variant(), None);
    let held = Declaration {
        name: "Held".to_owned(),
        attributes: vec![],
        payload: Payload::Unnamed(vec![inner()]),
    };
    assert_eq!(held.check(), None);
    assert_eq!(held.into_variant(), None);
    assert_eq!(
        unit("V", vec![attribute("get", None)]).check(),
        Some(SchemaError::MissingPath)
    );
    assert_eq!(
        unit("V", vec![attribute("flatten", None)]).check(),
        Some(SchemaError::FlattenedShape)
    );
    assert_eq!(
        unit("V", vec![attribute("get", Some("/users/{id}"))]).check(),
        Some(SchemaError::FieldsMismatch)
    );
}

#[test]
fn test_attribute_helpers() {
    let attributes = vec![
        attribute("doc", Some("text")),
        attribute("post", Some("/a")),
        attribute("flatten", None),
        attribute("get", Some("/b")),
    ];
    assert!(!front_line::declare::is_pathless(&attributes));
    assert!(front_line::declare::is_flattened(&attributes));
    assert_eq!(
        front_line::declare::routes_of(&attributes),
        vec![(Method::Post, "/a"), (Method::Get, "/b")]
    );
    let pathless = vec![attribute("doc", None), attribute("patch", None)];
    assert!(front_line::declare::is_pathless(&pathless));
    assert!(!front_line::declare::is_flattened(&pathless));
    assert!(!front_line::declare::is_pathless(&vec![attribute("doc", None)]));
}
