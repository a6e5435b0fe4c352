use front_line::{
    gather, FromRoute, HttpVersion, Method, PathPattern, Router, RouterResult, Schema, Variant,
};

#[derive(PartialEq, Debug)]
struct UserName<'a>(&'a str);

impl<'de> FromRoute<'de> for UserName<'de> {
    fn parse_path_variable(slice: &'de str) -> Option<Self> {
        if slice.is_empty() {
            None
        } else {
            Some(UserName(slice))
        }
    }
}

#[derive(PartialEq, Debug)]
struct UserId(u32);

impl<'de> FromRoute<'de> for UserId {
    fn parse_path_variable(slice: &'de str) -> Option<Self> {
        slice.parse().map(UserId).ok()
    }
}

#[derive(PartialEq, Debug)]
enum People<'a> {
    ById(UserId),
    ByName(UserName<'a>),
}

impl<'de> Router<'de> for People<'de> {
    fn handle_parsed(method: Method, remaining_path: &'de str) -> Option<Self> {
        if method != Method::Get {
            return None;
        }
        let pattern = PathPattern::parse("/people/{who}");
        if let Some(mut ids) = pattern.match_as::<UserId>(remaining_path) {
            return ids.pop().map(People::ById);
        }
        if let Some(mut names) = pattern.match_as::<UserName>(remaining_path) {
            return names.pop().map(People::ByName);
        }
        None
    }
}

#[test]
fn test_match_text() {
    let pattern = PathPattern::parse("/users/{id}/roles/{role}");
    let path = String::from("/users/42/roles/admin");
    let texts = pattern.match_text(&path).unwrap();
    assert_eq!(texts, vec!["42", "admin"]);
    assert_eq!(texts[0].as_ptr() as usize, path.as_ptr() as usize + 7);
    assert_eq!(pattern.match_text("/users/42"), None);
    assert_eq!(
        PathPattern::parse("/{word}").match_text("/caf\u{e9}"),
        Some(vec!["caf\u{e9}"])
    );
}

#[test]
fn test_match_as_built_in_types() {
    let pattern = PathPattern::parse("/users/{id}/posts/{post}");
    assert_eq!(
        pattern.match_as::<u32>("/users/42/posts/7"),
        Some(vec![42, 7])
    );
    assert_eq!(pattern.match_as::<u8>("/users/42/posts/256"), None);
    assert_eq!(pattern.match_as::<u32>("/users/42/posts"), None);
    assert_eq!(
        pattern.match_as::<&str>("/users/ann/posts/first/"),
        Some(vec!["ann", "first"])
    );
    assert_eq!(
        pattern.match_as::<String>("/users/ann/posts/"),
        Some(vec!["ann".to_owned(), String::new()])
    );
    assert_eq!(
        PathPattern::parse("/flags/{a}/{b}").match_as::<bool>("/flags/true/false"),
        Some(vec![true, false])
    );
    assert_eq!(
        PathPattern::parse("/plain").match_as::<u8>("/plain"),
        Some(vec![])
    );
}

#[test]
fn test_match_as_own_rule() {
    let pattern = PathPattern::parse("/people/{who}");
    assert_eq!(
        pattern.match_as::<UserName>("/people/alice"),
        Some(vec![UserName("alice")])
    );
    assert_eq!(pattern.match_as::<UserName>("/people/"), None);
}

#[test]
fn test_router_with_own_rules() {
    assert_eq!(
        People::resolve(b"GET /people/42?full HTTP/1.1\r\n\r\n"),
        Ok(RouterResult {
            route: Some(People::ById(UserId(42))),
            query: "full",
            version: HttpVersion::OneOne,
            head_and_body: b"".as_slice(),
        })
    );
    assert_eq!(
        People::resolve(b"GET /people/alice HTTP/1.0\r\n\r\nrest"),
        Ok(RouterResult {
            route: Some(People::ByName(UserName("alice"))),
            query: "",
            version: HttpVersion::OneZero,
            head_and_body: b"rest".as_slice(),
        })
    );
    assert_eq!(
        People::resolve(b"GET /people/ HTTP/1.1\r\n\r\n"),
        Ok(RouterResult {
            route: None,
            query: "",
            version: HttpVersion::OneOne,
            head_and_body: b"".as_slice(),
        })
    );
    assert_eq!(
        People::resolve(b"PUT /people/42 HTTP/1.1\r\n\r\n").map(|result| result.route),
        Ok(None)
    );
}

#[derive(PartialEq, Debug)]
struct Fragile(u32);

impl<'de> FromRoute<'de> for Fragile {
    fn parse_path_variable(slice: &'de str) -> Option<Self> {
        if slice == "never" {
            panic!("a text behind a refused one was read");
        }
        slice.parse().map(Fragile).ok()
    }
}

#[test]
fn test_match_as_stops_at_the_first_refusal() {
    let pattern = PathPattern::parse("/{a}/{b}/{c}/{d}");
    assert_eq!(pattern.match_as::<Fragile>("/1/x/never/4"), None);
    assert_eq!(pattern.match_as::<Fragile>("/x/never/never/never"), None);
    assert_eq!(pattern.match_as::<Fragile>("/1/2/3/x"), None);
    assert_eq!(
        pattern.match_as::<Fragile>("/1/2/3/4"),
        Some(vec![Fragile(1), Fragile(2), Fragile(3), Fragile(4)])
    );
}

#[test]
fn test_gather() {
    assert_eq!(gather(vec![Some(1), Some(2), Some(3)]), Some(vec![1, 2, 3]));
    assert_eq!(gather(vec![Some(1), None, Some(3)]), None);
    assert_eq!(gather(Vec::<Option<u8>>::new()), Some(vec![]));
}

#[test]
fn test_variant_names() {
    let inner = Schema::try_declare(None, vec![]).unwrap();
    let schema = Schema::new(
        front_line::Prefix::none(),
        vec![
            Variant::Leaf(
                front_line::Leaf::try_new("Index".to_owned(), vec![], &[(Method::Get, "/")]).unwrap(),
            ),
            Variant::Flattened("Inner".to_owned(), inner),
        ],
    );
    assert_eq!(schema.variant_name(0), Some("Index"));
    assert_eq!(schema.variant_name(1), Some("Inner"));
    assert_eq!(schema.variant_name(2), None);
    assert_eq!(Method::Get.to_ident(), "Get");
    assert_eq!(Method::Options.to_ident(), "Options");
}
