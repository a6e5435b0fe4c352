//! Schemas as they are declared: variants with attributes.
//!
//! A variant is declared with a name, a list of attributes and a payload.
//! An attribute named after a method, such as `get`, binds the path
//! template in its argument to that method. The attribute `flatten` takes
//! in the schema that the variant holds. Other attributes mean nothing
//! here. A variant with neither kind of attribute is no route and is left
//! out.

use crate::leaf::{
    declared, field_names, grouped, leaf_error, templates, Field, Leaf, SchemaError,
};
use crate::method::Method;
use crate::prefix::{is_prefix_text, Prefix};
use crate::scan::same_bytes;
use crate::schema::{Schema, Variant};
use vstd::prelude::*;
use vstd::string::StringSliceAdditionalSpecFns;
use vstd::utf8::encode_utf8;

verus! {

/// An attribute of a declared variant: a name and, in brackets behind it,
/// an argument or none.
#[derive(Debug, PartialEq, Eq)]
pub struct Attribute {
    /// The name of the attribute.
    pub name: String,
    /// The argument of the attribute.
    pub argument: Option<String>,
}

/// What a declared variant holds.
#[derive(Debug, PartialEq, Eq)]
pub enum Payload {
    /// Nothing.
    Unit,
    /// Named fields.
    Named(Vec<Field>),
    /// Schemas without names.
    Unnamed(Vec<Schema>),
}

/// A declared variant.
#[derive(Debug, PartialEq, Eq)]
pub struct Declaration {
    /// The name of the variant.
    pub name: String,
    /// The attributes of the variant, in the order of their declaration.
    pub attributes: Vec<Attribute>,
    /// What the variant holds.
    pub payload: Payload,
}

/// The bytes of the name `flatten`.
pub open spec fn flatten_name() -> Seq<u8> {
    seq!['f' as u8, 'l' as u8, 'a' as u8, 't' as u8, 't' as u8, 'e' as u8, 'n' as u8]
}

impl Attribute {
    /// The method that the attribute is named after, if it is.
    pub open spec fn method(&self) -> Option<Method> {
        Method::from_attribute_spec(encode_utf8(self.name@))
    }

    /// The attribute is `flatten`.
    pub open spec fn is_flatten(&self) -> bool {
        encode_utf8(self.name@) == flatten_name()
    }
}

/// The routes that `attributes` declare: for each attribute named after a
/// method, that method and the bytes of the attribute's argument.
pub open spec fn attribute_routes(attributes: Seq<Attribute>) -> Seq<(Method, Seq<u8>)>
    decreases attributes.len(),
{
    if attributes.len() == 0 {
        Seq::empty()
    } else {
        let last = attributes.last();
        let before = attribute_routes(attributes.drop_last());
        if last.method().is_some() && last.argument.is_some() {
            before.push((last.method().unwrap(), encode_utf8(last.argument.unwrap()@)))
        } else {
            before
        }
    }
}

/// One of `attributes` is named after a method and has no argument.
pub open spec fn lacks_path(attributes: Seq<Attribute>) -> bool {
    exists|i: int|
        0 <= i < attributes.len() && (#[trigger] attributes[i]).method().is_some()
            && attributes[i].argument.is_none()
}

/// One of `attributes` is `flatten`.
pub open spec fn has_flatten(attributes: Seq<Attribute>) -> bool {
    exists|i: int| 0 <= i < attributes.len() && (#[trigger] attributes[i]).is_flatten()
}

/// The first error among the declarations `declarations[from..]`.
pub open spec fn first_declaration_error(declarations: Seq<Declaration>, from: int) -> Option<
    SchemaError,
>
    decreases declarations.len() - from,
{
    if from < 0 || from >= declarations.len() {
        None
    } else {
        match declarations[from].error() {
            Some(error) => Some(error),
            None => first_declaration_error(declarations, from + 1),
        }
    }
}

/// `variants` are what `declarations` stand for, one by one and in the
/// same order, the declarations that are no routes left out.
pub open spec fn realized(declarations: Seq<Declaration>, variants: Seq<Variant>) -> bool
    decreases declarations.len(),
{
    if declarations.len() == 0 {
        variants.len() == 0
    } else if declarations.last().is_skipped() {
        realized(declarations.drop_last(), variants)
    } else {
        &&& variants.len() > 0
        &&& declarations.last().stands_for(variants.last())
        &&& realized(declarations.drop_last(), variants.drop_last())
    }
}

/// What is wrong with a declared schema, if anything is: its prefix, or
/// else the first of its declarations that is in error.
pub open spec fn schema_error(prefix: Option<Seq<u8>>, declarations: Seq<Declaration>) -> Option<
    SchemaError,
> {
    if prefix.is_some() && !is_prefix_text(prefix.unwrap()) {
        Some(SchemaError::PrefixWithoutSlash)
    } else {
        first_declaration_error(declarations, 0)
    }
}

/// Tests whether one of the attributes is named after a method and has
/// no argument.
pub fn is_pathless(attributes: &Vec<Attribute>) -> (pathless: bool)
    ensures
        pathless == lacks_path(attributes@),
{
    let mut i: usize = 0;
    while i < attributes.len()
        invariant
            i <= attributes@.len(),
            forall|j: int|
                0 <= j < i ==> !((#[trigger] attributes@[j]).method().is_some()
                    && attributes@[j].argument.is_none()),
        decreases attributes@.len() - i,
    {
        if attributes[i].argument.is_none() {
            match Method::from_attribute(attributes[i].name.as_str()) {
                Some(_) => {
                    assert(attributes@[i as int].method().is_some());
                    return true;
                },
                None => {},
            }
        }
        i += 1;
    }
    false
}

/// The routes that a list of attributes declares, none of which may be
/// named after a method and have no argument.
pub fn routes_of<'a>(attributes: &'a Vec<Attribute>) -> (found: Vec<(Method, &'a str)>)
    requires
        !lacks_path(attributes@),
    ensures
        templates(found@) == attribute_routes(attributes@),
{
    let mut found: Vec<(Method, &'a str)> = Vec::new();
    let mut i: usize = 0;
    assert(attributes@.take(0) =~= Seq::empty());
    assert(templates(found@) =~= Seq::empty());
    while i < attributes.len()
        invariant
            i <= attributes@.len(),
            templates(found@) == attribute_routes(attributes@.take(i as int)),
        decreases attributes@.len() - i,
    {
        let ghost found_before = templates(found@);
        proof {
            assert(attributes@.take(i + 1).drop_last() =~= attributes@.take(i as int));
            assert(attributes@.take(i + 1).last() == attributes@[i as int]);
        }
        match Method::from_attribute(attributes[i].name.as_str()) {
            Some(method) => match &attributes[i].argument {
                Some(template) => {
                    found.push((method, template.as_str()));
                    assert(templates(found@) =~= found_before.push(
                        (method, encode_utf8(template@)),
                    ));
                },
                None => {},
            },
            None => {},
        }
        i += 1;
    }
    assert(attributes@.take(i as int) =~= attributes@);
    found
}

/// Tests whether one of the attributes is `flatten`.
pub fn is_flattened(attributes: &Vec<Attribute>) -> (flattened: bool)
    ensures
        flattened == has_flatten(attributes@),
{
    let name: [u8; 7] = [
        'f' as u8,
        'l' as u8,
        'a' as u8,
        't' as u8,
        't' as u8,
        'e' as u8,
        'n' as u8,
    ];
    assert(name@ =~= flatten_name());
    let mut i: usize = 0;
    while i < attributes.len()
        invariant
            i <= attributes@.len(),
            name@ == flatten_name(),
            forall|j: int| 0 <= j < i ==> !(#[trigger] attributes@[j]).is_flatten(),
        decreases attributes@.len() - i,
    {
        if same_bytes(attributes[i].name.as_str().as_bytes(), name.as_slice()) {
            assert(attributes@[i as int].is_flatten());
            return true;
        }
        i += 1;
    }
    false
}

impl Declaration {
    /// The routes that the declaration binds.
    pub open spec fn routes(&self) -> Seq<(Method, Seq<u8>)> {
        attribute_routes(self.attributes@)
    }

    /// The capture fields of the declaration: its named fields, if it has
    /// any.
    pub open spec fn fields(&self) -> Seq<Field> {
        match self.payload {
            Payload::Named(fields) => fields@,
            _ => Seq::empty(),
        }
    }

    /// The declaration is no route: it neither binds a path nor takes in a
    /// schema.
    pub open spec fn is_skipped(&self) -> bool {
        self.routes().len() == 0 && !has_flatten(self.attributes@)
    }

    /// What is wrong with the declaration, if anything is.
    ///
    /// A method attribute must name a path. A variant that binds paths
    /// holds nothing or named fields, no two of the same name, every path
    /// must be one that may be bound to those fields, and the variant takes
    /// in no schema. A variant that takes in a schema holds that one schema
    /// and nothing else.
    pub open spec fn error(&self) -> Option<SchemaError> {
        if lacks_path(self.attributes@) {
            Some(SchemaError::MissingPath)
        } else if self.routes().len() > 0 {
            if self.payload is Unnamed {
                Some(SchemaError::FieldsMismatch)
            } else {
                match leaf_error(field_names(self.fields()), self.routes()) {
                    Some(error) => Some(error),
                    None => if has_flatten(self.attributes@) {
                        Some(SchemaError::FlattenedShape)
                    } else {
                        None
                    },
                }
            }
        } else if has_flatten(self.attributes@) {
            match self.payload {
                Payload::Unnamed(schemas) => if schemas@.len() == 1 {
                    None
                } else {
                    Some(SchemaError::FlattenedShape)
                },
                _ => Some(SchemaError::FlattenedShape),
            }
        } else {
            None
        }
    }

    /// `variant` is the variant that the declaration stands for.
    ///
    /// A declaration that binds paths stands for a leaf of its name and
    /// fields, with the declared paths grouped by method. One that takes in
    /// a schema stands for that schema under its name.
    pub open spec fn stands_for(&self, variant: Variant) -> bool {
        match variant {
            Variant::Leaf(leaf) => {
                &&& self.routes().len() > 0
                &&& leaf.name_text() == self.name@
                &&& leaf.fields_view() == self.fields()
                &&& forall|method: Method| #[trigger]
                    leaf.patterns(method) == grouped(declared(self.routes()), method)
            },
            Variant::Flattened(name, schema) => {
                &&& self.routes().len() == 0
                &&& has_flatten(self.attributes@)
                &&& name@ == self.name@
                &&& match self.payload {
                    Payload::Unnamed(schemas) => schemas@ == seq![schema],
                    _ => false,
                }
            },
        }
    }

    /// Tests the declaration.
    pub fn check(&self) -> (error: Option<SchemaError>)
        ensures
            error == self.error(),
    {
        if is_pathless(&self.attributes) {
            return Some(SchemaError::MissingPath);
        }
        let routes = routes_of(&self.attributes);
        let flattened: bool = is_flattened(&self.attributes);
        assert(templates(routes@).len() == routes@.len());
        if routes.len() > 0 {
            let bound: Option<SchemaError> = match &self.payload {
                Payload::Unit => {
                    let none: Vec<Field> = Vec::new();
                    assert(none@ =~= self.fields());
                    Leaf::check(&none, routes.as_slice())
                },
                Payload::Named(fields) => Leaf::check(fields, routes.as_slice()),
                Payload::Unnamed(_) => {
                    return Some(SchemaError::FieldsMismatch);
                },
            };
            match bound {
                Some(error) => Some(error),
                None => if flattened {
                    Some(SchemaError::FlattenedShape)
                } else {
                    None
                },
            }
        } else if flattened {
            match &self.payload {
                Payload::Unnamed(schemas) => if schemas.len() == 1 {
                    None
                } else {
                    Some(SchemaError::FlattenedShape)
                },
                _ => Some(SchemaError::FlattenedShape),
            }
        } else {
            None
        }
    }

    /// Turns the declaration, which must not be in error, into the variant
    /// that it stands for.
    ///
    /// Returns `None` for a declaration that is no route.
    pub fn into_variant(self) -> (made: Option<Variant>)
        requires
            self.error().is_none(),
        ensures
            match made {
                Some(variant) => self.stands_for(variant),
                None => self.is_skipped(),
            },
    {
        let Declaration { name, attributes, payload } = self;
        let routes = routes_of(&attributes);
        assert(templates(routes@).len() == routes@.len());
        if routes.len() > 0 {
            let fields: Vec<Field> = match payload {
                Payload::Named(fields) => fields,
                _ => Vec::new(),
            };
            assert(fields@ =~= self.fields());
            Some(Variant::Leaf(Leaf::new(name, fields, routes.as_slice())))
        } else if is_flattened(&attributes) {
            match payload {
                Payload::Unnamed(schemas) => {
                    let mut schemas = schemas;
                    if schemas.len() == 1 {
                        let ghost held = schemas@;
                        let schema = schemas.remove(0);
                        assert(held =~= seq![schema]);
                        Some(Variant::Flattened(name, schema))
                    } else {
                        None
                    }
                },
                _ => None,
            }
        } else {
            None
        }
    }

    /// Tests the declaration and, where it is not in error, turns it into
    /// the variant that it stands for.
    pub fn try_into_variant(self) -> (made: Result<Option<Variant>, SchemaError>)
        ensures
            match made {
                Ok(Some(variant)) => self.error().is_none() && self.stands_for(variant),
                Ok(None) => self.error().is_none() && self.is_skipped(),
                Err(error) => self.error() == Some(error),
            },
    {
        match self.check() {
            Some(error) => Err(error),
            None => Ok(self.into_variant()),
        }
    }
}

/// The prefix of a declared schema as plain bytes.
pub open spec fn prefix_bytes(prefix: Option<&str>) -> Option<Seq<u8>> {
    match prefix {
        Some(text) => Some(text.spec_bytes()),
        None => None,
    }
}

impl Schema {
    /// Tests the declaration of a schema: its prefix, if one is declared,
    /// and its declared variants.
    ///
    /// A prefix that does not start with `/` is the error, or else the
    /// first declaration that is in error.
    pub fn check(prefix: Option<&str>, declarations: &Vec<Declaration>) -> (error: Option<
        SchemaError,
    >)
        ensures
            error == schema_error(prefix_bytes(prefix), declarations@),
    {
        match Prefix::check(prefix) {
            Some(error) => {
                return Some(error);
            },
            None => {},
        }
        let mut i: usize = 0;
        while i < declarations.len()
            invariant
                i <= declarations@.len(),
                schema_error(prefix_bytes(prefix), declarations@) == first_declaration_error(
                    declarations@,
                    i as int,
                ),
            decreases declarations@.len() - i,
        {
            match declarations[i].check() {
                Some(error) => {
                    return Some(error);
                },
                None => {},
            }
            i += 1;
        }
        None
    }

    /// Builds a schema from its declaration, which must not be in error.
    ///
    /// The schema has the declared prefix, and its variants are those that
    /// the declarations stand for, in the order of the declarations.
    pub fn declare(prefix: Option<&str>, declarations: Vec<Declaration>) -> (schema: Schema)
        requires
            schema_error(prefix_bytes(prefix), declarations@).is_none(),
        ensures
            schema.prefix@ == prefix_bytes(prefix),
            realized(declarations@, schema.variants@),
    {
        let stripped = Prefix::parse(prefix);
        let ghost all = declarations@;
        let ghost mut done: int = 0;
        let mut left = declarations;
        let mut variants: Vec<Variant> = Vec::new();
        proof {
            assert(all.take(0) =~= Seq::empty());
            assert(all.skip(0) =~= all);
        }
        while left.len() > 0
            invariant
                0 <= done <= all.len(),
                left@ == all.skip(done),
                first_declaration_error(all, done).is_none(),
                realized(all.take(done), variants@),
            decreases left@.len(),
        {
            let ghost before = variants@;
            proof {
                assert(all.skip(done).len() == all.len() - done);
                assert(all.skip(done)[0] == all[done]);
            }
            let declaration = left.remove(0);
            proof {
                assert(declaration == all[done]);
                assert(left@ =~= all.skip(done + 1));
                assert(all.take(done + 1).drop_last() =~= all.take(done));
                assert(all.take(done + 1).last() == all[done]);
            }
            match declaration.into_variant() {
                Some(variant) => {
                    variants.push(variant);
                    assert(variants@.drop_last() =~= before);
                },
                None => {},
            }
            proof {
                done = done + 1;
            }
        }
        proof {
            assert(all.take(done) =~= all);
        }
        Schema { prefix: stripped, variants }
    }

    /// Tests the declaration of a schema and, where it is not in error,
    /// builds the schema.
    pub fn try_declare(prefix: Option<&str>, declarations: Vec<Declaration>) -> (made: Result<
        Schema,
        SchemaError,
    >)
        ensures
            match made {
                Ok(schema) => {
                    &&& schema_error(prefix_bytes(prefix), declarations@).is_none()
                    &&& schema.prefix@ == prefix_bytes(prefix)
                    &&& realized(declarations@, schema.variants@)
                },
                Err(error) => schema_error(prefix_bytes(prefix), declarations@) == Some(error),
            },
    {
        match Schema::check(prefix, &declarations) {
            Some(error) => Err(error),
            None => Ok(Schema::declare(prefix, declarations)),
        }
    }
}

} // verus!
