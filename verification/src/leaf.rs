//! Leaf variants: a name, capture fields, and the paths bound to methods.

use crate::method::Method;
use crate::path::{
    captures, lemma_captures_are_text, lemma_literals_are_text, literals_are_text, names_view,
    segments_of, slices_view, variable_names, well_formed, PathPattern, SegmentView,
};
use crate::scan::same_bytes;
use crate::value::{FieldKind, Value, ValueView};
use vstd::prelude::*;
use vstd::string::StringSliceAdditionalSpecFns;
use vstd::utf8::{encode_utf8, encode_utf8_valid_utf8, valid_utf8};

verus! {

/// Why a schema was refused.
#[derive(Debug, PartialEq, Eq, Structural, Clone, Copy)]
pub enum SchemaError {
    /// A prefix does not start with `/`.
    PrefixWithoutSlash,
    /// A path template does not start with `/`.
    PathWithoutSlash,
    /// A path template holds literal text that does not start with `/`.
    MalformedPath,
    /// The variables of a path template are not the capture fields of its
    /// variant, name by name and in the same order.
    FieldsMismatch,
    /// Two capture fields of one variant have the same name.
    DuplicateField,
    /// A variant binds a path to a method but names no path.
    MissingPath,
    /// A variant that takes in another schema does not hold exactly one
    /// schema.
    FlattenedShape,
}

/// A capture field: the name of a path variable and the type of its value.
#[derive(Debug, PartialEq, Eq)]
pub struct Field {
    /// The name of the field, which is the name of a path variable.
    pub name: String,
    /// The type of the field's value.
    pub kind: FieldKind,
}

/// The types of a list of fields.
pub open spec fn kinds_of(fields: Seq<Field>) -> Seq<FieldKind> {
    fields.map_values(|field: Field| field.kind)
}

/// The names of a list of fields, as bytes.
pub open spec fn field_names(fields: Seq<Field>) -> Seq<Seq<u8>> {
    fields.map_values(|field: Field| encode_utf8(field.name@))
}

/// What a list of values holds.
pub open spec fn values_view(values: Seq<Value<'_>>) -> Seq<ValueView> {
    values.map_values(|value: Value| value@)
}

/// What a list of patterns holds.
pub open spec fn patterns_view(patterns: Seq<PathPattern>) -> Seq<Seq<SegmentView>> {
    patterns.map_values(|pattern: PathPattern| pattern@)
}

/// What a list of paths bound to methods holds.
pub open spec fn routes_view(routes: Seq<(PathPattern, Method)>) -> Seq<
    (Seq<SegmentView>, Method),
> {
    routes.map_values(|route: (PathPattern, Method)| (route.0@, route.1))
}

/// The fields' values, read each from the text captured for it: `None`
/// unless there is one text for each field and each text stands for a value
/// of its field's type.
pub open spec fn convert_all(kinds: Seq<FieldKind>, raws: Seq<Seq<u8>>) -> Option<
    Seq<ValueView>,
> {
    if kinds.len() == raws.len() && (forall|i: int|
        0 <= i < kinds.len() ==> (#[trigger] kinds[i]).value_of(raws[i]).is_some()) {
        Some(Seq::new(kinds.len(), |i: int| kinds[i].value_of(raws[i]).unwrap()))
    } else {
        None
    }
}

/// The field values that one pattern gives for `path`: the pattern must
/// fit the path, and every captured text must convert.
pub open spec fn alternative(
    kinds: Seq<FieldKind>,
    pattern: Seq<SegmentView>,
    path: Seq<u8>,
) -> Option<Seq<ValueView>> {
    match captures(pattern, path) {
        Some(raws) => convert_all(kinds, raws),
        None => None,
    }
}

/// The field values of the first of `patterns[from..]` that gives any.
pub open spec fn first_alternative(
    kinds: Seq<FieldKind>,
    patterns: Seq<Seq<SegmentView>>,
    from: int,
    path: Seq<u8>,
) -> Option<Seq<ValueView>>
    decreases patterns.len() - from,
{
    if from < 0 || from >= patterns.len() {
        None
    } else {
        match alternative(kinds, patterns[from], path) {
            Some(values) => Some(values),
            None => first_alternative(kinds, patterns, from + 1, path),
        }
    }
}

/// The patterns bound to one method are tried in the order of their
/// declaration: where none of the patterns before `place` gives values,
/// the first that does decides.
pub proof fn lemma_first_pattern_wins(
    kinds: Seq<FieldKind>,
    patterns: Seq<Seq<SegmentView>>,
    place: int,
    path: Seq<u8>,
)
    requires
        0 <= place < patterns.len(),
        forall|k: int| 0 <= k < place ==> alternative(kinds, #[trigger] patterns[k], path).is_none(),
        alternative(kinds, patterns[place], path).is_some(),
    ensures
        first_alternative(kinds, patterns, 0, path) == alternative(kinds, patterns[place], path),
{
    lemma_alternatives_skipped(kinds, patterns, place, path);
}

proof fn lemma_alternatives_skipped(
    kinds: Seq<FieldKind>,
    patterns: Seq<Seq<SegmentView>>,
    place: int,
    path: Seq<u8>,
)
    requires
        0 <= place <= patterns.len(),
        forall|k: int| 0 <= k < place ==> alternative(kinds, #[trigger] patterns[k], path).is_none(),
    ensures
        first_alternative(kinds, patterns, 0, path) == first_alternative(
            kinds,
            patterns,
            place,
            path,
        ),
    decreases place,
{
    if place > 0 {
        lemma_alternatives_skipped(kinds, patterns, place - 1, path);
    }
}

/// The kind takes every text: it is `Bytes`, `Str` or `Text`.
pub open spec fn takes_any_text(kind: FieldKind) -> bool {
    kind is Bytes || kind is Str || kind is Text
}

/// Text always converts to text: where a path is valid UTF-8, a pattern
/// with literals that are valid UTF-8 fits it, and there is a field of a
/// kind that takes every text for each of its variables, the pattern gives
/// values.
pub proof fn lemma_text_converts(
    kinds: Seq<FieldKind>,
    pattern: Seq<SegmentView>,
    path: Seq<u8>,
)
    requires
        valid_utf8(path),
        literals_are_text(pattern),
        captures(pattern, path).is_some(),
        captures(pattern, path).unwrap().len() == kinds.len(),
        forall|i: int| 0 <= i < kinds.len() ==> takes_any_text(#[trigger] kinds[i]),
    ensures
        alternative(kinds, pattern, path).is_some(),
{
    lemma_captures_are_text(pattern, 0, path);
}

/// The patterns that `routes` bind to `method`, in the order of `routes`.
pub open spec fn grouped(routes: Seq<(Seq<SegmentView>, Method)>, method: Method) -> Seq<
    Seq<SegmentView>,
>
    decreases routes.len(),
{
    if routes.len() == 0 {
        Seq::empty()
    } else if routes.last().1 == method {
        grouped(routes.drop_last(), method).push(routes.last().0)
    } else {
        grouped(routes.drop_last(), method)
    }
}

/// What is wrong with binding `template` to a variant whose fields are
/// named `names`, if anything is.
pub open spec fn binding_error(names: Seq<Seq<u8>>, template: Seq<u8>) -> Option<SchemaError> {
    if !(template.len() > 0 && template[0] == '/' as u8) {
        Some(SchemaError::PathWithoutSlash)
    } else if !well_formed(segments_of(template)) {
        Some(SchemaError::MalformedPath)
    } else if variable_names(segments_of(template)) != names {
        Some(SchemaError::FieldsMismatch)
    } else {
        None
    }
}

/// A pattern that may be bound to a variant whose fields are named
/// `names`: its literal segments start with `/`, and its variables are the
/// fields, name by name and in the same order.
pub open spec fn bound_to(names: Seq<Seq<u8>>, pattern: Seq<SegmentView>) -> bool {
    well_formed(pattern) && variable_names(pattern) == names
}

/// The declared routes as plain values: each method with the bytes of the
/// template bound to it.
pub open spec fn templates(routes: Seq<(Method, &str)>) -> Seq<(Method, Seq<u8>)> {
    routes.map_values(|route: (Method, &str)| (route.0, route.1.spec_bytes()))
}

/// The templates of a list of declared routes, parsed.
pub open spec fn declared(routes: Seq<(Method, Seq<u8>)>) -> Seq<(Seq<SegmentView>, Method)> {
    routes.map_values(|route: (Method, Seq<u8>)| (segments_of(route.1), route.0))
}

/// The first error among the declared routes `routes[from..]`.
pub open spec fn first_binding_error(
    names: Seq<Seq<u8>>,
    routes: Seq<(Method, Seq<u8>)>,
    from: int,
) -> Option<SchemaError>
    decreases routes.len() - from,
{
    if from < 0 || from >= routes.len() {
        None
    } else {
        match binding_error(names, routes[from].1) {
            Some(error) => Some(error),
            None => first_binding_error(names, routes, from + 1),
        }
    }
}

/// Every pattern that `routes` bind to `method` is the pattern of one of
/// the routes.
pub proof fn lemma_grouped_member(
    routes: Seq<(Seq<SegmentView>, Method)>,
    method: Method,
    place: int,
) -> (origin: int)
    requires
        0 <= place < grouped(routes, method).len(),
    ensures
        0 <= origin < routes.len(),
        routes[origin] == (grouped(routes, method)[place], method),
    decreases routes.len(),
{
    let shorter = routes.drop_last();
    if routes.last().1 == method && place == grouped(shorter, method).len() {
        routes.len() - 1
    } else {
        lemma_grouped_member(shorter, method, place)
    }
}

/// Where no declared route is in error, none of them is.
pub proof fn lemma_no_binding_error(
    names: Seq<Seq<u8>>,
    routes: Seq<(Method, Seq<u8>)>,
    from: int,
    at: int,
)
    requires
        0 <= from <= at < routes.len(),
        first_binding_error(names, routes, from).is_none(),
    ensures
        binding_error(names, routes[at].1).is_none(),
    decreases at - from,
{
    if from < at {
        lemma_no_binding_error(names, routes, from + 1, at);
    }
}

/// No two of `names` are the same.
pub open spec fn distinct(names: Seq<Seq<u8>>) -> bool {
    forall|i: int, j: int| 0 <= i < j < names.len() ==> names[i] != names[j]
}

/// What is wrong with declaring a leaf of the fields named `names` and the
/// routes `routes`, if anything is: two fields of one name, or else the
/// first route that is in error.
pub open spec fn leaf_error(names: Seq<Seq<u8>>, routes: Seq<(Method, Seq<u8>)>) -> Option<
    SchemaError,
> {
    if !distinct(names) {
        Some(SchemaError::DuplicateField)
    } else {
        first_binding_error(names, routes, 0)
    }
}

/// Tests whether no two of the fields have the same name.
pub fn names_differ(fields: &Vec<Field>) -> (differ: bool)
    ensures
        differ == distinct(field_names(fields@)),
{
    let ghost names = field_names(fields@);
    let mut j: usize = 0;
    while j < fields.len()
        invariant
            j <= fields@.len(),
            names == field_names(fields@),
            forall|a: int, b: int| 0 <= a < b < j ==> names[a] != names[b],
        decreases fields@.len() - j,
    {
        let mut i: usize = 0;
        while i < j
            invariant
                i <= j < fields@.len(),
                names == field_names(fields@),
                forall|a: int| 0 <= a < i ==> names[a] != names[j as int],
            decreases j - i,
        {
            if same_bytes(fields[i].name.as_str().as_bytes(), fields[j].name.as_str().as_bytes()) {
                assert(names[i as int] == names[j as int]);
                return false;
            }
            i += 1;
        }
        j += 1;
    }
    true
}

/// Groups paths by the method that each is bound to.
///
/// The result has one list for each of the nine methods, at the method's
/// place, and keeps the paths of one method in the order in which they
/// were handed in.
pub fn into_paths_by_method(routes: Vec<(PathPattern, Method)>) -> (groups: Vec<
    Vec<PathPattern>,
>)
    ensures
        groups@.len() == 9,
        forall|method: Method|
            patterns_view(#[trigger] groups@[method.index()]@) == grouped(
                routes_view(routes@),
                method,
            ),
{
    let ghost all = routes_view(routes@);
    let mut groups: Vec<Vec<PathPattern>> = Vec::new();
    let mut place: usize = 0;
    while place < 9
        invariant
            place <= 9,
            groups@.len() == place,
            forall|j: int| 0 <= j < place ==> (#[trigger] groups@[j])@.len() == 0,
        decreases 9 - place,
    {
        groups.push(Vec::new());
        place += 1;
    }
    let mut left = routes;
    let ghost mut done: int = 0;
    proof {
        assert(all.take(0) =~= Seq::empty());
        assert(all.skip(0) =~= all);
        assert forall|method: Method|
            patterns_view(#[trigger] groups@[method.index()]@) == grouped(
                all.take(0),
                method,
            ) by {
            assert(patterns_view(groups@[method.index()]@) =~= Seq::empty());
        }
    }
    while left.len() > 0
        invariant
            groups@.len() == 9,
            0 <= done <= all.len(),
            routes_view(left@) == all.skip(done),
            forall|method: Method|
                patterns_view(#[trigger] groups@[method.index()]@) == grouped(
                    all.take(done),
                    method,
                ),
        decreases left@.len(),
    {
        let ghost before = groups@;
        let ghost left_before = left@;
        let (pattern, method) = left.remove(0);
        let ghost added = pattern@;
        let place: usize = method.ordinal();
        groups[place].push(pattern);
        proof {
            assert(routes_view(left_before).len() == left_before.len());
            assert(all.skip(done).len() == all.len() - done);
            assert(all.skip(done)[0] == all[done]);
            assert(routes_view(left_before)[0] == (added, method));
            assert(all[done] == (added, method));
            assert forall|j: int| 0 <= j < left@.len() implies routes_view(left@)[j] == all.skip(
                done + 1,
            )[j] by {
                assert(left@[j] == left_before[j + 1]);
                assert(routes_view(left_before)[j + 1] == all.skip(done)[j + 1]);
            }
            assert(routes_view(left@) =~= all.skip(done + 1));
            assert(all.take(done + 1).drop_last() =~= all.take(done));
            assert(all.take(done + 1).last() == all[done]);
            assert forall|other: Method|
                patterns_view(#[trigger] groups@[other.index()]@) == grouped(
                    all.take(done + 1),
                    other,
                ) by {
                if other == method {
                    assert(patterns_view(groups@[place as int]@) =~= patterns_view(
                        before[place as int]@,
                    ).push(added));
                } else {
                    assert(other.index() != place);
                    assert(groups@[other.index()] == before[other.index()]);
                }
            }
            done = done + 1;
        }
    }
    proof {
        assert(all.take(done) =~= all);
    }
    groups
}

/// Reads each field's value from the text captured for it.
pub fn convert_fields<'a>(fields: &Vec<Field>, taken: &Vec<&'a [u8]>) -> (converted: Option<
    Vec<Value<'a>>,
>)
    ensures
        match converted {
            Some(values) => convert_all(kinds_of(fields@), slices_view(taken@)) == Some(
                values_view(values@),
            ),
            None => convert_all(kinds_of(fields@), slices_view(taken@)).is_none(),
        },
{
    if fields.len() != taken.len() {
        return None;
    }
    let ghost kinds = kinds_of(fields@);
    let ghost raws = slices_view(taken@);
    let mut values: Vec<Value<'a>> = Vec::new();
    let mut i: usize = 0;
    while i < fields.len()
        invariant
            i <= fields@.len(),
            fields@.len() == taken@.len(),
            kinds == kinds_of(fields@),
            raws == slices_view(taken@),
            values@.len() == i,
            forall|j: int|
                0 <= j < i ==> (#[trigger] kinds[j]).value_of(raws[j]) == Some(values@[j]@),
        decreases fields@.len() - i,
    {
        let raw: &'a [u8] = taken[i];
        match fields[i].kind.convert(raw) {
            Some(value) => {
                values.push(value);
            },
            None => {
                assert(kinds[i as int].value_of(raws[i as int]).is_none());
                return None;
            },
        }
        i += 1;
    }
    proof {
        assert(values_view(values@) =~= Seq::new(
            kinds.len(),
            |i: int| kinds[i].value_of(raws[i]).unwrap(),
        ));
    }
    Some(values)
}

/// Tests whether `names` are the names of `fields`, one by one.
pub fn names_agree(fields: &Vec<Field>, names: &Vec<Vec<u8>>) -> (agree: bool)
    ensures
        agree == (names_view(names@) == field_names(fields@)),
{
    if fields.len() != names.len() {
        assert(names_view(names@).len() != field_names(fields@).len());
        return false;
    }
    let mut i: usize = 0;
    while i < fields.len()
        invariant
            i <= fields@.len(),
            fields@.len() == names@.len(),
            forall|j: int| 0 <= j < i ==> names_view(names@)[j] == field_names(fields@)[j],
        decreases fields@.len() - i,
    {
        if !same_bytes(names[i].as_slice(), fields[i].name.as_str().as_bytes()) {
            assert(names_view(names@)[i as int] != field_names(fields@)[i as int]);
            return false;
        }
        i += 1;
    }
    assert(names_view(names@) =~= field_names(fields@));
    true
}

/// A leaf variant of a schema: the routes that lead to one endpoint.
#[derive(Debug, PartialEq, Eq)]
pub struct Leaf {
    name: String,
    fields: Vec<Field>,
    paths: Vec<Vec<PathPattern>>,
}

impl Leaf {
    /// There is one group of patterns for each method, and the variables
    /// of every pattern are the fields.
    #[verifier::type_invariant]
    spec fn well_formed(&self) -> bool {
        &&& self.paths@.len() == 9
        &&& distinct(field_names(self.fields@))
        &&& forall|method: Method, place: int|
            0 <= place < self.paths@[method.index()]@.len() ==> bound_to(
                field_names(self.fields@),
                #[trigger] self.paths@[method.index()]@[place]@,
            ) && literals_are_text(self.paths@[method.index()]@[place]@)
    }

    /// The name of the variant.
    pub closed spec fn name_text(&self) -> Seq<char> {
        self.name@
    }

    /// The capture fields of the variant.
    pub closed spec fn fields_view(&self) -> Seq<Field> {
        self.fields@
    }

    /// The patterns bound to `method`, in the order of their declaration.
    pub closed spec fn patterns(&self, method: Method) -> Seq<Seq<SegmentView>> {
        patterns_view(self.paths@[method.index()]@)
    }

    /// The field values that the variant gives for `method` and `path`:
    /// those of the first pattern bound to `method` that fits the path and
    /// whose captured texts all convert.
    pub open spec fn route_spec(&self, method: Method, path: Seq<u8>) -> Option<Seq<ValueView>> {
        first_alternative(kinds_of(self.fields_view()), self.patterns(method), 0, path)
    }

    /// Tests the declaration of a leaf variant.
    ///
    /// No two fields may have the same name. Each route binds a path
    /// template to a method. A template must start with `/`, each of its
    /// literal segments must start with `/`, and its variables must be the
    /// fields, name by name and in the same order. Two fields of one name
    /// are the error, or else the first route that is not so.
    pub fn check(fields: &Vec<Field>, routes: &[(Method, &str)]) -> (error: Option<SchemaError>)
        ensures
            error == leaf_error(field_names(fields@), templates(routes@)),
    {
        if !names_differ(fields) {
            return Some(SchemaError::DuplicateField);
        }
        let mut i: usize = 0;
        while i < routes.len()
            invariant
                i <= routes@.len(),
                distinct(field_names(fields@)),
                first_binding_error(field_names(fields@), templates(routes@), 0)
                    == first_binding_error(field_names(fields@), templates(routes@), i as int),
            decreases routes@.len() - i,
        {
            assert(templates(routes@)[i as int] == (
                routes@[i as int].0,
                routes@[i as int].1.spec_bytes(),
            ));
            let template: &str = routes[i].1;
            let bytes = template.as_bytes();
            if bytes.len() == 0 || bytes[0] != '/' as u8 {
                return Some(SchemaError::PathWithoutSlash);
            }
            let pattern = PathPattern::parse(template);
            if !pattern.is_well_formed() {
                return Some(SchemaError::MalformedPath);
            }
            let names = pattern.variables();
            if !names_agree(fields, &names) {
                return Some(SchemaError::FieldsMismatch);
            }
            i += 1;
        }
        None
    }

    /// Declares a leaf variant, whose declaration must not be in error.
    ///
    /// The leaf has the given name and fields, and the declared paths
    /// grouped by method, those of one method in the order of their
    /// declaration. Every one of its patterns has the fields as its
    /// variables, name by name and in the same order.
    pub fn new(name: String, fields: Vec<Field>, routes: &[(Method, &str)]) -> (made: Leaf)
        requires
            leaf_error(field_names(fields@), templates(routes@)).is_none(),
        ensures
            made.name_text() == name@,
            made.fields_view() == fields@,
            forall|method: Method| #[trigger]
                made.patterns(method) == grouped(declared(templates(routes@)), method),
            forall|method: Method, place: int|
                0 <= place < made.patterns(method).len() ==> bound_to(
                    field_names(fields@),
                    #[trigger] made.patterns(method)[place],
                ) && literals_are_text(made.patterns(method)[place]),
    {
        let mut parsed: Vec<(PathPattern, Method)> = Vec::new();
        let mut i: usize = 0;
        assert(routes_view(parsed@) =~= declared(templates(routes@)).take(0));
        while i < routes.len()
            invariant
                i <= routes@.len(),
                routes_view(parsed@) == declared(templates(routes@)).take(i as int),
            decreases routes@.len() - i,
        {
            assert(templates(routes@)[i as int] == (
                routes@[i as int].0,
                routes@[i as int].1.spec_bytes(),
            ));
            let method: Method = routes[i].0;
            let pattern = PathPattern::parse(routes[i].1);
            let ghost before = routes_view(parsed@);
            let ghost added = (pattern@, method);
            parsed.push((pattern, method));
            i += 1;
            proof {
                assert(routes_view(parsed@) =~= before.push(added));
                assert(declared(templates(routes@)).take(i as int) =~= declared(
                    templates(routes@),
                ).take(i - 1).push(added));
            }
        }
        proof {
            assert(declared(templates(routes@)).take(i as int) =~= declared(templates(routes@)));
        }
        let paths = into_paths_by_method(parsed);
        proof {
            let names = field_names(fields@);
            assert forall|method: Method, place: int|
                0 <= place < paths@[method.index()]@.len() implies bound_to(
                names,
                #[trigger] paths@[method.index()]@[place]@,
            ) && literals_are_text(paths@[method.index()]@[place]@) by {
                let group = patterns_view(paths@[method.index()]@);
                assert(group[place] == paths@[method.index()]@[place]@);
                let origin = lemma_grouped_member(declared(templates(routes@)), method, place);
                lemma_no_binding_error(names, templates(routes@), 0, origin);
                let template = routes@[origin].1;
                assert(templates(routes@)[origin].1 == template.spec_bytes());
                encode_utf8_valid_utf8(template@);
                assert(template.spec_bytes().skip(0) =~= template.spec_bytes());
                lemma_literals_are_text(template.spec_bytes(), 0);
            }
        }
        let made = Leaf { name, fields, paths };
        proof {
            assert forall|method: Method, place: int|
                0 <= place < made.patterns(method).len() implies bound_to(
                field_names(made.fields@),
                #[trigger] made.patterns(method)[place],
            ) && literals_are_text(made.patterns(method)[place]) by {
                assert(made.patterns(method)[place] == made.paths@[method.index()]@[place]@);
            }
        }
        made
    }

    /// Tests the declaration of a leaf variant and, where it is not in
    /// error, declares the leaf.
    pub fn try_new(name: String, fields: Vec<Field>, routes: &[(Method, &str)]) -> (leaf: Result<
        Leaf,
        SchemaError,
    >)
        ensures
            match leaf {
                Ok(made) => {
                    &&& leaf_error(field_names(fields@), templates(routes@)).is_none()
                    &&& made.name_text() == name@
                    &&& made.fields_view() == fields@
                    &&& forall|method: Method| #[trigger]
                        made.patterns(method) == grouped(declared(templates(routes@)), method)
                    &&& forall|method: Method, place: int|
                        0 <= place < made.patterns(method).len() ==> bound_to(
                            field_names(fields@),
                            #[trigger] made.patterns(method)[place],
                        ) && literals_are_text(made.patterns(method)[place])
                },
                Err(error) => leaf_error(field_names(fields@), templates(routes@)) == Some(error),
            },
    {
        match Leaf::check(&fields, routes) {
            Some(error) => Err(error),
            None => Ok(Leaf::new(name, fields, routes)),
        }
    }

    /// The name of the variant.
    pub fn name(&self) -> (name: &str)
        ensures
            name@ == self.name_text(),
    {
        self.name.as_str()
    }

    /// The capture fields of the variant.
    pub fn fields(&self) -> (fields: &Vec<Field>)
        ensures
            fields@ == self.fields_view(),
    {
        &self.fields
    }

    /// Matches a method and a path against the variant.
    ///
    /// The patterns bound to `method` are tried in the order of their
    /// declaration. The first that fits the path, and whose captured texts
    /// all convert to the types of their fields, gives the values. A
    /// pattern that fits but whose texts do not convert is passed over like
    /// one that does not fit.
    pub fn route<'a>(&self, method: Method, path: &'a [u8]) -> (found: Option<Vec<Value<'a>>>)
        ensures
            match found {
                Some(values) => self.route_spec(method, path@) == Some(values_view(values@)),
                None => self.route_spec(method, path@).is_none(),
            },
    {
        proof {
            use_type_invariant(self);
        }
        let group: &Vec<PathPattern> = &self.paths[method.ordinal()];
        let ghost kinds = kinds_of(self.fields@);
        let ghost patterns = patterns_view(group@);
        let mut k: usize = 0;
        while k < group.len()
            invariant
                k <= group@.len(),
                kinds == kinds_of(self.fields_view()),
                patterns == patterns_view(group@),
                patterns == self.patterns(method),
                first_alternative(kinds, patterns, 0, path@) == first_alternative(
                    kinds,
                    patterns,
                    k as int,
                    path@,
                ),
            decreases group@.len() - k,
        {
            assert(patterns[k as int] == group@[k as int]@);
            match group[k].match_path(path) {
                Some(taken) => match convert_fields(&self.fields, &taken) {
                    Some(values) => {
                        return Some(values);
                    },
                    None => {},
                },
                None => {},
            }
            k += 1;
        }
        None
    }
}

} // verus!
