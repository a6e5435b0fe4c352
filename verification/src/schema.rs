//! Route schemas: an optional prefix and the variants in the order of their
//! declaration, which is the order in which they are tried.

use crate::leaf::{values_view, Leaf};
use crate::method::Method;
use crate::prefix::{strip_prefix, Prefix};
use crate::scan::occurs_at;
use crate::value::{Value, ValueView};
use vstd::prelude::*;
use vstd::string::StringSliceAdditionalSpecFns;

verus! {

/// One variant of a schema.
#[derive(Debug, PartialEq, Eq)]
pub enum Variant {
    /// An endpoint of its own.
    Leaf(Leaf),
    /// A name under which the routes of another schema are taken in.
    Flattened(String, Schema),
}

/// A route schema.
#[derive(Debug, PartialEq, Eq)]
pub struct Schema {
    /// The text that every path of the schema starts with.
    pub prefix: Prefix,
    /// The variants, in the order in which they are tried.
    pub variants: Vec<Variant>,
}

/// A matched route.
#[derive(Debug, PartialEq, Eq)]
pub struct Route<'a> {
    /// The place of the matched variant in its schema. Where that variant
    /// takes in another schema, the place of the variant matched in that
    /// one follows, and so on down to a leaf.
    pub trail: Vec<usize>,
    /// The values of the leaf's capture fields, in the order of the fields.
    pub fields: Vec<Value<'a>>,
}

/// What a matched route holds.
pub struct RouteView {
    /// The places of the matched variants, from the outermost schema down.
    pub trail: Seq<usize>,
    /// The values of the leaf's capture fields.
    pub fields: Seq<ValueView>,
}

impl<'a> View for Route<'a> {
    type V = RouteView;

    open spec fn view(&self) -> RouteView {
        RouteView { trail: self.trail@, fields: values_view(self.fields@) }
    }
}

impl Variant {
    /// The name of the variant.
    pub open spec fn name_text(&self) -> Seq<char> {
        match self {
            Variant::Leaf(leaf) => leaf.name_text(),
            Variant::Flattened(name, _) => name@,
        }
    }

    /// The name of the variant.
    pub fn name(&self) -> (name: &str)
        ensures
            name@ == self.name_text(),
    {
        match self {
            Variant::Leaf(leaf) => leaf.name(),
            Variant::Flattened(name, _) => name.as_str(),
        }
    }

    /// The route that the variant at place `place` of its schema gives for
    /// `method` and `rest`, the path behind the schema's prefix.
    pub open spec fn route_spec(&self, place: usize, method: Method, rest: Seq<u8>) -> Option<
        RouteView,
    >
        decreases self, 0nat,
    {
        match self {
            Variant::Leaf(leaf) => match leaf.route_spec(method, rest) {
                Some(fields) => Some(RouteView { trail: seq![place], fields }),
                None => None,
            },
            Variant::Flattened(_, inner) => match inner.route_spec(method, rest) {
                Some(route) => Some(
                    RouteView { trail: seq![place] + route.trail, fields: route.fields },
                ),
                None => None,
            },
        }
    }
}

impl Schema {
    /// The route of the first of the variants at `from` and behind it that
    /// gives one for `method` and `rest`.
    pub open spec fn route_from(&self, from: int, method: Method, rest: Seq<u8>) -> Option<
        RouteView,
    >
        decreases self, self.variants@.len() - from,
    {
        if from < 0 || from >= self.variants@.len() {
            None
        } else {
            match self.variants@[from].route_spec(from as usize, method, rest) {
                Some(route) => Some(route),
                None => self.route_from(from + 1, method, rest),
            }
        }
    }

    /// The route that the schema gives for `method` and `path`.
    ///
    /// A path that does not start with the schema's prefix has no route.
    /// Behind the prefix, the variants are tried in order, and the first
    /// that gives a route decides.
    pub open spec fn route_spec(&self, method: Method, path: Seq<u8>) -> Option<RouteView>
        decreases self, self.variants@.len() + 1,
    {
        match strip_prefix(self.prefix@, path) {
            Some(rest) => self.route_from(0, method, rest),
            None => None,
        }
    }

    /// A schema of the given prefix and variants.
    pub fn new(prefix: Prefix, variants: Vec<Variant>) -> (schema: Schema)
        ensures
            schema.prefix == prefix,
            schema.variants == variants,
    {
        Schema { prefix, variants }
    }

    /// The name of the variant at `place`, where there is one.
    pub fn variant_name(&self, place: usize) -> (name: Option<&str>)
        ensures
            match name {
                Some(text) => place < self.variants@.len() && text@ == self.variants@[place as int]
                    .name_text(),
                None => place >= self.variants@.len(),
            },
    {
        if place < self.variants.len() {
            Some(self.variants[place].name())
        } else {
            None
        }
    }

    /// Matches a method and the bytes of a path against the schema.
    pub fn route<'a>(&self, method: Method, path: &'a [u8]) -> (found: Option<Route<'a>>)
        ensures
            match found {
                Some(route) => self.route_spec(method, path@) == Some(route@),
                None => self.route_spec(method, path@).is_none(),
            },
        decreases self,
    {
        let rest: &'a [u8] = match self.prefix.strip(path) {
            Some(rest) => rest,
            None => {
                return None;
            },
        };
        let mut k: usize = 0;
        while k < self.variants.len()
            invariant
                k <= self.variants@.len(),
                self.route_spec(method, path@) == self.route_from(k as int, method, rest@),
            decreases self.variants@.len() - k,
        {
            proof {
                reveal_with_fuel(Schema::route_from, 2);
                reveal_with_fuel(Variant::route_spec, 2);
            }
            match &self.variants[k] {
                Variant::Leaf(leaf) => match leaf.route(method, rest) {
                    Some(fields) => {
                        let mut trail: Vec<usize> = Vec::new();
                        trail.push(k);
                        assert(trail@ =~= seq![k]);
                        return Some(Route { trail, fields });
                    },
                    None => {},
                },
                Variant::Flattened(_, inner) => match inner.route(method, rest) {
                    Some(route) => {
                        let Route { trail, fields } = route;
                        let ghost inner_trail = trail@;
                        let mut trail = trail;
                        trail.insert(0, k);
                        assert(trail@ =~= seq![k] + inner_trail);
                        return Some(Route { trail, fields });
                    },
                    None => {},
                },
            }
            k += 1;
        }
        None
    }

    /// Matches the method and path of a request against the schema.
    ///
    /// Returns the matched route, whose borrowed values borrow from
    /// `remaining_path`, or `None` where no variant matches. A method that
    /// nothing is bound to and a path that nothing fits are not told apart.
    pub fn handle_parsed<'a>(&self, method: Method, remaining_path: &'a str) -> (found: Option<
        Route<'a>,
    >)
        ensures
            match found {
                Some(route) => self.route_spec(method, remaining_path.spec_bytes()) == Some(
                    route@,
                ),
                None => self.route_spec(method, remaining_path.spec_bytes()).is_none(),
            },
    {
        self.route(method, remaining_path.as_bytes())
    }

    /// A path that does not start with the schema's prefix has no route,
    /// whatever the variants of the schema are.
    pub proof fn lemma_prefix_rejects(&self, method: Method, path: Seq<u8>)
        requires
            self.prefix@.is_some(),
            !occurs_at(path, self.prefix@.unwrap(), 0),
        ensures
            self.route_spec(method, path).is_none(),
    {
    }

    /// The variants are tried in the order of their declaration: where
    /// none of the variants before `place` gives a route, the schema's route
    /// is that of the variants from `place` on, so the first variant that
    /// gives one decides.
    pub proof fn lemma_first_variant_wins(&self, place: int, method: Method, rest: Seq<u8>)
        requires
            0 <= place <= self.variants@.len(),
            forall|k: int|
                0 <= k < place ==> (#[trigger] self.variants@[k]).route_spec(
                    k as usize,
                    method,
                    rest,
                ).is_none(),
        ensures
            self.route_from(0, method, rest) == self.route_from(place, method, rest),
            place < self.variants@.len() && self.variants@[place].route_spec(
                place as usize,
                method,
                rest,
            ).is_some() ==> self.route_from(0, method, rest) == self.variants@[place].route_spec(
                place as usize,
                method,
                rest,
            ),
        decreases place,
    {
        if place > 0 {
            self.lemma_first_variant_wins(place - 1, method, rest);
        }
    }
}

} // verus!
