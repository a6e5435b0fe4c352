//! Path patterns: templates such as `/users/{id}/roles/{role}`.
//!
//! A template is a run of segments. A variable is `{`, a name of at least
//! one byte that holds no `}`, and `}`. Everything else is literal text: a
//! literal segment starts where no variable does and runs up to the next
//! `{` or the end of the template. Nothing of a template is dropped, so its
//! segments, written out again, give the template back.
//!
//! A path fits a pattern where it holds the literals byte for byte, each
//! variable takes the bytes up to the next `/`, and behind the last segment
//! nothing is left but, at most, one `/`. A `/` at the end of a template is
//! literal text like any other: `/users/{id}/` asks for the slash, while
//! `/users/{id}` and `/users` fit with or without one.

use crate::from_route::FromRoute;
use crate::scan::{as_text, find_byte, holds_at, lemma_position, occurs_at, position};
use vstd::prelude::*;
use vstd::slice::{slice_subrange, slice_to_vec};
use vstd::string::StringSliceAdditionalSpecFns;
use vstd::utf8::{
    is_char_boundary, is_char_boundary_iff_not_is_continuation_byte, length_of_first_scalar,
    encode_utf8_valid_utf8, pop_first_scalar, valid_utf8, valid_utf8_split,
};

verus! {

/// One segment of a path pattern.
#[derive(Debug, PartialEq, Eq)]
pub enum PathSegment {
    /// Text that a path must hold byte for byte.
    Literal(Vec<u8>),
    /// A named variable, which takes the path up to the next `/`.
    Variable(Vec<u8>),
}

/// What a segment is, as plain sequences of bytes.
pub enum SegmentView {
    /// Literal text.
    Literal(Seq<u8>),
    /// A variable and its name.
    Variable(Seq<u8>),
}

impl View for PathSegment {
    type V = SegmentView;

    open spec fn view(&self) -> SegmentView {
        match self {
            PathSegment::Literal(text) => SegmentView::Literal(text@),
            PathSegment::Variable(name) => SegmentView::Variable(name@),
        }
    }
}

/// A parsed path template: its segments from left to right.
#[derive(Debug, PartialEq, Eq)]
pub struct PathPattern {
    /// The segments, in the order of the template.
    pub segments: Vec<PathSegment>,
}

impl View for PathPattern {
    type V = Seq<SegmentView>;

    open spec fn view(&self) -> Seq<SegmentView> {
        self.segments@.map_values(|segment: PathSegment| segment@)
    }
}

/// The offset of the `}` that closes a variable opening at `at`, where one
/// opens there: `template[at]` is `{`, a `}` follows, and the name between
/// them is not empty.
pub open spec fn variable_close(template: Seq<u8>, at: int) -> Option<int> {
    let close = at + 1 + position(template.skip(at + 1), '}' as u8);
    if 0 <= at < template.len() && template[at] == '{' as u8 && at + 1 < close < template.len() {
        Some(close)
    } else {
        None
    }
}

/// The end of the literal text that starts at `at`: the offset of the next
/// `{` behind `at`, or the end of the template.
pub open spec fn literal_end(template: Seq<u8>, at: int) -> int {
    at + 1 + position(template.skip(at + 1), '{' as u8)
}

/// The segments of `template` from offset `at` on.
pub open spec fn segments_from(template: Seq<u8>, at: int) -> Seq<SegmentView>
    decreases template.len() - at,
{
    if at < 0 || at >= template.len() {
        Seq::empty()
    } else {
        proof {
            lemma_position(template.skip(at + 1), '{' as u8);
        }
        match variable_close(template, at) {
            Some(close) => seq![SegmentView::Variable(template.subrange(at + 1, close))]
                + segments_from(template, close + 1),
            None => seq![SegmentView::Literal(template.subrange(at, literal_end(template, at)))]
                + segments_from(template, literal_end(template, at)),
        }
    }
}

/// The segments of a whole template.
pub open spec fn segments_of(template: Seq<u8>) -> Seq<SegmentView> {
    segments_from(template, 0)
}

/// The text that a segment was parsed from.
pub open spec fn segment_text(segment: SegmentView) -> Seq<u8> {
    match segment {
        SegmentView::Literal(text) => text,
        SegmentView::Variable(name) => seq!['{' as u8] + name + seq!['}' as u8],
    }
}

/// The template that a run of segments writes.
pub open spec fn template_of(segments: Seq<SegmentView>) -> Seq<u8>
    decreases segments.len(),
{
    if segments.len() == 0 {
        Seq::empty()
    } else {
        segment_text(segments[0]) + template_of(segments.skip(1))
    }
}

/// The names of the variables among `segments`, from left to right.
pub open spec fn variable_names(segments: Seq<SegmentView>) -> Seq<Seq<u8>>
    decreases segments.len(),
{
    if segments.len() == 0 {
        Seq::empty()
    } else {
        match segments.last() {
            SegmentView::Variable(name) => variable_names(segments.drop_last()).push(name),
            SegmentView::Literal(_) => variable_names(segments.drop_last()),
        }
    }
}

/// Every literal segment starts with `/`, and every variable has a name.
pub open spec fn well_formed(segments: Seq<SegmentView>) -> bool {
    forall|k: int|
        0 <= k < segments.len() ==> match #[trigger] segments[k] {
            SegmentView::Literal(text) => text.len() > 0 && text[0] == '/' as u8,
            SegmentView::Variable(name) => name.len() > 0,
        }
}

/// What may be left of a path behind the last segment: nothing, or one `/`.
pub open spec fn is_path_end(rest: Seq<u8>) -> bool {
    rest.len() == 0 || rest == seq!['/' as u8]
}

/// The texts that the variables of `segments[from..]` take from `path`, or
/// `None` where the path does not fit.
///
/// A literal must stand at the start of the path. A variable takes the
/// bytes up to the next `/`, or all of them where there is none. Behind the
/// last segment the path must end, but for one `/`.
pub open spec fn captures_from(segments: Seq<SegmentView>, from: int, path: Seq<u8>) -> Option<
    Seq<Seq<u8>>,
>
    decreases segments.len() - from,
{
    if from < 0 || from >= segments.len() {
        if is_path_end(path) {
            Some(Seq::empty())
        } else {
            None
        }
    } else {
        match segments[from] {
            SegmentView::Literal(text) => if occurs_at(path, text, 0) {
                captures_from(segments, from + 1, path.skip(text.len() as int))
            } else {
                None
            },
            SegmentView::Variable(_) => {
                let end = position(path, '/' as u8);
                match captures_from(segments, from + 1, path.skip(end)) {
                    Some(rest) => Some(seq![path.take(end)] + rest),
                    None => None,
                }
            },
        }
    }
}

/// The texts that the variables of a pattern take from `path`.
pub open spec fn captures(segments: Seq<SegmentView>, path: Seq<u8>) -> Option<Seq<Seq<u8>>> {
    captures_from(segments, 0, path)
}

/// `found` put behind the captures `taken` so far.
pub open spec fn behind(taken: Seq<Seq<u8>>, found: Option<Seq<Seq<u8>>>) -> Option<
    Seq<Seq<u8>>,
> {
    match found {
        Some(rest) => Some(taken + rest),
        None => None,
    }
}

/// The byte sequences that a list of slices holds.
pub open spec fn slices_view(slices: Seq<&[u8]>) -> Seq<Seq<u8>> {
    slices.map_values(|slice: &[u8]| slice@)
}

/// The bytes of each of a list of texts.
pub open spec fn texts_view(texts: Seq<&str>) -> Seq<Seq<u8>> {
    texts.map_values(|text: &str| text.spec_bytes())
}

/// Every one of `raws` is valid UTF-8.
pub open spec fn all_text(raws: Seq<Seq<u8>>) -> bool {
    forall|i: int| 0 <= i < raws.len() ==> valid_utf8(#[trigger] raws[i])
}

/// The byte sequences that a list of byte vectors holds.
pub open spec fn names_view(names: Seq<Vec<u8>>) -> Seq<Seq<u8>> {
    names.map_values(|name: Vec<u8>| name@)
}

/// The values of a list of results, where every one of them is a value.
pub open spec fn all_values<T>(results: Seq<Option<T>>) -> Option<Seq<T>> {
    if forall|i: int| 0 <= i < results.len() ==> (#[trigger] results[i]).is_some() {
        Some(results.map_values(|result: Option<T>| result.unwrap()))
    } else {
        None
    }
}

/// `results` are what the rule of `T` gave for `texts`, one by one.
pub open spec fn read_by<'a, T: FromRoute<'a>>(
    texts: Seq<&'a str>,
    results: Seq<Option<T>>,
) -> bool {
    &&& results.len() == texts.len()
    &&& forall|i: int|
        0 <= i < texts.len() ==> call_ensures(
            T::parse_path_variable,
            (#[trigger] texts[i],),
            results[i],
        )
}

/// `results` are what the rule of `T` gave for `texts` when it was applied
/// to them in turn, up to the first text for which it gave `None`: there
/// is a result for each text up to that one, every result before the last
/// is a value, and where texts are left over, the last result is `None`.
pub open spec fn read_in_turn<'a, T: FromRoute<'a>>(
    texts: Seq<&'a str>,
    results: Seq<Option<T>>,
) -> bool {
    &&& results.len() <= texts.len()
    &&& read_by(texts.take(results.len() as int), results)
    &&& forall|i: int| 0 <= i < results.len() - 1 ==> (#[trigger] results[i]).is_some()
    &&& results.len() < texts.len() ==> results.len() > 0 && results.last().is_none()
}

/// Gathers the values of a list of results: all of them, in order, or
/// `None` where one of the results is `None`.
pub fn gather<T>(results: Vec<Option<T>>) -> (values: Option<Vec<T>>)
    ensures
        match values {
            Some(all) => all_values(results@) == Some(all@),
            None => all_values(results@).is_none(),
        },
{
    let ghost given = results@;
    let mut left = results;
    let mut values: Vec<T> = Vec::new();
    let ghost mut done: int = 0;
    assert(given.skip(0) =~= given);
    while left.len() > 0
        invariant
            0 <= done <= given.len(),
            given == results@,
            left@ == given.skip(done),
            values@.len() == done,
            forall|j: int| 0 <= j < done ==> (#[trigger] given[j]) == Some(values@[j]),
        decreases left@.len(),
    {
        assert(given.skip(done).len() == given.len() - done);
        assert(given.skip(done)[0] == given[done]);
        match left.remove(0) {
            Some(value) => {
                values.push(value);
            },
            None => {
                assert(given[done].is_none());
                return None;
            },
        }
        proof {
            assert(left@ =~= given.skip(done + 1));
            done = done + 1;
        }
    }
    assert(values@ =~= given.map_values(|result: Option<T>| result.unwrap()));
    Some(values)
}

/// What stands behind text in a text is text: where `whole` is valid UTF-8
/// and so are its first `len` bytes, the bytes behind them are valid UTF-8.
pub proof fn lemma_text_behind_text(whole: Seq<u8>, len: int)
    requires
        valid_utf8(whole),
        0 <= len <= whole.len(),
        valid_utf8(whole.subrange(0, len)),
    ensures
        valid_utf8(whole.skip(len)),
    decreases whole.len(),
{
    if len == 0 {
        assert(whole.skip(0) =~= whole);
    } else {
        let head = whole.subrange(0, len);
        let width = length_of_first_scalar(whole);
        assert(head[0] == whole[0]);
        assert(length_of_first_scalar(head) == width);
        assert(width <= len);
        let rest = pop_first_scalar(whole);
        assert(rest.subrange(0, len - width) =~= pop_first_scalar(head));
        lemma_text_behind_text(rest, len - width);
        assert(rest.skip(len - width) =~= whole.skip(len));
    }
}

/// A text splits into texts at a `/`: where `path` is valid UTF-8, so are
/// its bytes before its first `/` and its bytes from there on.
pub proof fn lemma_text_around_slash(path: Seq<u8>)
    requires
        valid_utf8(path),
    ensures
        valid_utf8(path.take(position(path, '/' as u8))),
        valid_utf8(path.skip(position(path, '/' as u8))),
{
    lemma_position(path, '/' as u8);
    let end = position(path, '/' as u8);
    if end < path.len() {
        is_char_boundary_iff_not_is_continuation_byte(path, end);
        assert(is_char_boundary(path, end));
        valid_utf8_split(path, end);
        assert(path.take(end) =~= path.subrange(0, end));
        assert(path.skip(end) =~= path.subrange(end, path.len() as int));
    } else {
        assert(path.take(end) =~= path);
        assert(path.skip(end) =~= Seq::<u8>::empty());
    }
}

/// A text splits into texts at a byte of its own: where `text` is valid
/// UTF-8 and holds a byte below 128 at `at`, its bytes before `at`, its
/// bytes from `at` on and its bytes behind `at` are valid UTF-8.
pub proof fn lemma_text_around_byte(text: Seq<u8>, at: int)
    requires
        valid_utf8(text),
        0 <= at < text.len(),
        text[at] < 128,
    ensures
        valid_utf8(text.subrange(0, at)),
        valid_utf8(text.skip(at)),
        valid_utf8(text.skip(at + 1)),
{
    is_char_boundary_iff_not_is_continuation_byte(text, at);
    valid_utf8_split(text, at);
    let behind = text.skip(at);
    assert(behind =~= text.subrange(at, text.len() as int));
    assert(behind[0] == text[at]);
    assert(pop_first_scalar(behind) =~= text.skip(at + 1));
}

/// The literals of a text are text: where a template is valid UTF-8 from
/// `at` on, so is every literal segment parsed from there.
pub proof fn lemma_literals_are_text(template: Seq<u8>, at: int)
    requires
        0 <= at <= template.len(),
        valid_utf8(template.skip(at)),
    ensures
        literals_are_text(segments_from(template, at)),
    decreases template.len() - at,
{
    if at < template.len() {
        let rest = template.skip(at);
        lemma_position(template.skip(at + 1), '{' as u8);
        lemma_position(template.skip(at + 1), '}' as u8);
        match variable_close(template, at) {
            Some(close) => {
                let tail = segments_from(template, close + 1);
                assert(template.skip(at + 1)[close - at - 1] == template[close]);
                assert(rest[close - at] == template[close]);
                lemma_text_around_byte(rest, close - at);
                assert(rest.skip(close - at + 1) =~= template.skip(close + 1));
                lemma_literals_are_text(template, close + 1);
                let all = seq![SegmentView::Variable(template.subrange(at + 1, close))] + tail;
                assert forall|k: int| 0 <= k < all.len() implies match #[trigger] all[k] {
                    SegmentView::Literal(text) => valid_utf8(text),
                    SegmentView::Variable(_) => true,
                } by {
                    if k > 0 {
                        assert(all[k] == tail[k - 1]);
                    }
                }
            },
            None => {
                let end = literal_end(template, at);
                let tail = segments_from(template, end);
                let literal = template.subrange(at, end);
                if end < template.len() {
                    assert(template.skip(at + 1)[end - at - 1] == template[end]);
                    assert(rest[end - at] == template[end]);
                    lemma_text_around_byte(rest, end - at);
                    assert(rest.subrange(0, end - at) =~= literal);
                    assert(rest.skip(end - at) =~= template.skip(end));
                } else {
                    assert(literal =~= rest);
                    assert(template.skip(end) =~= Seq::<u8>::empty());
                }
                lemma_literals_are_text(template, end);
                let all = seq![SegmentView::Literal(literal)] + tail;
                assert forall|k: int| 0 <= k < all.len() implies match #[trigger] all[k] {
                    SegmentView::Literal(text) => valid_utf8(text),
                    SegmentView::Variable(_) => true,
                } by {
                    if k > 0 {
                        assert(all[k] == tail[k - 1]);
                    }
                }
            },
        }
    }
}

/// Every literal among `segments` is valid UTF-8.
pub open spec fn literals_are_text(segments: Seq<SegmentView>) -> bool {
    forall|k: int|
        0 <= k < segments.len() ==> match #[trigger] segments[k] {
            SegmentView::Literal(text) => valid_utf8(text),
            SegmentView::Variable(_) => true,
        }
}

/// Text stays text: where a path is valid UTF-8, and so is every literal
/// of a pattern that fits it, what each variable of the pattern takes is
/// valid UTF-8.
pub proof fn lemma_captures_are_text(segments: Seq<SegmentView>, from: int, path: Seq<u8>)
    requires
        0 <= from,
        valid_utf8(path),
        literals_are_text(segments),
        captures_from(segments, from, path).is_some(),
    ensures
        all_text(captures_from(segments, from, path).unwrap()),
    decreases segments.len() - from,
{
    if from < segments.len() {
        match segments[from] {
            SegmentView::Literal(text) => {
                lemma_text_behind_text(path, text.len() as int);
                lemma_captures_are_text(segments, from + 1, path.skip(text.len() as int));
            },
            SegmentView::Variable(_) => {
                lemma_text_around_slash(path);
                let end = position(path, '/' as u8);
                lemma_captures_are_text(segments, from + 1, path.skip(end));
                let rest = captures_from(segments, from + 1, path.skip(end)).unwrap();
                let all = seq![path.take(end)] + rest;
                assert forall|i: int| 0 <= i < all.len() implies valid_utf8(#[trigger] all[i]) by {
                    if i > 0 {
                        assert(all[i] == rest[i - 1]);
                    }
                }
            },
        }
    }
}

/// Parsing loses nothing: the segments of a template write the template.
pub proof fn lemma_template_round_trip(template: Seq<u8>)
    ensures
        template_of(segments_of(template)) == template,
{
    lemma_round_trip_from(template, 0);
    assert(template.skip(0) =~= template);
}

proof fn lemma_round_trip_from(template: Seq<u8>, at: int)
    requires
        0 <= at <= template.len(),
    ensures
        template_of(segments_from(template, at)) == template.skip(at),
    decreases template.len() - at,
{
    if at >= template.len() {
        assert(template.skip(at) =~= Seq::<u8>::empty());
    } else {
        match variable_close(template, at) {
            Some(close) => {
                let head = SegmentView::Variable(template.subrange(at + 1, close));
                let tail = segments_from(template, close + 1);
                lemma_position(template.skip(at + 1), '}' as u8);
                lemma_round_trip_from(template, close + 1);
                assert((seq![head] + tail).skip(1) =~= tail);
                assert(segment_text(head) + template.skip(close + 1) =~= template.skip(at));
            },
            None => {
                let end = literal_end(template, at);
                let head = SegmentView::Literal(template.subrange(at, end));
                let tail = segments_from(template, end);
                lemma_position(template.skip(at + 1), '{' as u8);
                lemma_round_trip_from(template, end);
                assert((seq![head] + tail).skip(1) =~= tail);
                assert(segment_text(head) + template.skip(end) =~= template.skip(at));
            },
        }
    }
}

impl PathPattern {
    /// Parses a path template.
    ///
    /// Every template parses. Whether the pattern is one that a route may
    /// be bound to is a question for [`PathPattern::is_well_formed`].
    pub fn parse(template: &str) -> (pattern: PathPattern)
        ensures
            pattern@ == segments_of(template.spec_bytes()),
            literals_are_text(pattern@),
    {
        let bytes = template.as_bytes();
        proof {
            encode_utf8_valid_utf8(template@);
            assert(bytes@.skip(0) =~= bytes@);
            lemma_literals_are_text(bytes@, 0);
        }
        let mut segments: Vec<PathSegment> = Vec::new();
        let mut at: usize = 0;
        let ghost view_of = |segment: PathSegment| segment@;
        assert(segments@.map_values(view_of) =~= Seq::<SegmentView>::empty());
        while at < bytes.len()
            invariant
                at <= bytes@.len(),
                view_of == |segment: PathSegment| segment@,
                segments_of(bytes@) == segments@.map_values(view_of) + segments_from(
                    bytes@,
                    at as int,
                ),
            decreases bytes@.len() - at,
        {
            let ghost before = segments@.map_values(view_of);
            let rest = slice_subrange(bytes, at + 1, bytes.len());
            assert(rest@ == bytes@.skip(at + 1));
            let mut close: Option<usize> = None;
            if bytes[at] == '{' as u8 {
                match find_byte('}' as u8, rest) {
                    Some(offset) => {
                        if offset > 0 {
                            close = Some(at + 1 + offset);
                        }
                    },
                    None => {},
                }
            }
            assert(match close {
                Some(c) => variable_close(bytes@, at as int) == Some(c as int),
                None => variable_close(bytes@, at as int).is_none(),
            });
            match close {
                Some(c) => {
                    let name = slice_to_vec(slice_subrange(bytes, at + 1, c));
                    segments.push(PathSegment::Variable(name));
                    at = c + 1;
                },
                None => {
                    let end: usize = match find_byte('{' as u8, rest) {
                        Some(offset) => at + 1 + offset,
                        None => bytes.len(),
                    };
                    let text = slice_to_vec(slice_subrange(bytes, at, end));
                    segments.push(PathSegment::Literal(text));
                    at = end;
                },
            }
            proof {
                let after = segments@.map_values(view_of);
                assert(after =~= before.push(after.last()));
                assert(before.push(after.last()) + segments_from(bytes@, at as int) =~= before + (
                seq![after.last()] + segments_from(bytes@, at as int)));
            }
        }
        PathPattern { segments }
    }

    /// Tests whether every literal segment starts with `/` and every
    /// variable has a name.
    pub fn is_well_formed(&self) -> (yes: bool)
        ensures
            yes == well_formed(self@),
    {
        let mut k: usize = 0;
        while k < self.segments.len()
            invariant
                k <= self.segments@.len(),
                forall|j: int|
                    0 <= j < k ==> match #[trigger] self@[j] {
                        SegmentView::Literal(text) => text.len() > 0 && text[0] == '/' as u8,
                        SegmentView::Variable(name) => name.len() > 0,
                    },
            decreases self.segments@.len() - k,
        {
            let fine: bool = match &self.segments[k] {
                PathSegment::Literal(text) => text.len() > 0 && text[0] == '/' as u8,
                PathSegment::Variable(name) => name.len() > 0,
            };
            if !fine {
                assert(self@[k as int] == self.segments@[k as int]@);
                return false;
            }
            assert(self@[k as int] == self.segments@[k as int]@);
            k += 1;
        }
        true
    }

    /// The names of the pattern's variables, from left to right.
    pub fn variables(&self) -> (names: Vec<Vec<u8>>)
        ensures
            names_view(names@) == variable_names(self@),
    {
        let mut names: Vec<Vec<u8>> = Vec::new();
        let mut k: usize = 0;
        assert(self@.take(0) =~= Seq::<SegmentView>::empty());
        assert(names_view(names@) =~= Seq::<Seq<u8>>::empty());
        while k < self.segments.len()
            invariant
                k <= self.segments@.len(),
                names_view(names@) == variable_names(self@.take(k as int)),
            decreases self.segments@.len() - k,
        {
            let ghost before = names_view(names@);
            assert(self@.take(k + 1).drop_last() =~= self@.take(k as int));
            assert(self@.take(k + 1).last() == self.segments@[k as int]@);
            match &self.segments[k] {
                PathSegment::Variable(name) => {
                    names.push(slice_to_vec(name.as_slice()));
                    assert(names_view(names@) =~= before.push(name@));
                },
                PathSegment::Literal(_) => {},
            }
            k += 1;
        }
        assert(self@.take(k as int) =~= self@);
        names
    }

    /// Matches `path` against the pattern.
    ///
    /// Returns the text that each variable takes, from left to right,
    /// borrowed from `path`; `None` where the path does not fit.
    pub fn match_path<'a>(&self, path: &'a [u8]) -> (found: Option<Vec<&'a [u8]>>)
        ensures
            match found {
                Some(taken) => captures(self@, path@) == Some(slices_view(taken@)),
                None => captures(self@, path@).is_none(),
            },
    {
        let mut taken: Vec<&'a [u8]> = Vec::new();
        let mut rest: &'a [u8] = path;
        let mut k: usize = 0;
        assert(slices_view(taken@) =~= Seq::<Seq<u8>>::empty());
        assert(behind(Seq::empty(), captures_from(self@, 0, path@)) =~= captures(self@, path@)) by {
            match captures_from(self@, 0, path@) {
                Some(all) => assert(Seq::<Seq<u8>>::empty() + all =~= all),
                None => {},
            }
        }
        while k < self.segments.len()
            invariant
                k <= self.segments@.len(),
                captures(self@, path@) == behind(
                    slices_view(taken@),
                    captures_from(self@, k as int, rest@),
                ),
            decreases self.segments@.len() - k,
        {
            let ghost before = slices_view(taken@);
            assert(self@[k as int] == self.segments@[k as int]@);
            match &self.segments[k] {
                PathSegment::Literal(text) => {
                    if !holds_at(rest, 0, text.as_slice()) {
                        return None;
                    }
                    rest = slice_subrange(rest, text.len(), rest.len());
                },
                PathSegment::Variable(_) => {
                    let end: usize = match find_byte('/' as u8, rest) {
                        Some(offset) => offset,
                        None => rest.len(),
                    };
                    let ghost old_rest = rest@;
                    let taken_here = slice_subrange(rest, 0, end);
                    taken.push(taken_here);
                    rest = slice_subrange(rest, end, rest.len());
                    proof {
                        assert(slices_view(taken@) =~= before.push(old_rest.take(end as int)));
                        match captures_from(self@, k + 1, rest@) {
                            Some(more) => {
                                assert(before + (seq![old_rest.take(end as int)] + more)
                                    =~= before.push(old_rest.take(end as int)) + more);
                            },
                            None => {},
                        }
                    }
                },
            }
            k += 1;
        }
        let ends: bool = rest.len() == 0 || (rest.len() == 1 && rest[0] == '/' as u8);
        proof {
            if rest@.len() == 1 && rest@[0] == '/' as u8 {
                assert(rest@ =~= seq!['/' as u8]);
            }
            if ends {
                assert(slices_view(taken@) + Seq::<Seq<u8>>::empty() =~= slices_view(taken@));
            }
        }
        if ends {
            Some(taken)
        } else {
            None
        }
    }

    /// Matches `path` against the pattern, and hands out what the variables
    /// take as text.
    ///
    /// Returns the text that each variable takes, from left to right,
    /// borrowed from `path`; `None` where the path does not fit. With a
    /// pattern whose literals are not all valid UTF-8, as none that
    /// `parse` returns is, what a variable takes may fail to be text, and
    /// the result is `None` then too.
    pub fn match_text<'a>(&self, path: &'a str) -> (found: Option<Vec<&'a str>>)
        ensures
            match found {
                Some(texts) => captures(self@, path.spec_bytes()) == Some(texts_view(texts@)),
                None => match captures(self@, path.spec_bytes()) {
                    Some(raws) => !all_text(raws) && !literals_are_text(self@),
                    None => true,
                },
            },
    {
        proof {
            encode_utf8_valid_utf8(path@);
            if literals_are_text(self@) && captures(self@, path.spec_bytes()).is_some() {
                lemma_captures_are_text(self@, 0, path.spec_bytes());
            }
        }
        let taken = match self.match_path(path.as_bytes()) {
            Some(taken) => taken,
            None => {
                return None;
            },
        };
        let ghost raws = slices_view(taken@);
        let mut texts: Vec<&'a str> = Vec::new();
        let mut i: usize = 0;
        while i < taken.len()
            invariant
                i <= taken@.len(),
                raws == slices_view(taken@),
                captures(self@, path.spec_bytes()) == Some(raws),
                literals_are_text(self@) ==> all_text(raws),
                texts@.len() == i,
                forall|j: int| 0 <= j < i ==> (#[trigger] texts@[j]).spec_bytes() == raws[j],
            decreases taken@.len() - i,
        {
            let raw: &'a [u8] = taken[i];
            match as_text(raw) {
                Some(text) => {
                    texts.push(text);
                },
                None => {
                    assert(!valid_utf8(raws[i as int]));
                    return None;
                },
            }
            i += 1;
        }
        assert(texts_view(texts@) =~= raws);
        Some(texts)
    }

    /// Matches `path` against the pattern and reads a value of type `T`
    /// from what each variable takes, by the rule of `T`.
    ///
    /// Where the path fits, the rule of `T` is applied to the text that each
    /// variable takes, from left to right, up to the first text for which
    /// it gives `None`. The result holds the values that the rule gave, one
    /// for each variable; it is `None` where the rule gave `None` for a
    /// text. A pattern without variables that fits therefore gives an empty
    /// list. The result is `None` as well where the path does not fit, or
    /// where what a variable takes is not valid UTF-8.
    pub fn match_as<'a, T: FromRoute<'a>>(&self, path: &'a str) -> (found: Option<Vec<T>>)
        ensures
            match captures(self@, path.spec_bytes()) {
                Some(raws) => if all_text(raws) {
                    exists|texts: Seq<&'a str>, results: Seq<Option<T>>|
                        {
                            &&& texts_view(texts) == raws
                            &&& #[trigger] read_in_turn(texts, results)
                            &&& match found {
                                Some(values) => all_values(results) == Some(values@)
                                    && values@.len() == raws.len(),
                                None => all_values(results).is_none(),
                            }
                        }
                } else {
                    found.is_none()
                },
                None => found.is_none(),
            },
    {
        let texts = match self.match_text(path) {
            Some(texts) => texts,
            None => {
                return None;
            },
        };
        let ghost raws = texts_view(texts@);
        assert(all_text(raws)) by {
            assert forall|i: int| 0 <= i < raws.len() implies valid_utf8(#[trigger] raws[i]) by {
                encode_utf8_valid_utf8(texts@[i]@);
            }
        }
        let mut results: Vec<Option<T>> = Vec::new();
        let mut refused: bool = false;
        let mut i: usize = 0;
        while i < texts.len() && !refused
            invariant
                i <= texts@.len(),
                results@.len() == i,
                refused == (i > 0 && results@[i - 1].is_none()),
                forall|j: int| 0 <= j < i - 1 ==> (#[trigger] results@[j]).is_some(),
                forall|j: int|
                    0 <= j < i ==> call_ensures(
                        T::parse_path_variable,
                        (#[trigger] texts@[j],),
                        results@[j],
                    ),
            decreases texts@.len() - i,
        {
            let text: &'a str = texts[i];
            let result = T::parse_path_variable(text);
            refused = result.is_none();
            results.push(result);
            i += 1;
        }
        proof {
            let read = texts@.take(results@.len() as int);
            assert forall|j: int| 0 <= j < read.len() implies call_ensures(
                T::parse_path_variable,
                (#[trigger] read[j],),
                results@[j],
            ) by {
                assert(read[j] == texts@[j]);
            }
            assert(read_in_turn(texts@, results@));
        }
        gather(results)
    }
}

} // verus!
