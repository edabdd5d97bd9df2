//! HTTP header fields, kept in the `HeaderMap` that the HTTP server uses.
use hyper::HeaderMap;
use vstd::prelude::*;
use vstd::utf8::encode_utf8;

verus! {

/// `hyper::HeaderMap`, the multimap of header fields. Its contents are `header_values`.
#[verifier::external_type_specification]
#[verifier::external_body]
#[verifier::reject_recursive_types(T)]
pub struct ExHeaderMap<T>(hyper::HeaderMap<T>);

/// `hyper::header::HeaderValue`, the type of the values that a `HeaderMap` holds.
#[verifier::external_type_specification]
#[verifier::external_body]
pub struct ExHeaderValue(hyper::header::HeaderValue);

/// Header fields: under each name, in lower case, its values as bytes, oldest first.
pub type Fields = Map<Seq<char>, Seq<Seq<u8>>>;

/// What a `HeaderMap` holds.
pub uninterp spec fn header_values(headers: HeaderMap) -> Fields;

/// The first value of the field `name`, where there is one.
pub open spec fn first_value(fields: Fields, name: Seq<char>) -> Option<
    Seq<u8>,
> {
    if fields.contains_key(name) && fields[name].len() > 0 {
        Some(fields[name][0])
    } else {
        None
    }
}

/// The fields after one more value was given for `name`.
pub open spec fn with_value(
    fields: Fields,
    name: Seq<char>,
    value: Seq<u8>,
) -> Fields {
    if fields.contains_key(name) {
        fields.insert(name, fields[name].push(value))
    } else {
        fields.insert(name, seq![value])
    }
}

/// A character of a header name in lower case.
pub open spec fn is_name_char(c: char) -> bool {
    ('a' <= c && c <= 'z') || ('0' <= c && c <= '9') || c == '-'
}

/// A header name in lower case, short enough for any use of it.
pub open spec fn is_header_name(name: Seq<char>) -> bool {
    0 < name.len() <= 64 && forall|i: int| 0 <= i < name.len() ==> is_name_char(#[trigger] name[i])
}

/// A printable ASCII character.
pub open spec fn is_printable(c: char) -> bool {
    ' ' <= c && c <= '~'
}

/// Text that stands in a header value as it is.
pub open spec fn is_printable_text(text: Seq<char>) -> bool {
    forall|i: int| 0 <= i < text.len() ==> is_printable(#[trigger] text[i])
}

/// `HeaderMap::new`: a map without any field.
#[verifier::external_body]
pub(crate) fn no_headers() -> (res: HeaderMap)
    ensures
        header_values(res) == Fields::empty(),
{
    HeaderMap::new()
}

/// `HeaderMap::get`: the first value of the field `name`, as bytes.
#[verifier::external_body]
pub(crate) fn get_header<'a>(headers: &'a HeaderMap, name: &str) -> (value: Option<&'a [u8]>)
    requires
        is_header_name(name@),
    ensures
        match value {
            Some(v) => first_value(header_values(*headers), name@) == Some(v@),
            None => first_value(header_values(*headers), name@) is None,
        },
{
    match headers.get(name) {
        Some(value) => Some(value.as_bytes()),
        None => None,
    }
}

/// `HeaderMap::append`, with the value made by `HeaderValue::from_str`: the value
/// joins those that the field has, at the end. The map panics where it would have to
/// grow beyond its limit, which is far above the bound asked for here.
#[verifier::external_body]
pub(crate) fn append_header(headers: &mut HeaderMap, name: &'static str, value: &str)
    requires
        is_header_name(name@),
        is_printable_text(value@),
        header_values(*old(headers)).dom().len() <= 1000,
    ensures
        header_values(*final(headers)) == with_value(
            header_values(*old(headers)),
            name@,
            encode_utf8(value@),
        ),
{
    headers.append(name, value.parse().unwrap());
}

/// The first value of a field is the one that was given first, and stays so whatever is
/// given later.
pub proof fn law_first_value_stays(fields: Fields, name: Seq<char>, value: Seq<u8>)
    requires
        fields.contains_key(name) ==> fields[name].len() > 0,
    ensures
        !fields.contains_key(name) ==> first_value(fields, name) is None,
        fields.contains_key(name) ==> first_value(fields, name) == Some(fields[name][0]),
        !fields.contains_key(name) ==> first_value(with_value(fields, name, value), name) == Some(
            value,
        ),
        fields.contains_key(name) ==> first_value(with_value(fields, name, value), name)
            == first_value(fields, name),
{
}

/// A value that is given for a field joins its values at the end, and no other field
/// changes.
pub proof fn law_value_joins_at_the_end(
    fields: Fields,
    name: Seq<char>,
    value: Seq<u8>,
    other: Seq<char>,
)
    requires
        other != name,
    ensures
        with_value(fields, name, value).contains_key(name),
        with_value(fields, name, value)[name].last() == value,
        with_value(fields, name, value)[name].drop_last() == (if fields.contains_key(name) {
            fields[name]
        } else {
            Seq::empty()
        }),
        with_value(fields, name, value).contains_key(other) <==> fields.contains_key(other),
        fields.contains_key(other) ==> with_value(fields, name, value)[other] == fields[other],
{
    let values = with_value(fields, name, value)[name];
    if fields.contains_key(name) {
        assert(values.drop_last() =~= fields[name]);
    } else {
        assert(values.drop_last() =~= Seq::empty());
    }
}

} // verus!
