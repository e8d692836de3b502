//! What holds of annotations in general.

use crate::decimal::{decimal, is_digit, lemma_decimal_is_digits, lemma_decimal_is_injective};
use crate::location::{
    comma_space, detailed_location, place_text, plain_location, LocationView,
};
use crate::scope::{
    closure_marker, enclosing_scope, has_suffix, lemma_scope_holds_no_marker,
    lemma_scope_of_nested, nested, occurs_in,
};
use crate::{described_context, message, plain_context, prefix, SqlxError, SqlxErrorView};
use vstd::prelude::*;

verus! {

/// Whether `text` holds no comma.
pub open spec fn has_no_comma(text: Seq<char>) -> bool {
    forall|i: int| 0 <= i < text.len() ==> #[trigger] text[i] != ','
}

/// The message of a failure annotated without a description is the
/// prefix, a space and the path of the enclosing function, whatever the
/// failure and however often the annotation is made.
pub proof fn lemma_plain_message(raw: Seq<char>)
    ensures
        message(plain_context(plain_location(raw))) == prefix() + seq![' '] + enclosing_scope(raw),
{
}

/// The message of a failure annotated with a description is the message of
/// the same annotation without one, followed by the location's separator
/// and the description.
pub proof fn lemma_description_is_appended(location: LocationView, description: Seq<char>)
    ensures
        message(described_context(location, description)) == message(plain_context(location))
            + location.separator() + description,
{
    assert(message(described_context(location, description)) =~= message(plain_context(location))
        + location.separator() + description);
}

/// Plain locations taken in two different functions differ, from whatever
/// depth of closures each was taken.
pub proof fn lemma_distinct_functions_distinct_plain_locations(
    first: Seq<char>,
    first_depth: nat,
    second: Seq<char>,
    second_depth: nat,
)
    requires
        !has_suffix(first, closure_marker()),
        !has_suffix(second, closure_marker()),
        first != second,
    ensures
        plain_location(nested(first, first_depth)).text() != plain_location(
            nested(second, second_depth),
        ).text(),
{
    lemma_scope_of_nested(first, first_depth);
    lemma_scope_of_nested(second, second_depth);
}

/// A place holds no comma where the name of its file holds none.
pub proof fn lemma_place_has_no_comma(file: Seq<char>, line: nat, column: nat)
    requires
        has_no_comma(file),
    ensures
        has_no_comma(place_text(file, line, column)),
{
    lemma_decimal_is_digits(line);
    lemma_decimal_is_digits(column);
    let place = place_text(file, line, column);
    let lines = decimal(line);
    let columns = decimal(column);
    assert forall|i: int| 0 <= i < place.len() implies #[trigger] place[i] != ',' by {
        if i < file.len() {
            assert(place[i] == file[i]);
        } else if i == file.len() {
            assert(place[i] == ':');
        } else if i < file.len() + 1 + lines.len() {
            assert(place[i] == lines[i - file.len() - 1]);
            assert(is_digit(lines[i - file.len() - 1]));
        } else if i == file.len() + 1 + lines.len() {
            assert(place[i] == ':');
        } else {
            assert(place[i] == columns[i - file.len() - lines.len() - 2]);
            assert(is_digit(columns[i - file.len() - lines.len() - 2]));
        }
    }
}

/// Of two texts made of a scope, a comma, a space and a place without a
/// comma, the one with the shorter scope differs from the other.
proof fn lemma_shorter_scope_differs(
    short: Seq<char>,
    short_place: Seq<char>,
    long: Seq<char>,
    long_place: Seq<char>,
)
    requires
        short.len() < long.len(),
        has_no_comma(short_place),
    ensures
        short + comma_space() + short_place != long + comma_space() + long_place,
{
    let a = short + comma_space() + short_place;
    let b = long + comma_space() + long_place;
    if a == b {
        let k = long.len() as int;
        assert(b[k] == ',');
        assert(a.len() == b.len());
        if k == short.len() + 1 {
            assert(a[k] == ' ');
        } else {
            assert(a[k] == short_place[k - short.len() - 2]);
        }
    }
}

/// Detailed locations taken in two different functions differ, from
/// whatever depth of closures each was taken, where the names of the two
/// files hold no comma.
pub proof fn lemma_distinct_functions_distinct_detailed_locations(
    first: Seq<char>,
    first_depth: nat,
    first_file: Seq<char>,
    first_line: nat,
    first_column: nat,
    second: Seq<char>,
    second_depth: nat,
    second_file: Seq<char>,
    second_line: nat,
    second_column: nat,
)
    requires
        !has_suffix(first, closure_marker()),
        !has_suffix(second, closure_marker()),
        first != second,
        has_no_comma(first_file),
        has_no_comma(second_file),
    ensures
        detailed_location(nested(first, first_depth), first_file, first_line, first_column).text()
            != detailed_location(
            nested(second, second_depth),
            second_file,
            second_line,
            second_column,
        ).text(),
{
    lemma_scope_of_nested(first, first_depth);
    lemma_scope_of_nested(second, second_depth);
    lemma_place_has_no_comma(first_file, first_line, first_column);
    lemma_place_has_no_comma(second_file, second_line, second_column);
    let first_place = place_text(first_file, first_line, first_column);
    let second_place = place_text(second_file, second_line, second_column);
    let a = first + comma_space() + first_place;
    let b = second + comma_space() + second_place;
    if first.len() < second.len() {
        lemma_shorter_scope_differs(first, first_place, second, second_place);
    } else if second.len() < first.len() {
        lemma_shorter_scope_differs(second, second_place, first, first_place);
    } else if a == b {
        assert(a.subrange(0, first.len() as int) =~= first);
        assert(b.subrange(0, second.len() as int) =~= second);
    }
}

/// Of two texts made of digits, a colon and a rest, the one with fewer
/// digits before the colon differs from the other.
proof fn lemma_fewer_digits_differ(
    short: Seq<char>,
    short_rest: Seq<char>,
    long: Seq<char>,
    long_rest: Seq<char>,
)
    requires
        short.len() < long.len(),
        forall|i: int| 0 <= i < long.len() ==> is_digit(#[trigger] long[i]),
    ensures
        short + seq![':'] + short_rest != long + seq![':'] + long_rest,
{
    let a = short + seq![':'] + short_rest;
    let b = long + seq![':'] + long_rest;
    if a == b {
        let k = short.len() as int;
        assert(a[k] == ':');
        assert(b[k] == long[k]);
        assert(is_digit(long[k]));
    }
}

/// Detailed locations taken in one function and one file at two different
/// positions differ.
pub proof fn lemma_distinct_positions_distinct_locations(
    raw: Seq<char>,
    file: Seq<char>,
    first_line: nat,
    first_column: nat,
    second_line: nat,
    second_column: nat,
)
    requires
        first_line != second_line || first_column != second_column,
    ensures
        detailed_location(raw, file, first_line, first_column).text() != detailed_location(
            raw,
            file,
            second_line,
            second_column,
        ).text(),
{
    let head = enclosing_scope(raw) + comma_space() + file + seq![':'];
    let first_lines = decimal(first_line);
    let first_columns = decimal(first_column);
    let second_lines = decimal(second_line);
    let second_columns = decimal(second_column);
    let first_tail = first_lines + seq![':'] + first_columns;
    let second_tail = second_lines + seq![':'] + second_columns;
    let a = detailed_location(raw, file, first_line, first_column).text();
    let b = detailed_location(raw, file, second_line, second_column).text();
    assert(a =~= head + first_tail);
    assert(b =~= head + second_tail);
    lemma_decimal_is_digits(first_line);
    lemma_decimal_is_digits(second_line);
    if a == b {
        assert(first_tail =~= a.subrange(head.len() as int, a.len() as int));
        assert(second_tail =~= b.subrange(head.len() as int, b.len() as int));
        if first_lines.len() < second_lines.len() {
            lemma_fewer_digits_differ(first_lines, first_columns, second_lines, second_columns);
        } else if second_lines.len() < first_lines.len() {
            lemma_fewer_digits_differ(second_lines, second_columns, first_lines, first_columns);
        } else {
            let width = first_lines.len() as int;
            assert(first_lines =~= first_tail.subrange(0, width));
            assert(second_lines =~= second_tail.subrange(0, width));
            assert(first_columns =~= first_tail.subrange(width + 1, first_tail.len() as int));
            assert(second_columns =~= second_tail.subrange(width + 1, second_tail.len() as int));
            lemma_decimal_is_injective(first_line, second_line);
            lemma_decimal_is_injective(first_column, second_column);
        }
    }
}

/// A location taken inside closures in a function whose path holds no
/// closure marker has that path as its scope, and the plain location
/// holds no marker.
pub proof fn lemma_location_holds_no_marker(
    path: Seq<char>,
    depth: nat,
    file: Seq<char>,
    line: nat,
    column: nat,
)
    requires
        !occurs_in(closure_marker(), path),
    ensures
        plain_location(nested(path, depth)).text() == path,
        !occurs_in(closure_marker(), plain_location(nested(path, depth)).text()),
        detailed_location(nested(path, depth), file, line, column).scope == path,
{
    lemma_scope_holds_no_marker(path, depth);
}

/// The cause of an annotated failure is the failure that was wrapped,
/// unchanged, whatever the context.
pub proof fn lemma_cause_is_kept<E>(cause: E, context: Seq<char>)
    ensures
        (SqlxErrorView { cause, context }).source() == Some(&cause),
{
}

/// Annotating an annotated failure nests it: the cause of the outer one is
/// the inner one, with its own context and its own cause, and the outer
/// message holds the outer context alone.
pub proof fn lemma_annotating_twice_nests<E>(inner: SqlxError<E>, context: Seq<char>)
    ensures
        (SqlxErrorView { cause: inner, context }).source() == Some(&inner),
        (SqlxErrorView { cause: inner, context }).source().unwrap()@.source() == Some(
            &inner@.cause,
        ),
        (SqlxErrorView { cause: inner, context }).message() == message(context),
{
}

} // verus!
