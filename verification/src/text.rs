//! Writing texts to a formatter.
use std::fmt;
use vstd::prelude::*;

verus! {

/// Trusted: the type `std::fmt::Formatter`, of which nothing is known but what the functions below
/// say.
#[verifier::external_type_specification]
#[verifier::external_body]
pub struct ExFormatter<'a>(std::fmt::Formatter<'a>);

/// Trusted: the type `std::fmt::Error`, of which nothing is known.
#[verifier::external_type_specification]
#[verifier::external_body]
pub struct ExFmtError(std::fmt::Error);

/// The text that a formatter has taken so far.
pub uninterp spec fn written(f: std::fmt::Formatter<'_>) -> Seq<char>;

/// Writes a text.
///
/// Trusted: where `std::fmt::Formatter::write_str` succeeds, the formatter has taken the whole
/// text, and nothing else. Whether it succeeds is up to what is behind the formatter, and is not
/// stated.
#[verifier::external_body]
pub(crate) fn write_text(f: &mut fmt::Formatter<'_>, text: &str) -> (result: fmt::Result)
    ensures
        result is Ok ==> written(*final(f)) == written(*old(f)) + text@,
{
    f.write_str(text)
}

/// Writes what `{:?}` shows for a value.
///
/// Trusted: where `std::fmt::Formatter::write_fmt` succeeds, the formatter has taken some text in
/// addition to what it had taken before. Which text that is rests on how the type of the value
/// implements `Debug`, and is not stated.
#[verifier::external_body]
pub(crate) fn write_debug<E: fmt::Debug>(f: &mut fmt::Formatter<'_>, value: &E) -> (result:
    fmt::Result)
    ensures
        result is Ok ==> written(*old(f)).is_prefix_of(written(*final(f))),
{
    write!(f, "{:?}", value)
}

/// Writes a text, what `{:?}` shows for a value, and another text.
pub(crate) fn write_around<E: fmt::Debug>(
    f: &mut fmt::Formatter<'_>,
    before: &str,
    value: &E,
    after: &str,
) -> (result: fmt::Result)
    ensures
        result is Ok ==> exists|shown: Seq<char>|
            written(*final(f)) == written(*old(f)) + #[trigger] (before@ + shown + after@),
{
    match write_text(f, before) {
        Ok(_) => {},
        Err(e) => {
            return Err(e);
        },
    }
    let ghost begun = written(*f);
    match write_debug(f, value) {
        Ok(_) => {},
        Err(e) => {
            return Err(e);
        },
    }
    let ghost shown = written(*f).skip(begun.len() as int);
    assert(written(*f) =~= begun + shown);
    let result = write_text(f, after);
    assert(result is Ok ==> written(*f) =~= written(*old(f)) + (before@ + shown + after@));
    result
}

} // verus!
