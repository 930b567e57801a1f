//! Debian version numbers, parsed and written by the `debian` crate.

use vstd::prelude::*;
use vstd::string::*;
use debian::Version;
use crate::error::ParseError;
use crate::text::{is_digit, is_digit_char};

verus! {

/// `debian::Version`, taken as it is: a version is carried from where it
/// is read to where it is written, and spoken of through `version_text`
/// and `version_parts`.
#[verifier::external_type_specification]
#[verifier::external_body]
pub struct ExVersion(Version);

/// The text that the `debian` crate writes for a version.
pub uninterp spec fn version_text(v: Version) -> Seq<char>;

/// What the `debian` crate reads from `text`: the version it finds, given
/// by the text it writes for that version, or the reason for which it
/// rejects `text`.
pub uninterp spec fn parsed_version(text: Seq<char>) -> Result<Seq<char>, Seq<char>>;

/// The three parts of a version, the upstream version and the revision as
/// texts. A version without an epoch has the epoch zero; one without a
/// revision has the empty revision.
pub struct VersionParts {
    pub epoch: nat,
    pub upstream: Seq<char>,
    pub revision: Seq<char>,
}

/// The parts that a version of the `debian` crate holds: its epoch, and
/// the texts that the crate writes for its upstream version and for its
/// revision.
pub uninterp spec fn version_parts(v: Version) -> VersionParts;

/// The most decimal digits in a row that are read as one number. A number
/// of that many digits is below `10^19`, which a `u64` holds.
pub const DIGIT_LIMIT: usize = 19;

/// The number of digits at the end of `text`.
pub open spec fn trailing_digits(text: Seq<char>) -> nat
    decreases text.len(),
{
    if text.len() == 0 || !is_digit(text.last()) {
        0
    } else {
        1 + trailing_digits(text.drop_last())
    }
}

/// The length of the longest run of digits in `text`.
pub open spec fn longest_digit_run(text: Seq<char>) -> nat
    decreases text.len(),
{
    if text.len() == 0 {
        0
    } else {
        let before = longest_digit_run(text.drop_last());
        let here = trailing_digits(text);
        if before >= here {
            before
        } else {
            here
        }
    }
}

/// The reason given for a text with a number of more than `DIGIT_LIMIT`
/// digits.
pub open spec fn too_many_digits() -> Seq<char> {
    "a number has too many digits"@
}

/// What reading `text` as a version gives: a text with too long a number
/// is rejected by this library, every other text is read by the `debian`
/// crate.
pub open spec fn read_version(text: Seq<char>) -> Result<Seq<char>, Seq<char>> {
    if longest_digit_run(text) > DIGIT_LIMIT {
        Err(too_many_digits())
    } else {
        parsed_version(text)
    }
}

/// No run of digits is longer than the text.
pub proof fn lemma_digit_run_within_length(text: Seq<char>)
    ensures
        trailing_digits(text) <= text.len(),
        longest_digit_run(text) <= text.len(),
    decreases text.len(),
{
    if text.len() > 0 {
        lemma_digit_run_within_length(text.drop_last());
    }
}

/// Whether every run of digits in `text` has at most `DIGIT_LIMIT` digits.
pub fn digit_runs_fit(text: &str) -> (fits: bool)
    ensures
        fits == (longest_digit_run(text@) <= DIGIT_LIMIT),
{
    let mut run: usize = 0;
    let mut fits = true;
    for c in it: text.chars()
        invariant
            it.seq() == text@,
            run <= DIGIT_LIMIT + 1,
            run <= DIGIT_LIMIT ==> run == trailing_digits(text@.take(it.index() as int)),
            run > DIGIT_LIMIT ==> trailing_digits(text@.take(it.index() as int)) > DIGIT_LIMIT,
            fits == (longest_digit_run(text@.take(it.index() as int)) <= DIGIT_LIMIT),
    {
        proof {
            let before = text@.take(it.index() as int);
            let after = text@.take(it.index() + 1);
            assert(after.drop_last() =~= before);
            assert(after.last() == c);
        }
        if is_digit_char(c) {
            if run <= DIGIT_LIMIT {
                run += 1;
            }
        } else {
            run = 0;
        }
        if run > DIGIT_LIMIT {
            fits = false;
        }
    }
    assert(text@.take(text@.len() as int) =~= text@);
    fits
}

/// Calls `debian::Version::parse`. The result is named by
/// `parsed_version`. Two things are stated beyond the name. The parser
/// adds up each run of digits in a `u64`, so texts with a run that may not
/// fit are left out. And a text without a colon has no epoch that could be
/// rejected, so it is always read.
#[verifier::external_body]
pub(crate) fn parse_outside(text: &str) -> (r: Result<Version, String>)
    requires
        longest_digit_run(text@) <= DIGIT_LIMIT,
    ensures
        match r {
            Ok(v) => parsed_version(text@) == Ok::<_, Seq<char>>(version_text(v)),
            Err(reason) => parsed_version(text@) == Err::<Seq<char>, _>(reason@),
        },
        !text@.contains(':') ==> r is Ok,
{
    match Version::parse(text) {
        Ok(v) => Ok(v),
        Err(e) => Err(e.msg),
    }
}

/// Reads the epoch off a `debian::Version` and calls the `Display` of its
/// upstream version and of its revision. What comes back is named by
/// `version_parts`.
#[verifier::external_body]
pub(crate) fn parts_outside(v: &Version) -> (parts: (u32, String, String))
    ensures
        parts.0 == version_parts(*v).epoch,
        parts.1@ == version_parts(*v).upstream,
        parts.2@ == version_parts(*v).revision,
{
    (v.epoch, v.upstream_version.to_string(), v.debian_revision.to_string())
}

/// Reads `text` as a version.
pub fn parse_version(text: &str) -> (r: Result<Version, ParseError>)
    ensures
        match r {
            Ok(v) => read_version(text@) == Ok::<_, Seq<char>>(version_text(v)),
            Err(e) => e.text@ == text@ && read_version(text@) == Err::<Seq<char>, _>(e.reason@),
        },
        longest_digit_run(text@) <= DIGIT_LIMIT && !text@.contains(':') ==> r is Ok,
{
    if !digit_runs_fit(text) {
        return Err(
            ParseError {
                text: String::from_str(text),
                reason: String::from_str("a number has too many digits"),
            },
        );
    }
    match parse_outside(text) {
        Ok(v) => Ok(v),
        Err(reason) => Err(ParseError { text: String::from_str(text), reason: reason }),
    }
}

} // verus!
