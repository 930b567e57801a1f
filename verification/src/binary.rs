//! The binary paragraphs of the control file: two for each packaged
//! library, one for the dynamic library and one for the development files.

use vstd::prelude::*;
use vstd::string::*;
use debian::control::{ControlFile, ControlParagraph};
use crate::control::{file_paragraphs, paragraph_entries, Entry};
use crate::project::{is_release_lib, BuildTarget};
use crate::text::{concat2, concat3, fold, fold_lines, option_text, trimmed};

verus! {

/// The long description of the packages: the project's description
/// without the white space at its ends, each line after the first behind a
/// blank.
pub open spec fn long_description(description: Option<String>) -> Option<Seq<char>> {
    match description {
        Some(text) => Some(fold_lines(trimmed(text@))),
        None => None,
    }
}

/// The value of `Description`: the package, what it holds, and, where the
/// project describes itself, its description and a closing sentence.
pub open spec fn description_text(
    deb_name: Seq<char>,
    summary: Seq<char>,
    long: Option<Seq<char>>,
    closing: Seq<char>,
) -> Seq<char> {
    deb_name + summary + (match long {
        Some(text) => "\n "@ + text + closing,
        None => Seq::empty(),
    })
}

/// The four fields that follow `Package` in each binary paragraph but for
/// the description's text.
pub open spec fn binary_entries(package: Seq<char>, description: Seq<char>) -> Seq<Entry> {
    seq![
        ("Package"@, package),
        ("Architecture"@, "amd64 i386"@),
        ("Pre-Depends"@, "${misc:Pre-Depends}"@),
        ("Depends"@, "${misc:Depends}, ${shlibs:Depends}"@),
        ("Description"@, description),
    ]
}

/// The paragraph of the package that holds the dynamic library.
pub open spec fn library_entries(deb_name: Seq<char>, version: Seq<char>, long: Option<Seq<char>>) -> Seq<
    Entry,
> {
    binary_entries(
        deb_name + "-"@ + version,
        description_text(
            deb_name,
            "rust crate - dylib"@,
            long,
            "\n .\n This package contains the dynamic library."@,
        ),
    )
}

/// The paragraph of the package that holds the rlib and the static
/// library.
pub open spec fn development_entries(deb_name: Seq<char>, long: Option<Seq<char>>) -> Seq<Entry> {
    binary_entries(
        deb_name + "-dev"@,
        description_text(
            deb_name,
            "rust crate - rlib and staticlib"@,
            long,
            "\n .\n This package contains the static and rlib variants of the library."@,
        ),
    )
}

/// The binary paragraphs for `targets`: the two paragraphs once for each
/// packaged target, in the order of the targets.
pub open spec fn binary_paragraphs(
    deb_name: Seq<char>,
    version: Seq<char>,
    long: Option<Seq<char>>,
    targets: Seq<BuildTarget>,
) -> Seq<Seq<Entry>>
    decreases targets.len(),
{
    if targets.len() == 0 {
        Seq::empty()
    } else if is_release_lib(targets.last()) {
        binary_paragraphs(deb_name, version, long, targets.drop_last()) + seq![
            library_entries(deb_name, version, long),
            development_entries(deb_name, long),
        ]
    } else {
        binary_paragraphs(deb_name, version, long, targets.drop_last())
    }
}

/// The long description of the packages.
pub fn describe(description: &Option<String>) -> (long: Option<String>)
    ensures
        match long {
            Some(text) => long_description(*description) == Some(text@),
            None => long_description(*description) is None,
        },
{
    match description {
        Some(text) => Some(fold(text.as_str().trim())),
        None => None,
    }
}

/// The value of `Description`.
pub fn description_of(deb_name: &str, summary: &str, long: &Option<String>, closing: &str) -> (text:
    String)
    ensures
        text@ == description_text(
            deb_name@,
            summary@,
            option_text(*long),
            closing@,
        ),
{
    let mut text = concat2(deb_name, summary);
    match long {
        Some(l) => {
            let ghost head = text@;
            text.append("\n ");
            text.append(l.as_str());
            text.append(closing);
            assert(text@ =~= head + ("\n "@ + l@ + closing@));
        },
        None => {
            assert(text@ =~= text@ + Seq::<char>::empty());
        },
    }
    text
}

/// A binary paragraph for `package` with the given description.
pub fn binary_paragraph(package: String, description: String) -> (p: ControlParagraph)
    ensures
        paragraph_entries(p) == binary_entries(package@, description@),
{
    let mut p = ControlParagraph::default();
    p.add_entry("Package", package);
    p.add_entry("Architecture", String::from_str("amd64 i386"));
    p.add_entry("Pre-Depends", String::from_str("${misc:Pre-Depends}"));
    p.add_entry("Depends", String::from_str("${misc:Depends}, ${shlibs:Depends}"));
    p.add_entry("Description", description);
    assert(paragraph_entries(p) =~= binary_entries(package@, description@));
    p
}

/// Appends to `file` the binary paragraphs for `targets`.
pub fn add_binary_paragraphs(
    file: &mut ControlFile,
    deb_name: &str,
    version: &str,
    long: &Option<String>,
    targets: &Vec<BuildTarget>,
)
    ensures
        file_paragraphs(*final(file)) == file_paragraphs(*old(file)) + binary_paragraphs(
            deb_name@,
            version@,
            option_text(*long),
            targets@,
        ),
{
    let ghost long_view = option_text(*long);
    let ghost start = file_paragraphs(*file);
    let mut i: usize = 0;
    assert(start + binary_paragraphs(deb_name@, version@, long_view, targets@.take(0)) =~= start);
    while i < targets.len()
        invariant
            i <= targets.len(),
            long_view == option_text(*long),
            file_paragraphs(*file) == start + binary_paragraphs(
                deb_name@,
                version@,
                long_view,
                targets@.take(i as int),
            ),
        decreases targets.len() - i,
    {
        proof {
            assert(targets@.take(i + 1).drop_last() =~= targets@.take(i as int));
            assert(targets@.take(i + 1).last() == targets@[i as int]);
        }
        if targets[i].release_lib() {
            let ghost before = binary_paragraphs(
                deb_name@,
                version@,
                long_view,
                targets@.take(i as int),
            );
            let library = binary_paragraph(
                concat3(deb_name, "-", version),
                description_of(
                    deb_name,
                    "rust crate - dylib",
                    long,
                    "\n .\n This package contains the dynamic library.",
                ),
            );
            file.add_paragraph(library);
            let development = binary_paragraph(
                concat2(deb_name, "-dev"),
                description_of(
                    deb_name,
                    "rust crate - rlib and staticlib",
                    long,
                    "\n .\n This package contains the static and rlib variants of the library.",
                ),
            );
            file.add_paragraph(development);
            assert(file_paragraphs(*file) =~= start + (before + seq![
                library_entries(deb_name@, version@, long_view),
                development_entries(deb_name@, long_view),
            ]));
        }
        i += 1;
    }
    assert(targets@.take(targets.len() as int) =~= targets@);
}

} // verus!
