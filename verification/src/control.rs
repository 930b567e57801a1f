//! Control paragraphs and control files, as the `debian` crate holds them,
//! and the mathematics of an ordered list of fields.

use vstd::prelude::*;
use debian::control::{ControlFile, ControlParagraph};

verus! {

/// One field of a paragraph: its name and its value.
pub type Entry = (Seq<char>, Seq<char>);

/// `debian::control::ControlParagraph`, taken as it is: what it holds is
/// spoken of through `paragraph_entries`.
#[verifier::external_type_specification]
#[verifier::external_body]
pub struct ExControlParagraph(ControlParagraph);

/// `debian::control::ControlFile`, taken as it is: what it holds is spoken
/// of through `file_paragraphs`.
#[verifier::external_type_specification]
#[verifier::external_body]
pub struct ExControlFile(ControlFile);

/// The fields of a paragraph, in the order in which they were added.
pub uninterp spec fn paragraph_entries(p: ControlParagraph) -> Seq<Entry>;

/// The paragraphs of a control file, in file order, each given by its
/// fields.
pub uninterp spec fn file_paragraphs(f: ControlFile) -> Seq<Seq<Entry>>;

/// The value of the first field of `entries` named `key`.
pub open spec fn lookup(entries: Seq<Entry>, key: Seq<char>) -> Option<Seq<char>>
    decreases entries.len(),
{
    if entries.len() == 0 {
        None
    } else if entries[0].0 == key {
        Some(entries[0].1)
    } else {
        lookup(entries.drop_first(), key)
    }
}

/// `entries` holds a field named `key`.
pub open spec fn has_key(entries: Seq<Entry>, key: Seq<char>) -> bool {
    lookup(entries, key) is Some
}

/// `entries` with the value of its first field named `key` replaced by
/// `val`; where no field has that name, with the field appended.
pub open spec fn upsert(entries: Seq<Entry>, key: Seq<char>, val: Seq<char>) -> Seq<Entry>
    decreases entries.len(),
{
    if entries.len() == 0 {
        seq![(key, val)]
    } else if entries[0].0 == key {
        seq![(key, val)] + entries.drop_first()
    } else {
        seq![entries[0]] + upsert(entries.drop_first(), key, val)
    }
}

/// `entries` as it is where it has a field named `key`; else with the
/// field appended.
pub open spec fn with_default(entries: Seq<Entry>, key: Seq<char>, val: Seq<char>) -> Seq<Entry> {
    if has_key(entries, key) {
        entries
    } else {
        entries.push((key, val))
    }
}

/// A field appended to `entries` is found by its name unless an earlier
/// field has that name; the fields that were there are found as before.
pub proof fn lemma_lookup_push(entries: Seq<Entry>, key: Seq<char>, val: Seq<char>, name: Seq<char>)
    ensures
        lookup(entries.push((key, val)), name) == (if lookup(entries, name) is Some {
            lookup(entries, name)
        } else if key == name {
            Some(val)
        } else {
            None
        }),
    decreases entries.len(),
{
    let longer = entries.push((key, val));
    if entries.len() == 0 {
        assert(longer.drop_first() =~= Seq::<Entry>::empty());
    } else {
        assert(longer.drop_first() =~= entries.drop_first().push((key, val)));
        lemma_lookup_push(entries.drop_first(), key, val, name);
    }
}

/// After `upsert`, the field is found with the new value, and every field
/// of another name is found as before.
pub proof fn lemma_lookup_upsert(entries: Seq<Entry>, key: Seq<char>, val: Seq<char>, name: Seq<char>)
    ensures
        lookup(upsert(entries, key, val), name) == (if name == key {
            Some(val)
        } else {
            lookup(entries, name)
        }),
    decreases entries.len(),
{
    let after = upsert(entries, key, val);
    if entries.len() == 0 {
        assert(after.drop_first() =~= Seq::<Entry>::empty());
    } else if entries[0].0 == key {
        assert(after.drop_first() =~= entries.drop_first());
    } else {
        assert(after.drop_first() =~= upsert(entries.drop_first(), key, val));
        lemma_lookup_upsert(entries.drop_first(), key, val, name);
    }
}

/// `upsert` with the value that the field already has changes nothing.
pub proof fn lemma_upsert_same_value(entries: Seq<Entry>, key: Seq<char>, val: Seq<char>)
    requires
        lookup(entries, key) == Some(val),
    ensures
        upsert(entries, key, val) == entries,
    decreases entries.len(),
{
    if entries[0].0 == key {
        assert(upsert(entries, key, val) =~= entries);
    } else {
        lemma_upsert_same_value(entries.drop_first(), key, val);
        assert(upsert(entries, key, val) =~= entries);
    }
}

/// After `with_default`, the field is there; whatever was found before is
/// found as before.
pub proof fn lemma_lookup_with_default(
    entries: Seq<Entry>,
    key: Seq<char>,
    val: Seq<char>,
    name: Seq<char>,
)
    ensures
        has_key(with_default(entries, key, val), key),
        lookup(entries, name) is Some ==> lookup(with_default(entries, key, val), name) == lookup(
            entries,
            name,
        ),
        lookup(entries, key) is None ==> lookup(with_default(entries, key, val), key) == Some(val),
        name != key ==> lookup(with_default(entries, key, val), name) == lookup(entries, name),
{
    lemma_lookup_push(entries, key, val, name);
    lemma_lookup_push(entries, key, val, key);
}

/// No two fields of `entries` have the same name.
pub open spec fn names_unique(entries: Seq<Entry>) -> bool {
    forall|i: int, j: int|
        0 <= i < j < entries.len() ==> (#[trigger] entries[i]).0 != (#[trigger] entries[j]).0
}

/// A name is looked up in vain just where no field has it.
pub proof fn lemma_lookup_none(entries: Seq<Entry>, key: Seq<char>)
    ensures
        lookup(entries, key) is None <==> forall|i: int|
            0 <= i < entries.len() ==> (#[trigger] entries[i]).0 != key,
    decreases entries.len(),
{
    if entries.len() > 0 {
        let rest = entries.drop_first();
        lemma_lookup_none(rest, key);
        if lookup(entries, key) is None {
            assert forall|i: int| 0 <= i < entries.len() implies (#[trigger] entries[i]).0
                != key by {
                if i > 0 {
                    assert(rest[i - 1] == entries[i]);
                }
            }
        } else if entries[0].0 != key {
            let i = choose|i: int| 0 <= i < rest.len() && (#[trigger] rest[i]).0 == key;
            assert(entries[i + 1] == rest[i]);
        }
    }
}

/// `upsert` appends the field where its name is new, and otherwise keeps
/// the names of the fields as they are, each in its place.
pub proof fn lemma_upsert_names(entries: Seq<Entry>, key: Seq<char>, val: Seq<char>)
    ensures
        !has_key(entries, key) ==> upsert(entries, key, val) == entries.push((key, val)),
        has_key(entries, key) ==> upsert(entries, key, val).len() == entries.len(),
        has_key(entries, key) ==> forall|i: int|
            0 <= i < entries.len() ==> (#[trigger] upsert(entries, key, val)[i]).0 == entries[i].0,
    decreases entries.len(),
{
    let after = upsert(entries, key, val);
    if entries.len() == 0 {
        assert(after =~= entries.push((key, val)));
    } else if entries[0].0 == key {
        assert forall|i: int| 0 <= i < entries.len() implies (#[trigger] after[i]).0
            == entries[i].0 by {
            if i > 0 {
                assert(after[i] == entries.drop_first()[i - 1]);
            }
        }
    } else {
        let rest = entries.drop_first();
        lemma_upsert_names(rest, key, val);
        if has_key(entries, key) {
            assert forall|i: int| 0 <= i < entries.len() implies (#[trigger] after[i]).0
                == entries[i].0 by {
                if i > 0 {
                    assert(after[i] == upsert(rest, key, val)[i - 1]);
                    assert(entries[i] == rest[i - 1]);
                }
            }
        } else {
            assert(after =~= entries.push((key, val)));
        }
    }
}

/// `upsert` and `with_default` keep the names of the fields apart.
pub proof fn lemma_names_stay_unique(entries: Seq<Entry>, key: Seq<char>, val: Seq<char>)
    requires
        names_unique(entries),
    ensures
        names_unique(upsert(entries, key, val)),
        names_unique(with_default(entries, key, val)),
{
    lemma_lookup_none(entries, key);
    lemma_upsert_names(entries, key, val);
    let after = upsert(entries, key, val);
    assert forall|i: int, j: int| 0 <= i < j < after.len() implies (#[trigger] after[i]).0 != (
    #[trigger] after[j]).0 by {
        if has_key(entries, key) {
            assert(after[i].0 == entries[i].0 && after[j].0 == entries[j].0);
        } else if j < entries.len() {
            assert(after[i] == entries[i] && after[j] == entries[j]);
        } else {
            assert(after[i] == entries[i]);
        }
    }
}

/// `<ControlParagraph as Default>::default` makes a paragraph without
/// fields.
pub assume_specification[ <ControlParagraph as Default>::default ]() -> (p: ControlParagraph)
    ensures
        paragraph_entries(p) == Seq::<Entry>::empty(),
;

/// `<ControlParagraph as Clone>::clone` copies the fields.
pub assume_specification[ <ControlParagraph as Clone>::clone ](p: &ControlParagraph) -> (copy:
    ControlParagraph)
    ensures
        paragraph_entries(copy) == paragraph_entries(*p),
;

/// `ControlParagraph::add_entry` appends the field, whether or not the
/// paragraph has one of that name.
pub assume_specification[ ControlParagraph::add_entry ](
    p: &mut ControlParagraph,
    key: &str,
    val: String,
)
    ensures
        paragraph_entries(*final(p)) == paragraph_entries(*old(p)).push((key@, val@)),
;

/// `ControlParagraph::update_entry` gives the first field named `key` the
/// value `val` and returns `true`; where there is none it appends the field
/// and returns `false`.
pub assume_specification[ ControlParagraph::update_entry ](
    p: &mut ControlParagraph,
    key: &str,
    val: String,
) -> (found: bool)
    ensures
        paragraph_entries(*final(p)) == upsert(paragraph_entries(*old(p)), key@, val@),
        found == has_key(paragraph_entries(*old(p)), key@),
;

/// `ControlParagraph::has_entry` says whether a field is named `key`.
pub assume_specification[ ControlParagraph::has_entry ](p: &ControlParagraph, key: &str) -> (found:
    bool)
    ensures
        found == has_key(paragraph_entries(*p), key@),
;

/// `ControlParagraph::get_entry` returns the value of the first field
/// named `key`.
pub assume_specification<'a>[ ControlParagraph::get_entry ](
    p: &'a ControlParagraph,
    key: &str,
) -> (val: Option<&'a str>)
    ensures
        match val {
            Some(v) => lookup(paragraph_entries(*p), key@) == Some(v@),
            None => lookup(paragraph_entries(*p), key@) is None,
        },
;

/// `<ControlFile as Default>::default` makes a file without paragraphs.
pub assume_specification[ <ControlFile as Default>::default ]() -> (f: ControlFile)
    ensures
        file_paragraphs(f) == Seq::<Seq<Entry>>::empty(),
;

/// `ControlFile::add_paragraph` appends the paragraph.
pub assume_specification[ ControlFile::add_paragraph ](f: &mut ControlFile, p: ControlParagraph)
    ensures
        file_paragraphs(*final(f)) == file_paragraphs(*old(f)).push(paragraph_entries(p)),
;

/// `ControlFile::get_paragraphs` lends the paragraphs in file order.
pub assume_specification<'a>[ ControlFile::get_paragraphs ](f: &'a ControlFile) -> (ps: &'a Vec<
    ControlParagraph,
>)
    ensures
        ps@.len() == file_paragraphs(*f).len(),
        forall|i: int|
            0 <= i < ps@.len() ==> paragraph_entries(#[trigger] ps@[i]) == file_paragraphs(*f)[i],
;

} // verus!
