//! Operations that span a record and its documents: which date a document
//! is filed under, which labels it may carry, which name it gets, and how
//! a batch of staged documents is attached. Copying files and writing
//! rows is the caller's part, handed in as a closure that files one
//! source, with its label, under one name.
use vstd::prelude::*;

use std::path::Path;

use crate::date::{
    is_calendar_date, iso_date, local_today, parse_date_input, spec_iso_date, spec_parse_date_input,
};
use crate::docs_fs::{
    contains_name, filename_base, generate_filename, is_generated_name, lemma_free_candidate_exists,
    names_contain,
};
use crate::text::{debug_quoted, spec_trim, str_debug, str_lowercase, to_lowercase, trim};

verus! {

/// One document staged for a batch attach: a caller-owned source path
/// plus the label to file it under, not yet written anywhere.
pub struct PendingDocument<'a> {
    pub path: &'a str,
    pub label: &'a str,
}

/// The result of attempting to attach one staged document; a batch
/// returns these in the order of its staged documents.
pub struct AttachmentOutcome {
    pub source_name: String,
    pub label: String,
    pub result: Result<String, String>,
}

/// A newly-created purchase and the outcome of attaching every document
/// staged alongside it.
#[must_use]
pub struct CreatedPurchase {
    pub id: i64,
    pub attachments: Vec<AttachmentOutcome>,
}

/// A newly-created transfer and the outcome of attaching every document
/// staged alongside it.
#[must_use]
pub struct CreatedTransfer {
    pub id: i64,
    pub attachments: Vec<AttachmentOutcome>,
}

/// The final component of the path `p` as `Path::file_name` gives it,
/// read lossily; empty for a path without one.
pub uninterp spec fn path_file_name(p: Seq<char>) -> Seq<char>;

/// The extension of the path `p` as `Path::extension` gives it.
pub uninterp spec fn path_extension_of(p: Seq<char>) -> Option<Seq<char>>;

/// Calls `Path::file_name` on the path and reads the name with
/// `OsStr::to_string_lossy`; the empty string for a path without a final
/// component. The result is the named `path_file_name` of the path.
#[verifier::external_body]
fn source_name(path: &str) -> (r: String)
    ensures
        r@ == path_file_name(path@),
{
    match Path::new(path).file_name() {
        Some(n) => n.to_string_lossy().into_owned(),
        None => String::new(),
    }
}

/// Calls `Path::extension` on the path and reads it with `OsStr::to_str`.
/// The result is the named `path_extension_of` of the path.
#[verifier::external_body]
fn path_extension(path: &str) -> (r: Option<String>)
    ensures
        match r {
            Some(e) => path_extension_of(path@) == Some(e@),
            None => path_extension_of(path@) is None,
        },
{
    match Path::new(path).extension() {
        Some(e) => match e.to_str() {
            Some(x) => Some(x.to_string()),
            None => None,
        },
        None => None,
    }
}

/// `date` is the date a document is filed under: the typed draft date if
/// it parses, else the record's persisted date, else some calendar date
/// (today's), always written `YYYY-MM-DD`.
pub open spec fn is_filing_date(draft: Seq<char>, persisted: Option<&str>, date: Seq<char>) -> bool {
    match spec_parse_date_input(draft) {
        Some(d) => date == spec_iso_date(d),
        None => match persisted {
            Some(p) => date == p@,
            None => exists|t: (i32, u32, u32)| is_calendar_date(t) && date == #[trigger] spec_iso_date(t),
        },
    }
}

/// Resolves which ISO date to file a document under: the currently-typed
/// draft date if it parses, else the record's own persisted date, else
/// today. Filenames stay ISO-sortable whatever has been typed.
pub fn resolve_filing_date(draft_date_input: &str, persisted_iso_date: Option<&str>) -> (r: String)
    ensures
        is_filing_date(draft_date_input@, persisted_iso_date, r@),
{
    match parse_date_input(draft_date_input) {
        Some(d) => iso_date(d),
        None => match persisted_iso_date {
            Some(p) => String::from_str(p),
            None => {
                let today = local_today();
                let s = iso_date(today);
                assert(is_calendar_date(today) && s@ == spec_iso_date(today));
                s
            },
        },
    }
}

/// The error a label outside the configured document labels is refused
/// with.
pub open spec fn unknown_label_message(label: Seq<char>) -> Seq<char> {
    "Unknown document label: "@ + str_debug(label)
}

/// The extension a filed document gets: the source's extension, or `bin`
/// when it has none, lowercased.
pub open spec fn document_extension(ext: Option<Seq<char>>) -> Seq<char> {
    str_lowercase(
        match ext {
            Some(e) => e,
            None => "bin"@,
        },
    )
}

/// The extension a document filed from the path `src` gets.
pub open spec fn source_extension(src: Seq<char>) -> Seq<char> {
    document_extension(path_extension_of(src))
}

fn extension_for(src: &str) -> (r: String)
    ensures
        r@ == source_extension(src@),
{
    match path_extension(src) {
        Some(e) => to_lowercase(e.as_str()),
        None => {
            proof { reveal_strlit("bin"); }
            to_lowercase("bin")
        },
    }
}

/// The name a document from `src` is filed under for `record`, with
/// `label`, on `date`: `{date}_{record_type}-{id}_{label}{-n}.{ext}`,
/// `ext` the source's extension lowercased (or `bin`), the least free
/// variant among `existing`. Decided before anything is filed.
pub fn document_filename(
    src: &str,
    date: &str,
    record: (&str, i64),
    label: &str,
    existing: &[String],
) -> (name: String)
    requires
        existing@.len() < u32::MAX - 1,
    ensures
        is_generated_name(
            name@,
            filename_base(date@, record.0@, record.1, label@),
            source_extension(src@),
            existing@,
        ),
{
    let ext = extension_for(src);
    proof {
        lemma_free_candidate_exists(
            filename_base(date@, record.0@, record.1, label@),
            ext@,
            existing@,
        );
    }
    generate_filename(date, record.0, record.1, label, existing, ext.as_str())
}

/// `r` is what filing `src` with `label` under `name` through `file`
/// gave: `file` ran with exactly those arguments, and `r` is the name on
/// its success and its error otherwise.
pub open spec fn filed_with<F: Fn(&str, &str, &str) -> Result<(), String>>(
    file: F,
    src: &str,
    label: Seq<char>,
    name: Seq<char>,
    r: Result<String, String>,
) -> bool {
    exists|l: &str, n: &str, o: Result<(), String>|
        l@ == label && n@ == name && #[trigger] file.ensures((src, l, n), o) && match o {
            Ok(_) => (r matches Ok(x) && x@ == name),
            Err(y) => (r matches Err(x) && x@ == y@),
        }
}

/// Files `src` for `record` under the name `document_filename` decides:
/// `file` copies the source under that name and records it with its
/// label, and its error, if any, is the result. Returns the name on
/// success. `file` is only ever handed that one source, label and name.
pub fn file_document<F>(
    src: &str,
    date: &str,
    record: (&str, i64),
    label: &str,
    existing: &[String],
    file: &F,
) -> (r: Result<String, String>) where F: Fn(&str, &str, &str) -> Result<(), String>
    requires
        existing@.len() < u32::MAX - 1,
        forall|l: &str, n: &str|
            #![trigger file.requires((src, l, n))]
            l@ == label@ && is_generated_name(
                n@,
                filename_base(date@, record.0@, record.1, label@),
                source_extension(src@),
                existing@,
            ) ==> file.requires((src, l, n)),
    ensures
        exists|name: Seq<char>|
            #[trigger] is_generated_name(
                name,
                filename_base(date@, record.0@, record.1, label@),
                source_extension(src@),
                existing@,
            ) && filed_with(*file, src, label@, name, r),
{
    let filename = document_filename(src, date, record, label, existing);
    let res: Result<(), String> = (*file)(src, label, filename.as_str());
    let r = match res {
        Ok(()) => Ok(filename),
        Err(e) => Err(e),
    };
    assert(filed_with(*file, src, label@, filename@, r));
    r
}

/// The label a document is filed with: `label` trimmed, when it is one of
/// the configured labels. Otherwise the error of looking the labels up,
/// or the refusal of an unknown label. Decided before anything is filed.
pub fn check_label(label: &str, known_labels: &Result<Vec<String>, String>) -> (r: Result<
    String,
    String,
>)
    ensures
        match known_labels {
            Err(e) => (r matches Err(x) && x@ == e@),
            Ok(ls) => if names_contain(ls@, spec_trim(label@)) {
                r matches Ok(t) && t@ == spec_trim(label@)
            } else {
                r matches Err(x) && x@ == unknown_label_message(spec_trim(label@))
            },
        },
{
    let t = trim(label);
    let known = match known_labels {
        Ok(ls) => ls,
        Err(e) => return Err(e.clone()),
    };
    if !contains_name(known.as_slice(), t) {
        let mut msg = String::from_str("Unknown document label: ");
        let q = debug_quoted(t);
        msg.append(q.as_str());
        return Err(msg);
    }
    Ok(String::from_str(t))
}

/// `l` is one of the configured labels.
pub open spec fn label_known(known_labels: Result<Vec<String>, String>, l: Seq<char>) -> bool {
    known_labels matches Ok(ls) && names_contain(ls@, l)
}

/// The one filing an attach of `src` with `label` may hand out: the
/// trimmed label, when it is known, under the generated name for some
/// filing date of the record.
pub open spec fn planned_filing(
    src: Seq<char>,
    draft: Seq<char>,
    persisted: Option<&str>,
    record: (&str, i64),
    label: Seq<char>,
    existing: Seq<String>,
    known_labels: Result<Vec<String>, String>,
    l: Seq<char>,
    n: Seq<char>,
) -> bool {
    &&& l == spec_trim(label)
    &&& label_known(known_labels, l)
    &&& exists|date: Seq<char>|
        is_filing_date(draft, persisted, date) && #[trigger] is_generated_name(
            n,
            filename_base(date, record.0@, record.1, l),
            source_extension(src),
            existing,
        )
}

/// What attaching `src` with `label` to `record` gives: the error of the
/// label lookup; the refusal of an unknown label; or, for a known one,
/// what filing the source with the trimmed label under the generated name
/// for the filing date gave.
pub open spec fn attach_result<F: Fn(&str, &str, &str) -> Result<(), String>>(
    file: F,
    src: &str,
    draft: Seq<char>,
    persisted: Option<&str>,
    record: (&str, i64),
    label: Seq<char>,
    existing: Seq<String>,
    known_labels: Result<Vec<String>, String>,
    r: Result<String, String>,
) -> bool {
    let t = spec_trim(label);
    match known_labels {
        Err(e) => (r matches Err(x) && x@ == e@),
        Ok(ls) => if !names_contain(ls@, t) {
            r matches Err(x) && x@ == unknown_label_message(t)
        } else {
            exists|date: Seq<char>, name: Seq<char>|
                is_filing_date(draft, persisted, date) && #[trigger] is_generated_name(
                    name,
                    filename_base(date, record.0@, record.1, t),
                    source_extension(src@),
                    existing,
                ) && filed_with(file, src, t, name, r)
        },
    }
}

/// Attaches one document to a record: checks `label`, trimmed, against
/// the configured labels (or passes on the error of looking them up),
/// resolves the filing date (see `resolve_filing_date`), then files the
/// source (see `file_document`). A refused label files nothing: `file`
/// is only ever handed the planned filing.
pub fn attach_document<F>(
    src: &str,
    draft_date_input: &str,
    persisted_iso_date: Option<&str>,
    record: (&str, i64),
    label: &str,
    existing: &[String],
    known_labels: &Result<Vec<String>, String>,
    file: &F,
) -> (r: Result<String, String>) where F: Fn(&str, &str, &str) -> Result<(), String>
    requires
        existing@.len() < u32::MAX - 1,
        forall|l: &str, n: &str|
            #![trigger file.requires((src, l, n))]
            planned_filing(
                src@,
                draft_date_input@,
                persisted_iso_date,
                record,
                label@,
                existing@,
                *known_labels,
                l@,
                n@,
            ) ==> file.requires((src, l, n)),
    ensures
        attach_result(
            *file,
            src,
            draft_date_input@,
            persisted_iso_date,
            record,
            label@,
            existing@,
            *known_labels,
            r,
        ),
{
    let t = match check_label(label, known_labels) {
        Ok(t) => t,
        Err(e) => return Err(e),
    };
    let date = resolve_filing_date(draft_date_input, persisted_iso_date);
    assert forall|l: &str, n: &str|
        #![trigger file.requires((src, l, n))]
        l@ == t@ && is_generated_name(
            n@,
            filename_base(date@, record.0@, record.1, t@),
            source_extension(src@),
            existing@,
        ) implies file.requires((src, l, n)) by {
        assert(planned_filing(
            src@,
            draft_date_input@,
            persisted_iso_date,
            record,
            label@,
            existing@,
            *known_labels,
            l@,
            n@,
        ));
    }
    let r = file_document(src, date.as_str(), record, t.as_str(), existing, file);
    r
}

/// The names of `names`, as text.
pub open spec fn name_views(names: Seq<String>) -> Seq<Seq<char>> {
    names.map_values(|s: String| s@)
}

/// Lists with the same names as text contain the same names.
proof fn lemma_same_names(a: Seq<String>, b: Seq<String>)
    requires
        name_views(a) == name_views(b),
    ensures
        forall|s: Seq<char>| names_contain(a, s) == names_contain(b, s),
{
    assert(a.len() == name_views(a).len());
    assert(b.len() == name_views(b).len());
    assert forall|s: Seq<char>| names_contain(a, s) == names_contain(b, s) by {
        if names_contain(a, s) {
            let i = choose|i: int| 0 <= i < a.len() && (#[trigger] a[i])@ == s;
            assert(name_views(a)[i] == a[i]@);
            assert(name_views(b)[i] == b[i]@);
            assert(names_contain(b, s));
        }
        if names_contain(b, s) {
            let i = choose|i: int| 0 <= i < b.len() && (#[trigger] b[i])@ == s;
            assert(name_views(a)[i] == a[i]@);
            assert(name_views(b)[i] == b[i]@);
            assert(names_contain(a, s));
        }
    }
}

/// The filenames of the successful outcomes, in order.
pub open spec fn ok_filenames(outcomes: Seq<AttachmentOutcome>) -> Seq<String>
    decreases outcomes.len(),
{
    if outcomes.len() == 0 {
        Seq::empty()
    } else {
        let prev = ok_filenames(outcomes.drop_last());
        match outcomes.last().result {
            Ok(n) => prev.push(n),
            Err(_) => prev,
        }
    }
}

/// What the batch's `i`-th outcome says of the `i`-th staged document
/// `doc`: it carries the document's label and its source's file name,
/// and its result is what attaching the document gives among `existing`
/// and the names filed before it in the batch (see `attach_result`).
pub open spec fn batch_outcome_ok<F: Fn(&str, &str, &str) -> Result<(), String>>(
    outcomes: Seq<AttachmentOutcome>,
    i: int,
    doc: PendingDocument<'_>,
    existing: Seq<String>,
    draft: Seq<char>,
    persisted: Option<&str>,
    record: (&str, i64),
    known_labels: Result<Vec<String>, String>,
    file: F,
) -> bool {
    let out = outcomes[i];
    &&& out.label@ == doc.label@
    &&& out.source_name@ == path_file_name(doc.path@)
    &&& attach_result(
        file,
        doc.path,
        draft,
        persisted,
        record,
        doc.label@,
        existing + ok_filenames(outcomes.take(i)),
        known_labels,
        out.result,
    )
}

/// Whether a filed name is free among `a` depends only on the names of
/// `a`, so lists with the same names give the same attach results.
proof fn lemma_attach_result_same_names<F: Fn(&str, &str, &str) -> Result<(), String>>(
    file: F,
    src: &str,
    draft: Seq<char>,
    persisted: Option<&str>,
    record: (&str, i64),
    label: Seq<char>,
    a: Seq<String>,
    b: Seq<String>,
    known_labels: Result<Vec<String>, String>,
    r: Result<String, String>,
)
    requires
        name_views(a) == name_views(b),
        attach_result(file, src, draft, persisted, record, label, a, known_labels, r),
    ensures
        attach_result(file, src, draft, persisted, record, label, b, known_labels, r),
{
    lemma_same_names(a, b);
    let t = spec_trim(label);
    if known_labels matches Ok(ls) && names_contain(ls@, t) {
        let (date, name) = choose|date: Seq<char>, name: Seq<char>|
            is_filing_date(draft, persisted, date) && #[trigger] is_generated_name(
                name,
                filename_base(date, record.0@, record.1, t),
                source_extension(src@),
                a,
            ) && filed_with(file, src, t, name, r);
        assert(is_generated_name(
            name,
            filename_base(date, record.0@, record.1, t),
            source_extension(src@),
            b,
        ));
    }
}

/// Attaches every staged document in `pending` to `record`, one by one,
/// as `attach_document` does. Never stops at the first failure: every
/// entry is attempted and every outcome collected, in the order of
/// `pending`. Each successful filename joins the names in use before the
/// next entry is attempted, so two staged documents that would get the
/// same name are told apart within the batch. `file` is only ever handed
/// a configured label.
pub fn attach_documents<F>(
    existing: Vec<String>,
    draft_date_input: &str,
    persisted_iso_date: Option<&str>,
    record: (&str, i64),
    pending: &[PendingDocument<'_>],
    known_labels: &Result<Vec<String>, String>,
    file: F,
) -> (outcomes: Vec<AttachmentOutcome>) where F: Fn(&str, &str, &str) -> Result<(), String>
    requires
        existing@.len() + pending@.len() < u32::MAX - 1,
        forall|p: &str, l: &str, n: &str|
            #![trigger file.requires((p, l, n))]
            label_known(*known_labels, l@) ==> file.requires((p, l, n)),
    ensures
        outcomes@.len() == pending@.len(),
        forall|i: int|
            0 <= i < pending@.len() ==> #[trigger] batch_outcome_ok(
                outcomes@,
                i,
                pending@[i],
                existing@,
                draft_date_input@,
                persisted_iso_date,
                record,
                *known_labels,
                file,
            ),
        forall|i: int|
            0 <= i < pending@.len() && (#[trigger] outcomes@[i]).result is Ok ==> !names_contain(
                existing@,
                outcomes@[i].result->Ok_0@,
            ),
        forall|i: int, j: int|
            0 <= i < j < pending@.len() && (#[trigger] outcomes@[i]).result is Ok && (
            #[trigger] outcomes@[j]).result is Ok ==> outcomes@[i].result->Ok_0@
                != outcomes@[j].result->Ok_0@,
{
    let ghost initial = existing@;
    let mut in_use = existing;
    let mut outcomes: Vec<AttachmentOutcome> = Vec::new();
    let mut i: usize = 0;
    while i < pending.len()
        invariant
            i <= pending@.len(),
            outcomes@.len() == i,
            initial.len() + pending@.len() < u32::MAX - 1,
            in_use@.len() <= initial.len() + i,
            name_views(in_use@) == name_views(initial + ok_filenames(outcomes@)),
            forall|p: &str, l: &str, n: &str|
                #![trigger file.requires((p, l, n))]
                label_known(*known_labels, l@) ==> file.requires((p, l, n)),
            forall|k: int|
                0 <= k < i ==> #[trigger] batch_outcome_ok(
                    outcomes@,
                    k,
                    pending@[k],
                    initial,
                    draft_date_input@,
                    persisted_iso_date,
                    record,
                    *known_labels,
                    file,
                ),
            forall|k: int|
                0 <= k < i && (#[trigger] outcomes@[k]).result is Ok ==> !names_contain(
                    initial,
                    outcomes@[k].result->Ok_0@,
                ) && names_contain(in_use@, outcomes@[k].result->Ok_0@),
            forall|k: int, j: int|
                0 <= k < j < i && (#[trigger] outcomes@[k]).result is Ok && (
                #[trigger] outcomes@[j]).result is Ok ==> outcomes@[k].result->Ok_0@
                    != outcomes@[j].result->Ok_0@,
        decreases pending@.len() - i,
    {
        let doc = &pending[i];
        let ghost old_in_use = in_use@;
        let ghost old_outcomes = outcomes@;
        proof {
            lemma_same_names(in_use@, initial + ok_filenames(outcomes@));
            assert forall|l: &str, n: &str|
                #![trigger file.requires((doc.path, l, n))]
                planned_filing(
                    doc.path@,
                    draft_date_input@,
                    persisted_iso_date,
                    record,
                    doc.label@,
                    in_use@,
                    *known_labels,
                    l@,
                    n@,
                ) implies file.requires((doc.path, l, n)) by {
                assert(label_known(*known_labels, l@));
            }
        }
        let r = attach_document(
            doc.path,
            draft_date_input,
            persisted_iso_date,
            record,
            doc.label,
            in_use.as_slice(),
            known_labels,
            &file,
        );
        proof {
            lemma_attach_result_same_names(
                file,
                doc.path,
                draft_date_input@,
                persisted_iso_date,
                record,
                doc.label@,
                in_use@,
                initial + ok_filenames(old_outcomes),
                *known_labels,
                r,
            );
        }
        match &r {
            Ok(name) => {
                in_use.push(name.clone());
            },
            Err(_) => {},
        }
        let outcome = AttachmentOutcome {
            source_name: source_name(doc.path),
            label: String::from_str(doc.label),
            result: r,
        };
        outcomes.push(outcome);
        proof {
            let o = outcomes@[i as int];
            assert(outcomes@.drop_last() =~= old_outcomes);
            assert(outcomes@.take(i as int) =~= old_outcomes);
            if o.result is Ok {
                let name = o.result->Ok_0;
                assert(ok_filenames(outcomes@) == ok_filenames(old_outcomes).push(name));
                assert(name_views(in_use@) =~= name_views(old_in_use).push(name@));
                assert(initial + ok_filenames(outcomes@) =~= (initial + ok_filenames(old_outcomes)).push(
                    name,
                ));
                assert(name_views(initial + ok_filenames(outcomes@)) =~= name_views(
                    initial + ok_filenames(old_outcomes),
                ).push(name@));
            } else {
                assert(ok_filenames(outcomes@) == ok_filenames(old_outcomes));
            }
            assert forall|k: int| 0 <= k < i implies #[trigger] batch_outcome_ok(
                outcomes@,
                k,
                pending@[k],
                initial,
                draft_date_input@,
                persisted_iso_date,
                record,
                *known_labels,
                file,
            ) by {
                assert(outcomes@.take(k) =~= old_outcomes.take(k));
                assert(outcomes@[k] == old_outcomes[k]);
                assert(batch_outcome_ok(
                    old_outcomes,
                    k,
                    pending@[k],
                    initial,
                    draft_date_input@,
                    persisted_iso_date,
                    record,
                    *known_labels,
                    file,
                ));
            }
            assert forall|k: int|
                0 <= k < i && (#[trigger] outcomes@[k]).result is Ok implies names_contain(
                in_use@,
                outcomes@[k].result->Ok_0@,
            ) by {
                let a = outcomes@[k].result->Ok_0@;
                assert(outcomes@[k] == old_outcomes[k]);
                let w = choose|w: int| 0 <= w < old_in_use.len() && (#[trigger] old_in_use[w])@ == a;
                assert(in_use@[w] == old_in_use[w]);
            }
            if o.result is Ok {
                let name = o.result->Ok_0;
                assert(in_use@[old_in_use.len() as int]@ == name@);
                assert(names_contain(in_use@, name@));
                lemma_attach_ok_is_free(
                    file,
                    doc.path,
                    draft_date_input@,
                    persisted_iso_date,
                    record,
                    doc.label@,
                    initial + ok_filenames(old_outcomes),
                    *known_labels,
                    o.result,
                );
                assert(!names_contain(initial, name@)) by {
                    if names_contain(initial, name@) {
                        let w = choose|w: int| 0 <= w < initial.len() && (#[trigger] initial[w])@ == name@;
                        assert((initial + ok_filenames(old_outcomes))[w] == initial[w]);
                        assert(names_contain(initial + ok_filenames(old_outcomes), name@));
                    }
                }
            }
            assert(batch_outcome_ok(
                outcomes@,
                i as int,
                pending@[i as int],
                initial,
                draft_date_input@,
                persisted_iso_date,
                record,
                *known_labels,
                file,
            ));
        }
        i = i + 1;
    }
    outcomes
}

/// A name an attach filed under is free among the names it was given.
proof fn lemma_attach_ok_is_free<F: Fn(&str, &str, &str) -> Result<(), String>>(
    file: F,
    src: &str,
    draft: Seq<char>,
    persisted: Option<&str>,
    record: (&str, i64),
    label: Seq<char>,
    existing: Seq<String>,
    known_labels: Result<Vec<String>, String>,
    r: Result<String, String>,
)
    requires
        attach_result(file, src, draft, persisted, record, label, existing, known_labels, r),
        r is Ok,
    ensures
        !names_contain(existing, r->Ok_0@),
{
    let t = spec_trim(label);
    if known_labels matches Ok(ls) && names_contain(ls@, t) {
        let (date, name) = choose|date: Seq<char>, name: Seq<char>|
            is_filing_date(draft, persisted, date) && #[trigger] is_generated_name(
                name,
                filename_base(date, record.0@, record.1, t),
                source_extension(src@),
                existing,
            ) && filed_with(file, src, t, name, r);
        let (l, n, o) = choose|l: &str, n: &str, o: Result<(), String>|
            l@ == t && n@ == name && #[trigger] file.ensures((src, l, n), o) && match o {
                Ok(_) => (r matches Ok(x) && x@ == name),
                Err(y) => (r matches Err(x) && x@ == y@),
            };
    }
}

} // verus!
