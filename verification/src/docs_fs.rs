//! Naming of filed documents. The file operations themselves (copying
//! into the documents directory, soft-deleting into `_deleted/`) are done
//! by the caller; this module decides the names.
use vstd::prelude::*;

use vstd::relations::injective_on;
use vstd::set_lib::{lemma_int_range, lemma_len_subset, lemma_map_size, set_int_range};

use crate::text::{int_digits, lemma_nat_digits_injective, nat_digits, push_i64_digits, push_u64_digits};

verus! {

/// `{date}_{record_type}-{record_id}_{label}`: the part of a document's
/// filename that every collision variant shares.
pub open spec fn filename_base(
    date: Seq<char>,
    record_type: Seq<char>,
    record_id: i64,
    label: Seq<char>,
) -> Seq<char> {
    date + "_"@ + record_type + "-"@ + int_digits(record_id as int) + "_"@ + label
}

/// The `n`-th candidate filename: `{base}.{ext}` for `n < 2`, and
/// `{base}-{n}.{ext}` from the first collision on.
pub open spec fn filename_candidate(base: Seq<char>, n: nat, ext: Seq<char>) -> Seq<char> {
    if n < 2 {
        base + "."@ + ext
    } else {
        base + "-"@ + nat_digits(n) + "."@ + ext
    }
}

/// Some name in `names` equals `s`.
pub open spec fn names_contain(names: Seq<String>, s: Seq<char>) -> bool {
    exists|i: int| 0 <= i < names.len() && (#[trigger] names[i])@ == s
}

/// Some counter value in `2..=u32::MAX` yields a free candidate, so the
/// collision counter never has to go past `u32::MAX`.
pub open spec fn has_free_candidate(base: Seq<char>, ext: Seq<char>, existing: Seq<String>) -> bool {
    exists|n: nat| 2 <= n <= u32::MAX && !names_contain(existing, #[trigger] filename_candidate(base, n, ext))
}

/// Distinct collision counters give distinct candidate names.
pub proof fn lemma_candidate_injective(base: Seq<char>, ext: Seq<char>, a: nat, b: nat)
    requires
        2 <= a,
        2 <= b,
        filename_candidate(base, a, ext) == filename_candidate(base, b, ext),
    ensures
        a == b,
{
    reveal_strlit("-");
    reveal_strlit(".");
    let ca = filename_candidate(base, a, ext);
    let cb = filename_candidate(base, b, ext);
    let da = nat_digits(a);
    let db = nat_digits(b);
    let start: int = base.len() as int + 1;
    assert(da.len() == db.len()) by {
        assert(ca.len() == base.len() + 1 + da.len() + 1 + ext.len());
        assert(cb.len() == base.len() + 1 + db.len() + 1 + ext.len());
    }
    assert(ca.subrange(start, start + da.len()) =~= da);
    assert(cb.subrange(start, start + db.len()) =~= db);
    lemma_nat_digits_injective(a, b);
}

/// With fewer names than there are counter values, some collision
/// variant of any base name is still free.
pub proof fn lemma_free_candidate_exists(base: Seq<char>, ext: Seq<char>, existing: Seq<String>)
    requires
        existing.len() < u32::MAX - 1,
    ensures
        has_free_candidate(base, ext, existing),
{
    if !has_free_candidate(base, ext, existing) {
        let hi: int = u32::MAX as int + 1;
        let taken = |n: int|
            choose|i: int|
                0 <= i < existing.len() && (#[trigger] existing[i])@ == filename_candidate(
                    base,
                    n as nat,
                    ext,
                );
        let counters = set_int_range(2, hi);
        let slots = counters.map(taken);
        lemma_int_range(2, hi);
        lemma_int_range(0, existing.len() as int);
        assert forall|n: int| #[trigger] counters.contains(n) implies {
            let i = taken(n);
            0 <= i < existing.len() && existing[i]@ == filename_candidate(base, n as nat, ext)
        } by {
            assert(names_contain(existing, filename_candidate(base, n as nat, ext)));
        }
        assert(injective_on(taken, counters)) by {
            assert forall|a: int, b: int|
                counters.contains(a) && counters.contains(b) && #[trigger] taken(a) == #[trigger] taken(
                    b,
                ) implies a == b by {
                lemma_candidate_injective(base, ext, a as nat, b as nat);
            }
        }
        lemma_map_size(counters, slots, taken);
        assert(slots.subset_of(set_int_range(0, existing.len() as int))) by {
            assert forall|i: int| #[trigger] slots.contains(i) implies 0 <= i < existing.len() by {
                let n = choose|n: int| counters.contains(n) && taken(n) == i;
            }
        }
        lemma_len_subset(slots, set_int_range(0, existing.len() as int));
    }
}

/// `name` is what the naming rule gives for `base` and `ext` among
/// `existing`: the plain `{base}.{ext}` when no existing name takes it,
/// else `{base}-{n}.{ext}` for the least counter `n` from 2 whose name is
/// free. Either way the name is free.
pub open spec fn is_generated_name(
    name: Seq<char>,
    base: Seq<char>,
    ext: Seq<char>,
    existing: Seq<String>,
) -> bool {
    &&& !names_contain(existing, name)
    &&& !names_contain(existing, filename_candidate(base, 0, ext)) ==> name == filename_candidate(
        base,
        0,
        ext,
    )
    &&& names_contain(existing, filename_candidate(base, 0, ext)) ==> exists|n: nat|
        2 <= n <= u32::MAX && name == #[trigger] filename_candidate(base, n, ext) && forall|k: nat|
            2 <= k < n ==> names_contain(existing, #[trigger] filename_candidate(base, k, ext))
}

/// The naming rule gives one name only.
pub proof fn lemma_generated_name_unique(
    a: Seq<char>,
    b: Seq<char>,
    base: Seq<char>,
    ext: Seq<char>,
    existing: Seq<String>,
)
    requires
        is_generated_name(a, base, ext, existing),
        is_generated_name(b, base, ext, existing),
    ensures
        a == b,
{
    if names_contain(existing, filename_candidate(base, 0, ext)) {
        let na = choose|n: nat|
            2 <= n <= u32::MAX && a == #[trigger] filename_candidate(base, n, ext) && forall|k: nat|
                2 <= k < n ==> names_contain(existing, #[trigger] filename_candidate(base, k, ext));
        let nb = choose|n: nat|
            2 <= n <= u32::MAX && b == #[trigger] filename_candidate(base, n, ext) && forall|k: nat|
                2 <= k < n ==> names_contain(existing, #[trigger] filename_candidate(base, k, ext));
        if na < nb {
            assert(names_contain(existing, filename_candidate(base, na, ext)));
        } else if nb < na {
            assert(names_contain(existing, filename_candidate(base, nb, ext)));
        }
    }
}

/// The generated name depends only on which names are taken: two lists
/// holding the same names (in any order, with any repeats) give the same
/// name.
pub proof fn lemma_generated_name_same_names(
    a: Seq<char>,
    b: Seq<char>,
    base: Seq<char>,
    ext: Seq<char>,
    e1: Seq<String>,
    e2: Seq<String>,
)
    requires
        forall|x: Seq<char>| #[trigger] names_contain(e1, x) == names_contain(e2, x),
        is_generated_name(a, base, ext, e1),
        is_generated_name(b, base, ext, e2),
    ensures
        a == b,
{
    assert(is_generated_name(b, base, ext, e1)) by {
        if names_contain(e1, filename_candidate(base, 0, ext)) {
            let n = choose|n: nat|
                2 <= n <= u32::MAX && b == #[trigger] filename_candidate(base, n, ext) && forall|k: nat|
                    2 <= k < n ==> names_contain(e2, #[trigger] filename_candidate(base, k, ext));
            assert forall|k: nat| 2 <= k < n implies names_contain(
                e1,
                #[trigger] filename_candidate(base, k, ext),
            ) by {
                assert(names_contain(e2, filename_candidate(base, k, ext)));
            }
        }
        assert(names_contain(e1, b) == names_contain(e2, b));
    }
    lemma_generated_name_unique(a, b, base, ext, e1);
}

/// Whether some string in `names` equals `s`.
pub fn contains_name(names: &[String], s: &str) -> (r: bool)
    ensures
        r == names_contain(names@, s@),
{
    let mut i: usize = 0;
    while i < names.len()
        invariant
            i <= names@.len(),
            forall|k: int| 0 <= k < i ==> (#[trigger] names@[k])@ != s@,
        decreases names@.len() - i,
    {
        if crate::text::str_eq(names[i].as_str(), s) {
            assert(names@[i as int]@ == s@);
            return true;
        }
        i = i + 1;
    }
    false
}

fn candidate_with_counter(base: &String, n: u32, ext: &str) -> (c: String)
    requires
        n >= 2,
    ensures
        c@ == filename_candidate(base@, n as nat, ext@),
{
    let mut c = base.clone();
    c.append("-");
    push_u64_digits(&mut c, n as u64);
    c.append(".");
    c.append(ext);
    c
}

/// Generates a document filename following the pattern
/// `{date}_{record_type}-{id}_{label}{-n}.{ext}`: the plain name if no
/// name in `existing` already takes it, else the first `-n` variant
/// (counting from 2) that is free. The result never collides with
/// `existing`.
pub fn generate_filename(
    date: &str,
    record_type: &str,
    record_id: i64,
    label: &str,
    existing: &[String],
    ext: &str,
) -> (name: String)
    requires
        names_contain(existing@, filename_candidate(
            filename_base(date@, record_type@, record_id, label@),
            0,
            ext@,
        )) ==> has_free_candidate(
            filename_base(date@, record_type@, record_id, label@),
            ext@,
            existing@,
        ),
    ensures
        !names_contain(existing@, name@),
        is_generated_name(name@, filename_base(date@, record_type@, record_id, label@), ext@, existing@),
{
    let ghost gbase = filename_base(date@, record_type@, record_id, label@);
    let mut base = String::from_str(date);
    base.append("_");
    base.append(record_type);
    base.append("-");
    push_i64_digits(&mut base, record_id);
    base.append("_");
    base.append(label);
    assert(base@ =~= gbase);

    let mut candidate = base.clone();
    candidate.append(".");
    candidate.append(ext);
    assert(candidate@ =~= filename_candidate(gbase, 0, ext@));
    if !contains_name(existing, candidate.as_str()) {
        return candidate;
    }
    let mut n: u32 = 2;
    loop
        invariant
            2 <= n,
            gbase == filename_base(date@, record_type@, record_id, label@),
            base@ == gbase,
            has_free_candidate(gbase, ext@, existing@),
            names_contain(existing@, filename_candidate(gbase, 0, ext@)),
            forall|k: nat| 2 <= k < n ==> names_contain(existing@, #[trigger] filename_candidate(gbase, k, ext@)),
        decreases u32::MAX - n,
    {
        let candidate = candidate_with_counter(&base, n, ext);
        if !contains_name(existing, candidate.as_str()) {
            assert(exists|m: nat|
                2 <= m <= u32::MAX && candidate@ == #[trigger] filename_candidate(gbase, m, ext@)
                    && forall|k: nat|
                    2 <= k < m ==> names_contain(existing@, #[trigger] filename_candidate(gbase, k, ext@)))
                by {
                assert(candidate@ == filename_candidate(gbase, n as nat, ext@));
            }
            return candidate;
        }
        if n == u32::MAX {
            proof {
                let w = choose|w: nat| 2 <= w <= u32::MAX && !names_contain(existing@, #[trigger] filename_candidate(gbase, w, ext@));
                if w < n {
                    assert(names_contain(existing@, filename_candidate(gbase, w, ext@)));
                }
            }
            // unreachable: some counter value in range is free
            return candidate;
        }
        n = n + 1;
    }
}

} // verus!
