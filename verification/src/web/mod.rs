//! Request-handling decisions of the web front-end that do not need the
//! HTTP stack: redirect safety, form-field parsing, and the view models
//! its pages render.
use vstd::prelude::*;

use crate::service::AttachmentOutcome;
use crate::text::{contains_char, int_digits, push_i64_digits, spec_trim, trim};

pub mod auth;
pub mod brl_ledger;
pub mod eur_ledger;
pub mod inventory;
pub mod outbound;
pub mod purchases;
pub mod report_tables;
pub mod reports;
pub mod templates;

verus! {

/// Unicode general category `Cc`, the set `char::is_control` tests for.
pub open spec fn is_control_char(c: char) -> bool {
    let u = c as u32;
    u <= 0x1F || (0x7F <= u && u <= 0x9F)
}

/// A character that must not appear in a redirect target: a backslash
/// (browsers normalise it to `/`) or a control character (browsers strip
/// tab/CR/LF before resolving).
pub open spec fn is_unsafe_redirect_char(c: char) -> bool {
    c == '\\' || is_control_char(c)
}

/// A same-origin, root-relative path: starts with `/`, does not start
/// with `//`, and holds no backslash or control character.
pub open spec fn spec_safe_return_to(s: Seq<char>) -> bool {
    &&& s.len() > 0 && s[0] == '/'
    &&& !(s.len() > 1 && s[1] == '/')
    &&& forall|i: int| 0 <= i < s.len() ==> !is_unsafe_redirect_char(#[trigger] s[i])
}

/// A same-origin, root-relative path — rejects absolute URLs
/// (`https://...`) and protocol-relative ones (`//evil.example`) so a
/// crafted `return_to` can't be used as an open redirect. Also rejects
/// any backslash or control character: a browser normalises backslashes
/// to forward slashes and strips tab/CR/LF before resolving a relative
/// reference, so `/\evil.example` or `/\t/evil.example` would otherwise
/// still resolve to an external origin.
pub fn safe_return_to(s: &str) -> (r: bool)
    ensures
        r == spec_safe_return_to(s@),
{
    let len = s.unicode_len();
    if len == 0 || s.get_char(0) != '/' {
        return false;
    }
    if len > 1 && s.get_char(1) == '/' {
        return false;
    }
    let mut i: usize = 0;
    while i < len
        invariant
            len == s@.len(),
            i <= len,
            forall|k: int| 0 <= k < i ==> !is_unsafe_redirect_char(#[trigger] s@[k]),
        decreases len - i,
    {
        let c = s.get_char(i);
        let u = c as u32;
        if c == '\\' || u <= 0x1F || (0x7F <= u && u <= 0x9F) {
            assert(is_unsafe_redirect_char(s@[i as int]));
            return false;
        }
        i = i + 1;
    }
    true
}

/// Where a "create X, then come back" flow redirects: back to
/// `return_to` with `key=id` appended as a query parameter (after `&` if
/// `return_to` already has a query, `?` otherwise) when `return_to` is
/// safe, else to `fallback`.
pub open spec fn spec_redirect_after_create(
    return_to: Seq<char>,
    key: Seq<char>,
    id: i64,
    fallback: Seq<char>,
) -> Seq<char> {
    if spec_safe_return_to(return_to) {
        return_to + (if return_to.contains('?') {
            seq!['&']
        } else {
            seq!['?']
        }) + key + seq!['='] + int_digits(id as int)
    } else {
        fallback
    }
}

/// The redirect target after creating a record with id `id`: back to a
/// safe `return_to` carrying `key={id}`, else `fallback`.
pub fn redirect_after_create(return_to: &str, key: &str, id: i64, fallback: &str) -> (r: String)
    ensures
        r@ == spec_redirect_after_create(return_to@, key@, id, fallback@),
{
    if safe_return_to(return_to) {
        let mut target = String::from_str(return_to);
        if contains_char(return_to, '?') {
            proof {
                reveal_strlit("&");
            }
            target.append("&");
        } else {
            proof {
                reveal_strlit("?");
            }
            target.append("?");
        }
        target.append(key);
        proof {
            reveal_strlit("=");
        }
        target.append("=");
        push_i64_digits(&mut target, id);
        assert(target@ =~= spec_redirect_after_create(return_to@, key@, id, fallback@));
        target
    } else {
        String::from_str(fallback)
    }
}

proof fn lemma_digits_safe(n: nat)
    ensures
        forall|i: int|
            0 <= i < crate::text::nat_digits(n).len() ==> !is_unsafe_redirect_char(
                #[trigger] crate::text::nat_digits(n)[i],
            ),
        crate::text::nat_digits(n).len() > 0,
    decreases n,
{
    if n >= 10 {
        lemma_digits_safe(n / 10);
    }
}

/// The redirect after a create never leaves the site: given a safe
/// fallback and a key free of backslashes and control characters, the
/// target is itself a safe, root-relative path.
pub proof fn lemma_redirect_after_create_is_safe(
    return_to: Seq<char>,
    key: Seq<char>,
    id: i64,
    fallback: Seq<char>,
)
    requires
        spec_safe_return_to(fallback),
        forall|i: int| 0 <= i < key.len() ==> !is_unsafe_redirect_char(#[trigger] key[i]),
    ensures
        spec_safe_return_to(spec_redirect_after_create(return_to, key, id, fallback)),
{
    if spec_safe_return_to(return_to) {
        let sep = if return_to.contains('?') {
            seq!['&']
        } else {
            seq!['?']
        };
        let digits = int_digits(id as int);
        if id < 0 {
            lemma_digits_safe((-id) as nat);
        } else {
            lemma_digits_safe(id as nat);
        }
        assert forall|i: int| 0 <= i < digits.len() implies !is_unsafe_redirect_char(
            #[trigger] digits[i],
        ) by {
            if id < 0 && i > 0 {
                assert(digits[i] == crate::text::nat_digits((-id) as nat)[i - 1]);
            }
        }
        let r = return_to + sep + key + seq!['='] + digits;
        assert forall|i: int| 0 <= i < r.len() implies !is_unsafe_redirect_char(#[trigger] r[i]) by {
            let a = return_to.len() as int;
            let b = a + 1;
            let c = b + key.len();
            let d = c + 1;
            if i < a {
                assert(r[i] == return_to[i]);
            } else if i < b {
                assert(r[i] == sep[i - a]);
            } else if i < c {
                assert(r[i] == key[i - b]);
            } else if i < d {
                assert(r[i] == '=');
            } else {
                assert(r[i] == digits[i - d]);
            }
        }
        assert(r[0] == return_to[0]);
        if return_to.len() > 1 {
            assert(r[1] == return_to[1]);
        } else {
            assert(r[1] == sep[0]);
        }
    }
}

/// The label a document uploaded with a create form is filed under: the
/// label picked in its row, unless missing or blank, else `other`.
pub fn staged_label(picked: Option<String>) -> (r: String)
    ensures
        r@ == (match picked {
            Some(l) => if spec_trim(l@).len() > 0 {
                l@
            } else {
                "other"@
            },
            None => "other"@,
        }),
{
    match picked {
        Some(l) => {
            if trim(l.as_str()).is_empty() {
                String::from_str("other")
            } else {
                l
            }
        },
        None => String::from_str("other"),
    }
}

/// Whether every staged document was attached; a create form redirects
/// to its list only then, and otherwise shows each outcome.
pub fn all_attached(outcomes: &[AttachmentOutcome]) -> (r: bool)
    ensures
        r == forall|i: int| 0 <= i < outcomes@.len() ==> (#[trigger] outcomes@[i]).result is Ok,
{
    let mut i: usize = 0;
    while i < outcomes.len()
        invariant
            i <= outcomes@.len(),
            forall|k: int| 0 <= k < i ==> (#[trigger] outcomes@[k]).result is Ok,
        decreases outcomes@.len() - i,
    {
        if outcomes[i].result.is_err() {
            return false;
        }
        i = i + 1;
    }
    true
}

} // verus!
