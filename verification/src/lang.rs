//! Locale and label lookups shared with the presentation layer.

use vstd::prelude::*;

verus! {

/// Identifiers of the translation catalogues this project ships, sorted
/// and without duplicates.
pub fn available_languages() -> (r: Vec<String>)
    ensures
        r@.len() == 3,
        r@[0]@ == "en-US"@,
        r@[1]@ == "es-ES"@,
        r@[2]@ == "fr-FR"@,
{
    let mut langs: Vec<String> = Vec::new();
    langs.push("en-US".to_owned());
    langs.push("es-ES".to_owned());
    langs.push("fr-FR".to_owned());
    langs
}

/// Human-readable name of a task identifier.
pub fn task_label(task: &str) -> (r: &'static str)
    ensures
        task@ == "pvt"@ ==> r@ == "Psychomotor Vigilance"@,
        task@ == "nback2"@ ==> r@ == "2-back working memory"@,
        task@ != "pvt"@ && task@ != "nback2"@ ==> r@ == "Session"@,
{
    proof {
        reveal_strlit("pvt");
        reveal_strlit("nback2");
        assert("pvt"@.len() == 3);
        assert("nback2"@.len() == 6);
        assert("pvt"@ != "nback2"@);
    }
    if streq(task, "pvt") {
        "Psychomotor Vigilance"
    } else if streq(task, "nback2") {
        "2-back working memory"
    } else {
        "Session"
    }
}

/// String equality by view: two strings hold the same characters exactly
/// when their UTF-8 bytes agree.
fn streq(a: &str, b: &str) -> (r: bool)
    ensures
        r == (a@ == b@),
{
    proof {
        vstd::utf8::encode_utf8_decode_utf8(a@);
        vstd::utf8::encode_utf8_decode_utf8(b@);
    }
    let ab = a.as_bytes();
    let bb = b.as_bytes();
    if ab.len() != bb.len() {
        return false;
    }
    slices_eq(ab, bb)
}

/// Byte-slice equality.
fn slices_eq(a: &[u8], b: &[u8]) -> (r: bool)
    requires
        a@.len() == b@.len(),
    ensures
        r == (a@ == b@),
{
    let mut i: usize = 0;
    while i < a.len()
        invariant
            0 <= i <= a@.len(),
            a@.len() == b@.len(),
            forall|k: int| 0 <= k < i ==> a@[k] == b@[k],
        decreases a@.len() - i,
    {
        if a[i] != b[i] {
            return false;
        }
        i = i + 1;
    }
    proof {
        assert(a@ =~= b@);
    }
    true
}

} // verus!
