//! Redacting secrets out of provider messages, and the proof that what comes
//! out no longer holds them.
use vstd::prelude::*;

use crate::text::{contains, occurs_at, spec_is_whitespace};

verus! {

/// What a secret is replaced with.
pub open spec fn marker() -> Seq<char> {
    "[redacted]"@
}

/// `str::replace(p, r)`: every occurrence of `p`, found left to right and
/// without overlap, replaced by `r`.
pub open spec fn replace_all(s: Seq<char>, p: Seq<char>, r: Seq<char>) -> Seq<char>
    decreases s.len(),
{
    if p.len() == 0 || s.len() < p.len() {
        s
    } else if s.subrange(0, p.len() as int) == p {
        r + replace_all(s.subrange(p.len() as int, s.len() as int), p, r)
    } else {
        seq![s[0]] + replace_all(s.drop_first(), p, r)
    }
}

/// `s` after replacing each of `secrets` in turn by the marker.
pub open spec fn redact_all(s: Seq<char>, secrets: Seq<Seq<char>>) -> Seq<char>
    decreases secrets.len(),
{
    if secrets.len() == 0 {
        s
    } else {
        replace_all(redact_all(s, secrets.drop_last()), secrets.last(), marker())
    }
}

/// A secret that the marker cannot help to spell: not empty, without square
/// brackets, and not a piece of the word `redacted`.
pub open spec fn redactable(p: Seq<char>) -> bool {
    &&& p.len() > 0
    &&& !p.contains('[')
    &&& !p.contains(']')
    &&& !contains("redacted"@, p)
}

proof fn lemma_marker_facts()
    ensures
        marker().len() == 10,
        marker()[0] == '[',
        marker()[9] == ']',
        marker().subrange(1, 9) == "redacted"@,
{
    reveal_strlit("[redacted]");
    reveal_strlit("redacted");
    assert(marker().subrange(1, 9) =~= "redacted"@);
}

/// A redactable text does not occur in `marker() + rest` at a position that
/// starts inside the marker.
proof fn lemma_not_in_marker(q: Seq<char>, rest: Seq<char>, k: int)
    requires
        redactable(q),
        0 <= k < marker().len(),
    ensures
        !occurs_at(marker() + rest, q, k),
{
    lemma_marker_facts();
    let out = marker() + rest;
    if occurs_at(out, q, k) {
        assert(out.subrange(k, k + q.len()) == q);
        if k == 0 {
            assert(q[0] == out[0]);
            assert(q.contains('['));
        } else if k + q.len() >= 10 {
            assert(q[9 - k] == out[9]);
            assert(q.contains(']'));
        } else {
            let w = "redacted"@;
            assert(w.subrange(k - 1, k - 1 + q.len()) =~= q) by {
                assert forall|j: int| 0 <= j < q.len() implies w.subrange(k - 1, k - 1 + q.len())[j]
                    == q[j] by {
                    assert(q[j] == out[k + j]);
                    assert(out[k + j] == marker()[k + j]);
                    assert(marker().subrange(1, 9)[k + j - 1] == marker()[k + j]);
                }
            }
            assert(occurs_at(w, q, k - 1));
        }
    }
}

/// Up to the first `[` of the result, replacing leaves the text as it was.
proof fn lemma_replace_prefix(s: Seq<char>, p: Seq<char>, j: int)
    requires
        p.len() > 0,
        0 <= j <= replace_all(s, p, marker()).len(),
        forall|i: int| 0 <= i < j ==> replace_all(s, p, marker())[i] != '[',
    ensures
        j <= s.len(),
        replace_all(s, p, marker()).subrange(0, j) == s.subrange(0, j),
    decreases s.len(),
{
    lemma_marker_facts();
    let out = replace_all(s, p, marker());
    if s.len() < p.len() {
        assert(out.subrange(0, j) =~= s.subrange(0, j));
    } else if s.subrange(0, p.len() as int) == p {
        if j > 0 {
            assert(out[0] == '[');
        }
        assert(out.subrange(0, j) =~= s.subrange(0, j));
    } else if j > 0 {
        let r = replace_all(s.drop_first(), p, marker());
        assert(out =~= seq![s[0]] + r);
        assert forall|i: int| 0 <= i < j - 1 implies r[i] != '[' by {
            assert(out[i + 1] == r[i]);
        }
        lemma_replace_prefix(s.drop_first(), p, j - 1);
        assert(out.subrange(0, j) =~= s.subrange(0, j)) by {
            assert forall|i: int| 0 <= i < j implies out.subrange(0, j)[i] == s.subrange(0, j)[i] by {
                if i > 0 {
                    assert(out[i] == r[i - 1]);
                    assert(r.subrange(0, j - 1)[i - 1] == s.drop_first().subrange(0, j - 1)[i - 1]);
                }
            }
        }
    } else {
        assert(out.subrange(0, j) =~= s.subrange(0, j));
    }
}

/// Replacing `p` creates no occurrence of a redactable `q` that was not
/// there before.
pub proof fn lemma_replace_keeps_absent(s: Seq<char>, p: Seq<char>, q: Seq<char>)
    requires
        p.len() > 0,
        redactable(q),
        !contains(s, q),
    ensures
        !contains(replace_all(s, p, marker()), q),
    decreases s.len(),
{
    lemma_marker_facts();
    let out = replace_all(s, p, marker());
    if s.len() < p.len() {
    } else if s.subrange(0, p.len() as int) == p {
        let s2 = s.subrange(p.len() as int, s.len() as int);
        let r = replace_all(s2, p, marker());
        assert(!contains(s2, q)) by {
            if contains(s2, q) {
                let k = choose|k: int| occurs_at(s2, q, k);
                assert(s.subrange(p.len() + k, p.len() + k + q.len()) =~= s2.subrange(k, k + q.len()));
                assert(occurs_at(s, q, p.len() + k));
            }
        }
        lemma_replace_keeps_absent(s2, p, q);
        assert forall|k: int| !occurs_at(out, q, k) by {
            if 0 <= k < 10 {
                lemma_not_in_marker(q, r, k);
            } else if occurs_at(out, q, k) {
                assert(out.subrange(k, k + q.len()) =~= r.subrange(k - 10, k - 10 + q.len()));
                assert(occurs_at(r, q, k - 10));
            }
        }
    } else {
        let s2 = s.drop_first();
        let r = replace_all(s2, p, marker());
        assert(out =~= seq![s[0]] + r);
        assert(!contains(s2, q)) by {
            if contains(s2, q) {
                let k = choose|k: int| occurs_at(s2, q, k);
                assert(s.subrange(1 + k, 1 + k + q.len()) =~= s2.subrange(k, k + q.len()));
                assert(occurs_at(s, q, 1 + k));
            }
        }
        lemma_replace_keeps_absent(s2, p, q);
        assert forall|k: int| !occurs_at(out, q, k) by {
            if k == 0 && occurs_at(out, q, 0) {
                assert forall|i: int| 0 <= i < q.len() implies out[i] != '[' by {
                    assert(out.subrange(0, q.len() as int)[i] == q[i]);
                }
                lemma_replace_prefix(s, p, q.len() as int);
                assert(occurs_at(s, q, 0));
            } else if k >= 1 && occurs_at(out, q, k) {
                assert(out.subrange(k, k + q.len()) =~= r.subrange(k - 1, k - 1 + q.len()));
                assert(occurs_at(r, q, k - 1));
            }
        }
    }
}

/// Replacing a redactable `p` leaves no occurrence of it.
pub proof fn lemma_replace_removes(s: Seq<char>, p: Seq<char>)
    requires
        redactable(p),
    ensures
        !contains(replace_all(s, p, marker()), p),
    decreases s.len(),
{
    lemma_marker_facts();
    let out = replace_all(s, p, marker());
    if s.len() < p.len() {
    } else if s.subrange(0, p.len() as int) == p {
        let s2 = s.subrange(p.len() as int, s.len() as int);
        let r = replace_all(s2, p, marker());
        lemma_replace_removes(s2, p);
        assert forall|k: int| !occurs_at(out, p, k) by {
            if 0 <= k < 10 {
                lemma_not_in_marker(p, r, k);
            } else if occurs_at(out, p, k) {
                assert(out.subrange(k, k + p.len()) =~= r.subrange(k - 10, k - 10 + p.len()));
                assert(occurs_at(r, p, k - 10));
            }
        }
    } else {
        let s2 = s.drop_first();
        let r = replace_all(s2, p, marker());
        assert(out =~= seq![s[0]] + r);
        lemma_replace_removes(s2, p);
        assert forall|k: int| !occurs_at(out, p, k) by {
            if k == 0 && occurs_at(out, p, 0) {
                assert forall|i: int| 0 <= i < p.len() implies out[i] != '[' by {
                    assert(out.subrange(0, p.len() as int)[i] == p[i]);
                }
                lemma_replace_prefix(s, p, p.len() as int);
            } else if k >= 1 && occurs_at(out, p, k) {
                assert(out.subrange(k, k + p.len()) =~= r.subrange(k - 1, k - 1 + p.len()));
                assert(occurs_at(r, p, k - 1));
            }
        }
    }
}

/// After redacting a list of redactable secrets, none of them occurs in the
/// text any more.
pub proof fn lemma_redact_all_removes_secrets(s: Seq<char>, secrets: Seq<Seq<char>>)
    requires
        forall|i: int| 0 <= i < secrets.len() ==> redactable(#[trigger] secrets[i]),
    ensures
        forall|i: int| 0 <= i < secrets.len() ==> !contains(redact_all(s, secrets), #[trigger] secrets[i]),
    decreases secrets.len(),
{
    if secrets.len() > 0 {
        let init = secrets.drop_last();
        assert forall|i: int| 0 <= i < init.len() implies redactable(#[trigger] init[i]) by {
            assert(init[i] == secrets[i]);
        }
        lemma_redact_all_removes_secrets(s, init);
        let before = redact_all(s, init);
        lemma_replace_removes(before, secrets.last());
        assert forall|i: int| 0 <= i < secrets.len() implies !contains(redact_all(s, secrets), #[trigger] secrets[i]) by {
            if i < secrets.len() - 1 {
                assert(init[i] == secrets[i]);
                lemma_replace_keeps_absent(before, secrets.last(), secrets[i]);
            }
        }
    }
}

/// A text without an occurrence of `q` has none in any of its pieces.
pub proof fn lemma_absent_in_subrange(s: Seq<char>, q: Seq<char>, a: int, b: int)
    requires
        0 <= a <= b <= s.len(),
        !contains(s, q),
    ensures
        !contains(s.subrange(a, b), q),
{
    if contains(s.subrange(a, b), q) {
        let k = choose|k: int| occurs_at(s.subrange(a, b), q, k);
        assert(s.subrange(a + k, a + k + q.len()) =~= s.subrange(a, b).subrange(k, k + q.len()));
        assert(occurs_at(s, q, a + k));
    }
}

/// `str::replace(p, "[redacted]")` for a non-empty `p`.
pub fn replace_with_marker(s: &[char], p: &[char]) -> (r: Vec<char>)
    requires
        p@.len() > 0,
    ensures
        r@ == replace_all(s@, p@, marker()),
{
    let mark = crate::text::chars_of("[redacted]");
    let mut out: Vec<char> = Vec::new();
    let mut i: usize = 0;
    assert(s@.subrange(0, s@.len() as int) =~= s@);
    assert(out@ + replace_all(s@, p@, marker()) =~= replace_all(s@, p@, marker()));
    while i < s.len()
        invariant
            p@.len() > 0,
            mark@ == marker(),
            i <= s.len(),
            replace_all(s@, p@, marker()) == out@ + replace_all(
                s@.subrange(i as int, s@.len() as int),
                p@,
                marker(),
            ),
        decreases s.len() - i,
    {
        let ghost rest = s@.subrange(i as int, s@.len() as int);
        if crate::text::occurs_at_chars(s, p, i) {
            assert(rest.subrange(0, p@.len() as int) =~= s@.subrange(i as int, i + p@.len()));
            assert(rest.subrange(p@.len() as int, rest.len() as int) =~= s@.subrange(
                i + p@.len(),
                s@.len() as int,
            ));
            crate::text::push_all(&mut out, &mark);
            i = i + p.len();
        } else {
            proof {
                if rest.len() >= p@.len() {
                    assert(rest.subrange(0, p@.len() as int) =~= s@.subrange(i as int, i + p@.len()));
                }
            }
            assert(rest.drop_first() =~= s@.subrange(i + 1, s@.len() as int));
            assert(rest[0] == s@[i as int]);
            out.push(s[i]);
            i = i + 1;
        }
        assert(replace_all(s@, p@, marker()) =~= out@ + replace_all(
            s@.subrange(i as int, s@.len() as int),
            p@,
            marker(),
        ));
    }
    assert(s@.subrange(i as int, s@.len() as int).len() == 0);
    assert(out@ + seq![] =~= out@);
    out
}

/// `s` with each of `secrets` replaced in turn.
pub fn redact_secrets(s: &[char], secrets: &Vec<String>) -> (r: Vec<char>)
    requires
        forall|i: int| 0 <= i < secrets@.len() ==> (#[trigger] secrets@[i])@.len() > 0,
    ensures
        r@ == redact_all(s@, crate::ai::sse::string_seq_views(secrets@)),
{
    let mut out = crate::text::copy_chars(s);
    let mut i: usize = 0;
    while i < secrets.len()
        invariant
            i <= secrets@.len(),
            forall|k: int| 0 <= k < secrets@.len() ==> (#[trigger] secrets@[k])@.len() > 0,
            out@ == redact_all(s@, crate::ai::sse::string_seq_views(secrets@.subrange(0, i as int))),
        decreases secrets.len() - i,
    {
        let secret = crate::text::chars_of(secrets[i].as_str());
        let ghost views = crate::ai::sse::string_seq_views(secrets@.subrange(0, i + 1));
        assert(views.drop_last() =~= crate::ai::sse::string_seq_views(secrets@.subrange(0, i as int)));
        assert(views.last() == secrets@[i as int]@);
        out = replace_with_marker(&out, &secret);
        i = i + 1;
    }
    assert(secrets@.subrange(0, secrets@.len() as int) =~= secrets@);
    out
}

} // verus!
