//! How concurrent versions of a content converge.
//!
//! A version holds the content body and the access policy. The body is a
//! last-writer-wins register ordered by the time of its last explicit
//! write (`body_updated_at`), with the body bytes as a deterministic
//! tie-break; the policy's cutoff only moves forward, so the policy with
//! the highest (cutoff, update time) wins. The two are merged field by
//! field, so neither a concurrent revoke nor a concurrent write is lost.
use vstd::prelude::*;
use crate::access_policy::{AccessPolicy, AccessPolicyView};
use crate::encoding::copy_bytes;

verus! {

/// The payload of a content version.
#[derive(Debug, Clone, PartialEq)]
pub struct ContentPayload {
    pub data: Vec<u8>,
    pub body_updated_at: u64,
    pub access_policy: Option<AccessPolicy>,
}

/// Lexicographic order on byte strings, as `Vec<u8>` orders them: a proper
/// prefix comes first.
pub open spec fn lex_le(a: Seq<u8>, b: Seq<u8>) -> bool
    decreases a.len(),
{
    if a.len() == 0 {
        true
    } else if b.len() == 0 {
        false
    } else if a[0] < b[0] {
        true
    } else if a[0] > b[0] {
        false
    } else {
        lex_le(a.drop_first(), b.drop_first())
    }
}

/// The order of bodies: by write time, then by bytes.
pub open spec fn body_le(a: (u64, Seq<u8>), b: (u64, Seq<u8>)) -> bool {
    a.0 < b.0 || (a.0 == b.0 && lex_le(a.1, b.1))
}

/// The body of a payload with its write time.
pub open spec fn body_key(p: ContentPayload) -> (u64, Seq<u8>) {
    (p.body_updated_at, p.data@)
}

/// The order of policies: by cutoff, then by update time.
pub open spec fn policy_le(a: AccessPolicyView, b: AccessPolicyView) -> bool {
    a.min_valid_issued_at < b.min_valid_issued_at || (a.min_valid_issued_at
        == b.min_valid_issued_at && a.updated_at <= b.updated_at)
}

/// `w` is the greatest body among `nodes`.
pub open spec fn is_body_winner(nodes: Seq<ContentPayload>, w: (u64, Seq<u8>)) -> bool {
    &&& forall|i: int| 0 <= i < nodes.len() ==> body_le(#[trigger] body_key(nodes[i]), w)
    &&& exists|i: int| 0 <= i < nodes.len() && #[trigger] body_key(nodes[i]) == w
}

/// `p` is the greatest policy among those of `nodes` (`None` when there is
/// none).
pub open spec fn is_policy_winner(nodes: Seq<ContentPayload>, p: Option<AccessPolicyView>) -> bool {
    match p {
        None => forall|i: int| 0 <= i < nodes.len() ==> (#[trigger] nodes[i]).access_policy is None,
        Some(w) => {
            &&& forall|i: int|
                0 <= i < nodes.len() && (#[trigger] nodes[i]).access_policy is Some ==> policy_le(
                    nodes[i].access_policy.unwrap()@,
                    w,
                )
            &&& exists|i: int|
                0 <= i < nodes.len() && (#[trigger] nodes[i]).access_policy is Some
                    && nodes[i].access_policy.unwrap()@ == w
        },
    }
}

/// The policy view of an optional policy.
pub open spec fn policy_view(p: Option<AccessPolicy>) -> Option<AccessPolicyView> {
    match p {
        Some(x) => Some(x@),
        None => None,
    }
}

/// The byte order is total.
pub proof fn lemma_lex_total(a: Seq<u8>, b: Seq<u8>)
    ensures
        lex_le(a, b) || lex_le(b, a),
    decreases a.len(),
{
    if a.len() > 0 && b.len() > 0 && a[0] == b[0] {
        lemma_lex_total(a.drop_first(), b.drop_first());
    }
}

/// The byte order is antisymmetric.
pub proof fn lemma_lex_antisymmetric(a: Seq<u8>, b: Seq<u8>)
    requires
        lex_le(a, b),
        lex_le(b, a),
    ensures
        a == b,
    decreases a.len(),
{
    if a.len() == 0 {
        assert(b.len() == 0);
        assert(a =~= b);
    } else {
        lemma_lex_antisymmetric(a.drop_first(), b.drop_first());
        assert(a =~= seq![a[0]] + a.drop_first());
        assert(b =~= seq![b[0]] + b.drop_first());
    }
}

/// The byte order is transitive.
pub proof fn lemma_lex_transitive(a: Seq<u8>, b: Seq<u8>, c: Seq<u8>)
    requires
        lex_le(a, b),
        lex_le(b, c),
    ensures
        lex_le(a, c),
    decreases a.len(),
{
    if a.len() > 0 && b.len() > 0 && c.len() > 0 && a[0] == b[0] && b[0] == c[0] {
        lemma_lex_transitive(a.drop_first(), b.drop_first(), c.drop_first());
    }
}

/// The body order is a total order.
pub proof fn lemma_body_order(a: (u64, Seq<u8>), b: (u64, Seq<u8>), c: (u64, Seq<u8>))
    ensures
        body_le(a, b) || body_le(b, a),
        body_le(a, b) && body_le(b, a) ==> a == b,
        body_le(a, b) && body_le(b, c) ==> body_le(a, c),
{
    lemma_lex_total(a.1, b.1);
    if body_le(a, b) && body_le(b, a) {
        lemma_lex_antisymmetric(a.1, b.1);
    }
    if body_le(a, b) && body_le(b, c) && a.0 == b.0 && b.0 == c.0 {
        lemma_lex_transitive(a.1, b.1, c.1);
    }
}

/// Compares two byte strings in the order of `Vec<u8>`.
pub fn bytes_le(a: &[u8], b: &[u8]) -> (r: bool)
    ensures
        r == lex_le(a@, b@),
{
    let mut i: usize = 0;
    assert(a@.subrange(0, a@.len() as int) =~= a@);
    assert(b@.subrange(0, b@.len() as int) =~= b@);
    while i < a.len() && i < b.len()
        invariant
            i <= a@.len(),
            i <= b@.len(),
            lex_le(a@, b@) == lex_le(
                a@.subrange(i as int, a@.len() as int),
                b@.subrange(i as int, b@.len() as int),
            ),
        decreases a@.len() - i,
    {
        let ghost sa = a@.subrange(i as int, a@.len() as int);
        let ghost sb = b@.subrange(i as int, b@.len() as int);
        if a[i] < b[i] {
            assert(sa[0] == a@[i as int] && sb[0] == b@[i as int]);
            return true;
        }
        if a[i] > b[i] {
            assert(sa[0] == a@[i as int] && sb[0] == b@[i as int]);
            return false;
        }
        proof {
            assert(sa[0] == sb[0]);
            assert(sa.drop_first() =~= a@.subrange(i + 1, a@.len() as int));
            assert(sb.drop_first() =~= b@.subrange(i + 1, b@.len() as int));
        }
        i = i + 1;
    }
    i == a.len()
}

/// Whether body `a` does not come after body `b`.
fn body_not_after(a: &ContentPayload, b: &ContentPayload) -> (r: bool)
    ensures
        r == body_le(body_key(*a), body_key(*b)),
{
    a.body_updated_at < b.body_updated_at || (a.body_updated_at == b.body_updated_at && bytes_le(
        a.data.as_slice(),
        b.data.as_slice(),
    ))
}

/// Whether policy `a` does not come after policy `b`.
fn policy_not_after(a: &AccessPolicy, b: &AccessPolicy) -> (r: bool)
    ensures
        r == policy_le(a@, b@),
{
    a.min_valid_issued_at() < b.min_valid_issued_at() || (a.min_valid_issued_at()
        == b.min_valid_issued_at() && a.updated_at() <= b.updated_at())
}

/// The field-wise merge of a content version's heads.
pub struct MonasMergePolicy;

impl MonasMergePolicy {
    /// The position of the greatest body (the last one among equals).
    fn body_winner(nodes: &Vec<ContentPayload>) -> (r: usize)
        requires
            nodes@.len() >= 1,
        ensures
            r < nodes@.len(),
            is_body_winner(nodes@, body_key(nodes@[r as int])),
    {
        let mut best: usize = 0;
        let mut i: usize = 1;
        proof {
            lemma_body_order(body_key(nodes@[0]), body_key(nodes@[0]), body_key(nodes@[0]));
        }
        while i < nodes.len()
            invariant
                1 <= i <= nodes@.len(),
                best < i,
                forall|k: int| 0 <= k < i ==> body_le(#[trigger] body_key(nodes@[k]), body_key(nodes@[best as int])),
            decreases nodes@.len() - i,
        {
            if body_not_after(&nodes[best], &nodes[i]) {
                proof {
                    assert forall|k: int| 0 <= k < i + 1 implies body_le(
                        #[trigger] body_key(nodes@[k]),
                        body_key(nodes@[i as int]),
                    ) by {
                        lemma_body_order(body_key(nodes@[k]), body_key(nodes@[best as int]), body_key(nodes@[i as int]));
                        lemma_body_order(body_key(nodes@[i as int]), body_key(nodes@[i as int]), body_key(nodes@[i as int]));
                    }
                }
                best = i;
            } else {
                proof {
                    lemma_body_order(body_key(nodes@[best as int]), body_key(nodes@[i as int]), body_key(nodes@[i as int]));
                }
            }
            i = i + 1;
        }
        best
    }

    /// The position of the greatest policy (the last one among equals), if
    /// any version has a policy.
    fn policy_winner(nodes: &Vec<ContentPayload>) -> (r: Option<usize>)
        ensures
            r matches Some(k) ==> k < nodes@.len() && nodes@[k as int].access_policy is Some
                && is_policy_winner(nodes@, policy_view(nodes@[k as int].access_policy)),
            r is None ==> is_policy_winner(nodes@, None),
    {
        let mut best: Option<usize> = None;
        let mut i: usize = 0;
        while i < nodes.len()
            invariant
                i <= nodes@.len(),
                best matches Some(b) ==> b < i && nodes@[b as int].access_policy is Some
                    && forall|k: int|
                    0 <= k < i && (#[trigger] nodes@[k]).access_policy is Some ==> policy_le(
                        nodes@[k].access_policy.unwrap()@,
                        nodes@[b as int].access_policy.unwrap()@,
                    ),
                best is None ==> forall|k: int| 0 <= k < i ==> (#[trigger] nodes@[k]).access_policy is None,
            decreases nodes@.len() - i,
        {
            match &nodes[i].access_policy {
                None => {},
                Some(p) => {
                    match best {
                        None => {
                            best = Some(i);
                        },
                        Some(b) => {
                            let current = nodes[b].access_policy.as_ref().unwrap();
                            if policy_not_after(current, p) {
                                best = Some(i);
                            }
                        },
                    }
                },
            }
            i = i + 1;
        }
        proof {
            if let Some(b) = best {
                assert(nodes@[b as int].access_policy is Some);
            }
        }
        best
    }

    /// Merges the heads of a content: the greatest body, and the greatest
    /// policy of any head.
    pub fn resolve(nodes: &Vec<ContentPayload>) -> (r: ContentPayload)
        requires
            nodes@.len() >= 1,
        ensures
            is_body_winner(nodes@, body_key(r)),
            is_policy_winner(nodes@, policy_view(r.access_policy)),
    {
        let w = Self::body_winner(nodes);
        let data = copy_bytes(&nodes[w].data);
        let access_policy = match Self::policy_winner(nodes) {
            Some(k) => Some(nodes[k].access_policy.as_ref().unwrap().duplicate()),
            None => None,
        };
        ContentPayload { data, body_updated_at: nodes[w].body_updated_at, access_policy }
    }

    /// The name of this merge policy.
    pub fn name(&self) -> (r: &'static str)
        ensures
            r@ == "monas-fieldwise"@,
    {
        "monas-fieldwise"
    }
}

/// The policy order is total, antisymmetric on (cutoff, update time) and
/// transitive.
pub proof fn lemma_policy_order(a: AccessPolicyView, b: AccessPolicyView, c: AccessPolicyView)
    ensures
        policy_le(a, b) || policy_le(b, a),
        policy_le(a, b) && policy_le(b, a) ==> a.min_valid_issued_at == b.min_valid_issued_at
            && a.updated_at == b.updated_at,
        policy_le(a, b) && policy_le(b, c) ==> policy_le(a, c),
{
}

/// The merge does not depend on the order of the heads: any two head lists
/// holding the same versions merge to the same body and to a policy with
/// the same cutoff and update time.
pub proof fn law_resolve_order_independent(
    s1: Seq<ContentPayload>,
    s2: Seq<ContentPayload>,
    w1: (u64, Seq<u8>),
    w2: (u64, Seq<u8>),
    p1: Option<AccessPolicyView>,
    p2: Option<AccessPolicyView>,
)
    requires
        s1.to_set() == s2.to_set(),
        is_body_winner(s1, w1),
        is_body_winner(s2, w2),
        is_policy_winner(s1, p1),
        is_policy_winner(s2, p2),
    ensures
        w1 == w2,
        p1 is None <==> p2 is None,
        p1 matches Some(a) ==> p2 matches Some(b) && a.min_valid_issued_at == b.min_valid_issued_at
            && a.updated_at == b.updated_at,
{
    let i1 = choose|i: int| 0 <= i < s1.len() && #[trigger] body_key(s1[i]) == w1;
    let i2 = choose|i: int| 0 <= i < s2.len() && #[trigger] body_key(s2[i]) == w2;
    assert(s1.to_set().contains(s1[i1]));
    assert(s2.contains(s1[i1]));
    let j1 = choose|j: int| 0 <= j < s2.len() && s2[j] == s1[i1];
    assert(body_le(body_key(s2[j1]), w2));
    assert(s2.to_set().contains(s2[i2]));
    assert(s1.contains(s2[i2]));
    let j2 = choose|j: int| 0 <= j < s1.len() && s1[j] == s2[i2];
    assert(body_le(body_key(s1[j2]), w1));
    lemma_body_order(w1, w2, w2);
    match p1 {
        None => {
            match p2 {
                None => {},
                Some(b) => {
                    let k = choose|k: int|
                        0 <= k < s2.len() && (#[trigger] s2[k]).access_policy is Some
                            && s2[k].access_policy.unwrap()@ == b;
                    assert(s2.to_set().contains(s2[k]));
                    assert(s1.contains(s2[k]));
                    let m = choose|m: int| 0 <= m < s1.len() && s1[m] == s2[k];
                    assert(s1[m].access_policy is None);
                },
            }
        },
        Some(a) => {
            let k = choose|k: int|
                0 <= k < s1.len() && (#[trigger] s1[k]).access_policy is Some
                    && s1[k].access_policy.unwrap()@ == a;
            assert(s1.to_set().contains(s1[k]));
            assert(s2.contains(s1[k]));
            let m = choose|m: int| 0 <= m < s2.len() && s2[m] == s1[k];
            assert(s2[m].access_policy is Some);
            let b = p2.unwrap();
            let k2 = choose|k: int|
                0 <= k < s2.len() && (#[trigger] s2[k]).access_policy is Some
                    && s2[k].access_policy.unwrap()@ == b;
            assert(s2.to_set().contains(s2[k2]));
            assert(s1.contains(s2[k2]));
            let m2 = choose|m: int| 0 <= m < s1.len() && s1[m] == s2[k2];
            assert(policy_le(s1[m2].access_policy.unwrap()@, a));
            assert(policy_le(s2[m].access_policy.unwrap()@, b));
            lemma_policy_order(a, b, b);
        },
    }
}

/// Merging a version with itself gives its own body and policy.
pub proof fn law_resolve_idempotent(
    r: ContentPayload,
    w: (u64, Seq<u8>),
    p: Option<AccessPolicyView>,
)
    requires
        is_body_winner(seq![r, r], w),
        is_policy_winner(seq![r, r], p),
    ensures
        w == body_key(r),
        p == policy_view(r.access_policy),
{
    let s = seq![r, r];
    let i = choose|i: int| 0 <= i < s.len() && #[trigger] body_key(s[i]) == w;
    assert(s[i] == r);
    match p {
        None => {
            assert(s[0].access_policy is None);
        },
        Some(a) => {
            let k = choose|k: int|
                0 <= k < s.len() && (#[trigger] s[k]).access_policy is Some
                    && s[k].access_policy.unwrap()@ == a;
            assert(s[k] == r);
        },
    }
}

/// Merging in steps gives what merging at once gives: the merge of `x` and
/// `y`, merged with `z`, has the body of the merge of all three and a
/// policy with its cutoff and update time.
pub proof fn law_resolve_associative(
    x: ContentPayload,
    y: ContentPayload,
    z: ContentPayload,
    xy: ContentPayload,
    w: (u64, Seq<u8>),
    p: Option<AccessPolicyView>,
    w3: (u64, Seq<u8>),
    p3: Option<AccessPolicyView>,
)
    requires
        is_body_winner(seq![x, y], body_key(xy)),
        is_policy_winner(seq![x, y], policy_view(xy.access_policy)),
        is_body_winner(seq![xy, z], w),
        is_policy_winner(seq![xy, z], p),
        is_body_winner(seq![x, y, z], w3),
        is_policy_winner(seq![x, y, z], p3),
    ensures
        w == w3,
        p is None <==> p3 is None,
        p matches Some(a) ==> p3 matches Some(b) && a.min_valid_issued_at == b.min_valid_issued_at
            && a.updated_at == b.updated_at,
{
    let s2 = seq![x, y];
    let t = seq![xy, z];
    let s3 = seq![x, y, z];
    // Bodies: both are the greatest of x, y, z.
    let kxy = body_key(xy);
    assert(body_le(body_key(s2[0]), kxy));
    assert(body_le(body_key(s2[1]), kxy));
    assert(body_le(body_key(t[0]), w));
    assert(body_le(body_key(t[1]), w));
    lemma_body_order(body_key(x), kxy, w);
    lemma_body_order(body_key(y), kxy, w);
    let i = choose|i: int| 0 <= i < t.len() && #[trigger] body_key(t[i]) == w;
    let ixy = choose|i: int| 0 <= i < s2.len() && #[trigger] body_key(s2[i]) == kxy;
    let i3 = choose|i: int| 0 <= i < s3.len() && #[trigger] body_key(s3[i]) == w3;
    assert(body_le(body_key(s3[0]), w3));
    assert(body_le(body_key(s3[1]), w3));
    assert(body_le(body_key(s3[2]), w3));
    if i == 0 {
        assert(body_key(s3[ixy]) == w);
    } else {
        assert(body_key(s3[2]) == w);
    }
    assert(body_le(w, w3));
    if i3 == 2 {
        assert(body_le(w3, w));
    } else {
        assert(body_key(s2[i3]) == w3);
        assert(body_le(w3, kxy));
        lemma_body_order(w3, kxy, w);
    }
    lemma_body_order(w, w3, w3);
    // Policies.
    let pxy = policy_view(xy.access_policy);
    match p3 {
        None => {
            assert(s3[0].access_policy is None);
            assert(s3[1].access_policy is None);
            assert(s3[2].access_policy is None);
            assert(s2[0].access_policy is None);
            assert(s2[1].access_policy is None);
            if pxy is Some {
                let k = choose|k: int|
                    0 <= k < s2.len() && (#[trigger] s2[k]).access_policy is Some
                        && s2[k].access_policy.unwrap()@ == pxy.unwrap();
            }
            assert(t[0].access_policy is None);
            assert(t[1].access_policy is None);
            if p is Some {
                let k = choose|k: int|
                    0 <= k < t.len() && (#[trigger] t[k]).access_policy is Some
                        && t[k].access_policy.unwrap()@ == p.unwrap();
            }
        },
        Some(b) => {
            let k3 = choose|k: int|
                0 <= k < s3.len() && (#[trigger] s3[k]).access_policy is Some
                    && s3[k].access_policy.unwrap()@ == b;
            // p is Some: either xy or z has a policy.
            if k3 == 2 {
                assert(t[1].access_policy is Some);
            } else {
                assert(s2[k3].access_policy is Some);
                assert(pxy is Some);
                assert(t[0].access_policy is Some);
            }
            assert(p is Some);
            let a = p.unwrap();
            let kt = choose|k: int|
                0 <= k < t.len() && (#[trigger] t[k]).access_policy is Some
                    && t[k].access_policy.unwrap()@ == a;
            // a is one of the policies of x, y, z, so a <= b.
            if kt == 0 {
                let kk = choose|k: int|
                    0 <= k < s2.len() && (#[trigger] s2[k]).access_policy is Some
                        && s2[k].access_policy.unwrap()@ == pxy.unwrap();
                assert(s3[kk] == s2[kk]);
                assert(policy_le(a, b));
            } else {
                assert(s3[2] == z);
                assert(policy_le(a, b));
            }
            // b is at most a.
            if k3 == 2 {
                assert(policy_le(b, a));
            } else {
                assert(s3[k3] == s2[k3]);
                let pv = pxy.unwrap();
                assert(policy_le(b, pv));
                assert(t[0].access_policy is Some);
                assert(policy_le(pv, a));
                lemma_policy_order(b, pv, a);
            }
            lemma_policy_order(a, b, b);
        },
    }
}

} // verus!
