use vstd::prelude::*;

verus! {

/// `p` is a prefix of `s`.
pub open spec fn starts_with(s: Seq<char>, p: Seq<char>) -> bool {
    p.len() <= s.len() && s.take(p.len() as int) == p
}

/// The characters of `s`, in order.
pub fn chars_of(s: &str) -> (v: Vec<char>)
    ensures
        v@ == s@,
{
    let mut v: Vec<char> = Vec::new();
    for c in it: s.chars()
        invariant
            v@ == it.seq().take(it.index() as int),
    {
        v.push(c);
    }
    v
}

/// Whether the characters of `cs` from position `at` on begin with `p`.
pub fn has_prefix_at(cs: &Vec<char>, at: usize, p: &Vec<char>) -> (r: bool)
    requires
        at <= cs@.len(),
    ensures
        r == starts_with(cs@.skip(at as int), p@),
{
    let n: usize = cs.len();
    if p.len() > n - at {
        return false;
    }
    let mut i: usize = 0;
    while i < p.len()
        invariant
            n == cs@.len(),
            at <= cs@.len(),
            p@.len() <= cs@.len() - at,
            i <= p@.len(),
            forall|k: int| 0 <= k < i ==> cs@[at + k] == p@[k],
        decreases p@.len() - i,
    {
        if cs[at + i] != p[i] {
            assert(cs@.skip(at as int).take(p@.len() as int)[i as int] != p@[i as int]);
            return false;
        }
        i = i + 1;
    }
    assert(cs@.skip(at as int).take(p@.len() as int) =~= p@);
    true
}

/// Whether two strings hold the same characters.
pub fn same_text(a: &str, b: &str) -> (r: bool)
    ensures
        r == (a@ == b@),
{
    let av = chars_of(a);
    let bv = chars_of(b);
    if av.len() != bv.len() {
        return false;
    }
    let r = has_prefix_at(&av, 0, &bv);
    assert(av@.skip(0) =~= av@);
    assert(r ==> av@.take(bv@.len() as int) =~= av@);
    r
}

} // verus!
