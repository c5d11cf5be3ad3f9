use vstd::prelude::*;

verus! {

/// The texts of a list of keys.
pub open spec fn key_views(keys: Seq<String>) -> Seq<Seq<char>> {
    keys.map_values(|k: String| k@)
}

/// Whether a list of keys holds a key with this text.
pub fn has_key(keys: &Vec<String>, k: &String) -> (r: bool)
    ensures
        r == key_views(keys@).contains(k@),
{
    let mut i: usize = 0;
    while i < keys.len()
        invariant
            i <= keys@.len(),
            forall|j: int| 0 <= j < i ==> keys@[j]@ != k@,
        decreases keys@.len() - i,
    {
        if keys[i] == *k {
            assert(key_views(keys@)[i as int] == k@);
            return true;
        }
        i = i + 1;
    }
    proof {
        if key_views(keys@).contains(k@) {
            let j = choose|j: int| 0 <= j < key_views(keys@).len() && key_views(keys@)[j] == k@;
            assert(keys@[j]@ == k@);
        }
    }
    false
}

/// Adds a key to a list of distinct keys unless one with the same text is
/// there already.
pub fn add_key(keys: &mut Vec<String>, k: String)
    requires
        key_views(old(keys)@).no_duplicates(),
    ensures
        key_views(final(keys)@).no_duplicates(),
        forall|t: Seq<char>| #[trigger] key_views(final(keys)@).contains(t) <==> (key_views(old(keys)@).contains(t)
            || t == k@),
{
    if has_key(keys, &k) {
        return;
    }
    let ghost before = key_views(keys@);
    let ghost kv = k@;
    keys.push(k);
    let ghost after = key_views(keys@);
    assert(after == before.push(kv));
    assert forall|t: Seq<char>| #[trigger] after.contains(t) <==> (before.contains(t) || t == kv) by {
        if before.contains(t) {
            let j = choose|j: int| 0 <= j < before.len() && before[j] == t;
            assert(after[j] == t);
        }
        if after.contains(t) && t != kv {
            let j = choose|j: int| 0 <= j < after.len() && after[j] == t;
            assert(j < before.len());
            assert(before[j] == t);
        }
        if t == kv {
            assert(after[before.len() as int] == t);
        }
    }
    assert forall|a: int, b: int| 0 <= a < after.len() && 0 <= b < after.len() && a != b implies after[a]
        != after[b] by {
        if a == before.len() {
            assert(before[b] == after[b]);
        } else if b == before.len() {
            assert(before[a] == after[a]);
        }
    }
}

/// The keys of `wanted` whose text `present` does not hold, each once
/// (in the order of their first appearance).
pub fn key_difference(wanted: &Vec<String>, present: &Vec<String>) -> (r: Vec<String>)
    ensures
        key_views(r@).no_duplicates(),
        forall|t: Seq<char>| #[trigger] key_views(r@).contains(t) <==> (key_views(wanted@).contains(t)
            && !key_views(present@).contains(t)),
{
    let mut r: Vec<String> = Vec::new();
    let mut i: usize = 0;
    while i < wanted.len()
        invariant
            i <= wanted@.len(),
            key_views(r@).no_duplicates(),
            forall|t: Seq<char>| #[trigger] key_views(r@).contains(t) <==> (key_views(
                wanted@.subrange(0, i as int),
            ).contains(t) && !key_views(present@).contains(t)),
        decreases wanted@.len() - i,
    {
        let ghost seen = key_views(wanted@.subrange(0, i as int));
        let ghost seen2 = key_views(wanted@.subrange(0, i + 1));
        assert(seen2 == seen.push(wanted@[i as int]@));
        assert forall|t: Seq<char>| #[trigger] seen2.contains(t) <==> (seen.contains(t) || t == wanted@[i as int]@) by {
            if seen.contains(t) {
                let j = choose|j: int| 0 <= j < seen.len() && seen[j] == t;
                assert(seen2[j] == t);
            }
            if seen2.contains(t) && t != wanted@[i as int]@ {
                let j = choose|j: int| 0 <= j < seen2.len() && seen2[j] == t;
                assert(seen[j] == t);
            }
            if t == wanted@[i as int]@ {
                assert(seen2[i as int] == t);
            }
        }
        if !has_key(present, &wanted[i]) {
            add_key(&mut r, wanted[i].clone());
        }
        i = i + 1;
    }
    assert(wanted@.subrange(0, wanted@.len() as int) == wanted@);
    r
}

} // verus!
