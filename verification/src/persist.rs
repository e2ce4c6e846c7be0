//! The attachment persister's naming discipline: a desired filename is
//! kept when free, otherwise `stem(1).ext`, `stem(2).ext`, … are tried in
//! order until an unused name is found.

use vstd::prelude::*;
use vstd::string::*;
use vstd::seq_lib::seq_to_set_is_finite;
use crate::text::dec_digits;
use crate::text::lemma_dec_digits_injective;
use crate::text::lemma_dec_digits_shape;
use crate::text::last_of;
use crate::text::rfind_char;
use crate::text::u64_to_dec;

verus! {

/// The set of names already present, as character sequences.
pub open spec fn names_of(v: Seq<String>) -> Set<Seq<char>> {
    v.map_values(|s: String| s@).to_set()
}

/// A filename split at its last dot into stem and extension. A dot in
/// first position (a hidden file) does not begin an extension, and a name
/// without a dot has an empty extension.
pub open spec fn split_dot(name: Seq<char>) -> (Seq<char>, Seq<char>) {
    let d = last_of(name, '.');
    if d <= 0 {
        (name, Seq::empty())
    } else {
        (name.take(d), name.skip(d + 1))
    }
}

/// The `k`-th alternative tried for a colliding filename:
/// `stem(k).ext`.
pub open spec fn numbered_name(desired: Seq<char>, k: int) -> Seq<char>
    recommends
        k >= 0,
{
    let p = split_dot(desired);
    p.0 + seq!['('] + dec_digits(k as nat) + seq![')', '.'] + p.1
}

/// Every numbered alternative is strictly longer than the desired name,
/// so it can never collide with it.
pub proof fn lemma_numbered_longer(desired: Seq<char>, k: int)
    requires
        k >= 0,
    ensures
        numbered_name(desired, k).len() > desired.len(),
{
    lemma_dec_digits_shape(k as nat);
    if desired.len() > 0 {
        crate::text::lemma_last_at_props(desired, '.', desired.len() - 1);
    }
    let p = split_dot(desired);
    assert(p.0.len() + p.1.len() >= desired.len() - 1);
    assert(numbered_name(desired, k).len() == p.0.len() + 1 + dec_digits(k as nat).len() + 2
        + p.1.len());
}

/// Distinct counters give distinct alternative names.
pub proof fn lemma_numbered_injective(desired: Seq<char>, k1: int, k2: int)
    requires
        k1 >= 0,
        k2 >= 0,
        numbered_name(desired, k1) == numbered_name(desired, k2),
    ensures
        k1 == k2,
{
    let p = split_dot(desired);
    let l1 = dec_digits(k1 as nat).len() as int;
    let l2 = dec_digits(k2 as nat).len() as int;
    let n1 = numbered_name(desired, k1);
    let n2 = numbered_name(desired, k2);
    assert(n1.len() == p.0.len() + 1 + l1 + 2 + p.1.len());
    assert(n2.len() == p.0.len() + 1 + l2 + 2 + p.1.len());
    assert(l1 == l2);
    let base = p.0.len() as int + 1;
    assert forall|t: int| 0 <= t < l1 implies #[trigger] dec_digits(k1 as nat)[t] == dec_digits(
        k2 as nat,
    )[t] by {
        assert(n1[base + t] == dec_digits(k1 as nat)[t]);
        assert(n2[base + t] == dec_digits(k2 as nat)[t]);
    }
    assert(dec_digits(k1 as nat) =~= dec_digits(k2 as nat));
    lemma_dec_digits_injective(k1 as nat, k2 as nat);
}

/// The counter the collision search settles on: the least `k >= 1` whose
/// alternative name is unused.
pub open spec fn free_index(taken: Set<Seq<char>>, desired: Seq<char>) -> int {
    choose|k: int|
        1 <= k && !taken.contains(numbered_name(desired, k)) && (forall|j: int|
            1 <= j < k ==> taken.contains(numbered_name(desired, j)))
}

/// The name the persister writes under: the desired name when unused,
/// otherwise the first free numbered alternative.
pub open spec fn pick_free(taken: Set<Seq<char>>, desired: Seq<char>) -> Seq<char> {
    if !taken.contains(desired) {
        desired
    } else {
        numbered_name(desired, free_index(taken, desired))
    }
}

/// A set holding the desired name and the first `m` alternatives has more
/// than `m` elements.
proof fn lemma_taken_bound(taken: Set<Seq<char>>, desired: Seq<char>, m: int)
    requires
        taken.finite(),
        m >= 0,
        taken.contains(desired),
        forall|j: int| 1 <= j <= m ==> taken.contains(numbered_name(desired, j)),
    ensures
        taken.len() >= m + 1,
    decreases m,
{
    if m == 0 {
        assert(taken.remove(desired).len() == taken.len() - 1);
    } else {
        let x = numbered_name(desired, m);
        let rest = taken.remove(x);
        lemma_numbered_longer(desired, m);
        assert(rest.contains(desired));
        assert forall|j: int| 1 <= j <= m - 1 implies rest.contains(numbered_name(desired, j)) by {
            if numbered_name(desired, j) == numbered_name(desired, m) {
                lemma_numbered_injective(desired, j, m);
            }
        }
        lemma_taken_bound(rest, desired, m - 1);
    }
}

/// The least free counter is uniquely characterized.
#[verifier::rlimit(50)]
proof fn lemma_free_index_unique(taken: Set<Seq<char>>, desired: Seq<char>, k: int)
    requires
        1 <= k,
        !taken.contains(numbered_name(desired, k)),
        forall|j: int| 1 <= j < k ==> taken.contains(numbered_name(desired, j)),
    ensures
        free_index(taken, desired) == k,
{
    let k2 = free_index(taken, desired);
    assert(1 <= k2 && !taken.contains(numbered_name(desired, k2)) && (forall|j: int|
        1 <= j < k2 ==> taken.contains(numbered_name(desired, j)))) by {
        assert(1 <= k && !taken.contains(numbered_name(desired, k)) && (forall|j: int|
            1 <= j < k ==> taken.contains(numbered_name(desired, j))));
    }
    if k2 < k {
        assert(taken.contains(numbered_name(desired, k2)));
    } else if k < k2 {
        assert(taken.contains(numbered_name(desired, k)));
    }
}

/// Collision resolution: writing a fresh name keeps it; writing the same
/// name once more — its first alternative still unused — gets
/// `stem(1).ext`. Both names are then present.
pub proof fn lemma_collision_resolution(taken: Set<Seq<char>>, desired: Seq<char>)
    requires
        taken.finite(),
        !taken.contains(desired),
        !taken.contains(numbered_name(desired, 1)),
    ensures
        pick_free(taken, desired) == desired,
        pick_free(taken.insert(desired), desired) == numbered_name(desired, 1),
        numbered_name(desired, 1) != desired,
{
    lemma_numbered_longer(desired, 1);
    lemma_free_index_unique(taken.insert(desired), desired, 1);
}

/// Whether `name` is among the taken names.
fn contains_name(taken: &Vec<String>, name: &String) -> (r: bool)
    ensures
        r == names_of(taken@).contains(name@),
{
    let n = taken.len();
    let mut i: usize = 0;
    while i < n
        invariant
            i <= n,
            n == taken@.len(),
            forall|j: int| 0 <= j < i ==> taken@[j]@ != name@,
        decreases n - i,
    {
        if taken[i].eq(name) {
            proof {
                let m = taken@.map_values(|s: String| s@);
                assert(m[i as int] == name@);
                assert(m.contains(name@));
            }
            return true;
        }
        i = i + 1;
    }
    proof {
        let m = taken@.map_values(|s: String| s@);
        assert forall|t: Seq<char>| m.contains(t) implies t != name@ by {
            let j = choose|j: int| 0 <= j < m.len() && m[j] == t;
            assert(taken@[j]@ == t);
        }
        if names_of(taken@).contains(name@) {
            assert(m.contains(name@));
        }
    }
    false
}

/// The `k`-th alternative name, built as `stem(k).ext`.
fn make_numbered(desired: &String, k: usize) -> (r: String)
    ensures
        r@ == numbered_name(desired@, k as int),
{
    let n = desired.as_str().unicode_len();
    let dot = rfind_char(desired.as_str(), '.');
    proof {
        if desired@.len() > 0 {
            crate::text::lemma_last_at_props(desired@, '.', desired@.len() - 1);
        }
    }
    let (stem, ext) = match dot {
        Some(d) => {
            if d == 0 {
                (desired.as_str().substring_char(0, n), "")
            } else {
                (desired.as_str().substring_char(0, d), desired.as_str().substring_char(d + 1, n))
            }
        },
        None => (desired.as_str().substring_char(0, n), ""),
    };
    let mut out = stem.to_owned();
    out.append("(");
    out.append(u64_to_dec(k as u64).as_str());
    out.append(").");
    out.append(ext);
    proof {
        reveal_strlit("(");
        reveal_strlit(").");
        reveal_strlit("");
        assert(desired@.take(n as int) =~= desired@);
        assert(out@ =~= numbered_name(desired@, k as int));
    }
    out
}

/// Resolves a filename collision: returns the desired name when it is not
/// taken, otherwise the first free `stem(k).ext` alternative. The result
/// is never among the taken names.
pub fn pick_free_name(taken: &Vec<String>, desired: &String) -> (r: String)
    ensures
        r@ == pick_free(names_of(taken@), desired@),
        !names_of(taken@).contains(r@),
{
    proof {
        seq_to_set_is_finite(taken@.map_values(|s: String| s@));
        taken@.map_values(|s: String| s@).lemma_cardinality_of_set();
    }
    if !contains_name(taken, desired) {
        return desired.clone();
    }
    let n_taken = taken.len();
    let ghost tset = names_of(taken@);
    let mut k: usize = 1;
    loop
        invariant
            1 <= k,
            tset == names_of(taken@),
            tset.finite(),
            n_taken == taken@.len(),
            tset.len() <= n_taken as int,
            tset.contains(desired@),
            k as int - 1 <= tset.len(),
            forall|j: int| 1 <= j < k ==> tset.contains(numbered_name(desired@, j)),
        decreases taken@.len() + 1 - k,
    {
        let cand = make_numbered(desired, k);
        if !contains_name(taken, &cand) {
            proof {
                lemma_free_index_unique(tset, desired@, k as int);
            }
            return cand;
        }
        proof {
            lemma_taken_bound(tset, desired@, k as int);
        }
        k = k + 1;
    }
}

} // verus!
