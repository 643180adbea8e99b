//! The names an import gives: a free name for the sound set, and free file
//! names for extracted files in the library directory.
use vstd::prelude::*;
use crate::text::{chars_of, decimal, lemma_decimal_injective, lemma_decimal_nonempty, push_decimal, string_of_range};
use vstd::set_lib::{lemma_int_range, lemma_len_subset, set_int_range};

verus! {

/// The `k`-th name tried for an imported sound set: its own name, then
/// `"<name> (1)"`, `"<name> (2)"`, and so on.
pub open spec fn candidate_name(base: Seq<char>, k: nat) -> Seq<char> {
    if k == 0 { base } else { base + " ("@ + decimal(k) + ")"@ }
}

/// Whether a sound set named `name` is among `existing`.
pub open spec fn name_taken(existing: Seq<String>, name: Seq<char>) -> bool {
    exists|i: int| 0 <= i < existing.len() && (#[trigger] existing[i])@ == name
}

/// `name` is the first candidate for `base` that no sound set of `existing`
/// has.
pub open spec fn is_resolved_name(name: Seq<char>, base: Seq<char>, existing: Seq<String>) -> bool {
    exists|k: nat| {
        &&& name == #[trigger] candidate_name(base, k)
        &&& !name_taken(existing, name)
        &&& forall|j: nat| j < k ==> name_taken(existing, #[trigger] candidate_name(base, j))
    }
}

proof fn lemma_candidates_distinct(base: Seq<char>, j: nat, k: nat)
    requires
        j != k,
    ensures
        candidate_name(base, j) != candidate_name(base, k),
{
    reveal_strlit(" (");
    reveal_strlit(")");
    lemma_decimal_nonempty(j);
    lemma_decimal_nonempty(k);
    if j > 0 && k > 0 && candidate_name(base, j) == candidate_name(base, k) {
        let cj = candidate_name(base, j);
        let ck = candidate_name(base, k);
        let lo = base.len() + 2;
        assert(cj.len() == ck.len());
        assert(cj.subrange(lo as int, cj.len() - 1) =~= decimal(j));
        assert(ck.subrange(lo as int, ck.len() - 1) =~= decimal(k));
        lemma_decimal_injective(j, k);
    }
    if j == 0 && k > 0 {
        assert(candidate_name(base, j).len() != candidate_name(base, k).len());
    }
    if k == 0 && j > 0 {
        assert(candidate_name(base, j).len() != candidate_name(base, k).len());
    }
}

fn candidate_name_exec(base: &String, k: u64) -> (r: String)
    ensures
        r@ == candidate_name(base@, k as nat),
{
    let mut r = base.clone();
    if k > 0 {
        r.append(" (");
        push_decimal(&mut r, k);
        r.append(")");
    }
    r
}

fn is_taken(existing: &Vec<String>, name: &String) -> (r: bool)
    ensures
        r == name_taken(existing@, name@),
{
    let mut i: usize = 0;
    while i < existing.len()
        invariant
            i <= existing.len(),
            forall|j: int| 0 <= j < i ==> (#[trigger] existing@[j])@ != name@,
        decreases existing.len() - i,
    {
        if existing[i] == *name {
            return true;
        }
        i += 1;
    }
    false
}

/// The name under which a sound set named `base` is imported next to the
/// sound sets named `existing`: `base` if it is free, else the first free
/// of `"<base> (1)"`, `"<base> (2)"`, ...
pub fn resolve_sound_set_name(base: &String, existing: &Vec<String>) -> (r: String)
    ensures
        is_resolved_name(r@, base@, existing@),
{
    let mut k: usize = 0;
    let ghost mut used: Set<int> = Set::empty();
    let mut candidate = candidate_name_exec(base, 0);
    proof {
        lemma_int_range(0, existing@.len() as int);
    }
    while is_taken(existing, &candidate)
        invariant
            k <= existing@.len(),
            candidate@ == candidate_name(base@, k as nat),
            used.subset_of(set_int_range(0, existing@.len() as int)),
            used.finite(),
            used.len() == k,
            set_int_range(0, existing@.len() as int).finite(),
            set_int_range(0, existing@.len() as int).len() == existing@.len(),
            forall|j: nat| j < k ==> name_taken(existing@, #[trigger] candidate_name(base@, j)),
            forall|i: int| #[trigger] used.contains(i) ==> exists|j: nat| j < k && existing@[i]@ == candidate_name(base@, j),
        decreases existing@.len() - k,
    {
        let ghost idx = choose|i: int| 0 <= i < existing@.len() && (#[trigger] existing@[i])@ == candidate@;
        proof {
            if used.contains(idx) {
                let j = choose|j: nat| j < k && existing@[idx]@ == candidate_name(base@, j);
                lemma_candidates_distinct(base@, j, k as nat);
            }
            assert(!used.contains(idx));
            used = used.insert(idx);
            lemma_len_subset(used, set_int_range(0, existing@.len() as int));
            assert forall|i: int| #[trigger] used.contains(i) implies exists|j: nat| j < k + 1 && existing@[i]@ == candidate_name(base@, j) by {
                if i == idx {
                    assert(existing@[i]@ == candidate_name(base@, k as nat));
                } else {
                    let j = choose|j: nat| j < k && existing@[i]@ == candidate_name(base@, j);
                    assert(j < k + 1);
                }
            }
        }
        assert(k + 1 <= existing.len());
        k = k + 1;
        candidate = candidate_name_exec(base, k as u64);
    }
    candidate
}

/// Importing two packages whose sound set is named `base` in succession,
/// where neither `base` nor `"<base> (1)"` is taken yet, names the first
/// import `base` and the second `"<base> (1)"`.
pub proof fn lemma_second_import_suffixed(
    base: Seq<char>,
    existing: Seq<String>,
    first: String,
    first_name: Seq<char>,
    second_name: Seq<char>,
)
    requires
        !name_taken(existing, base),
        !name_taken(existing, candidate_name(base, 1)),
        is_resolved_name(first_name, base, existing),
        first@ == first_name,
        is_resolved_name(second_name, base, existing.push(first)),
    ensures
        first_name == base,
        second_name == candidate_name(base, 1),
{
    let k1 = choose|k: nat| {
        &&& first_name == #[trigger] candidate_name(base, k)
        &&& !name_taken(existing, first_name)
        &&& forall|j: nat| j < k ==> name_taken(existing, #[trigger] candidate_name(base, j))
    };
    if k1 > 0 {
        assert(name_taken(existing, candidate_name(base, 0)));
    }
    let e2 = existing.push(first);
    let k2 = choose|k: nat| {
        &&& second_name == #[trigger] candidate_name(base, k)
        &&& !name_taken(e2, second_name)
        &&& forall|j: nat| j < k ==> name_taken(e2, #[trigger] candidate_name(base, j))
    };
    assert(e2[existing.len() as int]@ == base);
    if k2 == 0 {
        assert(name_taken(e2, base));
    }
    if k2 >= 2 {
        assert(name_taken(e2, candidate_name(base, 1)));
        let i = choose|i: int| 0 <= i < e2.len() && (#[trigger] e2[i])@ == candidate_name(base, 1);
        if i < existing.len() {
            assert(existing[i] == e2[i]);
        } else {
            lemma_candidates_distinct(base, 0, 1);
        }
    }
}

/// Where the last path component of `s` starts: just after its last `/`.
pub open spec fn component_start(s: Seq<char>) -> int
    decreases s.len(),
{
    if s.len() == 0 {
        0
    } else if s.last() == '/' {
        s.len() as int
    } else {
        component_start(s.drop_last())
    }
}

/// The position of the last `.` of `s`.
pub open spec fn last_dot(s: Seq<char>) -> Option<int>
    decreases s.len(),
{
    if s.len() == 0 {
        None
    } else if s.last() == '.' {
        Some(s.len() - 1)
    } else {
        last_dot(s.drop_last())
    }
}

/// The stem and extension of a file name: split at its last `.`, unless
/// that `.` starts the name, in which case the name has no extension.
pub open spec fn stem_and_extension(name: Seq<char>) -> (Seq<char>, Seq<char>) {
    match last_dot(name) {
        Some(d) => if d > 0 {
            (name.subrange(0, d), name.subrange(d + 1, name.len() as int))
        } else {
            (name, Seq::empty())
        },
        None => (name, Seq::empty()),
    }
}

/// The `k`-th destination tried for an imported file named `file_name` in
/// the library directory: the name itself, then `<stem>-<k>.<extension>`
/// built from its last component.
pub open spec fn library_candidate(file_name: Seq<char>, k: nat) -> Seq<char> {
    if k == 0 {
        file_name
    } else {
        let c = file_name.subrange(component_start(file_name), file_name.len() as int);
        let (stem, ext) = stem_and_extension(c);
        stem + "-"@ + decimal(k) + "."@ + ext
    }
}

proof fn lemma_component_start(s: Seq<char>)
    ensures
        0 <= component_start(s) <= s.len(),
    decreases s.len(),
{
    if s.len() > 0 {
        lemma_component_start(s.drop_last());
    }
}

proof fn lemma_last_dot(s: Seq<char>)
    ensures
        last_dot(s) matches Some(d) ==> 0 <= d < s.len(),
    decreases s.len(),
{
    if s.len() > 0 {
        lemma_last_dot(s.drop_last());
    }
}

/// The `k`-th destination tried for an imported file named `file_name`;
/// the importer takes the first that does not exist yet.
pub fn library_file_candidate(file_name: &str, k: u64) -> (r: String)
    ensures
        r@ == library_candidate(file_name@, k as nat),
{
    if k == 0 {
        return String::from_str(file_name);
    }
    let cs = chars_of(file_name);
    let n = cs.len();
    let mut start: usize = 0;
    let mut i: usize = 0;
    while i < n
        invariant
            i <= n,
            n == cs@.len(),
            start == component_start(cs@.take(i as int)),
        decreases n - i,
    {
        assert(cs@.take(i + 1).drop_last() =~= cs@.take(i as int));
        if cs[i] == '/' {
            start = i + 1;
        }
        i += 1;
    }
    assert(cs@.take(n as int) =~= cs@);
    proof {
        lemma_component_start(cs@);
    }
    let comp = string_of_range(&cs, start, n);
    let cc = chars_of(comp.as_str());
    let m = cc.len();
    let mut dot: Option<usize> = None;
    let mut j: usize = 0;
    while j < m
        invariant
            j <= m,
            m == cc@.len(),
            match dot {
                Some(d) => d < j && last_dot(cc@.take(j as int)) == Some(d as int),
                None => last_dot(cc@.take(j as int)) is None,
            },
        decreases m - j,
    {
        assert(cc@.take(j + 1).drop_last() =~= cc@.take(j as int));
        if cc[j] == '.' {
            dot = Some(j);
        }
        j += 1;
    }
    assert(cc@.take(m as int) =~= cc@);
    let mut r: String;
    let ext: String;
    match dot {
        Some(d) => {
            if d > 0 {
                r = string_of_range(&cc, 0, d);
                ext = string_of_range(&cc, d + 1, m);
            } else {
                r = comp;
                ext = String::new();
            }
        },
        None => {
            r = comp;
            ext = String::new();
        },
    }
    r.append("-");
    push_decimal(&mut r, k);
    r.append(".");
    r.append(ext.as_str());
    r
}

} // verus!
