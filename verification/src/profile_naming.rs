//! The name and key a duplicated profile gets: "Name (n)" with the first number
//! not yet used as a name, and "key_m" with the first number from there not yet
//! used as a key.

use vstd::prelude::*;
use vstd::set_lib::{lemma_int_range, lemma_len_subset, lemma_map_size, set_int_range};

use crate::tabs::{decimal, decimal_chars, digit_char};
use crate::text::push_char;

verus! {

pub open spec fn string_views(v: Seq<String>) -> Seq<Seq<char>> {
    v.map_values(|s: String| s@)
}

/// The name of the `n`-th copy of a profile named `name`: `name (n)`.
pub open spec fn copy_name(name: Seq<char>, n: int) -> Seq<char> {
    name + seq![' ', '('] + decimal(n as nat) + seq![')']
}

/// The `m`-th key derived from `key`: `key_m`.
pub open spec fn copy_key(key: Seq<char>, m: int) -> Seq<char> {
    key + seq!['_'] + decimal(m as nat)
}

/// `n` is the first number from `lo` on whose text `f` gives is not taken.
pub open spec fn first_free(f: spec_fn(int) -> Seq<char>, taken: Seq<Seq<char>>, lo: int, n: int) -> bool {
    &&& lo <= n
    &&& !taken.contains(f(n))
    &&& forall|k: int| lo <= k < n ==> taken.contains(#[trigger] f(k))
}

proof fn lemma_digit_char_injective(a: int, b: int)
    requires
        0 <= a < 10,
        0 <= b < 10,
        digit_char(a) == digit_char(b),
    ensures
        a == b,
{
}

proof fn lemma_decimal_len(n: nat)
    ensures
        decimal(n).len() >= 1,
        n >= 10 ==> decimal(n).len() >= 2,
    decreases n,
{
    if n >= 10 {
        lemma_decimal_len(n / 10);
    }
}

/// Different numbers have different decimal texts.
proof fn lemma_decimal_injective(a: nat, b: nat)
    requires
        decimal(a) == decimal(b),
    ensures
        a == b,
    decreases a,
{
    lemma_decimal_len(a);
    lemma_decimal_len(b);
    if a < 10 && b < 10 {
        assert(decimal(a) == seq![digit_char(a as int)]);
        assert(decimal(b) == seq![digit_char(b as int)]);
        assert(decimal(a)[0] == decimal(b)[0]);
        assert(seq![digit_char(a as int)][0] == digit_char(a as int));
        assert(seq![digit_char(b as int)][0] == digit_char(b as int));
        lemma_digit_char_injective(a as int, b as int);
    } else if a >= 10 && b >= 10 {
        let da = decimal(a);
        let db = decimal(b);
        assert(da.last() == db.last());
        assert(da.drop_last() == decimal(a / 10));
        assert(db.drop_last() == decimal(b / 10));
        lemma_decimal_injective(a / 10, b / 10);
        lemma_digit_char_injective((a % 10) as int, (b % 10) as int);
    } else {
        assert(decimal(a).len() != decimal(b).len());
    }
}

proof fn lemma_copy_name_injective(name: Seq<char>, a: int, b: int)
    requires
        a >= 0,
        b >= 0,
        copy_name(name, a) == copy_name(name, b),
    ensures
        a == b,
{
    let ca = copy_name(name, a);
    let cb = copy_name(name, b);
    let s: int = name.len() + 2int;
    assert(ca.subrange(s, ca.len() - 1) =~= decimal(a as nat));
    assert(cb.subrange(s, cb.len() - 1) =~= decimal(b as nat));
    lemma_decimal_injective(a as nat, b as nat);
}

proof fn lemma_copy_key_injective(key: Seq<char>, a: int, b: int)
    requires
        a >= 0,
        b >= 0,
        copy_key(key, a) == copy_key(key, b),
    ensures
        a == b,
{
    let ca = copy_key(key, a);
    let cb = copy_key(key, b);
    let s: int = key.len() + 1int;
    assert(ca.subrange(s, ca.len() as int) =~= decimal(a as nat));
    assert(cb.subrange(s, cb.len() as int) =~= decimal(b as nat));
    lemma_decimal_injective(a as nat, b as nat);
}

/// Among `taken.len() + 1` numbers from `lo` whose texts all differ, one text is
/// not taken.
proof fn lemma_some_free(f: spec_fn(int) -> Seq<char>, taken: Seq<Seq<char>>, lo: int)
    requires
        forall|a: int, b: int| lo <= a && lo <= b && #[trigger] f(a) == #[trigger] f(b) ==> a == b,
    ensures
        exists|n: int| lo <= n <= lo + taken.len() && !taken.contains(#[trigger] f(n)),
{
    if forall|n: int| lo <= n <= lo + taken.len() ==> taken.contains(#[trigger] f(n)) {
        let x = set_int_range(lo, lo + taken.len() + 1);
        let y = x.map(f);
        lemma_int_range(lo, lo + taken.len() + 1);
        assert(vstd::relations::injective_on(f, x)) by {
            assert forall|a: int, b: int| x.contains(a) && x.contains(b) && #[trigger] f(a) == #[trigger] f(b)
                implies a == b by {}
        }
        lemma_map_size(x, y, f);
        assert(y.subset_of(taken.to_set())) by {
            assert forall|t: Seq<char>| y.contains(t) implies taken.to_set().contains(t) by {
                let n = choose|n: int| x.contains(n) && f(n) == t;
                assert(taken.contains(f(n)));
            }
        }
        taken.lemma_cardinality_of_set();
        lemma_len_subset(y, taken.to_set());
        assert(false);
    }
}

/// Whether the text is one of the strings.
fn contains_text(v: &Vec<String>, s: &String) -> (r: bool)
    ensures
        r == string_views(v@).contains(s@),
{
    let mut i: usize = 0;
    while i < v.len()
        invariant
            i <= v@.len(),
            forall|k: int| 0 <= k < i ==> v@[k]@ != s@,
        decreases v@.len() - i,
    {
        if v[i] == *s {
            assert(string_views(v@)[i as int] == s@);
            return true;
        }
        i += 1;
    }
    assert forall|k: int| 0 <= k < string_views(v@).len() implies string_views(v@)[k] != s@ by {
        assert(string_views(v@)[k] == v@[k]@);
    }
    false
}

/// `prefix`, then the characters, then `suffix`.
fn text_of(prefix: &str, middle: &Vec<char>, suffix: &str) -> (r: String)
    ensures
        r@ == prefix@ + middle@ + suffix@,
{
    let mut out = prefix.to_owned();
    let mut i: usize = 0;
    while i < middle.len()
        invariant
            i <= middle@.len(),
            out@ == prefix@ + middle@.subrange(0, i as int),
        decreases middle@.len() - i,
    {
        push_char(&mut out, middle[i]);
        i += 1;
        assert(out@ =~= prefix@ + middle@.subrange(0, i as int));
    }
    assert(middle@.subrange(0, middle@.len() as int) =~= middle@);
    out.append(suffix);
    out
}

fn copy_name_text(name: &str, n: usize) -> (r: String)
    ensures
        r@ == copy_name(name@, n as int),
{
    let digits = decimal_chars(n);
    let head = text_of(name, &Vec::new(), " (");
    let r = text_of(head.as_str(), &digits, ")");
    proof {
        reveal_strlit(" (");
        reveal_strlit(")");
    }
    assert(r@ =~= copy_name(name@, n as int));
    r
}

fn copy_key_text(key: &str, m: usize) -> (r: String)
    ensures
        r@ == copy_key(key@, m as int),
{
    let digits = decimal_chars(m);
    let head = text_of(key, &Vec::new(), "_");
    let r = text_of(head.as_str(), &digits, "");
    proof {
        reveal_strlit("_");
        reveal_strlit("");
    }
    assert(r@ =~= copy_key(key@, m as int));
    r
}

/// The name and key of a copy of the profile named `name` stored under `key`,
/// among the profiles' `names` and `keys`: `name (n)` for the first `n` from 1
/// that is no profile's name, and `key_m` for the first `m` from that `n` that is
/// no profile's key.
pub fn duplicate_profile_naming(name: &str, key: &str, names: &Vec<String>, keys: &Vec<String>) -> (r: (
    String,
    String,
))
    requires
        names@.len() + keys@.len() + 2 <= usize::MAX,
    ensures
        exists|n: int, m: int|
            #![trigger copy_name(name@, n), copy_key(key@, m)]
            {
                &&& first_free(|k: int| copy_name(name@, k), string_views(names@), 1, n)
                &&& first_free(|k: int| copy_key(key@, k), string_views(keys@), n, m)
                &&& r.0@ == copy_name(name@, n)
                &&& r.1@ == copy_key(key@, m)
            },
{
    let ghost nv = string_views(names@);
    let ghost kv = string_views(keys@);
    let ghost fname = |k: int| copy_name(name@, k);
    let ghost fkey = |k: int| copy_key(key@, k);
    proof {
        assert forall|a: int, b: int| 1 <= a && 1 <= b && #[trigger] fname(a) == #[trigger] fname(b) implies a == b by {
            lemma_copy_name_injective(name@, a, b);
        }
        lemma_some_free(fname, nv, 1);
    }
    let ghost w = choose|w: int| 1 <= w <= 1 + nv.len() && !nv.contains(#[trigger] fname(w));
    let mut n: usize = 1;
    let mut cand = copy_name_text(name, n);
    while contains_text(names, &cand)
        invariant
            1 <= n <= w,
            1 <= w <= 1 + nv.len(),
            nv == string_views(names@),
            !nv.contains(fname(w)),
            cand@ == fname(n as int),
            fname == (|k: int| copy_name(name@, k)),
            names@.len() + keys@.len() + 2 <= usize::MAX,
            forall|k: int| 1 <= k < n ==> nv.contains(#[trigger] fname(k)),
        decreases w - n,
    {
        n += 1;
        cand = copy_name_text(name, n);
    }
    proof {
        assert forall|a: int, b: int| n <= a && n <= b && #[trigger] fkey(a) == #[trigger] fkey(b) implies a == b by {
            lemma_copy_key_injective(key@, a, b);
        }
        lemma_some_free(fkey, kv, n as int);
    }
    let ghost v = choose|v: int| n <= v <= n + kv.len() && !kv.contains(#[trigger] fkey(v));
    let mut m: usize = n;
    let mut kcand = copy_key_text(key, m);
    while contains_text(keys, &kcand)
        invariant
            n <= m <= v,
            n <= v <= n + kv.len(),
            n <= names@.len() + 1,
            kv == string_views(keys@),
            !kv.contains(fkey(v)),
            kcand@ == fkey(m as int),
            fkey == (|k: int| copy_key(key@, k)),
            names@.len() + keys@.len() + 2 <= usize::MAX,
            forall|k: int| n <= k < m ==> kv.contains(#[trigger] fkey(k)),
        decreases v - m,
    {
        m += 1;
        kcand = copy_key_text(key, m);
    }
    assert(first_free(fname, nv, 1, n as int));
    assert(first_free(fkey, kv, n as int, m as int));
    assert(cand@ == copy_name(name@, n as int));
    assert(kcand@ == copy_key(key@, m as int));
    (cand, kcand)
}

} // verus!
