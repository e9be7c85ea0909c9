//! Collision-safe file naming: split a name into stem and extension, render
//! probe counters in decimal, and resolve a desired name against a list of
//! already-claimed names.
use vstd::prelude::*;

verus! {

/// The decimal digit character for `d`, for `d < 10`.
pub open spec fn digit_char(d: nat) -> char {
    if d == 0 {
        '0'
    } else if d == 1 {
        '1'
    } else if d == 2 {
        '2'
    } else if d == 3 {
        '3'
    } else if d == 4 {
        '4'
    } else if d == 5 {
        '5'
    } else if d == 6 {
        '6'
    } else if d == 7 {
        '7'
    } else if d == 8 {
        '8'
    } else {
        '9'
    }
}

pub open spec fn is_digit_char(c: char) -> bool {
    c == '0' || c == '1' || c == '2' || c == '3' || c == '4' || c == '5' || c == '6' || c == '7'
        || c == '8' || c == '9'
}

/// Decimal representation of `n`, most significant digit first, no leading
/// zeros (except for `n == 0` itself).
pub open spec fn dec_rep(n: nat) -> Seq<char>
    decreases n,
{
    if n < 10 {
        seq![digit_char(n)]
    } else {
        dec_rep(n / 10).push(digit_char(n % 10))
    }
}

pub proof fn lemma_dec_rep_shape(n: nat)
    ensures
        dec_rep(n).len() >= 1,
        forall|i: int| 0 <= i < dec_rep(n).len() ==> is_digit_char(#[trigger] dec_rep(n)[i]),
    decreases n,
{
    if n >= 10 {
        lemma_dec_rep_shape(n / 10);
    }
}

pub proof fn lemma_digit_char_injective(a: nat, b: nat)
    requires
        a < 10,
        b < 10,
        digit_char(a) == digit_char(b),
    ensures
        a == b,
{
}

pub proof fn lemma_dec_rep_injective(a: nat, b: nat)
    requires
        dec_rep(a) == dec_rep(b),
    ensures
        a == b,
    decreases a + b,
{
    lemma_dec_rep_shape(a);
    lemma_dec_rep_shape(b);
    if a < 10 && b < 10 {
        assert(dec_rep(a)[0] == digit_char(a));
        assert(dec_rep(b)[0] == digit_char(b));
        assert(digit_char(a) == digit_char(b));
        lemma_digit_char_injective(a, b);
    } else if a < 10 && b >= 10 {
        lemma_dec_rep_shape(b / 10);
        assert(dec_rep(b).len() >= 2);
    } else if a >= 10 && b < 10 {
        lemma_dec_rep_shape(a / 10);
        assert(dec_rep(a).len() >= 2);
    } else {
        assert(dec_rep(a) == dec_rep(a / 10).push(digit_char(a % 10)));
        assert(dec_rep(b) == dec_rep(b / 10).push(digit_char(b % 10)));
        assert(dec_rep(a).last() == digit_char(a % 10));
        assert(dec_rep(b).last() == digit_char(b % 10));
        lemma_digit_char_injective(a % 10, b % 10);
        assert(a % 10 == b % 10);
        assert(dec_rep(a / 10) =~= dec_rep(b / 10)) by {
            assert(dec_rep(a / 10) == dec_rep(a).drop_last());
            assert(dec_rep(b / 10) == dec_rep(b).drop_last());
        }
        lemma_dec_rep_injective(a / 10, b / 10);
        vstd::arithmetic::div_mod::lemma_fundamental_div_mod(a as int, 10);
        vstd::arithmetic::div_mod::lemma_fundamental_div_mod(b as int, 10);
    }
}

/// Renders `d < 10` as a one-character string.
fn digit_str(d: u64) -> (r: &'static str)
    requires
        d < 10,
    ensures
        r@ =~= seq![digit_char(d as nat)],
{
    proof {
        reveal_strlit("0");
        reveal_strlit("1");
        reveal_strlit("2");
        reveal_strlit("3");
        reveal_strlit("4");
        reveal_strlit("5");
        reveal_strlit("6");
        reveal_strlit("7");
        reveal_strlit("8");
        reveal_strlit("9");
    }
    if d == 0 {
        "0"
    } else if d == 1 {
        "1"
    } else if d == 2 {
        "2"
    } else if d == 3 {
        "3"
    } else if d == 4 {
        "4"
    } else if d == 5 {
        "5"
    } else if d == 6 {
        "6"
    } else if d == 7 {
        "7"
    } else if d == 8 {
        "8"
    } else {
        "9"
    }
}

/// Renders `n` in decimal.
pub fn dec_string(n: u64) -> (r: String)
    ensures
        r@ == dec_rep(n as nat),
    decreases n,
{
    if n < 10 {
        String::from_str(digit_str(n))
    } else {
        let mut prefix = dec_string(n / 10);
        prefix.append(digit_str(n % 10));
        prefix
    }
}

pub open spec fn pow10(d: nat) -> nat
    decreases d,
{
    if d == 0 {
        1
    } else {
        10 * pow10((d - 1) as nat)
    }
}

pub proof fn lemma_dec_rep_len(n: nat, d: nat)
    requires
        d >= 1,
        n < pow10(d),
    ensures
        dec_rep(n).len() <= d,
    decreases n,
{
    if n >= 10 {
        assert(pow10(d) == 10 * pow10((d - 1) as nat));
        assert(pow10((d - 1) as nat) >= 1) by {
            lemma_pow10_pos((d - 1) as nat);
        }
        vstd::arithmetic::div_mod::lemma_fundamental_div_mod(n as int, 10);
        assert(10 * (n / 10) <= n);
        assert(n / 10 < pow10((d - 1) as nat));
        lemma_dec_rep_len(n / 10, (d - 1) as nat);
    }
}

proof fn lemma_pow10_pos(d: nat)
    ensures
        pow10(d) >= 1,
    decreases d,
{
    if d > 0 {
        lemma_pow10_pos((d - 1) as nat);
    }
}

/// Any count a claimed list can reach renders in at most 20 digits.
pub proof fn lemma_dec_rep_len_20(n: nat)
    requires
        n <= 0xffff_ffff_ffff_ffff,
    ensures
        dec_rep(n).len() <= 20,
{
    assert(pow10(0) == 1);
    assert(pow10(1) == 10);
    assert(pow10(2) == 100);
    assert(pow10(3) == 1000);
    assert(pow10(4) == 10000);
    assert(pow10(5) == 100000);
    assert(pow10(6) == 1000000);
    assert(pow10(7) == 10000000);
    assert(pow10(8) == 100000000);
    assert(pow10(9) == 1000000000);
    assert(pow10(10) == 10000000000);
    assert(pow10(11) == 100000000000);
    assert(pow10(12) == 1000000000000);
    assert(pow10(13) == 10000000000000);
    assert(pow10(14) == 100000000000000);
    assert(pow10(15) == 1000000000000000);
    assert(pow10(16) == 10000000000000000);
    assert(pow10(17) == 100000000000000000);
    assert(pow10(18) == 1000000000000000000);
    assert(pow10(19) == 10000000000000000000);
    assert(pow10(20) == 100000000000000000000);
    lemma_dec_rep_len(n, 20);
}

/// Index of the last `'.'` in `name` that does not stand at index 0, or -1
/// if there is none. A leading dot (a hidden file) starts no extension.
pub open spec fn last_dot(name: Seq<char>) -> int
    decreases name.len(),
{
    if name.len() <= 1 {
        -1
    } else if name[name.len() - 1] == '.' {
        name.len() - 1
    } else {
        last_dot(name.drop_last())
    }
}

/// The part of `name` before the extension separator (the whole name if
/// there is no extension).
pub open spec fn spec_stem(name: Seq<char>) -> Seq<char> {
    if last_dot(name) == -1 {
        name
    } else {
        name.subrange(0, last_dot(name))
    }
}

/// The part of `name` after the extension separator (empty if there is no
/// separator, or if the name ends in a dot).
pub open spec fn spec_ext(name: Seq<char>) -> Seq<char> {
    if last_dot(name) == -1 {
        Seq::empty()
    } else {
        name.subrange(last_dot(name) + 1, name.len() as int)
    }
}

pub proof fn lemma_last_dot_props(name: Seq<char>)
    ensures
        last_dot(name) == -1 || (1 <= last_dot(name) < name.len()),
        last_dot(name) >= 1 ==> name[last_dot(name)] == '.',
        forall|j: int| last_dot(name) < j < name.len() && j >= 1 ==> name[j] != '.',
    decreases name.len(),
{
    if name.len() > 1 && name[name.len() - 1] != '.' {
        lemma_last_dot_props(name.drop_last());
        assert forall|j: int| last_dot(name) < j < name.len() && j >= 1 implies name[j]
            != '.' by {
            if j < name.len() - 1 {
                assert(name.drop_last()[j] == name[j]);
            }
        }
    }
}

proof fn lemma_last_dot_at(name: Seq<char>, p: int)
    requires
        1 <= p < name.len(),
        name[p] == '.',
        forall|j: int| p < j < name.len() ==> name[j] != '.',
    ensures
        last_dot(name) == p,
    decreases name.len(),
{
    if p < name.len() - 1 {
        let prefix = name.drop_last();
        assert(name[name.len() - 1] != '.');
        assert(prefix[p] == name[p]);
        assert forall|j: int| p < j < prefix.len() implies prefix[j] != '.' by {
            assert(prefix[j] == name[j]);
        }
        lemma_last_dot_at(prefix, p);
    }
}

proof fn lemma_last_dot_none(name: Seq<char>)
    requires
        forall|j: int| 1 <= j < name.len() ==> name[j] != '.',
    ensures
        last_dot(name) == -1,
    decreases name.len(),
{
    if name.len() > 1 {
        let prefix = name.drop_last();
        assert forall|j: int| 1 <= j < prefix.len() implies prefix[j] != '.' by {
            assert(prefix[j] == name[j]);
        }
        lemma_last_dot_none(prefix);
    }
}

/// Finds the position that `last_dot` describes.
fn find_last_dot(name: &String) -> (r: Option<usize>)
    ensures
        match r {
            Some(p) => last_dot(name@) == p as int,
            None => last_dot(name@) == -1,
        },
{
    let s = name.as_str();
    let len = s.unicode_len();
    let mut i = len;
    while i > 1
        invariant
            i <= len,
            len == s@.len(),
            s@ == name@,
            forall|j: int| i <= j < len ==> s@[j] != '.',
        decreases i,
    {
        i = i - 1;
        if s.get_char(i) == '.' {
            proof {
                lemma_last_dot_at(name@, i as int);
            }
            return Some(i);
        }
    }
    proof {
        lemma_last_dot_none(name@);
    }
    None
}

/// Splits a file name into stem and extension at the last dot; a name
/// without a dot past its first character has an empty extension.
pub fn split_name(name: &String) -> (r: (String, String))
    ensures
        r.0@ == spec_stem(name@),
        r.1@ == spec_ext(name@),
{
    proof {
        lemma_last_dot_props(name@);
    }
    match find_last_dot(name) {
        Some(p) => {
            let s = name.as_str();
            let len = s.unicode_len();
            let stem = s.substring_char(0, p);
            let ext = s.substring_char(p + 1, len);
            (String::from_str(stem), String::from_str(ext))
        },
        None => (name.clone(), String::new()),
    }
}

/// The k-th probe candidate for a taken name: `stem (k).ext`, or `stem (k)`
/// for a name without an extension.
pub open spec fn numbered_name(stem: Seq<char>, ext: Seq<char>, k: nat) -> Seq<char> {
    if ext.len() == 0 {
        stem + seq![' ', '('] + dec_rep(k) + seq![')']
    } else {
        stem + seq![' ', '('] + dec_rep(k) + seq![')', '.'] + ext
    }
}

proof fn lemma_numbered_name_injective_ordered(stem: Seq<char>, ext: Seq<char>, j: nat, k: nat)
    requires
        numbered_name(stem, ext, j) == numbered_name(stem, ext, k),
        dec_rep(j).len() <= dec_rep(k).len(),
    ensures
        j == k,
{
    let base = stem.len() + 2;
    let lj = dec_rep(j).len();
    let lk = dec_rep(k).len();
    lemma_dec_rep_shape(j);
    lemma_dec_rep_shape(k);
    let nj = numbered_name(stem, ext, j);
    let nk = numbered_name(stem, ext, k);
    if lj < lk {
        assert(nj[base as int + lj as int] == ')');
        assert(nk[base as int + lj as int] == dec_rep(k)[lj as int]);
        assert(is_digit_char(dec_rep(k)[lj as int]));
        assert(false);
    } else {
        assert forall|i: int| 0 <= i < lj implies dec_rep(j)[i] == dec_rep(k)[i] by {
            assert(nj[base as int + i] == dec_rep(j)[i]);
            assert(nk[base as int + i] == dec_rep(k)[i]);
        }
        assert(dec_rep(j) =~= dec_rep(k));
        lemma_dec_rep_injective(j, k);
    }
}

pub proof fn lemma_numbered_name_injective(stem: Seq<char>, ext: Seq<char>, j: nat, k: nat)
    requires
        numbered_name(stem, ext, j) == numbered_name(stem, ext, k),
    ensures
        j == k,
{
    if dec_rep(j).len() <= dec_rep(k).len() {
        lemma_numbered_name_injective_ordered(stem, ext, j, k);
    } else {
        lemma_numbered_name_injective_ordered(stem, ext, k, j);
    }
}

/// Builds the k-th probe candidate.
pub fn make_numbered(stem: &String, ext: &String, k: u64) -> (r: String)
    ensures
        r@ == numbered_name(stem@, ext@, k as nat),
{
    proof {
        reveal_strlit(" (");
        reveal_strlit(")");
        reveal_strlit(").");
    }
    let mut r = stem.clone();
    r.append(" (");
    let count = dec_string(k);
    r.append(count.as_str());
    if ext.as_str().unicode_len() == 0 {
        r.append(")");
        proof {
            assert(r@ =~= numbered_name(stem@, ext@, k as nat));
        }
    } else {
        r.append(").");
        r.append(ext.as_str());
        proof {
            assert(r@ =~= numbered_name(stem@, ext@, k as nat));
        }
    }
    r
}

/// Whether some name in `list` reads as `x`.
pub open spec fn name_in(list: Seq<String>, x: Seq<char>) -> bool {
    exists|i: int| 0 <= i < list.len() && list[i]@ == x
}

/// A name is free when no claimed name equals it, except that the one
/// `allow`ed name (an in-place overwrite target) counts as free even when
/// claimed.
pub open spec fn name_free(list: Seq<String>, allow: Option<Seq<char>>, x: Seq<char>) -> bool {
    !name_in(list, x) || allow == Some(x)
}

pub open spec fn view_allow(allow: Option<&String>) -> Option<Seq<char>> {
    match allow {
        Some(a) => Some(a@),
        None => None,
    }
}

/// Tests `name_free` against a claimed list.
fn is_free(x: &String, claimed: &Vec<String>, allow: Option<&String>) -> (r: bool)
    ensures
        r == name_free(claimed@, view_allow(allow), x@),
{
    let allowed = match allow {
        Some(a) => x.eq(a),
        None => false,
    };
    if allowed {
        return true;
    }
    let mut i: usize = 0;
    while i < claimed.len()
        invariant
            i <= claimed@.len(),
            view_allow(allow) != Some(x@),
            forall|j: int| 0 <= j < i ==> claimed@[j]@ != x@,
        decreases claimed@.len() - i,
    {
        if claimed[i].eq(x) {
            return false;
        }
        i = i + 1;
    }
    true
}

/// The set of the first `n` probe candidates.
spec fn numbered_set(stem: Seq<char>, ext: Seq<char>, n: nat) -> Set<Seq<char>> {
    Set::new(|s: Seq<char>| exists|j: nat| 1 <= j <= n && s == numbered_name(stem, ext, j))
}

proof fn lemma_numbered_set_card(stem: Seq<char>, ext: Seq<char>, n: nat)
    ensures
        numbered_set(stem, ext, n).finite(),
        numbered_set(stem, ext, n).len() == n,
    decreases n,
{
    broadcast use vstd::set::group_set_axioms;

    if n == 0 {
        assert(numbered_set(stem, ext, 0) =~= Set::empty());
    } else {
        lemma_numbered_set_card(stem, ext, (n - 1) as nat);
        let prev = numbered_set(stem, ext, (n - 1) as nat);
        let full = numbered_set(stem, ext, n);
        assert(full =~= prev.insert(numbered_name(stem, ext, n)));
        assert(!prev.contains(numbered_name(stem, ext, n))) by {
            if prev.contains(numbered_name(stem, ext, n)) {
                let j = choose|j: nat|
                    1 <= j <= n - 1 && numbered_name(stem, ext, n) == numbered_name(stem, ext, j);
                lemma_numbered_name_injective(stem, ext, j, n);
            }
        }
    }
}

/// More candidates than claimed names: some probe among the first
/// `claimed.len() + 1` is free.
proof fn lemma_some_probe_free(
    stem: Seq<char>,
    ext: Seq<char>,
    claimed: Seq<String>,
    allow: Option<Seq<char>>,
)
    ensures
        exists|j: nat|
            1 <= j <= claimed.len() + 1 && name_free(
                claimed,
                allow,
                #[trigger] numbered_name(stem, ext, j),
            ),
{
    broadcast use vstd::set::group_set_axioms;

    let m = claimed.len();
    if !(exists|j: nat|
        1 <= j <= m + 1 && name_free(claimed, allow, #[trigger] numbered_name(stem, ext, j))) {
        let views = claimed.map_values(|s: String| s@);
        let cands = numbered_set(stem, ext, m + 1);
        assert forall|s: Seq<char>| cands.contains(s) implies views.to_set().contains(s) by {
            let j = choose|j: nat| 1 <= j <= m + 1 && s == numbered_name(stem, ext, j);
            assert(!name_free(claimed, allow, numbered_name(stem, ext, j)));
            let i = choose|i: int| 0 <= i < claimed.len() && claimed[i]@ == s;
            assert(views[i] == s);
            assert(views.contains(s));
        }
        lemma_numbered_set_card(stem, ext, m + 1);
        views.lemma_cardinality_of_set();
        vstd::set_lib::lemma_len_subset(cands, views.to_set());
        assert(false);
    }
}

/// The resolver's probe sequence found its answer at `k`: every earlier
/// candidate was taken, and the k-th is free.
pub open spec fn resolved_by_probe(
    desired: Seq<char>,
    claimed: Seq<String>,
    allow: Option<Seq<char>>,
    r: Seq<char>,
) -> bool {
    exists|k: nat|
        1 <= k && r == numbered_name(spec_stem(desired), spec_ext(desired), k) && name_free(
            claimed,
            allow,
            r,
        ) && (forall|j: nat|
            1 <= j < k ==> !name_free(
                claimed,
                allow,
                #[trigger] numbered_name(spec_stem(desired), spec_ext(desired), j),
            ))
}

/// Resolves a desired file name against a list of claimed names: the desired
/// name itself when it is free, else the first free probe candidate
/// `stem (1).ext`, `stem (2).ext`, ... . A name equal to `allow` counts as
/// free even when claimed (the in-place overwrite target).
pub fn resolve_name(desired: &String, claimed: &Vec<String>, allow: Option<&String>) -> (r: String)
    requires
        claimed@.len() < usize::MAX,
    ensures
        name_free(claimed@, view_allow(allow), r@),
        name_free(claimed@, view_allow(allow), desired@) ==> r@ == desired@,
        !name_free(claimed@, view_allow(allow), desired@) ==> resolved_by_probe(
            desired@,
            claimed@,
            view_allow(allow),
            r@,
        ),
{
    if is_free(desired, claimed, allow) {
        return desired.clone();
    }
    let (stem, ext) = split_name(desired);
    let mut k: u64 = 1;
    loop
        invariant
            claimed@.len() < usize::MAX,
            1 <= k <= claimed@.len() + 1,
            !name_free(claimed@, view_allow(allow), desired@),
            stem@ == spec_stem(desired@),
            ext@ == spec_ext(desired@),
            forall|j: nat|
                1 <= j < k ==> !name_free(
                    claimed@,
                    view_allow(allow),
                    #[trigger] numbered_name(stem@, ext@, j),
                ),
        decreases claimed@.len() + 1 - k,
    {
        let cand = make_numbered(&stem, &ext, k);
        if is_free(&cand, claimed, allow) {
            return cand;
        }
        proof {
            if k as nat == claimed@.len() + 1 {
                lemma_some_probe_free(stem@, ext@, claimed@, view_allow(allow));
                assert(false);
            }
        }
        k = k + 1;
    }
}

/// The conversion target name placed beside the source: `stem.newext`.
pub open spec fn replacement_name(source: Seq<char>, target_ext: Seq<char>) -> Seq<char> {
    spec_stem(source) + seq!['.'] + target_ext
}

/// Builds the conversion target name beside the source.
pub fn make_replacement_name(stem: &String, target_ext: &String) -> (r: String)
    ensures
        r@ == stem@ + seq!['.'] + target_ext@,
{
    proof {
        reveal_strlit(".");
    }
    let mut r = stem.clone();
    r.append(".");
    r.append(target_ext.as_str());
    proof {
        assert(r@ =~= stem@ + seq!['.'] + target_ext@);
    }
    r
}

pub proof fn lemma_ext_of_joined(stem: Seq<char>, ext: Seq<char>)
    requires
        stem.len() >= 1,
        ext.len() >= 1,
        forall|i: int| 0 <= i < ext.len() ==> ext[i] != '.',
    ensures
        spec_ext(stem + seq!['.'] + ext) == ext,
        spec_stem(stem + seq!['.'] + ext) == stem,
{
    let joined = stem + seq!['.'] + ext;
    assert(joined[stem.len() as int] == '.');
    assert forall|j: int| stem.len() < j < joined.len() implies joined[j] != '.' by {
        assert(joined[j] == ext[j - stem.len() - 1]);
    }
    lemma_last_dot_at(joined, stem.len() as int);
    assert(spec_ext(joined) =~= ext);
    assert(spec_stem(joined) =~= stem);
}

pub proof fn lemma_ext_of_numbered(stem: Seq<char>, ext: Seq<char>, k: nat)
    requires
        ext.len() >= 1,
        forall|i: int| 0 <= i < ext.len() ==> ext[i] != '.',
    ensures
        spec_ext(numbered_name(stem, ext, k)) == ext,
{
    lemma_dec_rep_shape(k);
    let n = numbered_name(stem, ext, k);
    let p = stem.len() + 2 + dec_rep(k).len() + 1;
    assert(n[p as int] == '.');
    assert forall|j: int| p < j < n.len() implies n[j] != '.' by {
        assert(n[j] == ext[j - p - 1]);
    }
    lemma_last_dot_at(n, p as int);
    assert(spec_ext(n) =~= ext);
}

/// Law: a conversion with a target extension that differs from the source's
/// own never resolves onto the source name itself — whatever was already
/// claimed, the source file is not the one written over.
pub proof fn lemma_conversion_keeps_source(
    source: Seq<char>,
    target_ext: Seq<char>,
    claimed: Seq<String>,
    allow: Option<Seq<char>>,
    r: Seq<char>,
)
    requires
        source.len() >= 1,
        target_ext.len() >= 1,
        forall|i: int| 0 <= i < target_ext.len() ==> target_ext[i] != '.',
        spec_ext(source) != target_ext,
        r == replacement_name(source, target_ext) || resolved_by_probe(
            replacement_name(source, target_ext),
            claimed,
            allow,
            r,
        ),
    ensures
        r != source,
{
    lemma_last_dot_props(source);
    assert(spec_stem(source).len() >= 1);
    let desired = replacement_name(source, target_ext);
    lemma_ext_of_joined(spec_stem(source), target_ext);
    if r == desired {
        assert(spec_ext(r) == target_ext);
    } else {
        let k = choose|k: nat|
            1 <= k && r == numbered_name(spec_stem(desired), spec_ext(desired), k) && name_free(
                claimed,
                allow,
                r,
            ) && (forall|j: nat|
                1 <= j < k ==> !name_free(
                    claimed,
                    allow,
                    #[trigger] numbered_name(spec_stem(desired), spec_ext(desired), j),
                ));
        lemma_ext_of_numbered(spec_stem(desired), spec_ext(desired), k);
        assert(spec_ext(r) == target_ext);
    }
}

/// A resolved name is at most 24 characters longer than the desired name:
/// the probe decoration adds ` (k)` with a counter of at most 20 digits.
pub proof fn lemma_resolved_len(
    desired: Seq<char>,
    claimed: Seq<String>,
    allow: Option<Seq<char>>,
    r: Seq<char>,
)
    requires
        claimed.len() < 0xffff_ffff_ffff_ffff,
        r == desired || resolved_by_probe(desired, claimed, allow, r),
    ensures
        r.len() <= desired.len() + 24,
{
    if r != desired {
        let stem = spec_stem(desired);
        let ext = spec_ext(desired);
        let k = choose|k: nat|
            1 <= k && r == numbered_name(stem, ext, k) && name_free(claimed, allow, r) && (forall|
                j: nat,
            |
                1 <= j < k ==> !name_free(claimed, allow, #[trigger] numbered_name(stem, ext, j)));
        if k > claimed.len() + 1 {
            lemma_some_probe_free(stem, ext, claimed, allow);
            let j = choose|j: nat|
                1 <= j <= claimed.len() + 1 && name_free(
                    claimed,
                    allow,
                    #[trigger] numbered_name(stem, ext, j),
                );
            assert(!name_free(claimed, allow, numbered_name(stem, ext, j)));
            assert(false);
        }
        lemma_dec_rep_len_20(k);
        lemma_last_dot_props(desired);
        assert(stem.len() + ext.len() <= desired.len());
    }
}

/// Law: against a claimed list that has grown by an earlier result, a free
/// name can never repeat that result — successive resolutions against a
/// growing list are pairwise distinct.
pub proof fn lemma_free_name_is_fresh(claimed: Seq<String>, prev: String, x: Seq<char>)
    requires
        name_free(claimed.push(prev), None, x),
    ensures
        x != prev@,
{
    assert(claimed.push(prev)[claimed.len() as int] == prev);
}

} // verus!
