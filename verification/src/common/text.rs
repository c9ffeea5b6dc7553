//! Character-level helpers on `String`s, stated over their `Seq<char>` views.
use vstd::prelude::*;
use vstd::string::StringExecFns;

verus! {

/// `p` is a prefix of `s`.
pub open spec fn is_prefix_of(p: Seq<char>, s: Seq<char>) -> bool {
    p.len() <= s.len() && s.subrange(0, p.len() as int) == p
}

/// What is left of `s` after removing `p` from its front, if `s` starts with `p`.
pub open spec fn strip_prefix_of(s: Seq<char>, p: Seq<char>) -> Option<Seq<char>> {
    if is_prefix_of(p, s) {
        Some(s.skip(p.len() as int))
    } else {
        None
    }
}

/// `s` with every leading repetition of the (non-empty) prefix `p` removed.
pub open spec fn trim_start_all(s: Seq<char>, p: Seq<char>) -> Seq<char>
    decreases s.len(),
{
    if p.len() > 0 && is_prefix_of(p, s) {
        trim_start_all(s.skip(p.len() as int), p)
    } else {
        s
    }
}

/// `s` with every occurrence of `pat` replaced by `rep`, scanning from the left
/// and never letting two replaced occurrences overlap.
pub open spec fn replace_all(s: Seq<char>, pat: Seq<char>, rep: Seq<char>) -> Seq<char>
    decreases s.len(),
{
    if s.len() == 0 || pat.len() == 0 {
        s
    } else if is_prefix_of(pat, s) {
        rep + replace_all(s.skip(pat.len() as int), pat, rep)
    } else {
        seq![s[0]] + replace_all(s.drop_first(), pat, rep)
    }
}

/// `c` occurs in `s`.
pub open spec fn has_char(s: Seq<char>, c: char) -> bool {
    exists|i: int| 0 <= i < s.len() && s[i] == c
}

/// `k` is the position of the first `c` in `s`.
pub open spec fn is_first_index(s: Seq<char>, c: char, k: int) -> bool {
    &&& 0 <= k < s.len()
    &&& s[k] == c
    &&& forall|j: int| 0 <= j < k ==> s[j] != c
}

/// `k` is the position of the last `c` in `s`.
pub open spec fn is_last_index(s: Seq<char>, c: char, k: int) -> bool {
    &&& 0 <= k < s.len()
    &&& s[k] == c
    &&& forall|j: int| k < j < s.len() ==> s[j] != c
}

/// The position of the first `c` in `s` (or -1 where there is none).
pub open spec fn first_index(s: Seq<char>, c: char) -> int {
    if has_char(s, c) {
        choose|k: int| is_first_index(s, c, k)
    } else {
        -1
    }
}

/// The position of the last `c` in `s` (or -1 where there is none).
pub open spec fn last_index(s: Seq<char>, c: char) -> int {
    if has_char(s, c) {
        choose|k: int| is_last_index(s, c, k)
    } else {
        -1
    }
}

/// `s` split around its first `c`.
pub open spec fn split_once_spec(s: Seq<char>, c: char) -> Option<(Seq<char>, Seq<char>)> {
    if has_char(s, c) {
        let k = first_index(s, c);
        Some((s.take(k), s.skip(k + 1)))
    } else {
        None
    }
}

/// `s` split around its last `c`.
pub open spec fn rsplit_once_spec(s: Seq<char>, c: char) -> Option<(Seq<char>, Seq<char>)> {
    if has_char(s, c) {
        let k = last_index(s, c);
        Some((s.take(k), s.skip(k + 1)))
    } else {
        None
    }
}

/// The decimal digit character of `d < 10`.
pub open spec fn digit_char(d: nat) -> char {
    ((48 + d) as u32) as char
}

/// The decimal representation of `n`, without sign or leading zeros.
pub open spec fn decimal(n: nat) -> Seq<char>
    decreases n,
{
    if n < 10 {
        seq![digit_char(n)]
    } else {
        decimal(n / 10).push(digit_char(n % 10))
    }
}

pub proof fn lemma_first_index(s: Seq<char>, c: char, k: int)
    requires
        is_first_index(s, c, k),
    ensures
        first_index(s, c) == k,
{
    let k2 = choose|k: int| is_first_index(s, c, k);
    assert(is_first_index(s, c, k2));
    if k2 < k {
        assert(s[k2] != c);
    }
    if k < k2 {
        assert(s[k] != c);
    }
}

pub proof fn lemma_last_index(s: Seq<char>, c: char, k: int)
    requires
        is_last_index(s, c, k),
    ensures
        last_index(s, c) == k,
{
    let k2 = choose|k: int| is_last_index(s, c, k);
    assert(is_last_index(s, c, k2));
    if k2 < k {
        assert(s[k] != c);
    }
    if k < k2 {
        assert(s[k2] != c);
    }
}

/// Appends one character to a string.
#[verifier::external_body]
pub(crate) fn push_char(s: &mut String, c: char)
    ensures
        final(s)@ == old(s)@.push(c),
{
    s.push(c);
}

/// Appends a string slice to a string.
pub(crate) fn push_str(s: &mut String, t: &str)
    ensures
        final(s)@ == old(s)@ + t@,
{
    s.append(t);
}

/// A fresh copy of a string slice.
pub fn to_owned_string(t: &str) -> (res: String)
    ensures
        res@ == t@,
{
    t.to_owned()
}

/// `format!("{:?}", s)` of a string: the named result of std's `Debug` for `str`
/// (quoted, with escapes), not restated.
pub uninterp spec fn debug_quoted(s: Seq<char>) -> Seq<char>;

/// `format!("{:?}", s)`: std's `Debug` text of a string slice.
#[verifier::external_body]
pub(crate) fn debug_string(s: &str) -> (res: String)
    ensures
        res@ == debug_quoted(s@),
{
    format!("{:?}", s)
}

/// The characters of `s`, in order.
pub fn chars_of(s: &str) -> (res: Vec<char>)
    ensures
        res@ == s@,
{
    let mut res: Vec<char> = Vec::new();
    for c in it: s.chars()
        invariant
            res@ == it.seq().take(it.index() as int),
    {
        res.push(c);
    }
    res
}

/// The string made of the characters of `cs`.
pub fn string_of(cs: &Vec<char>) -> (res: String)
    ensures
        res@ == cs@,
{
    let mut res = String::new();
    let mut i: usize = 0;
    while i < cs.len()
        invariant
            i <= cs.len(),
            res@ == cs@.take(i as int),
        decreases cs.len() - i,
    {
        push_char(&mut res, cs[i]);
        i = i + 1;
        assert(res@ =~= cs@.take(i as int));
    }
    assert(cs@.take(cs.len() as int) =~= cs@);
    res
}

/// The concatenation of two strings.
pub fn concat(a: &str, b: &str) -> (res: String)
    ensures
        res@ == a@ + b@,
{
    let mut res = to_owned_string(a);
    push_str(&mut res, b);
    res
}

/// `pat` occurs in `s` at position `i`.
fn matches_at(s: &Vec<char>, i: usize, pat: &Vec<char>) -> (res: bool)
    requires
        i <= s.len(),
    ensures
        res == is_prefix_of(pat@, s@.skip(i as int)),
{
    if pat.len() > s.len() - i {
        return false;
    }
    let mut j: usize = 0;
    while j < pat.len()
        invariant
            j <= pat.len(),
            i + pat.len() <= s.len(),
            forall|k: int| 0 <= k < j ==> s@[i + k] == pat@[k],
        decreases pat.len() - j,
    {
        if s[i + j] != pat[j] {
            assert(s@.skip(i as int).subrange(0, pat.len() as int)[j as int] != pat@[j as int]);
            return false;
        }
        j = j + 1;
    }
    assert(s@.skip(i as int).subrange(0, pat.len() as int) =~= pat@);
    true
}

/// Whether `a` and `b` hold the same characters.
pub fn str_equal(a: &str, b: &str) -> (res: bool)
    ensures
        res == (a@ == b@),
{
    let ac = chars_of(a);
    let bc = chars_of(b);
    if ac.len() != bc.len() {
        return false;
    }
    let mut i: usize = 0;
    while i < ac.len()
        invariant
            i <= ac.len(),
            ac.len() == bc.len(),
            ac@ == a@,
            bc@ == b@,
            forall|j: int| 0 <= j < i ==> ac@[j] == bc@[j],
        decreases ac.len() - i,
    {
        if ac[i] != bc[i] {
            assert(ac@[i as int] != bc@[i as int]);
            return false;
        }
        i = i + 1;
    }
    assert(ac@ =~= bc@);
    true
}

/// `p` is a prefix of `s`.
pub fn starts_with(s: &str, p: &str) -> (res: bool)
    ensures
        res == is_prefix_of(p@, s@),
{
    let sc = chars_of(s);
    let pc = chars_of(p);
    assert(sc@.skip(0) =~= sc@);
    matches_at(&sc, 0, &pc)
}

/// `s` without its leading `p`, if it starts with `p`.
pub fn strip_prefix(s: &str, p: &str) -> (res: Option<String>)
    ensures
        match res {
            Some(r) => strip_prefix_of(s@, p@) == Some(r@),
            None => strip_prefix_of(s@, p@) is None,
        },
{
    let sc = chars_of(s);
    let pc = chars_of(p);
    assert(sc@.skip(0) =~= sc@);
    if !matches_at(&sc, 0, &pc) {
        return None;
    }
    let mut rest: Vec<char> = Vec::new();
    let mut i: usize = pc.len();
    while i < sc.len()
        invariant
            pc.len() <= i <= sc.len(),
            rest@ == sc@.subrange(pc.len() as int, i as int),
        decreases sc.len() - i,
    {
        rest.push(sc[i]);
        i = i + 1;
        assert(rest@ =~= sc@.subrange(pc.len() as int, i as int));
    }
    assert(rest@ =~= sc@.skip(pc.len() as int));
    Some(string_of(&rest))
}

/// `s` with every leading repetition of `p` removed (nothing is removed for an empty `p`).
pub fn trim_start_matches(s: &str, p: &str) -> (res: String)
    ensures
        res@ == trim_start_all(s@, p@),
{
    let sc = chars_of(s);
    let pc = chars_of(p);
    let mut i: usize = 0;
    assert(sc@.skip(0) =~= sc@);
    while pc.len() > 0 && matches_at(&sc, i, &pc)
        invariant
            i <= sc.len(),
            trim_start_all(sc@.skip(i as int), pc@) == trim_start_all(sc@, pc@),
        decreases sc.len() - i,
    {
        assert(sc@.skip(i as int).skip(pc.len() as int) =~= sc@.skip(i + pc.len()));
        i = i + pc.len();
    }
    let mut rest: Vec<char> = Vec::new();
    let start = i;
    while i < sc.len()
        invariant
            start <= i <= sc.len(),
            rest@ == sc@.subrange(start as int, i as int),
        decreases sc.len() - i,
    {
        rest.push(sc[i]);
        i = i + 1;
        assert(rest@ =~= sc@.subrange(start as int, i as int));
    }
    assert(rest@ =~= sc@.skip(start as int));
    string_of(&rest)
}

/// Every occurrence of the non-empty `pat` in `s` replaced by `rep`, left to right.
pub fn replace_chars(s: &Vec<char>, pat: &Vec<char>, rep: &Vec<char>) -> (res: Vec<char>)
    requires
        pat.len() > 0,
    ensures
        res@ == replace_all(s@, pat@, rep@),
{
    let mut res: Vec<char> = Vec::new();
    let mut i: usize = 0;
    assert(s@.skip(0) =~= s@);
    while i < s.len()
        invariant
            i <= s.len(),
            pat.len() > 0,
            res@ + replace_all(s@.skip(i as int), pat@, rep@) == replace_all(s@, pat@, rep@),
        decreases s.len() - i,
    {
        let ghost t = s@.skip(i as int);
        if matches_at(s, i, pat) {
            let mut k: usize = 0;
            let ghost before = res@;
            while k < rep.len()
                invariant
                    k <= rep.len(),
                    res@ == before + rep@.take(k as int),
                decreases rep.len() - k,
            {
                res.push(rep[k]);
                k = k + 1;
                assert(res@ =~= before + rep@.take(k as int));
            }
            assert(rep@.take(rep.len() as int) =~= rep@);
            assert(t.skip(pat.len() as int) =~= s@.skip(i + pat.len()));
            assert(before + (rep@ + replace_all(s@.skip(i + pat.len()), pat@, rep@))
                =~= res@ + replace_all(s@.skip(i + pat.len()), pat@, rep@));
            i = i + pat.len();
        } else {
            let ghost before = res@;
            res.push(s[i]);
            assert(t.drop_first() =~= s@.skip(i + 1));
            assert(before + (seq![s@[i as int]] + replace_all(s@.skip(i + 1), pat@, rep@))
                =~= res@ + replace_all(s@.skip(i + 1), pat@, rep@));
            i = i + 1;
        }
    }
    assert(s@.skip(s.len() as int) =~= Seq::<char>::empty());
    assert(res@ + Seq::<char>::empty() =~= res@);
    res
}

/// Whether `c` occurs in `s`.
pub fn contains_char(s: &str, c: char) -> (res: bool)
    ensures
        res == has_char(s@, c),
{
    let sc = chars_of(s);
    let mut i: usize = 0;
    while i < sc.len()
        invariant
            i <= sc.len(),
            sc@ == s@,
            forall|j: int| 0 <= j < i ==> sc@[j] != c,
        decreases sc.len() - i,
    {
        if sc[i] == c {
            assert(sc@[i as int] == c);
            return true;
        }
        i = i + 1;
    }
    false
}

/// The parts of `s` before and after its first `c`.
pub fn split_once(s: &str, c: char) -> (res: Option<(String, String)>)
    ensures
        match res {
            Some((a, b)) => split_once_spec(s@, c) == Some((a@, b@)),
            None => split_once_spec(s@, c) is None,
        },
{
    let sc = chars_of(s);
    let mut i: usize = 0;
    while i < sc.len()
        invariant
            i <= sc.len(),
            sc@ == s@,
            forall|j: int| 0 <= j < i ==> sc@[j] != c,
        decreases sc.len() - i,
    {
        if sc[i] == c {
            proof {
                lemma_first_index(s@, c, i as int);
            }
            let (a, b) = split_around(&sc, i);
            return Some((a, b));
        }
        i = i + 1;
    }
    None
}

/// The parts of `s` before and after its last `c`.
pub fn rsplit_once(s: &str, c: char) -> (res: Option<(String, String)>)
    ensures
        match res {
            Some((a, b)) => rsplit_once_spec(s@, c) == Some((a@, b@)),
            None => rsplit_once_spec(s@, c) is None,
        },
{
    let sc = chars_of(s);
    let mut i: usize = sc.len();
    while i > 0
        invariant
            i <= sc.len(),
            sc@ == s@,
            forall|j: int| i <= j < sc.len() ==> sc@[j] != c,
        decreases i,
    {
        if sc[i - 1] == c {
            proof {
                lemma_last_index(s@, c, i - 1);
            }
            let (a, b) = split_around(&sc, i - 1);
            return Some((a, b));
        }
        i = i - 1;
    }
    None
}

/// The characters of `cs` before and after position `k`.
fn split_around(cs: &Vec<char>, k: usize) -> (res: (String, String))
    requires
        k < cs.len(),
    ensures
        res.0@ == cs@.take(k as int),
        res.1@ == cs@.skip(k + 1),
{
    let mut a: Vec<char> = Vec::new();
    let mut b: Vec<char> = Vec::new();
    let mut i: usize = 0;
    while i < cs.len()
        invariant
            k < cs.len(),
            i <= cs.len(),
            i <= k ==> a@ == cs@.take(i as int) && b@.len() == 0,
            i > k ==> a@ == cs@.take(k as int) && b@ == cs@.subrange(k + 1, i as int),
        decreases cs.len() - i,
    {
        if i < k {
            a.push(cs[i]);
            assert(a@ =~= cs@.take(i + 1));
        } else if i > k {
            b.push(cs[i]);
            assert(b@ =~= cs@.subrange(k + 1, i + 1));
        } else {
            assert(b@ =~= cs@.subrange(k + 1, i + 1));
        }
        i = i + 1;
    }
    assert(b@ =~= cs@.skip(k + 1));
    (string_of(&a), string_of(&b))
}

/// The decimal text of `n`.
pub fn decimal_string(n: usize) -> (res: String)
    ensures
        res@ == decimal(n as nat),
    decreases n,
{
    let d = (n % 10) as u8;
    let c = (48u8 + d) as char;
    proof {
        assert(c == digit_char((n % 10) as nat));
    }
    if n < 10 {
        let mut s = String::new();
        push_char(&mut s, c);
        assert(s@ =~= seq![digit_char(n as nat)]);
        s
    } else {
        let mut s = decimal_string(n / 10);
        push_char(&mut s, c);
        s
    }
}


/// The decimal text of the 64-bit `n`.
pub fn decimal_string_u64(n: u64) -> (res: String)
    ensures
        res@ == decimal(n as nat),
    decreases n,
{
    let d = (n % 10) as u8;
    let c = (48u8 + d) as char;
    proof {
        assert(c == digit_char((n % 10) as nat));
    }
    if n < 10 {
        let mut s = String::new();
        push_char(&mut s, c);
        assert(s@ =~= seq![digit_char(n as nat)]);
        s
    } else {
        let mut s = decimal_string_u64(n / 10);
        push_char(&mut s, c);
        s
    }
}

} // verus!
