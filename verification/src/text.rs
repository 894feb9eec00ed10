use vstd::prelude::*;
use vstd::string::*;

verus! {

broadcast use vstd::string::group_string_axioms;

/// Unicode `White_Space`: the characters that `char::is_whitespace` accepts.
pub open spec fn is_ws(c: char) -> bool {
    let u = c as u32;
    ||| 0x09 <= u <= 0x0d
    ||| u == 0x20
    ||| u == 0x85
    ||| u == 0xa0
    ||| u == 0x1680
    ||| 0x2000 <= u <= 0x200a
    ||| u == 0x2028
    ||| u == 0x2029
    ||| u == 0x202f
    ||| u == 0x205f
    ||| u == 0x3000
}

/// The brackets, quotes and stars that are peeled off a silence marker.
pub open spec fn is_wrapper_char(c: char) -> bool {
    c == '（' || c == '(' || c == '【' || c == '[' || c == '）' || c == ')' || c == '】' || c == ']'
        || c == '"' || c == '\'' || c == '“' || c == '”' || c == '*'
}

/// Membership in one of the character sets that get trimmed: white space
/// (`set == 0`) or the wrapper characters (otherwise).
pub open spec fn in_set(c: char, set: u8) -> bool {
    if set == 0 {
        is_ws(c)
    } else {
        is_wrapper_char(c)
    }
}

/// `s` without its leading characters of the set.
pub open spec fn trim_start_by(s: Seq<char>, set: u8) -> Seq<char>
    decreases s.len(),
{
    if s.len() > 0 && in_set(s[0], set) {
        trim_start_by(s.drop_first(), set)
    } else {
        s
    }
}

/// `s` without its trailing characters of the set.
pub open spec fn trim_end_by(s: Seq<char>, set: u8) -> Seq<char>
    decreases s.len(),
{
    if s.len() > 0 && in_set(s.last(), set) {
        trim_end_by(s.drop_last(), set)
    } else {
        s
    }
}

/// `s` without leading and trailing characters of the set, as
/// `str::trim_matches` gives it.
pub open spec fn trim_by(s: Seq<char>, set: u8) -> Seq<char> {
    trim_end_by(trim_start_by(s, set), set)
}

/// `s` without leading and trailing white space, as `str::trim` gives it.
pub open spec fn trim(s: Seq<char>) -> Seq<char> {
    trim_by(s, 0)
}

/// `p` is a prefix of `s`.
pub open spec fn has_prefix(s: Seq<char>, p: Seq<char>) -> bool {
    p.len() <= s.len() && s.subrange(0, p.len() as int) == p
}

/// `p` is a suffix of `s`.
pub open spec fn has_suffix(s: Seq<char>, p: Seq<char>) -> bool {
    p.len() <= s.len() && s.subrange(s.len() - p.len(), s.len() as int) == p
}

/// `p` occurs in `s` starting at index `i`.
pub open spec fn occurs_at(s: Seq<char>, p: Seq<char>, i: int) -> bool {
    0 <= i && i + p.len() <= s.len() && s.subrange(i, i + p.len()) == p
}

/// `p` occurs somewhere in `s`, as `str::contains` with a string pattern decides.
pub open spec fn has_infix(s: Seq<char>, p: Seq<char>) -> bool {
    exists|i: int| #[trigger] occurs_at(s, p, i)
}

proof fn lemma_trim_start_skip(s: Seq<char>, set: u8, i: int)
    requires
        0 <= i <= s.len(),
        forall|j: int| 0 <= j < i ==> in_set(#[trigger] s[j], set),
    ensures
        trim_start_by(s, set) == trim_start_by(s.subrange(i, s.len() as int), set),
    decreases i,
{
    if i > 0 {
        assert(s.drop_first() =~= s.subrange(1, s.len() as int));
        let t = s.drop_first();
        assert forall|j: int| 0 <= j < i - 1 implies in_set(#[trigger] t[j], set) by {
            assert(t[j] == s[j + 1]);
        }
        lemma_trim_start_skip(t, set, i - 1);
        assert(t.subrange(i - 1, t.len() as int) =~= s.subrange(i, s.len() as int));
    } else {
        assert(s.subrange(0, s.len() as int) =~= s);
    }
}

proof fn lemma_trim_end_cut(s: Seq<char>, set: u8, k: int)
    requires
        0 <= k <= s.len(),
        forall|j: int| k <= j < s.len() ==> in_set(#[trigger] s[j], set),
    ensures
        trim_end_by(s, set) == trim_end_by(s.subrange(0, k), set),
    decreases s.len() - k,
{
    if k < s.len() {
        let t = s.drop_last();
        assert forall|j: int| k <= j < t.len() implies in_set(#[trigger] t[j], set) by {
            assert(t[j] == s[j]);
        }
        lemma_trim_end_cut(t, set, k);
        assert(t.subrange(0, k) =~= s.subrange(0, k));
    } else {
        assert(s.subrange(0, k) =~= s);
    }
}

/// Trimming twice trims no more than trimming once.
pub proof fn lemma_trim_idempotent(s: Seq<char>)
    ensures
        trim(trim(s)) == trim(s),
{
    lemma_trim_start_of_trimmed(s, 0);
    lemma_trim_end_keeps_start(trim_start_by(s, 0), 0);
    lemma_trim_end_twice(trim_start_by(s, 0), 0);
}

proof fn lemma_trim_start_of_trimmed(s: Seq<char>, set: u8)
    ensures
        trim_start_by(s, set).len() == 0 || !in_set(trim_start_by(s, set)[0], set),
    decreases s.len(),
{
    if s.len() > 0 && in_set(s[0], set) {
        lemma_trim_start_of_trimmed(s.drop_first(), set);
    }
}

proof fn lemma_trim_end_keeps_start(s: Seq<char>, set: u8)
    requires
        s.len() == 0 || !in_set(s[0], set),
    ensures
        trim_end_by(s, set).len() == 0 || trim_end_by(s, set)[0] == s[0],
        trim_start_by(trim_end_by(s, set), set) == trim_end_by(s, set),
    decreases s.len(),
{
    if s.len() > 0 && in_set(s.last(), set) {
        lemma_trim_end_keeps_start(s.drop_last(), set);
    }
}

proof fn lemma_trim_end_twice(s: Seq<char>, set: u8)
    ensures
        trim_end_by(trim_end_by(s, set), set) == trim_end_by(s, set),
    decreases s.len(),
{
    if s.len() > 0 && in_set(s.last(), set) {
        lemma_trim_end_twice(s.drop_last(), set);
    }
}

/// `char::is_whitespace`.
pub fn char_is_ws(c: char) -> (r: bool)
    ensures
        r == is_ws(c),
{
    let u = c as u32;
    (0x09 <= u && u <= 0x0d) || u == 0x20 || u == 0x85 || u == 0xa0 || u == 0x1680 || (0x2000
        <= u && u <= 0x200a) || u == 0x2028 || u == 0x2029 || u == 0x202f || u == 0x205f || u
        == 0x3000
}

/// Membership in a trimmed character set.
pub fn char_in_set(c: char, set: u8) -> (r: bool)
    ensures
        r == in_set(c, set),
{
    if set == 0 {
        char_is_ws(c)
    } else {
        c == '（' || c == '(' || c == '【' || c == '[' || c == '）' || c == ')' || c == '】' || c
            == ']' || c == '"' || c == '\'' || c == '“' || c == '”' || c == '*'
    }
}

/// The characters of `s`, in order.
pub fn chars_of(s: &str) -> (r: Vec<char>)
    ensures
        r@ == s@,
{
    let mut out: Vec<char> = Vec::new();
    for c in it: s.chars()
        invariant
            out@ == it.seq().take(it.index() as int),
            it.seq() == s@,
    {
        out.push(c);
    }
    out
}

/// `String::push`: appends one character at the end.
#[verifier::external_body]
fn push_char(s: &mut String, c: char)
    ensures
        final(s)@ == old(s)@.push(c),
{
    s.push(c);
}

/// The string made of `v[lo..hi]`.
pub fn string_of_range(v: &Vec<char>, lo: usize, hi: usize) -> (r: String)
    requires
        lo <= hi <= v.len(),
    ensures
        r@ == v@.subrange(lo as int, hi as int),
{
    let mut out = String::new();
    let mut i = lo;
    while i < hi
        invariant
            lo <= i <= hi <= v.len(),
            out@ == v@.subrange(lo as int, i as int),
        decreases hi - i,
    {
        push_char(&mut out, v[i]);
        i = i + 1;
        assert(out@ =~= v@.subrange(lo as int, i as int));
    }
    out
}

/// Bounds `lo..hi` of `v` such that `v[lo..hi]` is `v` trimmed of the set.
pub fn trim_bounds_by(v: &Vec<char>, set: u8) -> (r: (usize, usize))
    ensures
        r.0 <= r.1 <= v.len(),
        v@.subrange(r.0 as int, r.1 as int) == trim_by(v@, set),
{
    let n = v.len();
    let mut lo: usize = 0;
    while lo < n && char_in_set(v[lo], set)
        invariant
            lo <= n == v.len(),
            forall|j: int| 0 <= j < lo ==> in_set(#[trigger] v@[j], set),
        decreases n - lo,
    {
        lo = lo + 1;
    }
    proof {
        lemma_trim_start_skip(v@, set, lo as int);
        let t = v@.subrange(lo as int, n as int);
        if t.len() > 0 {
            assert(t[0] == v@[lo as int]);
        }
        assert(trim_start_by(t, set) == t);
    }
    let mut hi: usize = n;
    while hi > lo && char_in_set(v[hi - 1], set)
        invariant
            lo <= hi <= n == v.len(),
            forall|j: int| hi <= j < n ==> in_set(#[trigger] v@[j], set),
        decreases hi,
    {
        hi = hi - 1;
    }
    proof {
        let t = v@.subrange(lo as int, n as int);
        assert forall|j: int| hi - lo <= j < t.len() implies in_set(#[trigger] t[j], set) by {
            assert(t[j] == v@[lo + j]);
        }
        lemma_trim_end_cut(t, set, hi - lo);
        let u = t.subrange(0, hi - lo);
        assert(u =~= v@.subrange(lo as int, hi as int));
        if u.len() > 0 {
            assert(u.last() == v@[hi - 1]);
        }
        assert(trim_end_by(u, set) == u);
    }
    (lo, hi)
}

/// Bounds `lo..hi` of `v` such that `v[lo..hi]` is `v` trimmed of white space.
pub fn trim_bounds(v: &Vec<char>) -> (r: (usize, usize))
    ensures
        r.0 <= r.1 <= v.len(),
        v@.subrange(r.0 as int, r.1 as int) == trim(v@),
{
    trim_bounds_by(v, 0)
}

/// `str::trim`, as an owned string.
pub fn trimmed(s: &str) -> (r: String)
    ensures
        r@ == trim(s@),
{
    let v = chars_of(s);
    let (lo, hi) = trim_bounds(&v);
    string_of_range(&v, lo, hi)
}

/// `str::trim(s).is_empty()`.
pub fn is_blank(s: &str) -> (r: bool)
    ensures
        r == (trim(s@).len() == 0),
{
    let v = chars_of(s);
    let (lo, hi) = trim_bounds(&v);
    lo == hi
}

/// Character-wise equality of two strings.
pub fn same_text(a: &str, b: &str) -> (r: bool)
    ensures
        r == (a@ == b@),
{
    let x = chars_of(a);
    let y = chars_of(b);
    same_chars(&x, &y)
}

/// Element-wise equality of two character vectors.
pub fn same_chars(x: &Vec<char>, y: &Vec<char>) -> (r: bool)
    ensures
        r == (x@ == y@),
{
    if x.len() != y.len() {
        return false;
    }
    let mut i: usize = 0;
    while i < x.len()
        invariant
            x.len() == y.len(),
            i <= x.len(),
            forall|j: int| 0 <= j < i ==> x@[j] == y@[j],
        decreases x.len() - i,
    {
        if x[i] != y[i] {
            return false;
        }
        i = i + 1;
    }
    assert(x@ =~= y@);
    true
}

/// `y` occurs in `x` at index `at`.
pub fn chars_at(x: &Vec<char>, y: &Vec<char>, at: usize) -> (r: bool)
    ensures
        r == occurs_at(x@, y@, at as int),
{
    if at > x.len() || y.len() > x.len() - at {
        return false;
    }
    let mut i: usize = 0;
    while i < y.len()
        invariant
            at + y.len() <= x.len(),
            i <= y.len(),
            forall|j: int| 0 <= j < i ==> x@[at + j] == y@[j],
        decreases y.len() - i,
    {
        if x[at + i] != y[i] {
            assert(x@.subrange(at as int, at + y.len())[i as int] != y@[i as int]);
            return false;
        }
        i = i + 1;
    }
    assert(x@.subrange(at as int, at + y.len()) =~= y@);
    true
}

/// `x` starts with `y`.
pub fn starts_with_chars(x: &Vec<char>, y: &Vec<char>) -> (r: bool)
    ensures
        r == has_prefix(x@, y@),
{
    chars_at(x, y, 0)
}

/// `x` ends with `y`.
pub fn ends_with_chars(x: &Vec<char>, y: &Vec<char>) -> (r: bool)
    ensures
        r == has_suffix(x@, y@),
{
    if y.len() > x.len() {
        return false;
    }
    chars_at(x, y, x.len() - y.len())
}

/// `y` occurs somewhere in `x`.
pub fn contains_chars(x: &Vec<char>, y: &Vec<char>) -> (r: bool)
    ensures
        r == has_infix(x@, y@),
{
    if y.len() > x.len() {
        assert forall|i: int| !occurs_at(x@, y@, i) by {}
        return false;
    }
    let last = x.len() - y.len();
    let mut i: usize = 0;
    loop
        invariant
            i <= last,
            last + y.len() == x.len(),
            forall|j: int| 0 <= j < i ==> !occurs_at(x@, y@, j),
        ensures
            forall|j: int| 0 <= j <= last ==> !occurs_at(x@, y@, j),
        decreases last - i,
    {
        if chars_at(x, y, i) {
            return true;
        }
        if i == last {
            break;
        }
        i = i + 1;
    }
    assert forall|j: int| !occurs_at(x@, y@, j) by {
        if 0 <= j <= last {
        }
    }
    false
}

/// `str::contains` with a string pattern.
pub fn text_contains(hay: &str, needle: &str) -> (r: bool)
    ensures
        r == has_infix(hay@, needle@),
{
    let x = chars_of(hay);
    let y = chars_of(needle);
    contains_chars(&x, &y)
}


/// The decimal digit `d` as a character.
pub open spec fn digit_char(d: nat) -> char {
    (48 + d) as char
}

/// The decimal notation of `n`, as `Display` writes it.
pub open spec fn dec(n: nat) -> Seq<char>
    decreases n,
{
    if n < 10 {
        seq![digit_char(n)]
    } else {
        dec(n / 10).push(digit_char(n % 10))
    }
}

/// The notation of a signed number, as `Display` writes it.
pub open spec fn signed_dec(n: int) -> Seq<char> {
    if n < 0 {
        seq!['-'] + dec((-n) as nat)
    } else {
        dec(n as nat)
    }
}

/// Appends the decimal notation of `n` to `out`.
pub fn push_decimal(out: &mut String, n: u64)
    ensures
        final(out)@ == old(out)@ + dec(n as nat),
    decreases n,
{
    if n >= 10 {
        push_decimal(out, n / 10);
    }
    let d = (n % 10) as u8;
    let c = (48u8 + d) as char;
    push_char(out, c);
    proof {
        if n >= 10 {
            assert(out@ =~= old(out)@ + dec(n as nat));
        } else {
            assert(out@ =~= old(out)@ + dec(n as nat));
        }
    }
}

/// Appends the notation of a signed number to `out`.
pub fn push_signed(out: &mut String, n: i32)
    ensures
        final(out)@ == old(out)@ + signed_dec(n as int),
{
    if n < 0 {
        push_char(out, '-');
        let m = (0i64 - n as i64) as u64;
        push_decimal(out, m);
        assert(out@ =~= old(out)@ + signed_dec(n as int));
    } else {
        push_decimal(out, n as u64);
    }
}

/// `s` without its white space.
pub open spec fn drop_ws(s: Seq<char>) -> Seq<char>
    decreases s.len(),
{
    if s.len() == 0 {
        s
    } else if is_ws(s.last()) {
        drop_ws(s.drop_last())
    } else {
        drop_ws(s.drop_last()).push(s.last())
    }
}

/// The ASCII lower case of a character, as `char::to_ascii_lowercase` gives it.
pub open spec fn lower_char(c: char) -> char {
    if 'A' <= c && c <= 'Z' {
        ((c as u32) + 32) as char
    } else {
        c
    }
}

/// `v` without its white space.
pub fn drop_ws_chars(v: &Vec<char>) -> (r: Vec<char>)
    ensures
        r@ == drop_ws(v@),
{
    let mut out: Vec<char> = Vec::new();
    let mut i: usize = 0;
    while i < v.len()
        invariant
            i <= v.len(),
            out@ == drop_ws(v@.take(i as int)),
        decreases v.len() - i,
    {
        assert(v@.take(i + 1).drop_last() =~= v@.take(i as int));
        if !char_is_ws(v[i]) {
            out.push(v[i]);
        }
        i = i + 1;
    }
    assert(v@.take(v.len() as int) =~= v@);
    out
}

/// The ASCII lower case of `v`, as `str::to_ascii_lowercase` gives it.
pub fn lower_chars(v: &Vec<char>) -> (r: Vec<char>)
    ensures
        r@ == v@.map_values(|c: char| lower_char(c)),
{
    let mut out: Vec<char> = Vec::new();
    let mut i: usize = 0;
    while i < v.len()
        invariant
            i <= v.len(),
            out@ == v@.take(i as int).map_values(|c: char| lower_char(c)),
        decreases v.len() - i,
    {
        let c = v[i];
        let l = if 'A' <= c && c <= 'Z' {
            ((c as u8) + 32) as char
        } else {
            c
        };
        out.push(l);
        i = i + 1;
        assert(out@ =~= v@.take(i as int).map_values(|c: char| lower_char(c)));
    }
    assert(v@.take(v.len() as int) =~= v@);
    out
}

/// Index of the first `c` in `s`.
pub open spec fn first_of(s: Seq<char>, c: char) -> Option<int>
    decreases s.len(),
{
    if s.len() == 0 {
        None
    } else {
        match first_of(s.drop_last(), c) {
            Some(i) => Some(i),
            None => if s.last() == c {
                Some(s.len() - 1)
            } else {
                None
            },
        }
    }
}

/// Index of the last `c` in `s`.
pub open spec fn last_of(s: Seq<char>, c: char) -> Option<int>
    decreases s.len(),
{
    if s.len() == 0 {
        None
    } else if s.last() == c {
        Some(s.len() - 1)
    } else {
        last_of(s.drop_last(), c)
    }
}

proof fn lemma_first_of_prefix(s: Seq<char>, c: char, i: int)
    requires
        0 <= i <= s.len(),
        forall|j: int| 0 <= j < i ==> s[j] != c,
    ensures
        first_of(s.take(i), c).is_none(),
    decreases i,
{
    if i > 0 {
        assert(s.take(i).drop_last() =~= s.take(i - 1));
        lemma_first_of_prefix(s, c, i - 1);
    }
}

proof fn lemma_first_of_found(s: Seq<char>, c: char, i: int)
    requires
        0 <= i < s.len(),
        forall|j: int| 0 <= j < i ==> s[j] != c,
        s[i] == c,
    ensures
        first_of(s, c) == Some(i),
    decreases s.len(),
{
    if i < s.len() - 1 {
        lemma_first_of_found(s.drop_last(), c, i);
    } else {
        lemma_first_of_prefix(s, c, i);
        assert(s.take(i) =~= s.drop_last());
    }
}

proof fn lemma_last_of_suffix(s: Seq<char>, c: char, k: int)
    requires
        0 <= k <= s.len(),
        forall|j: int| k <= j < s.len() ==> s[j] != c,
    ensures
        last_of(s, c) == last_of(s.take(k), c),
    decreases s.len() - k,
{
    if k < s.len() {
        lemma_last_of_suffix(s.drop_last(), c, k);
        assert(s.drop_last().take(k) =~= s.take(k));
    } else {
        assert(s.take(k) =~= s);
    }
}

/// Index of the first `c` in `v`.
pub fn find_char(v: &Vec<char>, c: char) -> (r: Option<usize>)
    ensures
        match r {
            Some(i) => first_of(v@, c) == Some(i as int) && i < v.len(),
            None => first_of(v@, c).is_none(),
        },
{
    let mut i: usize = 0;
    while i < v.len()
        invariant
            i <= v.len(),
            forall|j: int| 0 <= j < i ==> v@[j] != c,
        decreases v.len() - i,
    {
        if v[i] == c {
            proof {
                lemma_first_of_found(v@, c, i as int);
            }
            return Some(i);
        }
        i = i + 1;
    }
    proof {
        lemma_first_of_prefix(v@, c, v.len() as int);
        assert(v@.take(v.len() as int) =~= v@);
    }
    None
}

/// Index of the last `c` in `v`.
pub fn rfind_char(v: &Vec<char>, c: char) -> (r: Option<usize>)
    ensures
        match r {
            Some(i) => last_of(v@, c) == Some(i as int) && i < v.len(),
            None => last_of(v@, c).is_none(),
        },
{
    let mut k: usize = v.len();
    while k > 0
        invariant
            k <= v.len(),
            forall|j: int| k <= j < v.len() ==> v@[j] != c,
        decreases k,
    {
        if v[k - 1] == c {
            proof {
                lemma_last_of_suffix(v@, c, k as int);
                assert(v@.take(k as int).last() == c);
            }
            return Some(k - 1);
        }
        k = k - 1;
    }
    proof {
        lemma_last_of_suffix(v@, c, 0);
    }
    None
}


/// Every character of `s` belongs to the set.
pub open spec fn all_in_set(s: Seq<char>, set: u8) -> bool {
    forall|j: int| 0 <= j < s.len() ==> in_set(#[trigger] s[j], set)
}

/// Characters of the set in front do not change what is left after
/// trimming the front.
proof fn lemma_trim_start_after(w: Seq<char>, x: Seq<char>, set: u8)
    requires
        all_in_set(w, set),
    ensures
        trim_start_by(w + x, set) == trim_start_by(x, set),
{
    let s = w + x;
    assert forall|j: int| 0 <= j < w.len() implies in_set(#[trigger] s[j], set) by {
        assert(s[j] == w[j]);
    }
    lemma_trim_start_skip(s, set, w.len() as int);
    assert(s.subrange(w.len() as int, s.len() as int) =~= x);
}

/// Characters of the set behind do not change what is left after
/// trimming the end.
proof fn lemma_trim_end_before(x: Seq<char>, w: Seq<char>, set: u8)
    requires
        all_in_set(w, set),
    ensures
        trim_end_by(x + w, set) == trim_end_by(x, set),
{
    let s = x + w;
    assert forall|j: int| x.len() <= j < s.len() implies in_set(#[trigger] s[j], set) by {
        assert(s[j] == w[j - x.len()]);
    }
    lemma_trim_end_cut(s, set, x.len() as int);
    assert(s.subrange(0, x.len() as int) =~= x);
}

/// Characters of the set behind do not change what is left after trimming
/// both ends.
proof fn lemma_trim_by_before(x: Seq<char>, w: Seq<char>, set: u8)
    requires
        all_in_set(w, set),
    ensures
        trim_by(x + w, set) == trim_by(x, set),
    decreases x.len(),
{
    if x.len() == 0 {
        assert(x + w =~= w);
        lemma_trim_start_skip(w, set, w.len() as int);
        assert(w.subrange(w.len() as int, w.len() as int) =~= Seq::<char>::empty());
    } else if in_set(x[0], set) {
        assert((x + w).drop_first() =~= x.drop_first() + w);
        lemma_trim_by_before(x.drop_first(), w, set);
    } else {
        assert((x + w)[0] == x[0]);
        lemma_trim_end_before(x, w, set);
    }
}

/// Characters of the set on either side do not change what is left after
/// trimming both ends.
pub proof fn lemma_trim_by_wrapped(a: Seq<char>, x: Seq<char>, b: Seq<char>, set: u8)
    requires
        all_in_set(a, set),
        all_in_set(b, set),
    ensures
        trim_by(a + x + b, set) == trim_by(x, set),
{
    assert(a + x + b =~= a + (x + b));
    lemma_trim_start_after(a, x + b, set);
    lemma_trim_by_before(x, b, set);
}

/// Dropping white space goes piece by piece.
pub proof fn lemma_drop_ws_concat(a: Seq<char>, b: Seq<char>)
    ensures
        drop_ws(a + b) == drop_ws(a) + drop_ws(b),
    decreases b.len(),
{
    if b.len() == 0 {
        assert(a + b =~= a);
        assert(drop_ws(a) + drop_ws(b) =~= drop_ws(a));
    } else {
        assert((a + b).drop_last() =~= a + b.drop_last());
        assert((a + b).last() == b.last());
        lemma_drop_ws_concat(a, b.drop_last());
        if !is_ws(b.last()) {
            assert(drop_ws(a) + drop_ws(b.drop_last()).push(b.last()) =~= (drop_ws(a) + drop_ws(
                b.drop_last(),
            )).push(b.last()));
        }
    }
}

/// What is left of `s` without white space: its characters that are not
/// white space, all of them wrappers when `s` holds only white space and
/// wrappers.
pub proof fn lemma_drop_ws_wrappers(s: Seq<char>)
    requires
        forall|j: int| 0 <= j < s.len() ==> is_ws(#[trigger] s[j]) || is_wrapper_char(s[j]),
    ensures
        all_in_set(drop_ws(s), 1),
    decreases s.len(),
{
    if s.len() > 0 {
        let t = s.drop_last();
        assert forall|j: int| 0 <= j < t.len() implies is_ws(#[trigger] t[j]) || is_wrapper_char(
            t[j],
        ) by {
            assert(t[j] == s[j]);
        }
        lemma_drop_ws_wrappers(t);
    }
}

/// Trimming white space first changes nothing once all of it is dropped.
pub proof fn lemma_drop_ws_trim(s: Seq<char>)
    ensures
        drop_ws(trim(s)) == drop_ws(s),
{
    lemma_drop_ws_trim_start(s);
    lemma_drop_ws_trim_end(trim_start_by(s, 0));
}

proof fn lemma_drop_ws_trim_start(s: Seq<char>)
    ensures
        drop_ws(trim_start_by(s, 0)) == drop_ws(s),
    decreases s.len(),
{
    if s.len() > 0 && is_ws(s[0]) {
        lemma_drop_ws_trim_start(s.drop_first());
        assert(seq![s[0]] + s.drop_first() =~= s);
        lemma_drop_ws_concat(seq![s[0]], s.drop_first());
        let e = seq![s[0]];
        assert(e.drop_last() =~= Seq::<char>::empty());
        assert(e.last() == s[0]);
        assert(drop_ws(e.drop_last()) =~= Seq::<char>::empty());
        assert(drop_ws(e) =~= Seq::<char>::empty());
        assert(drop_ws(seq![s[0]]) + drop_ws(s.drop_first()) =~= drop_ws(s.drop_first()));
    }
}

proof fn lemma_drop_ws_trim_end(s: Seq<char>)
    ensures
        drop_ws(trim_end_by(s, 0)) == drop_ws(s),
    decreases s.len(),
{
    if s.len() > 0 && is_ws(s.last()) {
        lemma_drop_ws_trim_end(s.drop_last());
    }
}

/// A text whose trimmed form is not empty keeps a character once its white
/// space is dropped.
pub proof fn lemma_drop_ws_of_text(s: Seq<char>)
    requires
        trim(s).len() > 0,
    ensures
        drop_ws(s).len() > 0,
{
    lemma_trim_start_of_trimmed(s, 0);
    lemma_trim_end_keeps_start(trim_start_by(s, 0), 0);
    let t = trim(s);
    assert(!is_ws(t[0]));
    assert(seq![t[0]] + t.drop_first() =~= t);
    lemma_drop_ws_concat(seq![t[0]], t.drop_first());
    let e = seq![t[0]];
    assert(e.drop_last() =~= Seq::<char>::empty());
    assert(e.last() == t[0]);
    assert(drop_ws(e.drop_last()) =~= Seq::<char>::empty());
    assert(drop_ws(e) =~= seq![t[0]]);
    lemma_drop_ws_trim(s);
}


/// A text without white space keeps all of it when white space is dropped.
pub proof fn lemma_drop_ws_none(s: Seq<char>)
    requires
        forall|j: int| 0 <= j < s.len() ==> !is_ws(#[trigger] s[j]),
    ensures
        drop_ws(s) == s,
    decreases s.len(),
{
    if s.len() > 0 {
        let t = s.drop_last();
        assert forall|j: int| 0 <= j < t.len() implies !is_ws(#[trigger] t[j]) by {
            assert(t[j] == s[j]);
        }
        lemma_drop_ws_none(t);
        assert(t.push(s.last()) =~= s);
    }
}

/// A text whose ends are not in the set is left as it is by trimming.
pub proof fn lemma_trim_by_untouched(s: Seq<char>, set: u8)
    requires
        s.len() > 0,
        !in_set(s[0], set),
        !in_set(s.last(), set),
    ensures
        trim_by(s, set) == s,
{
}

} // verus!
