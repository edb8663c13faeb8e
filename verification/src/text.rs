//! Character-level helpers over the `Seq<char>` view of strings: trimming,
//! comparison, ASCII case folding and decimal formatting.
use vstd::prelude::*;

verus! {

/// `String::push` from std, which vstd leaves without a specification.
/// Claimed: the string afterwards holds its former characters followed by `c`.
#[verifier::external_body]
fn push_char(s: &mut String, c: char)
    ensures
        final(s)@ == old(s)@.push(c),
{
    s.push(c);
}

/// The characters of `s`, in order.
pub fn chars_of(s: &str) -> (v: Vec<char>)
    ensures
        v@ == s@,
{
    let mut v: Vec<char> = Vec::new();
    for c in it: s.chars()
        invariant
            v@ == it.seq().take(it.index() as int),
            it.seq() == s@,
    {
        v.push(c);
    }
    v
}

/// A string holding exactly the characters of `v`.
pub fn string_of(v: &[char]) -> (s: String)
    ensures
        s@ == v@,
{
    let mut s = String::new();
    let n = v.len();
    for i in 0..n
        invariant
            n == v@.len(),
            s@ == v@.take(i as int),
    {
        push_char(&mut s, v[i]);
        assert(v@.take(i as int).push(v@[i as int]) =~= v@.take(i + 1));
    }
    assert(v@.take(n as int) =~= v@);
    s
}

/// Appends the characters of `w` to `v`.
pub fn append_chars(v: &mut Vec<char>, w: &[char])
    ensures
        final(v)@ == old(v)@ + w@,
{
    let n = w.len();
    for i in 0..n
        invariant
            n == w@.len(),
            v@ == old(v)@ + w@.take(i as int),
    {
        v.push(w[i]);
        assert(old(v)@ + w@.take(i as int) + seq![w@[i as int]] =~= old(v)@ + w@.take(i + 1));
    }
    assert(w@.take(n as int) =~= w@);
}

/// The characters `v[from..to]` as a new vector.
pub fn copy_range(v: &[char], from: usize, to: usize) -> (r: Vec<char>)
    requires
        from <= to <= v@.len(),
    ensures
        r@ == v@.subrange(from as int, to as int),
{
    let mut r: Vec<char> = Vec::new();
    let mut i = from;
    while i < to
        invariant
            from <= i <= to <= v@.len(),
            r@ == v@.subrange(from as int, i as int),
        decreases to - i,
    {
        r.push(v[i]);
        assert(v@.subrange(from as int, i as int).push(v@[i as int]) =~= v@.subrange(
            from as int,
            i + 1,
        ));
        i = i + 1;
    }
    r
}

/// The character view of an optional string.
pub open spec fn opt_view(o: Option<String>) -> Option<Seq<char>> {
    match o {
        Some(s) => Some(s@),
        None => None,
    }
}

/// The character views of a sequence of strings.
pub open spec fn string_views(v: Seq<String>) -> Seq<Seq<char>> {
    v.map_values(|x: String| x@)
}

/// Two names are the same when ASCII letters are compared without regard
/// to case.
pub open spec fn same_ignoring_case(a: Seq<char>, b: Seq<char>) -> bool {
    lower_seq(a) == lower_seq(b)
}

/// Unicode `White_Space`, the property that `char::is_whitespace` tests.
pub open spec fn is_ws(c: char) -> bool {
    let u = c as u32;
    ||| 0x09 <= u <= 0x0D
    ||| u == 0x20
    ||| u == 0x85
    ||| u == 0xA0
    ||| u == 0x1680
    ||| 0x2000 <= u <= 0x200A
    ||| u == 0x2028
    ||| u == 0x2029
    ||| u == 0x202F
    ||| u == 0x205F
    ||| u == 0x3000
}

/// Whether `c` is Unicode white space.
pub fn is_whitespace_char(c: char) -> (r: bool)
    ensures
        r == is_ws(c),
{
    let u = c as u32;
    (0x09 <= u && u <= 0x0D) || u == 0x20 || u == 0x85 || u == 0xA0 || u == 0x1680 || (0x2000
        <= u && u <= 0x200A) || u == 0x2028 || u == 0x2029 || u == 0x202F || u == 0x205F || u
        == 0x3000
}

/// The class of characters a trim removes: one given character, or (for
/// `None`) white space.
pub open spec fn stripped(c: char, class: Option<char>) -> bool {
    match class {
        Some(t) => c == t,
        None => is_ws(c),
    }
}

/// The first index at or after `i` that does not hold a stripped character.
pub open spec fn lead_end(s: Seq<char>, i: int, class: Option<char>) -> int
    decreases s.len() - i,
{
    if 0 <= i < s.len() && stripped(s[i], class) {
        lead_end(s, i + 1, class)
    } else {
        i
    }
}

/// Walking back from `j` (but not below `lo`) over stripped characters, the
/// index where the walk stops.
pub open spec fn tail_start(s: Seq<char>, lo: int, j: int, class: Option<char>) -> int
    decreases j - lo,
{
    if lo < j && 0 < j <= s.len() && stripped(s[j - 1], class) {
        tail_start(s, lo, j - 1, class)
    } else {
        j
    }
}

/// `s` without stripped characters at either end (`str::trim_matches`).
pub open spec fn trim_both(s: Seq<char>, class: Option<char>) -> Seq<char> {
    let a = lead_end(s, 0, class);
    s.subrange(a, tail_start(s, a, s.len() as int, class))
}

/// `s` without stripped characters at its end (`str::trim_end_matches`).
pub open spec fn trim_end(s: Seq<char>, class: Option<char>) -> Seq<char> {
    s.subrange(0, tail_start(s, 0, s.len() as int, class))
}

/// `s` without leading or trailing white space (`str::trim`).
pub open spec fn spec_trim(s: Seq<char>) -> Seq<char> {
    trim_both(s, None)
}

pub proof fn lemma_lead_end_bounds(s: Seq<char>, i: int, class: Option<char>)
    requires
        0 <= i <= s.len(),
    ensures
        i <= lead_end(s, i, class) <= s.len(),
        forall|k: int| i <= k < lead_end(s, i, class) ==> stripped(#[trigger] s[k], class),
        lead_end(s, i, class) < s.len() ==> !stripped(s[lead_end(s, i, class)], class),
    decreases s.len() - i,
{
    if i < s.len() && stripped(s[i], class) {
        lemma_lead_end_bounds(s, i + 1, class);
    }
}

pub proof fn lemma_tail_start_bounds(s: Seq<char>, lo: int, j: int, class: Option<char>)
    requires
        0 <= lo <= j <= s.len(),
    ensures
        lo <= tail_start(s, lo, j, class) <= j,
        forall|k: int| tail_start(s, lo, j, class) <= k < j ==> stripped(#[trigger] s[k], class),
        lo < tail_start(s, lo, j, class) ==> !stripped(s[tail_start(s, lo, j, class) - 1], class),
    decreases j - lo,
{
    if lo < j && stripped(s[j - 1], class) {
        lemma_tail_start_bounds(s, lo, j - 1, class);
    }
}

/// Trimming twice is trimming once.
pub proof fn lemma_trim_idempotent(s: Seq<char>, class: Option<char>)
    ensures
        trim_both(trim_both(s, class), class) == trim_both(s, class),
{
    lemma_lead_end_bounds(s, 0, class);
    let a = lead_end(s, 0, class);
    lemma_tail_start_bounds(s, a, s.len() as int, class);
    let b = tail_start(s, a, s.len() as int, class);
    let t = s.subrange(a, b);
    if t.len() > 0 {
        assert(t[0] == s[a]);
        assert(lead_end(t, 0, class) == 0);
        assert(t[t.len() - 1] == s[b - 1]);
        assert(tail_start(t, 0, t.len() as int, class) == t.len());
    }
    assert(t.subrange(0, t.len() as int) =~= t);
}

fn in_class(c: char, class: Option<char>) -> (r: bool)
    ensures
        r == stripped(c, class),
{
    match class {
        Some(t) => c == t,
        None => is_whitespace_char(c),
    }
}

/// The index where a leading run of stripped characters ends.
pub fn lead_index(v: &[char], class: Option<char>) -> (a: usize)
    ensures
        a == lead_end(v@, 0, class),
        a <= v@.len(),
{
    let mut i: usize = 0;
    while i < v.len() && in_class(v[i], class)
        invariant
            0 <= i <= v@.len(),
            lead_end(v@, 0, class) == lead_end(v@, i as int, class),
        decreases v@.len() - i,
    {
        i = i + 1;
    }
    proof {
        lemma_lead_end_bounds(v@, 0, class);
    }
    i
}

/// The index where a trailing run of stripped characters (not reaching below
/// `lo`) starts.
pub fn tail_index(v: &[char], lo: usize, class: Option<char>) -> (b: usize)
    requires
        lo <= v@.len(),
    ensures
        b == tail_start(v@, lo as int, v@.len() as int, class),
        lo <= b <= v@.len(),
{
    let mut j: usize = v.len();
    while j > lo && in_class(v[j - 1], class)
        invariant
            lo <= j <= v@.len(),
            tail_start(v@, lo as int, v@.len() as int, class) == tail_start(
                v@,
                lo as int,
                j as int,
                class,
            ),
        decreases j,
    {
        j = j - 1;
    }
    j
}

/// `v` without stripped characters at either end.
pub fn trim_chars(v: &[char], class: Option<char>) -> (r: Vec<char>)
    ensures
        r@ == trim_both(v@, class),
{
    let a = lead_index(v, class);
    let b = tail_index(v, a, class);
    copy_range(v, a, b)
}

/// `v` without stripped characters at its end.
pub fn trim_end_chars(v: &[char], class: Option<char>) -> (r: Vec<char>)
    ensures
        r@ == trim_end(v@, class),
{
    let b = tail_index(v, 0, class);
    copy_range(v, 0, b)
}

/// `s` without leading or trailing white space, as `str::trim` gives it.
pub fn trim_text(s: &str) -> (r: String)
    ensures
        r@ == spec_trim(s@),
{
    let v = chars_of(s);
    let t = trim_chars(v.as_slice(), None);
    string_of(t.as_slice())
}

/// Whether two character sequences are equal.
pub fn chars_equal(a: &[char], b: &[char]) -> (r: bool)
    ensures
        r == (a@ == b@),
{
    if a.len() != b.len() {
        return false;
    }
    let n = a.len();
    for i in 0..n
        invariant
            n == a@.len() == b@.len(),
            forall|k: int| 0 <= k < i ==> a@[k] == b@[k],
    {
        if a[i] != b[i] {
            return false;
        }
    }
    assert(a@ =~= b@);
    true
}

/// Whether two strings hold the same characters.
pub fn str_equals(a: &str, b: &str) -> (r: bool)
    ensures
        r == (a@ == b@),
{
    let va = chars_of(a);
    let vb = chars_of(b);
    chars_equal(va.as_slice(), vb.as_slice())
}

/// Whether `v` begins with `p`.
pub fn starts_with_chars(v: &[char], p: &[char]) -> (r: bool)
    ensures
        r == (p@.len() <= v@.len() && v@.take(p@.len() as int) == p@),
{
    if p.len() > v.len() {
        return false;
    }
    let n = p.len();
    for i in 0..n
        invariant
            n == p@.len() <= v@.len(),
            forall|k: int| 0 <= k < i ==> v@[k] == p@[k],
    {
        if v[i] != p[i] {
            assert(v@.take(n as int)[i as int] != p@[i as int]);
            return false;
        }
    }
    assert(v@.take(n as int) =~= p@);
    true
}

/// Whether `v` ends with `p`.
pub fn ends_with_chars(v: &[char], p: &[char]) -> (r: bool)
    ensures
        r == (p@.len() <= v@.len() && v@.skip(v@.len() - p@.len()) == p@),
{
    if p.len() > v.len() {
        return false;
    }
    let n = p.len();
    let off = v.len() - n;
    let mut i: usize = 0;
    while i < n
        invariant
            n == p@.len() <= v@.len(),
            off + n == v@.len(),
            v@.len() == v.len(),
            0 <= i <= n,
            forall|k: int| 0 <= k < i ==> v@[off + k] == p@[k],
        decreases n - i,
    {
        if v[off + i] != p[i] {
            assert(v@.skip(off as int)[i as int] != p@[i as int]);
            return false;
        }
        i = i + 1;
    }
    assert(v@.skip(off as int) =~= p@);
    true
}

/// ASCII lower-casing of one character (`char::to_ascii_lowercase`).
pub open spec fn ascii_lower(c: char) -> char {
    if 'A' <= c <= 'Z' {
        ((c as u32) + 32) as char
    } else {
        c
    }
}

/// ASCII lower-casing turns `A`..`Z` into `a`..`z` and leaves every other
/// character as it is.
pub proof fn lemma_ascii_lower_cases(c: char)
    ensures
        'A' <= c <= 'Z' ==> ascii_lower(c) as u32 == c as u32 + 32 && 'a' <= ascii_lower(c) <= 'z',
        !('A' <= c <= 'Z') ==> ascii_lower(c) == c,
{
}

/// ASCII lower-casing of every character of `s`.
pub open spec fn lower_seq(s: Seq<char>) -> Seq<char> {
    s.map_values(|c: char| ascii_lower(c))
}

/// The ASCII lower-case form of `c`.
pub fn to_ascii_lower(c: char) -> (r: char)
    ensures
        r == ascii_lower(c),
{
    if 'A' <= c && c <= 'Z' {
        let u: u8 = (c as u32 + 32) as u8;
        u as char
    } else {
        c
    }
}

/// Whether `a` and `b` are equal when ASCII letters are compared without
/// regard to case (`str::eq_ignore_ascii_case`).
pub fn eq_ignore_ascii_case(a: &str, b: &str) -> (r: bool)
    ensures
        r == (lower_seq(a@) == lower_seq(b@)),
{
    let va = chars_of(a);
    let vb = chars_of(b);
    if va.len() != vb.len() {
        assert(lower_seq(a@).len() != lower_seq(b@).len());
        return false;
    }
    let n = va.len();
    for i in 0..n
        invariant
            n == a@.len() == b@.len(),
            va@ == a@,
            vb@ == b@,
            forall|k: int| 0 <= k < i ==> ascii_lower(a@[k]) == ascii_lower(b@[k]),
    {
        if to_ascii_lower(va[i]) != to_ascii_lower(vb[i]) {
            assert(lower_seq(a@)[i as int] != lower_seq(b@)[i as int]);
            return false;
        }
    }
    assert(lower_seq(a@) =~= lower_seq(b@));
    true
}

/// The decimal digit `d` (for `d < 10`) as a character.
pub open spec fn digit_char(d: nat) -> char {
    if d == 0 {
        '0'
    } else if d == 1 {
        '1'
    } else if d == 2 {
        '2'
    } else if d == 3 {
        '3'
    } else if d == 4 {
        '4'
    } else if d == 5 {
        '5'
    } else if d == 6 {
        '6'
    } else if d == 7 {
        '7'
    } else if d == 8 {
        '8'
    } else {
        '9'
    }
}

/// The decimal notation of `n`, without leading zeros (as `{}` formats it).
pub open spec fn spec_decimal(n: nat) -> Seq<char>
    decreases n,
{
    if n < 10 {
        seq![digit_char(n)]
    } else {
        spec_decimal(n / 10).push(digit_char(n % 10))
    }
}

fn digit(d: u64) -> (c: char)
    requires
        d < 10,
    ensures
        c == digit_char(d as nat),
{
    if d == 0 {
        '0'
    } else if d == 1 {
        '1'
    } else if d == 2 {
        '2'
    } else if d == 3 {
        '3'
    } else if d == 4 {
        '4'
    } else if d == 5 {
        '5'
    } else if d == 6 {
        '6'
    } else if d == 7 {
        '7'
    } else if d == 8 {
        '8'
    } else {
        '9'
    }
}

/// The decimal digits of `n`.
pub fn decimal_chars(n: u64) -> (v: Vec<char>)
    ensures
        v@ == spec_decimal(n as nat),
    decreases n,
{
    if n < 10 {
        let mut v: Vec<char> = Vec::new();
        v.push(digit(n));
        assert(v@ =~= seq![digit_char(n as nat)]);
        v
    } else {
        let mut v = decimal_chars(n / 10);
        v.push(digit(n % 10));
        v
    }
}

/// The decimal notation of `n`.
pub fn decimal_string(n: u64) -> (s: String)
    ensures
        s@ == spec_decimal(n as nat),
{
    let v = decimal_chars(n);
    string_of(v.as_slice())
}

/// The number of bytes UTF-8 takes for `c`.
pub open spec fn utf8_width(c: char) -> nat {
    let u = c as u32;
    if u <= 0x7F {
        1
    } else if u <= 0x7FF {
        2
    } else if u <= 0xFFFF {
        3
    } else {
        4
    }
}

pub proof fn lemma_encode_utf8_concat(a: Seq<char>, b: Seq<char>)
    ensures
        vstd::utf8::encode_utf8(a + b) == vstd::utf8::encode_utf8(a) + vstd::utf8::encode_utf8(b),
    decreases a.len(),
{
    if a.len() == 0 {
        assert(a + b =~= b);
        assert(vstd::utf8::encode_utf8(a) =~= Seq::<u8>::empty());
        assert(vstd::utf8::encode_utf8(a) + vstd::utf8::encode_utf8(b) =~= vstd::utf8::encode_utf8(b));
    } else {
        lemma_encode_utf8_concat(a.drop_first(), b);
        assert((a + b).drop_first() =~= a.drop_first() + b);
        assert((a + b)[0] == a[0]);
        let e = vstd::utf8::encode_scalar(a[0] as u32);
        assert(e + (vstd::utf8::encode_utf8(a.drop_first()) + vstd::utf8::encode_utf8(b)) =~= (e
            + vstd::utf8::encode_utf8(a.drop_first())) + vstd::utf8::encode_utf8(b));
    }
}

pub proof fn lemma_encode_utf8_push_len(s: Seq<char>, c: char)
    ensures
        vstd::utf8::encode_utf8(s.push(c)).len() == vstd::utf8::encode_utf8(s).len() + utf8_width(c),
{
    lemma_encode_utf8_concat(s, seq![c]);
    assert(s + seq![c] =~= s.push(c));
    assert(seq![c].drop_first() =~= Seq::<char>::empty());
    vstd::utf8::char_is_scalar(c);
    assert(vstd::utf8::encode_utf8(Seq::<char>::empty()) =~= Seq::<u8>::empty());
    assert(seq![c][0] == c);
    assert(vstd::utf8::encode_utf8(seq![c]) == vstd::utf8::encode_scalar(c as u32) + vstd::utf8::encode_utf8(Seq::<char>::empty()));
    assert(vstd::utf8::encode_utf8(seq![c]) =~= vstd::utf8::encode_scalar(c as u32));
}

/// Whether the UTF-8 encoding of `v` is longer than `max` bytes.
pub fn utf8_len_exceeds(v: &[char], max: usize) -> (r: bool)
    ensures
        r == (vstd::utf8::encode_utf8(v@).len() > max),
{
    let n = v.len();
    let mut acc: usize = 0;
    assert(v@.take(0) =~= Seq::<char>::empty());
    for i in 0..n
        invariant
            n == v@.len(),
            acc == vstd::utf8::encode_utf8(v@.take(i as int)).len(),
            acc <= max,
    {
        let u = v[i] as u32;
        let w: usize = if u <= 0x7F {
            1
        } else if u <= 0x7FF {
            2
        } else if u <= 0xFFFF {
            3
        } else {
            4
        };
        proof {
            assert(v@.take(i + 1) =~= v@.take(i as int).push(v@[i as int]));
            lemma_encode_utf8_push_len(v@.take(i as int), v@[i as int]);
        }
        if w > max - acc {
            proof {
                lemma_encode_utf8_concat(v@.take(i + 1), v@.skip(i + 1));
                assert(v@.take(i + 1) + v@.skip(i + 1) =~= v@);
            }
            return true;
        }
        acc = acc + w;
    }
    assert(v@.take(n as int) =~= v@);
    false
}

} // verus!
