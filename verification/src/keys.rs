//! API keys as users paste them, and the texts sent to the Windows
//! credential store.
use vstd::prelude::*;

use crate::text::{
    ascii_lower, chars_equal, chars_of, copy_range, decimal_chars, lower_seq,
    spec_decimal, spec_trim, string_of, to_ascii_lower, trim_chars,
};

verus! {

/// The authorization scheme some users paste in front of a key.
pub open spec fn bearer_prefix() -> Seq<char> {
    seq!['B', 'e', 'a', 'r', 'e', 'r', ' ']
}

/// A pasted key with surrounding white space removed, an empty pair of
/// quotes taken as no key, and a leading `Bearer ` (in any ASCII case)
/// dropped along with the white space after it.
pub open spec fn spec_normalize_key(value: Seq<char>) -> Seq<char> {
    let t = spec_trim(value);
    if t == seq!['"', '"'] || t == seq!['\'', '\''] {
        seq![]
    } else if t.len() >= bearer_prefix().len() && lower_seq(t.take(7)) == lower_seq(
        bearer_prefix(),
    ) {
        spec_trim(t.skip(7))
    } else {
        t
    }
}

/// A normalized key has no white space at either end.
pub proof fn lemma_normalized_key_is_trimmed(value: Seq<char>)
    ensures
        spec_trim(spec_normalize_key(value)) == spec_normalize_key(value),
{
    let t = spec_trim(value);
    crate::text::lemma_trim_idempotent(value, None);
    if t == seq!['"', '"'] || t == seq!['\'', '\''] {
        assert(spec_trim(Seq::<char>::empty()) =~= Seq::<char>::empty());
    } else if t.len() >= bearer_prefix().len() && lower_seq(t.take(7)) == lower_seq(
        bearer_prefix(),
    ) {
        crate::text::lemma_trim_idempotent(t.skip(7), None);
    }
}

proof fn lemma_lower_bearer()
    ensures
        lower_seq(bearer_prefix()) == seq!['b', 'e', 'a', 'r', 'e', 'r', ' '],
{
    assert(ascii_lower('B') == 'b');
    assert(lower_seq(bearer_prefix()) =~= seq!['b', 'e', 'a', 'r', 'e', 'r', ' ']);
}

fn has_bearer_prefix(t: &Vec<char>) -> (r: bool)
    ensures
        r == (t@.len() >= 7 && lower_seq(t@.take(7)) == lower_seq(bearer_prefix())),
{
    proof {
        lemma_lower_bearer();
    }
    if t.len() < 7 {
        return false;
    }
    let lower_bearer = vec!['b', 'e', 'a', 'r', 'e', 'r', ' '];
    let mut i: usize = 0;
    while i < 7
        invariant
            t@.len() >= 7,
            lower_bearer@ == lower_seq(bearer_prefix()),
            0 <= i <= 7,
            forall|k: int| 0 <= k < i ==> ascii_lower(t@[k]) == lower_bearer@[k],
        decreases 7 - i,
    {
        if to_ascii_lower(t[i]) != lower_bearer[i] {
            assert(lower_seq(t@.take(7))[i as int] != lower_seq(bearer_prefix())[i as int]);
            return false;
        }
        i = i + 1;
    }
    assert(lower_seq(t@.take(7)) =~= lower_seq(bearer_prefix()));
    true
}

/// Cleans up a pasted API key: trims it, treats `""` and `''` as empty, and
/// strips a leading `Bearer ` (any ASCII case).
pub fn normalize_google_api_key(value: &str) -> (r: String)
    ensures
        r@ == spec_normalize_key(value@),
{
    let v = chars_of(value);
    let t = trim_chars(v.as_slice(), None);
    let dq = vec!['"', '"'];
    let sq = vec!['\'', '\''];
    assert(dq@ =~= seq!['"', '"']);
    assert(sq@ =~= seq!['\'', '\'']);
    if chars_equal(t.as_slice(), dq.as_slice()) || chars_equal(t.as_slice(), sq.as_slice()) {
        let r = String::new();
        assert(r@ =~= Seq::<char>::empty());
        return r;
    }
    if has_bearer_prefix(&t) {
        let rest = copy_range(t.as_slice(), 7, t.len());
        assert(rest@ =~= t@.skip(7));
        let inner = trim_chars(rest.as_slice(), None);
        string_of(inner.as_slice())
    } else {
        string_of(t.as_slice())
    }
}

/// The message for a failed credential-store call.
pub open spec fn spec_credential_error(action: Seq<char>, error_code: nat) -> Seq<char> {
    "Windows Credential Manager "@ + action + " failed with error code "@ + spec_decimal(
        error_code,
    ) + "."@
}

/// The message for a failed credential-store call: the action and the
/// Windows error code.
pub fn credential_error(action: &str, error_code: u32) -> (r: String)
    ensures
        r@ == spec_credential_error(action@, error_code as nat),
{
    let mut r = String::from_str("Windows Credential Manager ");
    r.append(action);
    r.append(" failed with error code ");
    let digits = decimal_chars(error_code as u64);
    let d = string_of(digits.as_slice());
    r.append(d.as_str());
    r.append(".");
    r
}

/// The UTF-16 code units of one character.
pub open spec fn utf16_units(c: char) -> Seq<u16> {
    let u = c as u32;
    if u < 0x10000 {
        seq![u as u16]
    } else {
        seq![(0xD800 + (u - 0x10000) / 0x400) as u16, (0xDC00 + (u - 0x10000) % 0x400) as u16]
    }
}

/// The UTF-16 encoding of a character sequence.
pub open spec fn spec_utf16(s: Seq<char>) -> Seq<u16> {
    s.flat_map(|c: char| utf16_units(c))
}

/// The UTF-16 encoding of `value`, ended by a zero unit, as Windows wide
/// string APIs take it.
pub fn to_wide(value: &str) -> (r: Vec<u16>)
    ensures
        r@ == spec_utf16(value@).push(0u16),
{
    let v = chars_of(value);
    let n = v.len();
    let mut r: Vec<u16> = Vec::new();
    let ghost f = |c: char| utf16_units(c);
    assert(v@.take(0).map_values(f) =~= Seq::<Seq<u16>>::empty());
    assert(r@ =~= v@.take(0).flat_map(f));
    for i in 0..n
        invariant
            n == v@.len(),
            r@ == v@.take(i as int).flat_map(f),
            f == (|c: char| utf16_units(c)),
    {
        let c = v[i];
        let u = c as u32;
        proof {
            crate::chunking::lemma_flat_map_take_succ(v@, i as int, f);
        }
        if u < 0x10000 {
            r.push(u as u16);
            assert(r@ =~= v@.take(i + 1).flat_map(f));
        } else {
            let w = u - 0x10000;
            r.push((0xD800 + w / 0x400) as u16);
            r.push((0xDC00 + w % 0x400) as u16);
            assert(r@ =~= v@.take(i + 1).flat_map(f));
        }
    }
    assert(v@.take(n as int) =~= v@);
    r.push(0u16);
    r
}

} // verus!
