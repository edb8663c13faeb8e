//! Splitting long text into chunks of bounded character length.
//!
//! Text is first cut at paragraph breaks, then line breaks, then sentence
//! ends, then spaces, but only where a piece is still too long; pieces that
//! remain too long are cut every `max` characters; the resulting atoms are
//! then packed greedily, left to right, into chunks of at most `max`
//! characters.
use vstd::prelude::*;
use vstd::seq_lib::lemma_flatten_concat;
use vstd::string::StrSliceExecFns;

use crate::text::{append_chars, copy_range, string_of, string_views};

verus! {

broadcast use Seq::lemma_flatten_push, Seq::lemma_flatten_singleton;

/// The character views of a sequence of character vectors.
pub open spec fn views(v: Seq<Vec<char>>) -> Seq<Seq<char>> {
    v.map_values(|x: Vec<char>| x@)
}

/// `sep` (non-empty) occurs in `s` at index `i`.
pub open spec fn matches_at(s: Seq<char>, sep: Seq<char>, i: int) -> bool {
    &&& 0 <= i
    &&& i + sep.len() <= s.len()
    &&& s.subrange(i, i + sep.len()) == sep
}

/// The leftmost occurrence of the non-empty `sep` in `s` at or after `i`.
pub open spec fn find_from(s: Seq<char>, sep: Seq<char>, i: int) -> Option<int>
    decreases s.len() - i,
{
    if sep.len() == 0 || i < 0 || i + sep.len() > s.len() {
        None
    } else if matches_at(s, sep, i) {
        Some(i)
    } else {
        find_from(s, sep, i + 1)
    }
}

/// The pieces of `s[pos..]` cut after each occurrence of `sep`, found left
/// to right without overlap; every piece but the last ends with its `sep`.
pub open spec fn split_pieces_from(s: Seq<char>, sep: Seq<char>, pos: int) -> Seq<Seq<char>>
    decreases s.len() - pos,
{
    match find_from(s, sep, pos) {
        Some(i) => if sep.len() > 0 && pos <= i && i + sep.len() <= s.len() {
            seq![s.subrange(pos, i) + sep] + split_pieces_from(s, sep, i + sep.len())
        } else {
            seq![s.subrange(pos, s.len() as int)]
        },
        None => seq![s.subrange(pos, s.len() as int)],
    }
}

/// `s.split(sep)` with the separator kept at the end of each piece but the
/// last.
pub open spec fn split_keep(s: Seq<char>, sep: Seq<char>) -> Seq<Seq<char>> {
    split_pieces_from(s, sep, 0)
}

/// A segment of at most `m` characters stays whole; a longer one is split at
/// `sep`.
pub open spec fn refine_step(seg: Seq<char>, sep: Seq<char>, m: nat) -> Seq<Seq<char>> {
    if seg.len() <= m {
        seq![seg]
    } else {
        split_keep(seg, sep)
    }
}

pub open spec fn refine(segs: Seq<Seq<char>>, sep: Seq<char>, m: nat) -> Seq<Seq<char>> {
    segs.flat_map(|seg: Seq<char>| refine_step(seg, sep, m))
}

/// The separators, tried in this order: paragraph break, line break, the
/// ends of sentences, and a space.
pub open spec fn separator(k: nat) -> Seq<char> {
    if k == 0 {
        seq!['\n', '\n']
    } else if k == 1 {
        seq!['\n']
    } else if k == 2 {
        seq!['.', ' ']
    } else if k == 3 {
        seq!['?', ' ']
    } else if k == 4 {
        seq!['!', ' ']
    } else {
        seq![' ']
    }
}

/// The number of separators.
pub open spec fn separator_count() -> nat {
    6
}

/// The separators are tried in this order, and only these: a paragraph
/// break `"\n\n"`, a line break `"\n"`, the sentence ends `". "`, `"? "` and
/// `"! "`, then a space `" "`.
pub proof fn lemma_separator_order()
    ensures
        separator_count() == 6,
        separator(0) == "\n\n"@,
        separator(1) == "\n"@,
        separator(2) == ". "@,
        separator(3) == "? "@,
        separator(4) == "! "@,
        separator(5) == " "@,
{
    reveal_strlit("\n\n");
    reveal_strlit("\n");
    reveal_strlit(". ");
    reveal_strlit("? ");
    reveal_strlit("! ");
    reveal_strlit(" ");
    assert(separator(0) =~= "\n\n"@);
    assert(separator(1) =~= "\n"@);
    assert(separator(2) =~= ". "@);
    assert(separator(3) =~= "? "@);
    assert(separator(4) =~= "! "@);
    assert(separator(5) =~= " "@);
}

/// The segments of `text` once the first `k` separators have been applied.
pub open spec fn segments_after(text: Seq<char>, m: nat, k: nat) -> Seq<Seq<char>>
    decreases k,
{
    if k == 0 {
        seq![text]
    } else {
        refine(segments_after(text, m, (k - 1) as nat), separator((k - 1) as nat), m)
    }
}

/// Cutting `s` character by character: whenever the piece being built holds
/// `m` or more characters, it is closed before the next character is added.
/// Yields the closed pieces and the piece still open.
pub open spec fn hard_split_state(s: Seq<char>, m: nat) -> (Seq<Seq<char>>, Seq<char>)
    decreases s.len(),
{
    if s.len() == 0 {
        (seq![], seq![])
    } else {
        let (chunks, cur) = hard_split_state(s.drop_last(), m);
        if cur.len() >= m {
            (chunks.push(cur), seq![s.last()])
        } else {
            (chunks, cur.push(s.last()))
        }
    }
}

/// The pieces of `s` cut every `m` characters (`hard_split_chars`).
pub open spec fn spec_hard_split(s: Seq<char>, m: nat) -> Seq<Seq<char>> {
    let (chunks, cur) = hard_split_state(s, m);
    if cur.len() > 0 {
        chunks.push(cur)
    } else {
        chunks
    }
}

pub open spec fn atom_step(seg: Seq<char>, m: nat) -> Seq<Seq<char>> {
    if seg.len() > m {
        spec_hard_split(seg, m)
    } else {
        seq![seg]
    }
}

/// The atoms of `text`: its final segments, with any still longer than `m`
/// cut every `m` characters.
pub open spec fn atoms(text: Seq<char>, m: nat) -> Seq<Seq<char>> {
    segments_after(text, m, separator_count()).flat_map(|seg: Seq<char>| atom_step(seg, m))
}

/// Greedy packing of atoms, left to right: an atom joins the open chunk if
/// the chunk stays within `m` characters; otherwise the open chunk (if
/// non-empty) is closed and the atom opens the next one.
pub open spec fn pack_state(atoms: Seq<Seq<char>>, m: nat) -> (Seq<Seq<char>>, Seq<char>)
    decreases atoms.len(),
{
    if atoms.len() == 0 {
        (seq![], seq![])
    } else {
        let (chunks, cur) = pack_state(atoms.drop_last(), m);
        let a = atoms.last();
        if cur.len() + a.len() <= m {
            (chunks, cur + a)
        } else {
            (
                if cur.len() > 0 {
                    chunks.push(cur)
                } else {
                    chunks
                },
                a,
            )
        }
    }
}

pub open spec fn pack(atoms: Seq<Seq<char>>, m: nat) -> Seq<Seq<char>> {
    let (chunks, cur) = pack_state(atoms, m);
    if cur.len() > 0 {
        chunks.push(cur)
    } else {
        chunks
    }
}

/// A chunk size of zero is taken as one.
pub open spec fn effective_max(max: nat) -> nat {
    if max == 0 {
        1
    } else {
        max
    }
}

/// The chunks of `text` for chunk size `max` (`split_text_into_chunks`).
pub open spec fn spec_chunks(text: Seq<char>, max: nat) -> Seq<Seq<char>> {
    if text.len() == 0 {
        seq![]
    } else {
        pack(atoms(text, effective_max(max)), effective_max(max))
    }
}

// ---------------------------------------------------------------------------
// Lemmas
// ---------------------------------------------------------------------------
pub proof fn lemma_flat_map_push<A, B>(s: Seq<A>, x: A, f: spec_fn(A) -> Seq<B>)
    ensures
        s.push(x).flat_map(f) == s.flat_map(f) + f(x),
{
    assert(s.push(x).map_values(f) =~= s.map_values(f).push(f(x)));
}

pub proof fn lemma_flat_map_take_succ<A, B>(s: Seq<A>, i: int, f: spec_fn(A) -> Seq<B>)
    requires
        0 <= i < s.len(),
    ensures
        s.take(i + 1).flat_map(f) == s.take(i).flat_map(f) + f(s[i]),
{
    assert(s.take(i + 1) =~= s.take(i).push(s[i]));
    lemma_flat_map_push(s.take(i), s[i], f);
}

pub proof fn lemma_views_push(v: Seq<Vec<char>>, x: Vec<char>)
    ensures
        views(v.push(x)) == views(v).push(x@),
{
    assert(views(v.push(x)) =~= views(v).push(x@));
}

pub proof fn lemma_views_concat(v: Seq<Vec<char>>, w: Seq<Vec<char>>)
    ensures
        views(v + w) == views(v) + views(w),
{
    assert(views(v + w) =~= views(v) + views(w));
}

pub proof fn lemma_find_from(s: Seq<char>, sep: Seq<char>, i: int)
    ensures
        find_from(s, sep, i) matches Some(j) ==> {
            &&& sep.len() > 0
            &&& i <= j
            &&& j + sep.len() <= s.len()
            &&& matches_at(s, sep, j)
        },
    decreases s.len() - i,
{
    if sep.len() == 0 || i < 0 || i + sep.len() > s.len() {
    } else if matches_at(s, sep, i) {
    } else {
        lemma_find_from(s, sep, i + 1);
    }
}

/// The pieces of a split join back into what was split.
pub proof fn lemma_split_pieces_flatten(s: Seq<char>, sep: Seq<char>, pos: int)
    requires
        0 <= pos <= s.len(),
    ensures
        split_pieces_from(s, sep, pos).flatten() == s.subrange(pos, s.len() as int),
    decreases s.len() - pos,
{
    lemma_find_from(s, sep, pos);
    match find_from(s, sep, pos) {
        Some(i) => {
            let rest = split_pieces_from(s, sep, i + sep.len());
            lemma_split_pieces_flatten(s, sep, i + sep.len());
            let first = s.subrange(pos, i) + sep;
            lemma_flatten_concat(seq![first], rest);
            assert(seq![first].flatten() == first);
            assert(first + s.subrange(i + sep.len(), s.len() as int) =~= s.subrange(
                pos,
                s.len() as int,
            ));
        },
        None => {
            assert(seq![s.subrange(pos, s.len() as int)].flatten() == s.subrange(
                pos,
                s.len() as int,
            ));
        },
    }
}

/// Flat-mapping with a step whose pieces join back into its argument keeps
/// the joined text unchanged.
pub proof fn lemma_flat_map_flatten(
    segs: Seq<Seq<char>>,
    f: spec_fn(Seq<char>) -> Seq<Seq<char>>,
)
    requires
        forall|x: Seq<char>| #[trigger] f(x).flatten() == x,
    ensures
        segs.flat_map(f).flatten() == segs.flatten(),
    decreases segs.len(),
{
    if segs.len() > 0 {
        let init = segs.drop_last();
        lemma_flat_map_flatten(init, f);
        assert(segs =~= init.push(segs.last()));
        lemma_flat_map_push(init, segs.last(), f);
        lemma_flatten_concat(init.flat_map(f), f(segs.last()));
        assert(f(segs.last()).flatten() == segs.last());
    } else {
        assert(segs.map_values(f) =~= Seq::<Seq<Seq<char>>>::empty());
    }
}

pub proof fn lemma_refine_step_flatten(seg: Seq<char>, sep: Seq<char>, m: nat)
    ensures
        refine_step(seg, sep, m).flatten() == seg,
{
    if seg.len() <= m {
        assert(seq![seg].flatten() == seg);
    } else {
        lemma_split_pieces_flatten(seg, sep, 0);
        assert(seg.subrange(0, seg.len() as int) =~= seg);
    }
}

pub proof fn lemma_segments_flatten(text: Seq<char>, m: nat, k: nat)
    ensures
        segments_after(text, m, k).flatten() == text,
    decreases k,
{
    if k == 0 {
        assert(seq![text].flatten() == text);
    } else {
        lemma_segments_flatten(text, m, (k - 1) as nat);
        let sep = separator((k - 1) as nat);
        let f = |seg: Seq<char>| refine_step(seg, sep, m);
        assert forall|x: Seq<char>| #[trigger] f(x).flatten() == x by {
            lemma_refine_step_flatten(x, sep, m);
        }
        lemma_flat_map_flatten(segments_after(text, m, (k - 1) as nat), f);
    }
}

pub proof fn lemma_hard_split_state(s: Seq<char>, m: nat)
    ensures
        hard_split_state(s, m).0.flatten() + hard_split_state(s, m).1 == s,
        m > 0 ==> hard_split_state(s, m).1.len() <= m,
        m > 0 ==> (forall|i: int|
            0 <= i < hard_split_state(s, m).0.len() ==> (#[trigger] hard_split_state(
                s,
                m,
            ).0[i]).len() == m),
        s.len() > 0 ==> hard_split_state(s, m).1.len() > 0,
    decreases s.len(),
{
    if s.len() > 0 {
        lemma_hard_split_state(s.drop_last(), m);
        let (chunks, cur) = hard_split_state(s.drop_last(), m);
        assert(s =~= s.drop_last().push(s.last()));
        if cur.len() >= m {
            assert(chunks.push(cur).flatten() == chunks.flatten() + cur);
            assert(chunks.flatten() + cur + seq![s.last()] =~= s);
        } else {
            assert(chunks.flatten() + cur.push(s.last()) =~= s);
        }
    }
}

/// The pieces of a hard split join back into the text; for `m > 0` each has
/// between one and `m` characters.
pub proof fn lemma_hard_split(s: Seq<char>, m: nat)
    ensures
        spec_hard_split(s, m).flatten() == s,
        m > 0 ==> forall|i: int|
            0 <= i < spec_hard_split(s, m).len() ==> 0 < (#[trigger] spec_hard_split(s, m)[i]).len()
                <= m,
{
    lemma_hard_split_state(s, m);
    let (chunks, cur) = hard_split_state(s, m);
    if cur.len() > 0 {
        assert(chunks.push(cur).flatten() == chunks.flatten() + cur);
    } else {
        assert(chunks.flatten() + cur =~= chunks.flatten());
    }
}

pub proof fn lemma_atom_step(seg: Seq<char>, m: nat)
    requires
        m > 0,
    ensures
        atom_step(seg, m).flatten() == seg,
        forall|i: int|
            0 <= i < atom_step(seg, m).len() ==> (#[trigger] atom_step(seg, m)[i]).len() <= m,
{
    if seg.len() > m {
        lemma_hard_split(seg, m);
    } else {
        assert(seq![seg].flatten() == seg);
    }
}

/// Every piece of a flat-map is a piece of the step applied to one element.
pub proof fn lemma_flat_map_bounded(
    segs: Seq<Seq<char>>,
    f: spec_fn(Seq<char>) -> Seq<Seq<char>>,
    m: nat,
)
    requires
        forall|x: Seq<char>, i: int| 0 <= i < f(x).len() ==> (#[trigger] f(x)[i]).len() <= m,
    ensures
        forall|i: int|
            0 <= i < segs.flat_map(f).len() ==> (#[trigger] segs.flat_map(f)[i]).len() <= m,
    decreases segs.len(),
{
    if segs.len() > 0 {
        let init = segs.drop_last();
        lemma_flat_map_bounded(init, f, m);
        assert(segs =~= init.push(segs.last()));
        lemma_flat_map_push(init, segs.last(), f);
        let a = init.flat_map(f);
        let b = f(segs.last());
        assert forall|i: int| 0 <= i < (a + b).len() implies (#[trigger] (a + b)[i]).len()
            <= m by {
            if i >= a.len() {
                assert((a + b)[i] == b[i - a.len()]);
            }
        }
    } else {
        assert(segs.map_values(f) =~= Seq::<Seq<Seq<char>>>::empty());
    }
}

pub proof fn lemma_atoms(text: Seq<char>, m: nat)
    requires
        m > 0,
    ensures
        atoms(text, m).flatten() == text,
        forall|i: int| 0 <= i < atoms(text, m).len() ==> (#[trigger] atoms(text, m)[i]).len() <= m,
{
    let f = |seg: Seq<char>| atom_step(seg, m);
    assert forall|x: Seq<char>| #[trigger] f(x).flatten() == x by {
        lemma_atom_step(x, m);
    }
    assert forall|x: Seq<char>, i: int| 0 <= i < f(x).len() implies (#[trigger] f(
        x,
    )[i]).len() <= m by {
        lemma_atom_step(x, m);
    }
    lemma_segments_flatten(text, m, separator_count());
    lemma_flat_map_flatten(segments_after(text, m, separator_count()), f);
    lemma_flat_map_bounded(segments_after(text, m, separator_count()), f, m);
}

pub proof fn lemma_pack_state(atoms: Seq<Seq<char>>, m: nat)
    requires
        forall|i: int| 0 <= i < atoms.len() ==> (#[trigger] atoms[i]).len() <= m,
    ensures
        pack_state(atoms, m).0.flatten() + pack_state(atoms, m).1 == atoms.flatten(),
        pack_state(atoms, m).1.len() <= m,
        forall|i: int|
            0 <= i < pack_state(atoms, m).0.len() ==> 0 < (#[trigger] pack_state(
                atoms,
                m,
            ).0[i]).len() <= m,
    decreases atoms.len(),
{
    if atoms.len() > 0 {
        let init = atoms.drop_last();
        assert forall|i: int| 0 <= i < init.len() implies (#[trigger] init[i]).len() <= m by {
            assert(init[i] == atoms[i]);
        }
        lemma_pack_state(init, m);
        let (chunks, cur) = pack_state(init, m);
        let a = atoms.last();
        assert(atoms =~= init.push(a));
        assert(atoms.flatten() == init.flatten() + a);
        assert(a == atoms[atoms.len() - 1]);
        if cur.len() + a.len() <= m {
            assert(chunks.flatten() + (cur + a) =~= chunks.flatten() + cur + a);
        } else if cur.len() > 0 {
            assert(chunks.push(cur).flatten() == chunks.flatten() + cur);
            assert(chunks.flatten() + cur + a =~= chunks.flatten() + (cur + a));
        } else {
            assert(chunks.flatten() + a =~= chunks.flatten() + cur + a);
        }
    } else {
        assert(Seq::<Seq<char>>::empty().flatten() + Seq::<char>::empty() =~= atoms.flatten());
    }
}

pub proof fn lemma_pack(atoms: Seq<Seq<char>>, m: nat)
    requires
        forall|i: int| 0 <= i < atoms.len() ==> (#[trigger] atoms[i]).len() <= m,
    ensures
        pack(atoms, m).flatten() == atoms.flatten(),
        forall|i: int| 0 <= i < pack(atoms, m).len() ==> 0 < (#[trigger] pack(atoms, m)[i]).len() <= m,
{
    lemma_pack_state(atoms, m);
    let (chunks, cur) = pack_state(atoms, m);
    if cur.len() > 0 {
        assert(chunks.push(cur).flatten() == chunks.flatten() + cur);
    } else {
        assert(chunks.flatten() + cur =~= chunks.flatten());
    }
}

// ---------------------------------------------------------------------------
// Laws
// ---------------------------------------------------------------------------
/// Chunking loses nothing: the chunks, joined in order, are the text.
pub proof fn lemma_chunks_reassemble(text: Seq<char>, max: nat)
    ensures
        spec_chunks(text, max).flatten() == text,
{
    if text.len() > 0 {
        let m = effective_max(max);
        lemma_atoms(text, m);
        lemma_pack(atoms(text, m), m);
    }
}

/// Every chunk holds at least one and at most `max` characters (at most one
/// when `max` is zero).
pub proof fn lemma_chunks_bounded(text: Seq<char>, max: nat)
    ensures
        forall|i: int|
            0 <= i < spec_chunks(text, max).len() ==> 0 < (#[trigger] spec_chunks(text, max)[i]).len()
                <= effective_max(max),
{
    if text.len() > 0 {
        let m = effective_max(max);
        lemma_atoms(text, m);
        lemma_pack(atoms(text, m), m);
    }
}

/// There are no chunks exactly when the text is empty.
pub proof fn lemma_chunks_empty(text: Seq<char>, max: nat)
    ensures
        (spec_chunks(text, max).len() == 0) == (text.len() == 0),
{
    lemma_chunks_reassemble(text, max);
    if spec_chunks(text, max).len() == 0 {
        assert(spec_chunks(text, max).flatten() =~= Seq::<char>::empty());
    }
}

/// Text that fits in one chunk is returned as that one chunk.
pub proof fn lemma_short_text_single_chunk(text: Seq<char>, max: nat)
    requires
        0 < text.len() <= effective_max(max),
    ensures
        spec_chunks(text, max) == seq![text],
{
    let m = effective_max(max);
    lemma_segments_single(text, m, separator_count());
    let f = |seg: Seq<char>| atom_step(seg, m);
    lemma_flat_map_push(Seq::<Seq<char>>::empty(), text, f);
    assert(seq![text] =~= Seq::<Seq<char>>::empty().push(text));
    assert(Seq::<Seq<char>>::empty().map_values(f) =~= Seq::<Seq<Seq<char>>>::empty());
    assert(atoms(text, m) =~= seq![text]);
    assert(seq![text].drop_last() =~= Seq::<Seq<char>>::empty());
    let single = seq![text];
    assert(single.drop_last() =~= Seq::<Seq<char>>::empty());
    assert(single.last() == text);
    let (c0, cur0) = pack_state(single.drop_last(), m);
    assert(c0 == Seq::<Seq<char>>::empty() && cur0 == Seq::<char>::empty());
    assert(cur0 + text =~= text);
    assert(pack_state(single, m) == (c0, cur0 + text));
}

pub proof fn lemma_segments_single(text: Seq<char>, m: nat, k: nat)
    requires
        text.len() <= m,
    ensures
        segments_after(text, m, k) == seq![text],
    decreases k,
{
    if k > 0 {
        lemma_segments_single(text, m, (k - 1) as nat);
        let sep = separator((k - 1) as nat);
        let f = |seg: Seq<char>| refine_step(seg, sep, m);
        lemma_flat_map_push(Seq::<Seq<char>>::empty(), text, f);
        assert(seq![text] =~= Seq::<Seq<char>>::empty().push(text));
        assert(Seq::<Seq<char>>::empty().map_values(f) =~= Seq::<Seq<Seq<char>>>::empty());
        assert(refine(seq![text], sep, m) =~= seq![text]);
    }
}

// ---------------------------------------------------------------------------
// Executable code
// ---------------------------------------------------------------------------
fn matches_at_exec(s: &[char], sep: &[char], i: usize) -> (r: bool)
    requires
        i + sep@.len() <= s@.len(),
    ensures
        r == matches_at(s@, sep@, i as int),
{
    let n = sep.len();
    let mut k: usize = 0;
    while k < n
        invariant
            n == sep@.len(),
            i + n <= s@.len(),
            s@.len() == s.len(),
            0 <= k <= n,
            forall|j: int| 0 <= j < k ==> s@[i + j] == sep@[j],
        decreases n - k,
    {
        if s[i + k] != sep[k] {
            assert(s@.subrange(i as int, i + n)[k as int] != sep@[k as int]);
            return false;
        }
        k = k + 1;
    }
    assert(s@.subrange(i as int, i + n) =~= sep@);
    true
}

fn find_from_exec(s: &[char], sep: &[char], from: usize) -> (r: Option<usize>)
    requires
        sep@.len() > 0,
    ensures
        match r {
            Some(i) => find_from(s@, sep@, from as int) == Some(i as int),
            None => find_from(s@, sep@, from as int) is None,
        },
{
    if sep.len() > s.len() {
        return None;
    }
    let last = s.len() - sep.len();
    let mut i = from;
    while i <= last
        invariant
            last + sep@.len() == s@.len(),
            s@.len() == s.len(),
            from <= i,
            find_from(s@, sep@, from as int) == find_from(s@, sep@, i as int),
            sep@.len() > 0,
        decreases last + 1 - i,
    {
        if matches_at_exec(s, sep, i) {
            return Some(i);
        }
        i = i + 1;
    }
    None
}

fn split_keep_exec(s: &[char], sep: &[char]) -> (r: Vec<Vec<char>>)
    requires
        sep@.len() > 0,
    ensures
        views(r@) == split_keep(s@, sep@),
{
    let mut pieces: Vec<Vec<char>> = Vec::new();
    let mut pos: usize = 0;
    assert(views(pieces@) =~= Seq::<Seq<char>>::empty());
    loop
        invariant_except_break
            pos <= s@.len(),
            s@.len() == s.len(),
            sep@.len() > 0,
            views(pieces@) + split_pieces_from(s@, sep@, pos as int) == split_keep(s@, sep@),
        ensures
            views(pieces@) == split_keep(s@, sep@),
        decreases s@.len() - pos,
    {
        proof {
            lemma_find_from(s@, sep@, pos as int);
        }
        match find_from_exec(s, sep, pos) {
            Some(i) => {
                let mut piece = copy_range(s, pos, i);
                append_chars(&mut piece, sep);
                let ghost old_pieces = pieces@;
                pieces.push(piece);
                proof {
                    lemma_views_push(old_pieces, piece);
                    let rest = split_pieces_from(s@, sep@, i + sep@.len());
                    assert(views(old_pieces) + (seq![piece@] + rest) =~= views(old_pieces).push(
                        piece@,
                    ) + rest);
                }
                pos = i + sep.len();
            },
            None => {
                let piece = copy_range(s, pos, s.len());
                let ghost old_pieces = pieces@;
                pieces.push(piece);
                proof {
                    lemma_views_push(old_pieces, piece);
                }
                break ;
            },
        }
    }
    pieces
}

fn refine_exec(segs: &Vec<Vec<char>>, sep: &[char], m: usize) -> (r: Vec<Vec<char>>)
    requires
        sep@.len() > 0,
    ensures
        views(r@) == refine(views(segs@), sep@, m as nat),
{
    let mut out: Vec<Vec<char>> = Vec::new();
    let n = segs.len();
    let ghost f = |seg: Seq<char>| refine_step(seg, sep@, m as nat);
    assert(views(segs@).take(0).map_values(f) =~= Seq::<Seq<Seq<char>>>::empty());
    assert(views(out@) =~= Seq::<Seq<char>>::empty());
    for i in 0..n
        invariant
            n == segs@.len(),
            sep@.len() > 0,
            views(out@) == views(segs@).take(i as int).flat_map(f),
            f == (|seg: Seq<char>| refine_step(seg, sep@, m as nat)),
    {
        let seg = &segs[i];
        proof {
            lemma_flat_map_take_succ(views(segs@), i as int, f);
        }
        let ghost old_out = out@;
        if seg.len() <= m {
            let copy = copy_range(seg.as_slice(), 0, seg.len());
            assert(copy@ =~= seg@);
            out.push(copy);
            proof {
                lemma_views_push(old_out, copy);
                assert(views(old_out).push(copy@) =~= views(old_out) + seq![copy@]);
            }
        } else {
            let mut parts = split_keep_exec(seg.as_slice(), sep);
            let ghost old_parts = parts@;
            out.append(&mut parts);
            proof {
                lemma_views_concat(old_out, old_parts);
            }
        }
    }
    assert(views(segs@).take(n as int) =~= views(segs@));
    out
}

fn separator_chars(k: usize) -> (r: Vec<char>)
    ensures
        r@ == separator(k as nat),
        r@.len() > 0,
{
    let r = if k == 0 {
        vec!['\n', '\n']
    } else if k == 1 {
        vec!['\n']
    } else if k == 2 {
        vec!['.', ' ']
    } else if k == 3 {
        vec!['?', ' ']
    } else if k == 4 {
        vec!['!', ' ']
    } else {
        vec![' ']
    };
    assert(r@ =~= separator(k as nat));
    r
}

fn hard_split_exec(s: &[char], m: usize) -> (r: Vec<Vec<char>>)
    ensures
        views(r@) == spec_hard_split(s@, m as nat),
{
    let mut chunks: Vec<Vec<char>> = Vec::new();
    let mut cur: Vec<char> = Vec::new();
    let n = s.len();
    assert(s@.take(0) =~= Seq::<char>::empty());
    assert(views(chunks@) =~= Seq::<Seq<char>>::empty());
    assert(cur@ =~= Seq::<char>::empty());
    for i in 0..n
        invariant
            n == s@.len(),
            views(chunks@) == hard_split_state(s@.take(i as int), m as nat).0,
            cur@ == hard_split_state(s@.take(i as int), m as nat).1,
    {
        assert(s@.take(i + 1).drop_last() =~= s@.take(i as int));
        assert(s@.take(i + 1).last() == s@[i as int]);
        if cur.len() >= m {
            let ghost old_chunks = chunks@;
            let full = cur;
            chunks.push(full);
            proof {
                lemma_views_push(old_chunks, full);
            }
            cur = Vec::new();
            cur.push(s[i]);
            assert(cur@ =~= seq![s@[i as int]]);
        } else {
            cur.push(s[i]);
        }
    }
    assert(s@.take(n as int) =~= s@);
    if cur.len() > 0 {
        let ghost old_chunks = chunks@;
        chunks.push(cur);
        proof {
            lemma_views_push(old_chunks, cur);
        }
    }
    chunks
}

fn atoms_exec(segs: &Vec<Vec<char>>, m: usize) -> (r: Vec<Vec<char>>)
    ensures
        views(r@) == views(segs@).flat_map(|seg: Seq<char>| atom_step(seg, m as nat)),
{
    let mut out: Vec<Vec<char>> = Vec::new();
    let n = segs.len();
    let ghost f = |seg: Seq<char>| atom_step(seg, m as nat);
    assert(views(segs@).take(0).map_values(f) =~= Seq::<Seq<Seq<char>>>::empty());
    assert(views(out@) =~= Seq::<Seq<char>>::empty());
    for i in 0..n
        invariant
            n == segs@.len(),
            views(out@) == views(segs@).take(i as int).flat_map(f),
            f == (|seg: Seq<char>| atom_step(seg, m as nat)),
    {
        let seg = &segs[i];
        proof {
            lemma_flat_map_take_succ(views(segs@), i as int, f);
        }
        let ghost old_out = out@;
        if seg.len() > m {
            let mut parts = hard_split_exec(seg.as_slice(), m);
            let ghost old_parts = parts@;
            out.append(&mut parts);
            proof {
                lemma_views_concat(old_out, old_parts);
            }
        } else {
            let copy = copy_range(seg.as_slice(), 0, seg.len());
            assert(copy@ =~= seg@);
            out.push(copy);
            proof {
                lemma_views_push(old_out, copy);
                assert(views(old_out).push(copy@) =~= views(old_out) + seq![copy@]);
            }
        }
    }
    assert(views(segs@).take(n as int) =~= views(segs@));
    out
}

fn pack_exec(atoms: &Vec<Vec<char>>, m: usize) -> (r: Vec<Vec<char>>)
    ensures
        views(r@) == pack(views(atoms@), m as nat),
{
    let mut chunks: Vec<Vec<char>> = Vec::new();
    let mut cur: Vec<char> = Vec::new();
    let n = atoms.len();
    let ghost av = views(atoms@);
    assert(av.take(0) =~= Seq::<Seq<char>>::empty());
    assert(views(chunks@) =~= Seq::<Seq<char>>::empty());
    assert(cur@ =~= Seq::<char>::empty());
    for i in 0..n
        invariant
            n == atoms@.len(),
            av == views(atoms@),
            views(chunks@) == pack_state(av.take(i as int), m as nat).0,
            cur@ == pack_state(av.take(i as int), m as nat).1,
    {
        let atom = &atoms[i];
        assert(av.take(i + 1).drop_last() =~= av.take(i as int));
        assert(av.take(i + 1).last() == atom@);
        if cur.len() <= m && atom.len() <= m - cur.len() {
            append_chars(&mut cur, atom.as_slice());
        } else {
            if cur.len() > 0 {
                let ghost old_chunks = chunks@;
                let full = cur;
                chunks.push(full);
                proof {
                    lemma_views_push(old_chunks, full);
                }
            }
            cur = copy_range(atom.as_slice(), 0, atom.len());
            assert(cur@ =~= atom@);
        }
    }
    assert(av.take(n as int) =~= av);
    if cur.len() > 0 {
        let ghost old_chunks = chunks@;
        chunks.push(cur);
        proof {
            lemma_views_push(old_chunks, cur);
        }
    }
    chunks
}

fn strings_of(v: &Vec<Vec<char>>) -> (r: Vec<String>)
    ensures
        string_views(r@) == views(v@),
{
    let mut r: Vec<String> = Vec::new();
    let n = v.len();
    for i in 0..n
        invariant
            n == v@.len(),
            string_views(r@) == views(v@).take(i as int),
    {
        let s = string_of(v[i].as_slice());
        assert(s@ == views(v@)[i as int]);
        let ghost old_r = r@;
        r.push(s);
        assert(string_views(r@) =~= string_views(old_r).push(s@));
        assert(views(v@).take(i + 1) =~= views(v@).take(i as int).push(views(v@)[i as int]));
    }
    assert(views(v@).take(n as int) =~= views(v@));
    r
}

/// The number of characters (not bytes) in `text`.
pub fn char_count(text: &str) -> (n: usize)
    ensures
        n == text@.len(),
{
    text.unicode_len()
}

/// `text` cut every `max_chunk_size` characters, the last piece holding the
/// rest. (With a size of zero, the first piece is empty and every further
/// piece holds one character.)
pub fn hard_split_chars(text: &str, max_chunk_size: usize) -> (r: Vec<String>)
    ensures
        string_views(r@) == spec_hard_split(text@, max_chunk_size as nat),
{
    let v = crate::text::chars_of(text);
    let pieces = hard_split_exec(v.as_slice(), max_chunk_size);
    strings_of(&pieces)
}

/// Splits `text` into chunks of at most `max_chunk_size` characters (at
/// least one), preferring to cut at paragraph breaks, then line breaks, then
/// sentence ends, then spaces.
pub fn split_text_into_chunks(text: &str, max_chunk_size: usize) -> (r: Vec<String>)
    ensures
        string_views(r@) == spec_chunks(text@, max_chunk_size as nat),
{
    let v = crate::text::chars_of(text);
    if v.len() == 0 {
        let r: Vec<String> = Vec::new();
        assert(string_views(r@) =~= Seq::<Seq<char>>::empty());
        return r;
    }
    let m: usize = if max_chunk_size == 0 {
        1
    } else {
        max_chunk_size
    };
    let mut segs: Vec<Vec<char>> = Vec::new();
    segs.push(v);
    assert(views(segs@) =~= seq![text@]);
    for k in 0..6
        invariant
            views(segs@) == segments_after(text@, m as nat, k as nat),
    {
        let sep = separator_chars(k);
        segs = refine_exec(&segs, sep.as_slice(), m);
    }
    let atom_list = atoms_exec(&segs, m);
    let chunks = pack_exec(&atom_list, m);
    strings_of(&chunks)
}

} // verus!
