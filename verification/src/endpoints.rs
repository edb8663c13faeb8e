//! Provider endpoints and the model list a provider returns.
use vstd::prelude::*;

use crate::text::{
    append_chars, chars_of, ends_with_chars, opt_view, string_of, string_views, trim_end,
    trim_end_chars,
};

verus! {

/// `base` without trailing slashes, followed by `suffix` unless it already
/// ends with it.
pub open spec fn spec_endpoint(base: Seq<char>, suffix: Seq<char>) -> Seq<char> {
    let t = trim_end(base, Some('/'));
    if suffix.len() <= t.len() && t.skip(t.len() - suffix.len()) == suffix {
        t
    } else {
        t + suffix
    }
}

fn endpoint(base_url: &str, suffix: &[char]) -> (r: String)
    ensures
        r@ == spec_endpoint(base_url@, suffix@),
{
    let v = chars_of(base_url);
    let mut t = trim_end_chars(v.as_slice(), Some('/'));
    if !ends_with_chars(t.as_slice(), suffix) {
        append_chars(&mut t, suffix);
    }
    string_of(t.as_slice())
}

/// The path of the model list.
pub open spec fn models_suffix() -> Seq<char> {
    seq!['/', 'm', 'o', 'd', 'e', 'l', 's']
}

/// The path of chat completions.
pub open spec fn chat_suffix() -> Seq<char> {
    seq!['/', 'c', 'h', 'a', 't', '/', 'c', 'o', 'm', 'p', 'l', 'e', 't', 'i', 'o', 'n', 's']
}

/// The model-list URL of a provider base URL: trailing slashes dropped and
/// `/models` appended unless already there.
pub fn models_endpoint(base_url: &str) -> (r: String)
    ensures
        r@ == spec_endpoint(base_url@, models_suffix()),
{
    let suffix = vec!['/', 'm', 'o', 'd', 'e', 'l', 's'];
    assert(suffix@ =~= models_suffix());
    endpoint(base_url, suffix.as_slice())
}

/// The chat-completions URL of a provider base URL: trailing slashes
/// dropped and `/chat/completions` appended unless already there.
pub fn chat_endpoint(base_url: &str) -> (r: String)
    ensures
        r@ == spec_endpoint(base_url@, chat_suffix()),
{
    let suffix = vec![
        '/',
        'c',
        'h',
        'a',
        't',
        '/',
        'c',
        'o',
        'm',
        'p',
        'l',
        'e',
        't',
        'i',
        'o',
        'n',
        's',
    ];
    assert(suffix@ =~= chat_suffix());
    endpoint(base_url, suffix.as_slice())
}

proof fn lemma_trim_end_noop(s: Seq<char>)
    requires
        s.len() == 0 || s.last() != '/',
    ensures
        trim_end(s, Some('/')) == s,
{
    assert(s.subrange(0, s.len() as int) =~= s);
}

/// Building an endpoint is idempotent: an endpoint URL is its own endpoint.
pub proof fn lemma_endpoint_idempotent(base: Seq<char>, suffix: Seq<char>)
    requires
        suffix.len() > 0,
        suffix.last() != '/',
    ensures
        spec_endpoint(spec_endpoint(base, suffix), suffix) == spec_endpoint(base, suffix),
{
    let t = trim_end(base, Some('/'));
    crate::text::lemma_tail_start_bounds(base, 0, base.len() as int, Some('/'));
    let e = spec_endpoint(base, suffix);
    if suffix.len() <= t.len() && t.skip(t.len() - suffix.len()) == suffix {
        lemma_trim_end_noop(t);
    } else {
        assert((t + suffix).last() == suffix.last());
        lemma_trim_end_noop(t + suffix);
        assert((t + suffix).skip((t + suffix).len() - suffix.len()) =~= suffix);
    }
}

/// The model-list and chat-completions URLs are their own endpoints.
pub proof fn lemma_endpoints_idempotent(base: Seq<char>)
    ensures
        spec_endpoint(spec_endpoint(base, models_suffix()), models_suffix()) == spec_endpoint(
            base,
            models_suffix(),
        ),
        spec_endpoint(spec_endpoint(base, chat_suffix()), chat_suffix()) == spec_endpoint(
            base,
            chat_suffix(),
        ),
{
    lemma_endpoint_idempotent(base, models_suffix());
    lemma_endpoint_idempotent(base, chat_suffix());
}

/// One item of a model list, as far as its names go: the string `id` (of an
/// OpenAI-style item), whether the item has a `name` field, the string
/// `name`, and the string `model` (of an Ollama-style item). A field that is
/// missing or not a string is `None`.
pub struct ModelEntry {
    pub id: Option<String>,
    pub has_name: bool,
    pub name: Option<String>,
    pub model: Option<String>,
}

/// A model-list response: the items of its `data` array and of its `models`
/// array (`None` where the field is missing or not an array).
pub struct ModelListing {
    pub data: Option<Vec<ModelEntry>>,
    pub models: Option<Vec<ModelEntry>>,
}

/// The present values, in order.
pub open spec fn somes(s: Seq<Option<Seq<char>>>) -> Seq<Seq<char>>
    decreases s.len(),
{
    if s.len() == 0 {
        seq![]
    } else {
        let r = somes(s.drop_last());
        match s.last() {
            Some(x) => r.push(x),
            None => r,
        }
    }
}

/// The name of an Ollama-style item: its `name` if it has that field, else
/// its `model`.
pub open spec fn entry_name(e: ModelEntry) -> Option<Seq<char>> {
    if e.has_name {
        opt_view(e.name)
    } else {
        opt_view(e.model)
    }
}

pub open spec fn listed_ids(entries: Seq<ModelEntry>) -> Seq<Seq<char>> {
    somes(entries.map_values(|e: ModelEntry| opt_view(e.id)))
}

pub open spec fn listed_names(entries: Seq<ModelEntry>) -> Seq<Seq<char>> {
    somes(entries.map_values(|e: ModelEntry| entry_name(e)))
}

/// The model names of a listing: the ids of its `data` items if there are
/// any, else the names of its `models` items.
pub open spec fn spec_model_names(listing: ModelListing) -> Seq<Seq<char>> {
    let ids = match listing.data {
        Some(d) => listed_ids(d@),
        None => seq![],
    };
    if ids.len() > 0 {
        ids
    } else {
        match listing.models {
            Some(m) => listed_names(m@),
            None => seq![],
        }
    }
}

fn copy_opt(o: &Option<String>) -> (r: Option<String>)
    ensures
        opt_view(r) == opt_view(*o),
{
    match o {
        Some(s) => Some(s.clone()),
        None => None,
    }
}

fn collect_names(entries: &Vec<ModelEntry>, by_id: bool) -> (r: Vec<String>)
    ensures
        by_id ==> string_views(r@) == listed_ids(entries@),
        !by_id ==> string_views(r@) == listed_names(entries@),
{
    let mut r: Vec<String> = Vec::new();
    let n = entries.len();
    let ghost f = |e: ModelEntry| opt_view(e.id);
    let ghost g = |e: ModelEntry| entry_name(e);
    assert(entries@.take(0).map_values(f) =~= Seq::<Option<Seq<char>>>::empty());
    assert(entries@.take(0).map_values(g) =~= Seq::<Option<Seq<char>>>::empty());
    assert(string_views(r@) =~= Seq::<Seq<char>>::empty());
    for i in 0..n
        invariant
            n == entries@.len(),
            f == (|e: ModelEntry| opt_view(e.id)),
            g == (|e: ModelEntry| entry_name(e)),
            by_id ==> string_views(r@) == somes(entries@.take(i as int).map_values(f)),
            !by_id ==> string_views(r@) == somes(entries@.take(i as int).map_values(g)),
    {
        let e = &entries[i];
        let value = if by_id {
            copy_opt(&e.id)
        } else if e.has_name {
            copy_opt(&e.name)
        } else {
            copy_opt(&e.model)
        };
        assert(entries@.take(i + 1).map_values(f) =~= entries@.take(i as int).map_values(f).push(
            f(entries@[i as int]),
        ));
        assert(entries@.take(i + 1).map_values(g) =~= entries@.take(i as int).map_values(g).push(
            g(entries@[i as int]),
        ));
        proof {
            let sf = entries@.take(i as int).map_values(f).push(f(entries@[i as int]));
            let sg = entries@.take(i as int).map_values(g).push(g(entries@[i as int]));
            assert(sf.drop_last() =~= entries@.take(i as int).map_values(f));
            assert(sg.drop_last() =~= entries@.take(i as int).map_values(g));
            assert(sf.last() == f(entries@[i as int]));
            assert(sg.last() == g(entries@[i as int]));
            assert(by_id ==> opt_view(value) == f(entries@[i as int]));
            assert(!by_id ==> opt_view(value) == g(entries@[i as int]));
        }
        let ghost old_r = r@;
        match value {
            Some(s) => {
                r.push(s);
                assert(string_views(r@) =~= string_views(old_r).push(s@));
            },
            None => {},
        }
    }
    assert(entries@.take(n as int) =~= entries@);
    r
}

/// The model names a provider lists: the ids of OpenAI-style `data` items
/// when there are any, else the names of Ollama-style `models` items.
pub fn parse_model_names(listing: &ModelListing) -> (r: Vec<String>)
    ensures
        string_views(r@) == spec_model_names(*listing),
{
    let ids = match &listing.data {
        Some(d) => collect_names(d, true),
        None => {
            let v: Vec<String> = Vec::new();
            assert(string_views(v@) =~= Seq::<Seq<char>>::empty());
            v
        },
    };
    if ids.len() > 0 {
        return ids;
    }
    match &listing.models {
        Some(m) => collect_names(m, false),
        None => {
            let v: Vec<String> = Vec::new();
            assert(string_views(v@) =~= Seq::<Seq<char>>::empty());
            v
        },
    }
}

} // verus!
