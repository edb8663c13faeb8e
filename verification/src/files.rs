//! Output file names: sanitizing, the stem and extension of a plain file
//! name, the name of a translated file, and numbered names that avoid
//! overwriting earlier results.
use vstd::prelude::*;

use crate::text::{
    append_chars, chars_of, decimal_chars, lower_seq, spec_decimal, spec_trim,
    string_of, to_ascii_lower, trim_both, trim_chars,
};

verus! {

/// Characters kept in a file name: ASCII letters and digits, `.`, `-`, `_`.
pub open spec fn is_safe_char(c: char) -> bool {
    ||| 'a' <= c <= 'z'
    ||| 'A' <= c <= 'Z'
    ||| '0' <= c <= '9'
    ||| c == '.'
    ||| c == '-'
    ||| c == '_'
}

pub open spec fn safe_char(c: char) -> char {
    if is_safe_char(c) {
        c
    } else {
        '_'
    }
}

/// `name` with every other character replaced by `_`; a result made only of
/// underscores (or empty) becomes `output.txt`.
pub open spec fn spec_sanitize(name: Seq<char>) -> Seq<char> {
    let s = name.map_values(|c: char| safe_char(c));
    if trim_both(s, Some('_')).len() == 0 {
        "output.txt"@
    } else {
        s
    }
}

/// A name of one path component: no separator and no drive colon.
pub open spec fn is_plain_name(n: Seq<char>) -> bool {
    forall|i: int| 0 <= i < n.len() ==> #[trigger] n[i] != '/' && n[i] != '\\' && n[i] != ':'
}

/// Whether `name` is a plain file name (no `/`, `\` or `:`).
pub fn is_plain_file_name(name: &str) -> (r: bool)
    ensures
        r == is_plain_name(name@),
{
    let v = chars_of(name);
    let n = v.len();
    for i in 0..n
        invariant
            n == v@.len(),
            v@ == name@,
            forall|k: int| 0 <= k < i ==> #[trigger] v@[k] != '/' && v@[k] != '\\' && v@[k] != ':',
    {
        if v[i] == '/' || v[i] == '\\' || v[i] == ':' {
            assert(!(name@[i as int] != '/' && name@[i as int] != '\\' && name@[i as int] != ':'));
            return false;
        }
    }
    true
}

/// Makes `file_name` safe to write: keeps ASCII letters, digits, `.`, `-`
/// and `_`, replaces any other character by `_`, and falls back to
/// `output.txt` when nothing but underscores is left.
pub fn sanitize_file_name(file_name: &str) -> (r: String)
    ensures
        r@ == spec_sanitize(file_name@),
        is_plain_name(r@),
{
    proof {
        lemma_sanitized_plain(file_name@);
    }
    let v = chars_of(file_name);
    let n = v.len();
    let mut s: Vec<char> = Vec::new();
    let ghost f = |c: char| safe_char(c);
    for i in 0..n
        invariant
            n == v@.len(),
            s@ == v@.take(i as int).map_values(f),
            f == (|c: char| safe_char(c)),
    {
        let c = v[i];
        let keep = ('a' <= c && c <= 'z') || ('A' <= c && c <= 'Z') || ('0' <= c && c <= '9') || c
            == '.' || c == '-' || c == '_';
        if keep {
            s.push(c);
        } else {
            s.push('_');
        }
        assert(s@ =~= v@.take(i + 1).map_values(f));
    }
    assert(v@.take(n as int) =~= v@);
    let inner = trim_chars(s.as_slice(), Some('_'));
    if inner.len() == 0 {
        String::from_str("output.txt")
    } else {
        string_of(s.as_slice())
    }
}

/// Every character of a sanitized name is kept by sanitizing.
pub proof fn lemma_sanitized_safe(name: Seq<char>)
    ensures
        forall|i: int|
            0 <= i < spec_sanitize(name).len() ==> is_safe_char(#[trigger] spec_sanitize(name)[i]),
        spec_sanitize(name).len() > 0,
{
    reveal_strlit("output.txt");
    let s = name.map_values(|c: char| safe_char(c));
    if trim_both(s, Some('_')).len() != 0 {
        assert forall|i: int| 0 <= i < s.len() implies is_safe_char(#[trigger] s[i]) by {
            assert(s[i] == safe_char(name[i]));
        }
    }
}

/// A sanitized name is a plain file name.
pub proof fn lemma_sanitized_plain(name: Seq<char>)
    ensures
        is_plain_name(spec_sanitize(name)),
{
    lemma_sanitized_safe(name);
    let r = spec_sanitize(name);
    assert forall|i: int| 0 <= i < r.len() implies #[trigger] r[i] != '/' && r[i] != '\\' && r[i]
        != ':' by {
        assert(is_safe_char(r[i]));
    }
}

/// Sanitizing is idempotent: a sanitized name is left as it is.
pub proof fn lemma_sanitize_idempotent(name: Seq<char>)
    ensures
        spec_sanitize(spec_sanitize(name)) == spec_sanitize(name),
{
    lemma_sanitized_safe(name);
    let r = spec_sanitize(name);
    let s = r.map_values(|c: char| safe_char(c));
    assert forall|i: int| 0 <= i < r.len() implies s[i] == r[i] by {
        assert(is_safe_char(r[i]));
    }
    assert(s =~= r);
    if trim_both(s, Some('_')).len() == 0 {
        reveal_strlit("output.txt");
        let t = name.map_values(|c: char| safe_char(c));
        if trim_both(t, Some('_')).len() == 0 {
            // r is `output.txt`, which has no underscore at either end.
            crate::text::lemma_lead_end_bounds(r, 0, Some('_'));
            assert(crate::text::lead_end(r, 0, Some('_')) == 0);
            crate::text::lemma_tail_start_bounds(r, 0, r.len() as int, Some('_'));
            assert(crate::text::tail_start(r, 0, r.len() as int, Some('_')) == r.len());
        }
    }
}

/// What sanitizing does to each character: ASCII letters of either case,
/// digits, `.`, `-` and `_` are kept where they stand and every other
/// character becomes `_`; only a result made of nothing but underscores (or
/// nothing at all) is replaced by `output.txt`. So a name made only of kept
/// characters, not all underscores, comes back unchanged.
pub proof fn lemma_sanitize_characters(name: Seq<char>)
    ensures
        spec_sanitize(name) == "output.txt"@ || (spec_sanitize(name).len() == name.len() && forall|
            i: int,
        |
            #![trigger name[i]]
            0 <= i < name.len() ==> spec_sanitize(name)[i] == if ('a' <= name[i] <= 'z' || 'A' <= name[i] <= 'Z' || '0' <= name[i] <= '9' || name[i] == '.'
                || name[i] == '-' || name[i] == '_') {
                name[i]
            } else {
                '_'
            }),
        (forall|i: int|
            #![trigger name[i]]
            0 <= i < name.len() ==> ('a' <= name[i] <= 'z' || 'A' <= name[i] <= 'Z' || '0' <= name[i] <= '9' || name[i] == '.'
                || name[i] == '-' || name[i] == '_')) && (exists|i: int|
            0 <= i < name.len() && #[trigger] name[i] != '_') ==> spec_sanitize(name) == name,
        (forall|i: int|
            #![trigger name[i]]
            0 <= i < name.len() ==> !('a' <= name[i] <= 'z' || 'A' <= name[i] <= 'Z' || '0' <= name[i] <= '9' || name[i] == '.'
                || name[i] == '-' || name[i] == '_') || name[i] == '_') ==> spec_sanitize(name)
            == "output.txt"@,
{
    let s = name.map_values(|c: char| safe_char(c));
    assert forall|i: int| 0 <= i < name.len() implies #[trigger] s[i] == if ('a' <= name[i] <= 'z' || 'A' <= name[i] <= 'Z' || '0' <= name[i] <= '9' || name[i] == '.' || name[i] == '-' || name[i] == '_') {
        name[i]
    } else {
        '_'
    } by {
        assert(s[i] == safe_char(name[i]));
    }
    crate::text::lemma_lead_end_bounds(s, 0, Some('_'));
    let a = crate::text::lead_end(s, 0, Some('_'));
    crate::text::lemma_tail_start_bounds(s, a, s.len() as int, Some('_'));
    let t = crate::text::tail_start(s, a, s.len() as int, Some('_'));
    if (forall|i: int|
        #![trigger name[i]]
        0 <= i < name.len() ==> safe_char(name[i]) == name[i]) && (exists|i: int|
        0 <= i < name.len() && #[trigger] name[i] != '_') {
        let j = choose|i: int| 0 <= i < name.len() && #[trigger] name[i] != '_';
        assert(s[j] == name[j]);
        assert(s =~= name);
        assert(t > a);
    }
    if forall|i: int| 0 <= i < name.len() ==> #[trigger] s[i] == '_' {
        if a < s.len() {
            assert(s[a] == '_');
        }
    }
}

/// The index of the last `.` before position `j`.
pub open spec fn last_dot_before(n: Seq<char>, j: int) -> Option<int>
    decreases j,
{
    if j <= 0 || j > n.len() {
        None
    } else if n[j - 1] == '.' {
        Some(j - 1)
    } else {
        last_dot_before(n, j - 1)
    }
}

/// Whether a plain name denotes a file name (not empty, `.` or `..`).
pub open spec fn names_file(n: Seq<char>) -> bool {
    n.len() > 0 && n != seq!['.'] && n != seq!['.', '.']
}

/// The stem of a plain file name, as `Path::file_stem` gives it: the part
/// before the last `.`, or the whole name when it has no `.` after its
/// first character.
pub open spec fn spec_file_stem(n: Seq<char>) -> Option<Seq<char>> {
    if !names_file(n) {
        None
    } else {
        match last_dot_before(n, n.len() as int) {
            Some(k) => if k > 0 {
                Some(n.take(k))
            } else {
                Some(n)
            },
            None => Some(n),
        }
    }
}

/// The extension of a plain file name, as `Path::extension` gives it: the
/// part after the last `.`, if that `.` is not the first character.
pub open spec fn spec_extension(n: Seq<char>) -> Option<Seq<char>> {
    if !names_file(n) {
        None
    } else {
        match last_dot_before(n, n.len() as int) {
            Some(k) => if k > 0 {
                Some(n.skip(k + 1))
            } else {
                None
            },
            None => None,
        }
    }
}

pub open spec fn or_default(o: Option<Seq<char>>, d: Seq<char>) -> Seq<char> {
    match o {
        Some(x) => x,
        None => d,
    }
}

proof fn lemma_last_dot(n: Seq<char>, j: int)
    requires
        0 <= j <= n.len(),
    ensures
        last_dot_before(n, j) matches Some(k) ==> 0 <= k < j && n[k] == '.',
    decreases j,
{
    if j > 0 && n[j - 1] != '.' {
        lemma_last_dot(n, j - 1);
    }
}

fn last_dot(v: &[char]) -> (r: Option<usize>)
    ensures
        match r {
            Some(k) => last_dot_before(v@, v@.len() as int) == Some(k as int) && k < v@.len(),
            None => last_dot_before(v@, v@.len() as int) is None,
        },
{
    let mut j = v.len();
    while j > 0
        invariant
            0 <= j <= v@.len(),
            last_dot_before(v@, v@.len() as int) == last_dot_before(v@, j as int),
        decreases j,
    {
        if v[j - 1] == '.' {
            return Some(j - 1);
        }
        j = j - 1;
    }
    None
}

/// The stem of a plain name, or `default` where it has none.
fn stem_or(v: &[char], default: &[char]) -> (r: Vec<char>)
    ensures
        r@ == or_default(spec_file_stem(v@), default@),
{
    let dot = vec!['.'];
    let dots = vec!['.', '.'];
    assert(dot@ =~= seq!['.']);
    assert(dots@ =~= seq!['.', '.']);
    if v.len() == 0 || crate::text::chars_equal(v, dot.as_slice()) || crate::text::chars_equal(
        v,
        dots.as_slice(),
    ) {
        return crate::text::copy_range(default, 0, default.len());
    }
    let r = match last_dot(v) {
        Some(k) => if k > 0 {
            crate::text::copy_range(v, 0, k)
        } else {
            crate::text::copy_range(v, 0, v.len())
        },
        None => crate::text::copy_range(v, 0, v.len()),
    };
    assert(v@.subrange(0, v@.len() as int) =~= v@);
    assert(default@.subrange(0, default@.len() as int) =~= default@);
    r
}

/// The extension of a plain name, or `default` where it has none.
fn extension_or(v: &[char], default: &[char]) -> (r: Vec<char>)
    ensures
        r@ == or_default(spec_extension(v@), default@),
{
    let dot = vec!['.'];
    let dots = vec!['.', '.'];
    assert(dot@ =~= seq!['.']);
    assert(dots@ =~= seq!['.', '.']);
    assert(default@.subrange(0, default@.len() as int) =~= default@);
    if v.len() == 0 || crate::text::chars_equal(v, dot.as_slice()) || crate::text::chars_equal(
        v,
        dots.as_slice(),
    ) {
        return crate::text::copy_range(default, 0, default.len());
    }
    match last_dot(v) {
        Some(k) => if k > 0 {
            let r = crate::text::copy_range(v, k + 1, v.len());
            assert(r@ =~= v@.skip(k + 1));
            r
        } else {
            crate::text::copy_range(default, 0, default.len())
        },
        None => crate::text::copy_range(default, 0, default.len()),
    }
}

/// The file name used for the translation of `original`.
pub open spec fn spec_translated_name(original: Option<Seq<char>>) -> Seq<char> {
    let chosen = match original {
        Some(n) => if spec_trim(n).len() > 0 {
            n
        } else {
            "translation.txt"@
        },
        None => "translation.txt"@,
    };
    let safe = spec_sanitize(chosen);
    or_default(spec_file_stem(safe), "file"@) + "_translated."@ + or_default(
        spec_extension(safe),
        "txt"@,
    )
}

/// The name of a translated file: the sanitized original name (or
/// `translation.txt` where none or a blank one is given) with `_translated`
/// after its stem; stem and extension default to `file` and `txt`.
pub fn translated_file_name(original_file_name: Option<&str>) -> (r: String)
    ensures
        r@ == spec_translated_name(
            match original_file_name {
                Some(n) => Some(n@),
                None => None,
            },
        ),
{
    let chosen: &str = match original_file_name {
        Some(n) => {
            let t = crate::text::trim_text(n);
            if t.unicode_len() > 0 {
                n
            } else {
                "translation.txt"
            }
        },
        None => "translation.txt",
    };
    let safe = sanitize_file_name(chosen);
    let sv = chars_of(safe.as_str());
    let file_default = chars_of("file");
    let txt_default = chars_of("txt");
    let mut out = stem_or(sv.as_slice(), file_default.as_slice());
    let mid = chars_of("_translated.");
    append_chars(&mut out, mid.as_slice());
    let ext = extension_or(sv.as_slice(), txt_default.as_slice());
    append_chars(&mut out, ext.as_slice());
    string_of(out.as_slice())
}

/// `n` written with at least three digits (`{:03}`).
pub open spec fn spec_pad3(n: nat) -> Seq<char> {
    if n < 10 {
        seq!['0', '0'] + spec_decimal(n)
    } else if n < 100 {
        seq!['0'] + spec_decimal(n)
    } else {
        spec_decimal(n)
    }
}

/// The numbered candidate `<stem><counter:03>.<ext>` for a plain name
/// (stem and extension default to `output` and `txt`).
pub open spec fn spec_numbered_name(name: Seq<char>, counter: nat) -> Seq<char> {
    or_default(spec_file_stem(name), "output"@) + spec_pad3(counter) + "."@ + or_default(
        spec_extension(name),
        "txt"@,
    )
}

/// The candidate name past the three-digit range: `<stem>_<counter>.<ext>`.
pub open spec fn spec_overflow_name(name: Seq<char>, counter: nat) -> Seq<char> {
    or_default(spec_file_stem(name), "output"@) + "_"@ + spec_decimal(counter) + "."@ + or_default(
        spec_extension(name),
        "txt"@,
    )
}

/// The output name tried for `counter`: numbered up to 999, then
/// `<stem>_<counter>.<ext>`.
pub open spec fn spec_candidate_name(name: Seq<char>, counter: nat) -> Seq<char> {
    if counter <= 999 {
        spec_numbered_name(name, counter)
    } else {
        spec_overflow_name(name, counter)
    }
}

fn name_with(file_name: &str, middle: &[char]) -> (r: String)
    ensures
        r@ == or_default(spec_file_stem(file_name@), "output"@) + middle@ + "."@ + or_default(
            spec_extension(file_name@),
            "txt"@,
        ),
{
    let v = chars_of(file_name);
    let output_default = chars_of("output");
    let txt_default = chars_of("txt");
    let mut out = stem_or(v.as_slice(), output_default.as_slice());
    append_chars(&mut out, middle);
    let dot = chars_of(".");
    append_chars(&mut out, dot.as_slice());
    let ext = extension_or(v.as_slice(), txt_default.as_slice());
    append_chars(&mut out, ext.as_slice());
    string_of(out.as_slice())
}

/// The candidate output name for `counter`.
pub fn numbered_file_name(file_name: &str, counter: u64) -> (r: String)
    requires
        is_plain_name(file_name@),
    ensures
        r@ == spec_candidate_name(file_name@, counter as nat),
{
    let digits = decimal_chars(counter);
    let mut middle: Vec<char> = Vec::new();
    if counter < 10 {
        middle.push('0');
        middle.push('0');
    } else if counter < 100 {
        middle.push('0');
    } else if counter > 999 {
        middle.push('_');
    }
    append_chars(&mut middle, digits.as_slice());
    proof {
        reveal_strlit("_");
    }
    if counter <= 999 {
        assert(middle@ =~= spec_pad3(counter as nat));
    } else {
        assert(middle@ =~= "_"@ + spec_decimal(counter as nat));
    }
    name_with(file_name, middle.as_slice())
}

/// The next step in choosing a free output name.
pub enum NameStep {
    /// Use this name.
    Take(String),
    /// Check the candidate for this counter next.
    Next(u64),
}

/// Choosing a free output name, one candidate at a time: given whether the
/// candidate for `counter` exists, take it if it does not, and otherwise go
/// on to the next counter. A name is taken only when its file is absent.
pub fn get_next_filename(file_name: &str, counter: u64, candidate_exists: bool) -> (r: NameStep)
    requires
        is_plain_name(file_name@),
        counter < u64::MAX,
    ensures
        !candidate_exists ==> r is Take && r->Take_0@ == spec_candidate_name(
            file_name@,
            counter as nat,
        ),
        candidate_exists ==> r == NameStep::Next((counter + 1) as u64),
{
    if !candidate_exists {
        return NameStep::Take(numbered_file_name(file_name, counter));
    }
    NameStep::Next(counter + 1)
}

/// Saving text fails with `Nothing to save` when the text is blank.
pub fn save_text_precheck(text: &str) -> (r: Result<(), String>)
    ensures
        spec_trim(text@).len() == 0 ==> r is Err && r->Err_0@ == "Nothing to save"@,
        spec_trim(text@).len() != 0 ==> r is Ok,
{
    let t = crate::text::trim_text(text);
    if t.unicode_len() == 0 {
        Err(String::from_str("Nothing to save"))
    } else {
        Ok(())
    }
}

/// A dropped file is read only if its extension is supported; otherwise the
/// error names the file.
pub fn dropped_file_check(extension: Option<&str>, file_name: &str) -> (r: Result<(), String>)
    ensures
        (match extension {
            Some(e) => is_supported_extension(e@),
            None => false,
        }) ==> r is Ok,
        !(match extension {
            Some(e) => is_supported_extension(e@),
            None => false,
        }) ==> r is Err && r->Err_0@ == "Unsupported file type: "@ + file_name@,
{
    if is_supported_text_file(extension) {
        Ok(())
    } else {
        let mut m = String::from_str("Unsupported file type: ");
        m.append(file_name);
        Err(m)
    }
}

/// The extensions of the text files the application reads.
pub open spec fn is_supported_extension(ext: Seq<char>) -> bool {
    let e = lower_seq(ext);
    ||| e == "txt"@
    ||| e == "md"@
    ||| e == "py"@
    ||| e == "js"@
    ||| e == "html"@
    ||| e == "json"@
    ||| e == "csv"@
}

/// The supported extensions are exactly `txt`, `md`, `py`, `js`, `html`,
/// `json` and `csv`, compared in ASCII lower case.
pub proof fn lemma_supported_extensions(ext: Seq<char>)
    ensures
        is_supported_extension(ext) <==> (lower_seq(ext) == "txt"@ || lower_seq(ext) == "md"@ || lower_seq(ext) == "py"@ || lower_seq(ext) == "js"@ || lower_seq(ext) == "html"@ || lower_seq(ext) == "json"@ || lower_seq(ext) == "csv"@),
        is_supported_extension("txt"@),
        is_supported_extension("md"@),
        is_supported_extension("py"@),
        is_supported_extension("js"@),
        is_supported_extension("html"@),
        is_supported_extension("json"@),
        is_supported_extension("csv"@),
        is_supported_extension("HTML"@),
        !is_supported_extension("htm"@),
{
    reveal_strlit("txt");
    assert(lower_seq("txt"@) =~= "txt"@);
    reveal_strlit("md");
    assert(lower_seq("md"@) =~= "md"@);
    reveal_strlit("py");
    assert(lower_seq("py"@) =~= "py"@);
    reveal_strlit("js");
    assert(lower_seq("js"@) =~= "js"@);
    reveal_strlit("html");
    assert(lower_seq("html"@) =~= "html"@);
    reveal_strlit("json");
    assert(lower_seq("json"@) =~= "json"@);
    reveal_strlit("csv");
    assert(lower_seq("csv"@) =~= "csv"@);
    reveal_strlit("HTML");
    reveal_strlit("htm");
    assert(lower_seq("HTML"@) =~= "html"@);
    assert(lower_seq("htm"@) =~= "htm"@);
    assert("htm"@.len() == 3 && "html"@.len() == 4 && "json"@.len() == 4 && "md"@.len() == 2);
    assert("py"@.len() == 2 && "js"@.len() == 2 && "txt"@[0] == 't' && "csv"@[0] == 'c');
    assert("htm"@[0] == 'h');
}

/// Whether a file with this extension (compared in ASCII lower case) is a
/// supported text file: `txt`, `md`, `py`, `js`, `html`, `json` or `csv`.
pub fn is_supported_text_file(extension: Option<&str>) -> (r: bool)
    ensures
        r == match extension {
            Some(e) => is_supported_extension(e@),
            None => false,
        },
{
    match extension {
        None => false,
        Some(e) => {
            let v = chars_of(e);
            let n = v.len();
            let mut lower: Vec<char> = Vec::new();
            for i in 0..n
                invariant
                    n == v@.len(),
                    v@ == e@,
                    lower@ == lower_seq(v@.take(i as int)),
            {
                lower.push(to_ascii_lower(v[i]));
                assert(lower@ =~= lower_seq(v@.take(i + 1)));
            }
            assert(v@.take(n as int) =~= v@);
            let l = string_of(lower.as_slice());
            crate::text::str_equals(l.as_str(), "txt") || crate::text::str_equals(l.as_str(), "md")
                || crate::text::str_equals(l.as_str(), "py") || crate::text::str_equals(
                l.as_str(),
                "js",
            ) || crate::text::str_equals(l.as_str(), "html") || crate::text::str_equals(
                l.as_str(),
                "json",
            ) || crate::text::str_equals(l.as_str(), "csv")
        },
    }
}

} // verus!
