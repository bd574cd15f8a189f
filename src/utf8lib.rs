//! String and pattern primitives that generated native code calls on byte
//! ranges it does not own.
use vstd::prelude::*;
use vstd::string::StringSliceAdditionalSpecFns;
use vstd::utf8::{decode_utf8, encode_utf8_decode_utf8, valid_utf8};

use crate::handles::HandleTable;

verus! {

/// A byte range handed over by generated code: text that is UTF-8 by the
/// engine's type system, but read here as plain bytes.
#[derive(Clone, Debug)]
pub struct WeldString {
    data: Vec<u8>,
}

impl View for WeldString {
    type V = Seq<u8>;

    closed spec fn view(&self) -> Seq<u8> {
        self.data@
    }
}

/// The text that valid UTF-8 bytes encode.
pub open spec fn text_of(bytes: Seq<u8>) -> Seq<char> {
    decode_utf8(bytes)
}

/// `q` is a prefix of `t`.
pub open spec fn bytes_start_with(t: Seq<u8>, q: Seq<u8>) -> bool {
    q.len() <= t.len() && t.subrange(0, q.len() as int) == q
}

/// `q` is a suffix of `t`.
pub open spec fn bytes_end_with(t: Seq<u8>, q: Seq<u8>) -> bool {
    q.len() <= t.len() && t.subrange(t.len() - q.len(), t.len() as int) == q
}

/// `q` occurs in `t` starting at byte `i`.
pub open spec fn bytes_occur_at(t: Seq<u8>, q: Seq<u8>, i: int) -> bool {
    0 <= i && i + q.len() <= t.len() && t.subrange(i, i + q.len()) == q
}

/// `q` occurs somewhere in `t`.
pub open spec fn bytes_contain(t: Seq<u8>, q: Seq<u8>) -> bool {
    exists|i: int| bytes_occur_at(t, q, i)
}

/// Relies on std::str::from_utf8: it succeeds exactly on valid UTF-8, and the
/// text it returns has the same bytes.
#[verifier::external_body]
fn str_from_utf8(b: &[u8]) -> (r: Option<&str>)
    ensures
        r.is_some() == valid_utf8(b@),
        r matches Some(s) ==> s.spec_bytes() == b@,
{
    std::str::from_utf8(b).ok()
}

/// Whether `q` equals the `q.len()` bytes of `t` from `start` on.
fn bytes_equal_at(t: &[u8], q: &[u8], start: usize) -> (r: bool)
    requires
        start + q@.len() <= t@.len(),
    ensures
        r == (t@.subrange(start as int, start + q@.len()) == q@),
{
    let tl = t.len();
    let mut k: usize = 0;
    while k < q.len()
        invariant
            tl == t@.len(),
            k <= q@.len(),
            start + q@.len() <= t@.len(),
            forall|j: int| 0 <= j < k ==> t@[start + j] == q@[j],
        decreases q@.len() - k,
    {
        if t[start + k] != q[k] {
            assert(t@.subrange(start as int, start + q@.len())[k as int] != q@[k as int]);
            return false;
        }
        k = k + 1;
    }
    assert(t@.subrange(start as int, start + q@.len()) =~= q@);
    true
}

impl WeldString {
    /// Wraps the given bytes.
    pub fn from_bytes(data: Vec<u8>) -> (r: WeldString)
        ensures
            r@ == data@,
    {
        WeldString { data }
    }

    /// The bytes of the range.
    pub fn as_slice(&self) -> (r: &[u8])
        ensures
            r@ == self@,
    {
        self.data.as_slice()
    }

    /// The range read as text; its bytes must be valid UTF-8.
    pub fn as_str(&self) -> (r: &str)
        requires
            valid_utf8(self@),
        ensures
            r.spec_bytes() == self@,
            r@ == text_of(self@),
    {
        match str_from_utf8(self.data.as_slice()) {
            Some(s) => {
                proof {
                    encode_utf8_decode_utf8(s@);
                }
                s
            },
            None => "",
        }
    }

    /// The range read as text, with validity established by the caller's
    /// precondition rather than reported.
    pub fn as_str_unchecked(&self) -> (r: &str)
        requires
            valid_utf8(self@),
        ensures
            r.spec_bytes() == self@,
            r@ == text_of(self@),
    {
        self.as_str()
    }
}

/// Stores in `result` whether `query` is a byte prefix of `text`. The bytes
/// need not be valid UTF-8.
pub fn utf8_starts_with(text: &WeldString, query: &WeldString, result: &mut bool)
    ensures
        *final(result) == bytes_start_with(text@, query@),
{
    let t = text.as_slice();
    let q = query.as_slice();
    *result = q.len() <= t.len() && bytes_equal_at(t, q, 0);
}

/// Stores in `result` whether `query` is a byte suffix of `text`. The bytes
/// need not be valid UTF-8.
pub fn utf8_ends_with(text: &WeldString, query: &WeldString, result: &mut bool)
    ensures
        *final(result) == bytes_end_with(text@, query@),
{
    let t = text.as_slice();
    let q = query.as_slice();
    *result = q.len() <= t.len() && bytes_equal_at(t, q, t.len() - q.len());
}

/// Stores in `result` whether `query` occurs in `text`; both must be valid
/// UTF-8, so an occurrence of the bytes is an occurrence of the text.
pub fn utf8_contains(text: &WeldString, query: &WeldString, result: &mut bool)
    requires
        valid_utf8(text@),
        valid_utf8(query@),
    ensures
        *final(result) == bytes_contain(text@, query@),
{
    let t = text.as_slice();
    let q = query.as_slice();
    if q.len() > t.len() {
        *result = false;
        return;
    }
    let last = t.len() - q.len();
    let mut i: usize = 0;
    loop
        invariant
            i <= last,
            last + q@.len() == t@.len(),
            t@ == text@,
            q@ == query@,
            forall|j: int| 0 <= j < i ==> !bytes_occur_at(t@, q@, j),
        decreases last - i,
    {
        if bytes_equal_at(t, q, i) {
            assert(bytes_occur_at(t@, q@, i as int));
            *result = true;
            return;
        }
        if i == last {
            assert forall|j: int| !bytes_occur_at(t@, q@, j) by {
                if 0 <= j <= last {
                }
            }
            *result = false;
            return;
        }
        i = i + 1;
    }
}

/// Every byte range starts and ends with itself, and starts with the empty
/// range.
pub proof fn lemma_affixes_of_self(t: Seq<u8>)
    ensures
        bytes_start_with(t, t),
        bytes_end_with(t, t),
        bytes_start_with(t, Seq::<u8>::empty()),
{
    assert(t.subrange(0, t.len() as int) =~= t);
    assert(t.subrange(0, 0) =~= Seq::<u8>::empty());
}

#[verifier::external_type_specification]
#[verifier::external_body]
pub struct ExRegex(regex::Regex);

#[verifier::external_type_specification]
#[verifier::external_body]
pub struct ExRegexError(regex::Error);

/// Whether the regex crate accepts `pattern` under its default limits.
pub uninterp spec fn pattern_compiles(pattern: Seq<char>) -> bool;

/// The pattern text a compiled regex was built from (what `Regex::as_str`
/// hands back).
pub uninterp spec fn regex_source(re: regex::Regex) -> Seq<char>;

/// Whether the compiled regex `re` matches somewhere in `text`.
pub uninterp spec fn regex_finds(re: regex::Regex, text: Seq<char>) -> bool;

/// Relies on regex::Regex::new: it fails exactly on the patterns it refuses,
/// and a regex it builds keeps the pattern text it was given.
#[verifier::external_body]
fn compile_pattern(pattern: &str) -> (r: Result<regex::Regex, regex::Error>)
    ensures
        r.is_ok() == pattern_compiles(pattern@),
        r matches Ok(re) ==> regex_source(re) == pattern@,
{
    regex::Regex::new(pattern)
}

/// Relies on regex::Regex::is_match: whether the regex matches anywhere in the
/// text.
#[verifier::external_body]
fn regex_is_match(re: &regex::Regex, text: &str) -> (r: bool)
    ensures
        r == regex_finds(*re, text@),
{
    re.is_match(text)
}

/// The compiled patterns that generated code holds handles to.
pub type RegexTable = HandleTable<regex::Regex>;

/// The pattern text behind a live regex handle.
pub open spec fn pattern_of(regexes: &RegexTable, h: i64) -> Seq<char> {
    regex_source(regexes.value_of(h))
}

/// `expression` is valid UTF-8 and the regex crate accepts its text as a
/// pattern.
pub open spec fn compilable(expression: Seq<u8>) -> bool {
    valid_utf8(expression) && pattern_compiles(text_of(expression))
}

/// Compiles `expression` into `regexes` and stores its handle in `result`.
/// A pattern that is not valid UTF-8 or that the regex crate refuses, or a
/// table with no room left, gives the null handle `0` and leaves the table
/// as it was.
pub fn utf8_regex_compile(regexes: &mut RegexTable, expression: &WeldString, result: &mut i64)
    requires
        old(regexes).wf(),
    ensures
        final(regexes).wf(),
        compilable(expression@) && old(regexes).has_room() ==> {
            &&& *final(result) != 0
            &&& !old(regexes).issued().contains(*final(result))
            &&& !old(regexes)@.contains_key(*final(result))
            &&& final(regexes)@ == old(regexes)@.insert(
                *final(result),
                final(regexes).value_of(*final(result)),
            )
            &&& final(regexes).issued() == old(regexes).issued().insert(*final(result))
            &&& pattern_of(final(regexes), *final(result)) == text_of(expression@)
        },
        !(compilable(expression@) && old(regexes).has_room()) ==> {
            &&& *final(result) == 0
            &&& *final(regexes) == *old(regexes)
        },
{
    if !regexes.has_room_exec() {
        *result = 0;
        return;
    }
    match str_from_utf8(expression.as_slice()) {
        None => {
            *result = 0;
        },
        Some(s) => {
            proof {
                encode_utf8_decode_utf8(s@);
            }
            match compile_pattern(s) {
                Ok(re) => {
                    *result = regexes.insert(re);
                },
                Err(_) => {
                    *result = 0;
                },
            }
        },
    }
}

/// Stores in `result` whether the regex behind `regex_handle` matches
/// somewhere in `text`, which must be valid UTF-8.
pub fn utf8_regex_matches(regexes: &RegexTable, text: &WeldString, regex_handle: i64, result: &mut bool)
    requires
        regexes.is_live(regex_handle),
        valid_utf8(text@),
    ensures
        *final(result) == regex_finds(regexes.value_of(regex_handle), text_of(text@)),
{
    match regexes.get(regex_handle) {
        Some(re) => {
            *result = regex_is_match(re, text.as_str());
        },
        None => {
            *result = false;
        },
    }
}

/// Releases the regex behind `regex_handle`, freeing its slot for reuse
/// under a new handle. The null handle, and a handle that is not live,
/// leave the table unchanged.
pub fn utf8_regex_destroy(regexes: &mut RegexTable, regex_handle: i64)
    requires
        old(regexes).wf(),
    ensures
        final(regexes).wf(),
        final(regexes).issued() == old(regexes).issued(),
        old(regexes).is_live(regex_handle) ==> final(regexes)@ == old(regexes)@.remove(
            regex_handle,
        ),
        !old(regexes).is_live(regex_handle) ==> final(regexes)@ == old(regexes)@,
{
    regexes.remove(regex_handle);
}

} // verus!
