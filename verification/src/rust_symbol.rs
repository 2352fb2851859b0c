//! Rust symbol strings from LLDB differ by platform: Linux often retains a trailing `::h<hex>`
//! disambiguator on demangled names. Stripping it lets event streams match other hosts.
use vstd::prelude::*;
use vstd::std_specs::iter::IteratorSpec;

verus! {

/// Least number of hex digits after `::h` for the tail to count as a disambiguator;
/// fewer would risk stripping an accidental `::h` inside a path.
pub const MIN_HASH_DIGITS: usize = 8;

/// `c` is an ASCII hexadecimal digit (`0-9`, `a-f`, `A-F`).
pub open spec fn is_hex_digit(c: char) -> bool {
    ||| ('0' <= c && c <= '9')
    ||| ('a' <= c && c <= 'f')
    ||| ('A' <= c && c <= 'F')
}

/// The three characters `::h` start at index `i` of `s`.
pub open spec fn marker_at(s: Seq<char>, i: int) -> bool {
    &&& 0 <= i
    &&& i + 3 <= s.len()
    &&& s[i] == ':'
    &&& s[i + 1] == ':'
    &&& s[i + 2] == 'h'
}

/// `i` is the start of the last occurrence of `::h` in `s`.
pub open spec fn last_marker_at(s: Seq<char>, i: int) -> bool {
    &&& marker_at(s, i)
    &&& forall|j: int| i < j ==> !#[trigger] marker_at(s, j)
}

/// `t` is a run of at least `MIN_HASH_DIGITS` hex digits and nothing else.
pub open spec fn is_hash_digits(t: Seq<char>) -> bool {
    &&& t.len() >= MIN_HASH_DIGITS
    &&& forall|k: int| 0 <= k < t.len() ==> #[trigger] is_hex_digit(t[k])
}

/// The last `::h` of `s` starts at `i` and is followed up to the end by a hash.
pub open spec fn hash_suffix_at(s: Seq<char>, i: int) -> bool {
    &&& last_marker_at(s, i)
    &&& is_hash_digits(s.skip(i + 3))
}

/// `s` with a trailing `::h<hash>` removed, where the `::h` is the last one in `s`;
/// `s` itself when it has no such suffix.
pub open spec fn strip_hash_suffix(s: Seq<char>) -> Seq<char> {
    if exists|i: int| hash_suffix_at(s, i) {
        s.take(choose|i: int| hash_suffix_at(s, i))
    } else {
        s
    }
}

/// The three characters `::h` that introduce a disambiguator.
pub open spec fn marker() -> Seq<char> {
    seq![':', ':', 'h']
}

/// Appending `::h` and a hash of at least `MIN_HASH_DIGITS` hex digits to any name, as
/// LLDB does on Linux, is undone by stripping: the name comes back as it was.
pub proof fn lemma_strip_appended_hash(base: Seq<char>, hash: Seq<char>)
    requires
        is_hash_digits(hash),
    ensures
        strip_hash_suffix(base + marker() + hash) == base,
{
    let s = base + marker() + hash;
    let b = base.len() as int;
    assert(s[b] == ':' && s[b + 1] == ':' && s[b + 2] == 'h');
    assert forall|j: int| b < j implies !#[trigger] marker_at(s, j) by {
        if j == b + 1 {
            assert(s[j + 1] == 'h');
        } else if j == b + 2 {
            assert(s[j] == 'h');
        } else if j >= b + 3 && j < s.len() {
            assert(s[j] == hash[j - b - 3]);
            assert(is_hex_digit(hash[j - b - 3]));
        }
    }
    assert(s.skip(b + 3) =~= hash);
    assert(hash_suffix_at(s, b));
    lemma_last_marker_unique(s, b);
    assert(s.take(b) =~= base);
}

/// Stripping only ever removes a trailing `::h` followed by at least `MIN_HASH_DIGITS`
/// hex digits: the result is the name itself, or the name is the result, `::h` and such
/// a hash. A name without any `::h` is left as it is.
pub proof fn lemma_strip_removes_only_hash_suffix(s: Seq<char>)
    ensures
        strip_hash_suffix(s) == s || exists|hash: Seq<char>|
            is_hash_digits(hash) && s == #[trigger] (strip_hash_suffix(s) + marker() + hash),
        (forall|j: int| !#[trigger] marker_at(s, j)) ==> strip_hash_suffix(s) == s,
{
    if exists|i: int| hash_suffix_at(s, i) {
        let i = choose|i: int| hash_suffix_at(s, i);
        let hash = s.skip(i + 3);
        assert(s =~= s.take(i) + marker() + hash);
        assert(is_hash_digits(hash));
    }
}

/// Normalize a demangled Rust function name from LLDB.
///
/// Example: `call_chain::head::h4766c160f69ecd87` → `call_chain::head`.
pub fn normalize_lldb_rust_function_name(name: &str) -> (res: String)
    ensures
        res@ == strip_hash_suffix(name@),
{
    strip_rust_symbol_hash_suffix(name).to_owned()
}

/// The part of `name` before a trailing `::h<hash>`, borrowed from `name`. The search runs
/// over characters; `::h` and hex digits are ASCII, so it finds the same suffix that a search
/// over the UTF-8 bytes would.
fn strip_rust_symbol_hash_suffix(name: &str) -> (res: &str)
    ensures
        res@ == strip_hash_suffix(name@),
{
    let chars = chars_of(name);
    let pos = match rfind_marker(&chars) {
        Some(pos) => pos,
        None => {
            assert(!exists|i: int| hash_suffix_at(name@, i));
            return name;
        },
    };
    proof {
        assert(marker_at(chars@, pos as int));
        assert(chars@.len() == chars.len());
        lemma_last_marker_unique(name@, pos as int);
    }
    if all_hex_from(&chars, pos + 3) {
        assert(hash_suffix_at(name@, pos as int));
        name.substring_char(0, pos)
    } else {
        name
    }
}

proof fn lemma_last_marker_unique(s: Seq<char>, i: int)
    requires
        last_marker_at(s, i),
    ensures
        forall|j: int| #[trigger] last_marker_at(s, j) ==> j == i,
{
    assert forall|j: int| #[trigger] last_marker_at(s, j) implies j == i by {
        if j < i {
            assert(marker_at(s, i));
        } else if i < j {
            assert(marker_at(s, j));
        }
    }
}

/// Start of the last `::h` in `s`, if any.
fn rfind_marker(s: &Vec<char>) -> (res: Option<usize>)
    ensures
        match res {
            Some(p) => last_marker_at(s@, p as int),
            None => forall|j: int| !#[trigger] marker_at(s@, j),
        },
{
    let n = s.len();
    if n < 3 {
        return None;
    }
    let mut i: usize = n - 2;
    while i > 0
        invariant
            n == s@.len(),
            3 <= n,
            i <= n - 2,
            forall|j: int| i <= j ==> !#[trigger] marker_at(s@, j),
        decreases i,
    {
        i = i - 1;
        if s[i] == ':' && s[i + 1] == ':' && s[i + 2] == 'h' {
            return Some(i);
        }
    }
    None
}

/// Every character of `s` from `start` on is a hex digit, and there are at least
/// `MIN_HASH_DIGITS` of them.
fn all_hex_from(s: &Vec<char>, start: usize) -> (res: bool)
    requires
        start <= s@.len(),
    ensures
        res == is_hash_digits(s@.skip(start as int)),
{
    if s.len() - start < MIN_HASH_DIGITS {
        return false;
    }
    let mut k: usize = start;
    while k < s.len()
        invariant
            start <= k <= s@.len(),
            forall|m: int| start <= m < k ==> #[trigger] is_hex_digit(s@[m]),
        decreases s@.len() - k,
    {
        let c = s[k];
        if !(('0' <= c && c <= '9') || ('a' <= c && c <= 'f') || ('A' <= c && c <= 'F')) {
            assert(!is_hex_digit(s@.skip(start as int)[k - start]));
            return false;
        }
        k = k + 1;
    }
    assert forall|m: int| 0 <= m < s@.skip(start as int).len() implies #[trigger] is_hex_digit(
        s@.skip(start as int)[m],
    ) by {
        assert(s@.skip(start as int)[m] == s@[start + m]);
    }
    true
}

/// The characters of `s`, in order, as a vector.
fn chars_of(s: &str) -> (v: Vec<char>)
    ensures
        v@ == s@,
{
    let mut v: Vec<char> = Vec::new();
    for c in it: s.chars()
        invariant
            it.seq() == s@,
            v@ == it.seq().take(it.index()),
    {
        v.push(c);
    }
    v
}

} // verus!
