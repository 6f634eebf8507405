//! Texts as the account stores see them: the order of account names, lines
//! joined into one payload, and wildcard patterns.

use vstd::prelude::*;
use vstd::utf8::*;

verus! {

/// Lexicographic order on byte strings: a proper prefix comes first, otherwise
/// the first differing byte decides.
pub open spec fn bytes_before(a: Seq<u8>, b: Seq<u8>) -> bool
    decreases a.len(),
{
    if b.len() == 0 {
        false
    } else if a.len() == 0 {
        true
    } else if a[0] != b[0] {
        a[0] < b[0]
    } else {
        bytes_before(a.drop_first(), b.drop_first())
    }
}

/// The order of account names: lexicographic on their UTF-8 encodings.
pub open spec fn name_before(a: Seq<char>, b: Seq<char>) -> bool {
    bytes_before(encode_utf8(a), encode_utf8(b))
}

/// Whether every name in the sequence comes before all names after it.
pub open spec fn ascending(names: Seq<Seq<char>>) -> bool {
    forall|i: int, j: int| 0 <= i < j < names.len() ==> name_before(names[i], names[j])
}

/// How one name stands to another in the order of names.
#[derive(Clone, Copy, Debug, PartialEq, Eq, Structural)]
pub enum NameOrder {
    Before,
    Same,
    After,
}

/// The place of `a` relative to `b`.
pub open spec fn name_order(a: Seq<char>, b: Seq<char>) -> NameOrder {
    if a == b {
        NameOrder::Same
    } else if name_before(a, b) {
        NameOrder::Before
    } else {
        NameOrder::After
    }
}

/// No byte string comes before itself.
pub proof fn lemma_bytes_before_irreflexive(a: Seq<u8>)
    ensures
        !bytes_before(a, a),
    decreases a.len(),
{
    if a.len() > 0 {
        lemma_bytes_before_irreflexive(a.drop_first());
    }
}

/// Of two different byte strings exactly one comes before the other.
pub proof fn lemma_bytes_before_total(a: Seq<u8>, b: Seq<u8>)
    ensures
        a != b ==> (bytes_before(a, b) <==> !bytes_before(b, a)),
        a == b ==> !bytes_before(a, b),
    decreases a.len(),
{
    if a == b {
        lemma_bytes_before_irreflexive(a);
    } else if a.len() > 0 && b.len() > 0 && a[0] == b[0] {
        if a.drop_first() == b.drop_first() {
            assert(a =~= seq![a[0]] + a.drop_first());
            assert(b =~= seq![b[0]] + b.drop_first());
        }
        lemma_bytes_before_total(a.drop_first(), b.drop_first());
    } else if a.len() == 0 && b.len() == 0 {
        assert(a =~= b);
    }
}

/// The order on byte strings is transitive.
pub proof fn lemma_bytes_before_transitive(a: Seq<u8>, b: Seq<u8>, c: Seq<u8>)
    requires
        bytes_before(a, b),
        bytes_before(b, c),
    ensures
        bytes_before(a, c),
    decreases a.len(),
{
    if a.len() > 0 && a[0] == b[0] && b[0] == c[0] {
        lemma_bytes_before_transitive(a.drop_first(), b.drop_first(), c.drop_first());
    }
}

/// Different names have different encodings.
pub proof fn lemma_encoding_injective(a: Seq<char>, b: Seq<char>)
    ensures
        encode_utf8(a) == encode_utf8(b) <==> a == b,
{
    encode_utf8_decode_utf8(a);
    encode_utf8_decode_utf8(b);
}

/// The order of names is a strict total order: of two different names exactly
/// one comes before the other, and no name comes before itself.
pub proof fn lemma_name_before_total(a: Seq<char>, b: Seq<char>)
    ensures
        a != b ==> (name_before(a, b) <==> !name_before(b, a)),
        a == b ==> !name_before(a, b),
{
    lemma_encoding_injective(a, b);
    lemma_bytes_before_total(encode_utf8(a), encode_utf8(b));
}

/// The order of names is transitive.
pub proof fn lemma_name_before_transitive(a: Seq<char>, b: Seq<char>, c: Seq<char>)
    requires
        name_before(a, b),
        name_before(b, c),
    ensures
        name_before(a, c),
{
    lemma_bytes_before_transitive(encode_utf8(a), encode_utf8(b), encode_utf8(c));
}

/// Dropping a common prefix changes neither the order of two byte strings nor
/// whether they are equal.
proof fn lemma_skip_common_prefix(a: Seq<u8>, b: Seq<u8>, i: int)
    requires
        0 <= i <= a.len(),
        i <= b.len(),
        a.subrange(0, i) == b.subrange(0, i),
    ensures
        bytes_before(a, b) == bytes_before(a.skip(i), b.skip(i)),
        (a == b) == (a.skip(i) == b.skip(i)),
    decreases i,
{
    if i > 0 {
        assert(a[0] == a.subrange(0, i)[0]);
        assert(b[0] == b.subrange(0, i)[0]);
        let a1 = a.drop_first();
        let b1 = b.drop_first();
        assert(a1.subrange(0, i - 1) =~= a.subrange(0, i).drop_first());
        assert(b1.subrange(0, i - 1) =~= b.subrange(0, i).drop_first());
        lemma_skip_common_prefix(a1, b1, i - 1);
        assert(a1.skip(i - 1) =~= a.skip(i));
        assert(b1.skip(i - 1) =~= b.skip(i));
        if a1 == b1 {
            assert(a =~= seq![a[0]] + a1);
            assert(b =~= seq![b[0]] + b1);
        }
    } else {
        assert(a.skip(0) =~= a);
        assert(b.skip(0) =~= b);
    }
}

/// Compares two names in the order of names.
pub fn compare_names(a: &str, b: &str) -> (r: NameOrder)
    ensures
        r == name_order(a@, b@),
{
    let x = a.as_bytes();
    let y = b.as_bytes();
    proof {
        lemma_encoding_injective(a@, b@);
    }
    let mut i: usize = 0;
    while i < x.len() && i < y.len()
        invariant
            i <= x.len(),
            i <= y.len(),
            x@.subrange(0, i as int) == y@.subrange(0, i as int),
            x@ == encode_utf8(a@),
            y@ == encode_utf8(b@),
            (x@ == y@) == (a@ == b@),
        decreases x.len() - i,
    {
        proof {
            lemma_skip_common_prefix(x@, y@, i as int);
        }
        if x[i] < y[i] {
            assert(x@.skip(i as int)[0] == x@[i as int]);
            assert(y@.skip(i as int)[0] == y@[i as int]);
            return NameOrder::Before;
        }
        if x[i] > y[i] {
            assert(x@.skip(i as int)[0] == x@[i as int]);
            assert(y@.skip(i as int)[0] == y@[i as int]);
            return NameOrder::After;
        }
        assert(x@.subrange(0, i + 1) =~= x@.subrange(0, i as int).push(x@[i as int]));
        assert(y@.subrange(0, i + 1) =~= y@.subrange(0, i as int).push(y@[i as int]));
        i += 1;
    }
    proof {
        lemma_skip_common_prefix(x@, y@, i as int);
        if x@.skip(i as int).len() == 0 && y@.skip(i as int).len() == 0 {
            assert(x@.skip(i as int) =~= y@.skip(i as int));
        }
    }
    if i < y.len() {
        NameOrder::Before
    } else if i < x.len() {
        NameOrder::After
    } else {
        NameOrder::Same
    }
}

/// Whether two texts are the same.
pub fn same_text(a: &str, b: &str) -> (r: bool)
    ensures
        r == (a@ == b@),
{
    match compare_names(a, b) {
        NameOrder::Same => true,
        _ => false,
    }
}

/// Whether `needle` occurs somewhere in `hay` as one unbroken run.
pub open spec fn is_substring(needle: Seq<char>, hay: Seq<char>) -> bool {
    exists|at: int|
        0 <= at && at + needle.len() <= hay.len() && #[trigger] hay.subrange(
            at,
            at + needle.len(),
        ) == needle
}

/// Calls `str::contains` with a string pattern: whether the pattern matches
/// a sub-slice of the text.
#[verifier::external_body]
pub(crate) fn contains_text(hay: &str, needle: &str) -> (r: bool)
    ensures
        r == is_substring(needle@, hay@),
{
    hay.contains(needle)
}

/// Every text followed by a line feed, all in one sequence.
pub open spec fn join_lines(texts: Seq<Seq<char>>) -> Seq<char>
    decreases texts.len(),
{
    if texts.len() == 0 {
        Seq::empty()
    } else {
        join_lines(texts.drop_last()) + texts.last() + seq!['\n']
    }
}

/// Appends one text and a line feed to a payload.
pub fn push_line(payload: &mut String, text: &str)
    ensures
        final(payload)@ == old(payload)@ + text@ + seq!['\n'],
{
    proof {
        reveal_strlit("\n");
    }
    payload.append(text);
    payload.append("\n");
    assert("\n"@ =~= seq!['\n']);
}

/// Whether a wildcard pattern matches a whole text. `?` stands for exactly one
/// character, `*` for any run of characters, the empty run included; every
/// other character stands for itself.
pub open spec fn glob_matches(pattern: Seq<char>, text: Seq<char>) -> bool
    decreases pattern.len(), text.len(),
{
    if pattern.len() == 0 {
        text.len() == 0
    } else if pattern[0] == '*' {
        glob_matches(pattern.drop_first(), text) || (text.len() > 0 && glob_matches(
            pattern,
            text.drop_first(),
        ))
    } else {
        text.len() > 0 && (pattern[0] == '?' || pattern[0] == text[0]) && glob_matches(
            pattern.drop_first(),
            text.drop_first(),
        )
    }
}

/// The pattern that a listing filter stands for: an empty filter lists
/// everything.
pub open spec fn effective_pattern(filter: Seq<char>) -> Seq<char> {
    if filter.len() == 0 {
        seq!['*']
    } else {
        filter
    }
}

/// Whether a listing filter lets a name through.
pub open spec fn filter_matches(filter: Seq<char>, name: Seq<char>) -> bool {
    glob_matches(effective_pattern(filter), name)
}

/// Calls `wildmatch::WildMatch::new` on the pattern and `matches` on the text.
/// The crate documents its patterns as matching a whole text, with `?` for one
/// character and `*` for any number of them and no escapes; the contract
/// states that meaning.
#[verifier::external_body]
fn wildcard_matches(pattern: &str, text: &str) -> (r: bool)
    ensures
        r == glob_matches(pattern@, text@),
{
    wildmatch::WildMatch::new(pattern).matches(text)
}

/// Whether a listing filter lets a name through; the empty filter is read as
/// `*`.
pub fn matches_filter(filter: &str, name: &str) -> (r: bool)
    ensures
        r == filter_matches(filter@, name@),
{
    if filter.is_empty() {
        proof {
            reveal_strlit("*");
        }
        assert("*"@ =~= seq!['*']);
        wildcard_matches("*", name)
    } else {
        wildcard_matches(filter, name)
    }
}

/// The pattern `*` matches every text.
pub proof fn lemma_star_matches_all(text: Seq<char>)
    ensures
        glob_matches(seq!['*'], text),
    decreases text.len(),
{
    let star = seq!['*'];
    if text.len() == 0 {
        assert(glob_matches(star.drop_first(), text));
    } else {
        lemma_star_matches_all(text.drop_first());
    }
}

/// The empty filter and the filter `*` let the same names through: all of them.
pub proof fn lemma_empty_filter_is_star(name: Seq<char>)
    ensures
        filter_matches(Seq::empty(), name) == filter_matches(seq!['*'], name),
        filter_matches(Seq::empty(), name),
{
    lemma_star_matches_all(name);
}

} // verus!
