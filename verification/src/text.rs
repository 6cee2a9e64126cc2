//! Text as the tables compare and order it.

use vstd::prelude::*;
use vstd::std_specs::iter::IteratorSpec;
use vstd::string::*;
use vstd::utf8::*;

verus! {

/// An optional text as a contract sees it.
pub open spec fn opt_text(o: Option<String>) -> Option<Seq<char>> {
    match o {
        Some(s) => Some(s@),
        None => None,
    }
}

/// A copy of an optional text.
pub fn copy_opt_text(o: &Option<String>) -> (r: Option<String>)
    ensures
        opt_text(r) == opt_text(*o),
{
    match o {
        Some(s) => Some(s.clone()),
        None => None,
    }
}

/// `s` without the white space at its two ends, as `str::trim` removes it.
pub uninterp spec fn trimmed(s: Seq<char>) -> Seq<char>;

/// `s` in lower case, as `str::to_lowercase` maps it.
pub uninterp spec fn lowercased(s: Seq<char>) -> Seq<char>;

/// `str::trim` returns the text without leading and trailing white space, as
/// Unicode defines it. The result depends on the text alone.
pub assume_specification[ str::trim ](s: &str) -> (r: &str)
    ensures
        r@ == trimmed(s@),
;

/// `str::to_lowercase` returns the lower-case form of the text, as Unicode
/// defines it. The result depends on the text alone.
pub assume_specification[ str::to_lowercase ](s: &str) -> (r: String)
    ensures
        r@ == lowercased(s@),
;

/// An email as it is stored and compared: trimmed, then in lower case.
pub open spec fn normalized_email(raw: Seq<char>) -> Seq<char> {
    lowercased(trimmed(raw))
}

/// An optional email in its stored form.
pub open spec fn normalized_opt(email: Option<Seq<char>>) -> Option<Seq<char>> {
    match email {
        Some(raw) => Some(normalized_email(raw)),
        None => None,
    }
}

/// Whether `email` is the stored form of some text.
pub open spec fn is_normalized_email(email: Seq<char>) -> bool {
    exists|raw: Seq<char>| email == #[trigger] normalized_email(raw)
}

/// The stored form of an email as typed.
pub fn normalize_email(raw: &str) -> (email: String)
    ensures
        email@ == normalized_email(raw@),
{
    raw.trim().to_lowercase()
}

/// What stands before the first `@` of `email`; all of it where there is none.
pub open spec fn local_part(email: Seq<char>) -> Seq<char>
    decreases email.len(),
{
    if email.len() == 0 || email[0] == '@' {
        Seq::empty()
    } else {
        seq![email[0]] + local_part(email.drop_first())
    }
}

/// Bytewise lexicographic order, the order in which the storage sorts text.
pub open spec fn bytes_le(a: Seq<u8>, b: Seq<u8>) -> bool
    decreases a.len(),
{
    if a.len() == 0 {
        true
    } else if b.len() == 0 {
        false
    } else if a[0] != b[0] {
        a[0] < b[0]
    } else {
        bytes_le(a.drop_first(), b.drop_first())
    }
}

/// `a` sorts at or before `b`: their UTF-8 encodings compared byte by byte.
pub open spec fn text_le(a: Seq<char>, b: Seq<char>) -> bool {
    bytes_le(encode_utf8(a), encode_utf8(b))
}

/// Any text sorts at or before itself.
pub proof fn lemma_bytes_le_reflexive(a: Seq<u8>)
    ensures
        bytes_le(a, a),
    decreases a.len(),
{
    if a.len() > 0 {
        lemma_bytes_le_reflexive(a.drop_first());
    }
}

/// Of two texts, one sorts at or before the other.
pub proof fn lemma_bytes_le_total(a: Seq<u8>, b: Seq<u8>)
    ensures
        bytes_le(a, b) || bytes_le(b, a),
    decreases a.len(),
{
    if a.len() > 0 && b.len() > 0 && a[0] == b[0] {
        lemma_bytes_le_total(a.drop_first(), b.drop_first());
    }
}

/// The order is transitive.
pub proof fn lemma_bytes_le_transitive(a: Seq<u8>, b: Seq<u8>, c: Seq<u8>)
    requires
        bytes_le(a, b),
        bytes_le(b, c),
    ensures
        bytes_le(a, c),
    decreases a.len(),
{
    if a.len() > 0 && b.len() > 0 && c.len() > 0 && a[0] == b[0] && b[0] == c[0] {
        lemma_bytes_le_transitive(a.drop_first(), b.drop_first(), c.drop_first());
    }
}

/// Whether `a` sorts at or before `b`.
pub fn text_at_or_before(a: &str, b: &str) -> (r: bool)
    ensures
        r == text_le(a@, b@),
{
    let x = a.as_bytes();
    let y = b.as_bytes();
    let n = x.len();
    let m = y.len();
    let mut i: usize = 0;
    assert(x@.skip(0) =~= x@ && y@.skip(0) =~= y@);
    while i < n && i < m
        invariant
            i <= n,
            i <= m,
            n == x@.len(),
            m == y@.len(),
            x@ == encode_utf8(a@),
            y@ == encode_utf8(b@),
            bytes_le(x@, y@) == bytes_le(x@.skip(i as int), y@.skip(i as int)),
        decreases n - i,
    {
        assert(x@.skip(i as int)[0] == x@[i as int] && y@.skip(i as int)[0] == y@[i as int]);
        if x[i] != y[i] {
            return x[i] < y[i];
        }
        proof {
            assert(x@.skip(i as int).drop_first() =~= x@.skip(i as int + 1));
            assert(y@.skip(i as int).drop_first() =~= y@.skip(i as int + 1));
        }
        i += 1;
    }
    i == n
}

/// Whether two texts hold the same characters.
pub fn same_text(a: &str, b: &str) -> (r: bool)
    ensures
        r == (a@ == b@),
{
    let x = a.as_bytes();
    let y = b.as_bytes();
    proof {
        encode_utf8_decode_utf8(a@);
        encode_utf8_decode_utf8(b@);
    }
    let n = x.len();
    if n != y.len() {
        return false;
    }
    let mut i: usize = 0;
    while i < n
        invariant
            i <= n,
            n == x@.len(),
            n == y@.len(),
            a@ == b@ ==> x@ == y@,
            forall|k: int| 0 <= k < i ==> x@[k] == y@[k],
        decreases n - i,
    {
        if x[i] != y[i] {
            assert(x@[i as int] != y@[i as int]);
            return false;
        }
        i += 1;
    }
    assert(x@ =~= y@);
    true
}

/// What stands before the first `@` of `email`.
pub fn local_part_of(email: &str) -> (part: String)
    ensures
        part@ == local_part(email@),
{
    broadcast use vstd::string::group_string_axioms;

    let n = email.unicode_len();
    let mut rest = email.chars();
    let mut i: usize = 0;
    assert(email@.skip(0) =~= email@);
    loop
        invariant_except_break
            rest.remaining() == email@.skip(i as int),
            local_part(email@) == email@.take(i as int) + local_part(email@.skip(i as int)),
        invariant
            i <= n,
            n == email@.len(),
        ensures
            i <= n,
            local_part(email@) == email@.take(i as int),
        decreases n - i,
    {
        let ghost tail = email@.skip(i as int);
        match rest.next() {
            Some(c) if c != '@' => {
                proof {
                    assert(tail[0] == email@[i as int]);
                    assert(tail.drop_first() =~= email@.skip(i as int + 1));
                    assert(email@.take(i as int) + (seq![tail[0]] + local_part(tail.drop_first()))
                        =~= email@.take(i as int + 1) + local_part(tail.drop_first()));
                }
                i += 1;
            },
            _ => {
                proof {
                    assert(local_part(tail) =~= Seq::empty());
                    assert(email@.take(i as int) + Seq::<char>::empty() =~= email@.take(i as int));
                }
                break;
            },
        }
    }
    email.substring_char(0, i).to_owned()
}

} // verus!
