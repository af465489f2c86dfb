//! Character-level helpers shared by the registry: name canonicalization,
//! lexicographic ordering of canonical names, and prefix matching.
use vstd::prelude::*;

verus! {

/// Lowercase mapping for a single character: ASCII uppercase letters are
/// mapped to their lowercase counterparts, every other character is unchanged.
pub open spec fn lower_char(c: char) -> char {
    if 'A' <= c && c <= 'Z' {
        ((c as u32) + 32) as char
    } else {
        c
    }
}

/// The canonical form of a user-supplied name: every character lowercased.
/// The canonical form is the true identity of a record.
pub open spec fn canon(s: Seq<char>) -> Seq<char> {
    s.map_values(|c: char| lower_char(c))
}

/// Strict lexicographic order on character sequences, by code point; a proper
/// prefix sorts before its extensions.  Canonical names are enumerated in this
/// order.
pub open spec fn seq_lt(a: Seq<char>, b: Seq<char>) -> bool
    decreases a.len(),
{
    if b.len() == 0 {
        false
    } else if a.len() == 0 {
        true
    } else if a[0] != b[0] {
        a[0] < b[0]
    } else {
        seq_lt(a.drop_first(), b.drop_first())
    }
}

/// `seq_lt` is irreflexive.
pub proof fn lemma_seq_lt_irrefl(a: Seq<char>)
    ensures
        !seq_lt(a, a),
    decreases a.len(),
{
    if a.len() > 0 {
        lemma_seq_lt_irrefl(a.drop_first());
    }
}

/// Any two distinct sequences are ordered one way or the other.
pub proof fn lemma_seq_lt_connected(a: Seq<char>, b: Seq<char>)
    requires
        a != b,
    ensures
        seq_lt(a, b) || seq_lt(b, a),
    decreases a.len(),
{
    if a.len() == 0 {
        if b.len() == 0 {
            assert(a =~= b);
        }
    } else if b.len() == 0 {
    } else if a[0] == b[0] {
        if a.drop_first() == b.drop_first() {
            assert(a.drop_first().len() == a.len() - 1);
            assert(b.drop_first().len() == b.len() - 1);
            assert(a.len() == b.len());
            assert forall|j: int| 0 <= j < a.len() implies a[j] == b[j] by {
                if j >= 1 {
                    assert(a[j] == a.drop_first()[j - 1]);
                    assert(b[j] == b.drop_first()[j - 1]);
                }
            }
            assert(a =~= b);
        } else {
            lemma_seq_lt_connected(a.drop_first(), b.drop_first());
        }
    }
}

/// `seq_lt` is transitive.
pub proof fn lemma_seq_lt_trans(a: Seq<char>, b: Seq<char>, c: Seq<char>)
    requires
        seq_lt(a, b),
        seq_lt(b, c),
    ensures
        seq_lt(a, c),
    decreases a.len() + b.len() + c.len(),
{
    if a.len() == 0 {
    } else if b.len() == 0 {
    } else if c.len() == 0 {
    } else {
        if a[0] == b[0] && b[0] == c[0] {
            lemma_seq_lt_trans(a.drop_first(), b.drop_first(), c.drop_first());
        }
    }
}

/// Dropping an equal head preserves the order relation between the tails.
proof fn lemma_seq_lt_skip(a: Seq<char>, b: Seq<char>, i: int)
    requires
        0 <= i <= a.len(),
        0 <= i <= b.len(),
        forall|j: int| 0 <= j < i ==> a[j] == b[j],
    ensures
        seq_lt(a, b) == seq_lt(a.skip(i), b.skip(i)),
    decreases i,
{
    if i > 0 {
        assert(a.len() > 0 && b.len() > 0 && a[0] == b[0]);
        assert(seq_lt(a, b) == seq_lt(a.drop_first(), b.drop_first()));
        assert(a.drop_first().skip(i - 1) =~= a.skip(i));
        assert(b.drop_first().skip(i - 1) =~= b.skip(i));
        lemma_seq_lt_skip(a.drop_first(), b.drop_first(), i - 1);
    } else {
        assert(a.skip(0) =~= a);
        assert(b.skip(0) =~= b);
    }
}

/// Relies on `str::to_ascii_lowercase`: it maps each ASCII uppercase letter of
/// the string to its lowercase counterpart and leaves every other character
/// unchanged.
#[verifier::external_body]
pub fn lowercase(s: &str) -> (r: String)
    ensures
        r@ == canon(s@),
{
    s.to_ascii_lowercase()
}

/// Decides the strict lexicographic order between two strings.
pub fn str_lt(a: &str, b: &str) -> (r: bool)
    ensures
        r == seq_lt(a@, b@),
{
    let a_len = a.unicode_len();
    let b_len = b.unicode_len();
    let mut i: usize = 0;
    while i < a_len && i < b_len
        invariant
            i <= a_len,
            i <= b_len,
            a_len == a@.len(),
            b_len == b@.len(),
            forall|j: int| 0 <= j < i ==> a@[j] == b@[j],
        decreases a_len - i,
    {
        let ca = a.get_char(i);
        let cb = b.get_char(i);
        if ca != cb {
            proof {
                lemma_seq_lt_skip(a@, b@, i as int);
            }
            return ca < cb;
        }
        i = i + 1;
    }
    proof {
        lemma_seq_lt_skip(a@, b@, i as int);
        if i == a_len {
            assert(a@.skip(i as int).len() == 0);
            if i < b_len {
                assert(b@.skip(i as int).len() > 0);
                assert(seq_lt(a@.skip(i as int), b@.skip(i as int)));
            } else {
                assert(b@.skip(i as int).len() == 0);
                assert(!seq_lt(a@.skip(i as int), b@.skip(i as int)));
            }
        } else {
            assert(b@.skip(i as int).len() == 0);
            assert(!seq_lt(a@.skip(i as int), b@.skip(i as int)));
        }
    }
    a_len < b_len
}

/// Decides whether `p` is a prefix of `s`.
pub fn str_starts_with(s: &str, p: &str) -> (r: bool)
    ensures
        r == p@.is_prefix_of(s@),
{
    let s_len = s.unicode_len();
    let p_len = p.unicode_len();
    if p_len > s_len {
        return false;
    }
    let mut i: usize = 0;
    while i < p_len
        invariant
            i <= p_len,
            p_len <= s_len,
            s_len == s@.len(),
            p_len == p@.len(),
            forall|j: int| 0 <= j < i ==> s@[j] == p@[j],
        decreases p_len - i,
    {
        if s.get_char(i) != p.get_char(i) {
            assert(!p@.is_prefix_of(s@));
            return false;
        }
        i = i + 1;
    }
    assert(p@.is_prefix_of(s@)) by {
        assert(p@ =~= s@.subrange(0, p@.len() as int));
    }
    true
}

/// Concatenates two string slices; used to assemble diagnostic messages.
pub fn concat2(a: &str, b: &str) -> (r: String)
    ensures
        r@ == a@ + b@,
{
    let s = String::from_str(a);
    s.concat(b)
}

/// Concatenates three string slices; used to assemble diagnostic messages.
pub fn concat3(a: &str, b: &str, c: &str) -> (r: String)
    ensures
        r@ == a@ + b@ + c@,
{
    let s = String::from_str(a);
    let s = s.concat(b);
    s.concat(c)
}

} // verus!
