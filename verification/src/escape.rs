//! Escapes text for safe embedding in the vector-markup artifact: the four
//! reserved characters `&`, `<`, `>` and `"` become entity references, and
//! every other character passes through unchanged.

use vstd::prelude::*;
use vstd::string::StrSliceExecFns;
use vstd::string::StringExecFns;

verus! {

pub open spec fn is_reserved(c: char) -> bool {
    c == '&' || c == '<' || c == '>' || c == '"'
}

/// What one character contributes to the escaped text.
pub open spec fn escape_char(c: char) -> Seq<char> {
    if c == '&' {
        seq!['&', 'a', 'm', 'p', ';']
    } else if c == '<' {
        seq!['&', 'l', 't', ';']
    } else if c == '>' {
        seq!['&', 'g', 't', ';']
    } else if c == '"' {
        seq!['&', 'q', 'u', 'o', 't', ';']
    } else {
        seq![c]
    }
}

/// The escaped form of a whole text.
pub open spec fn spec_escape(s: Seq<char>) -> Seq<char>
    decreases s.len(),
{
    if s.len() == 0 {
        Seq::empty()
    } else {
        escape_char(s[0]) + spec_escape(s.drop_first())
    }
}

proof fn lemma_escape_snoc(s: Seq<char>, c: char)
    ensures
        spec_escape(s.push(c)) == spec_escape(s) + escape_char(c),
    decreases s.len(),
{
    let sc = s.push(c);
    assert(sc.len() == s.len() + 1);
    if s.len() == 0 {
        assert(sc[0] == c);
        assert(sc.drop_first() =~= Seq::<char>::empty());
        assert(spec_escape(sc) == escape_char(c) + spec_escape(Seq::<char>::empty()));
        assert(spec_escape(sc) =~= spec_escape(s) + escape_char(c));
    } else {
        assert(sc[0] == s[0]);
        assert(sc.drop_first() =~= s.drop_first().push(c));
        lemma_escape_snoc(s.drop_first(), c);
        assert(spec_escape(sc) == escape_char(s[0]) + spec_escape(s.drop_first().push(c)));
        assert(spec_escape(sc) =~= spec_escape(s) + escape_char(c));
    }
}

/// Escape text for safe inclusion in the markup output.
pub fn escape_xml(s: &str) -> (r: String)
    ensures
        r@ == spec_escape(s@),
{
    let n = s.unicode_len();
    let mut out = String::new();
    let mut i: usize = 0;
    while i < n
        invariant
            n == s@.len(),
            0 <= i <= n,
            out@ == spec_escape(s@.subrange(0, i as int)),
        decreases n - i,
    {
        let c = s.get_char(i);
        if c == '&' {
            out.append("&amp;");
        } else if c == '<' {
            out.append("&lt;");
        } else if c == '>' {
            out.append("&gt;");
        } else if c == '"' {
            out.append("&quot;");
        } else {
            out.push(c);
        }
        proof {
            reveal_strlit("&amp;");
            reveal_strlit("&lt;");
            reveal_strlit("&gt;");
            reveal_strlit("&quot;");
            lemma_escape_snoc(s@.subrange(0, i as int), c);
            assert(s@.subrange(0, i + 1).drop_last() =~= s@.subrange(0, i as int));
            assert(s@.subrange(0, i + 1) =~= s@.subrange(0, i as int).push(s@[i as int]));
            assert(out@ =~= spec_escape(s@.subrange(0, i + 1)));
        }
        i += 1;
    }
    proof {
        assert(s@.subrange(0, n as int) =~= s@);
    }
    out
}

// ---------------------------------------------------------------------------
// Laws of the escaping
// ---------------------------------------------------------------------------

/// `needle` occurs contiguously somewhere inside `hay`.
pub open spec fn contains_seq(hay: Seq<char>, needle: Seq<char>) -> bool {
    exists|i: int|
        0 <= i && i + needle.len() <= hay.len() && #[trigger] hay.subrange(i, i + needle.len())
            == needle
}

proof fn lemma_contains_shift(prefix: Seq<char>, hay: Seq<char>, needle: Seq<char>)
    requires
        contains_seq(hay, needle),
    ensures
        contains_seq(prefix + hay, needle),
{
    let i = choose|i: int|
        0 <= i && i + needle.len() <= hay.len() && #[trigger] hay.subrange(i, i + needle.len())
            == needle;
    let j = prefix.len() + i;
    assert((prefix + hay).subrange(j, j + needle.len()) =~= hay.subrange(i, i + needle.len()));
}

/// Law: text that holds none of the four reserved characters passes through
/// the escaping unchanged.
pub proof fn lemma_escape_plain(s: Seq<char>)
    requires
        forall|i: int| 0 <= i < s.len() ==> !is_reserved(s[i]),
    ensures
        spec_escape(s) == s,
    decreases s.len(),
{
    if s.len() == 0 {
        assert(spec_escape(s) =~= s);
    } else {
        lemma_escape_plain(s.drop_first());
        assert(spec_escape(s) =~= s);
    }
}

/// Law: every character of the input shows up in the escaped text as its
/// entity expansion — in particular, inputs holding `&`, `<`, `>` or `"`
/// yield text holding `&amp;`, `&lt;`, `&gt;` or `&quot;` respectively.
pub proof fn lemma_escape_contains(s: Seq<char>, k: int)
    requires
        0 <= k < s.len(),
    ensures
        contains_seq(spec_escape(s), escape_char(s[k])),
    decreases s.len(),
{
    assert(spec_escape(s) == escape_char(s[0]) + spec_escape(s.drop_first()));
    if k == 0 {
        let e = escape_char(s[0]);
        let hay = spec_escape(s);
        assert(hay.subrange(0, 0 + e.len() as int) =~= e);
        assert(contains_seq(hay, e));
    } else {
        assert(s.drop_first()[k - 1] == s[k]);
        lemma_escape_contains(s.drop_first(), k - 1);
        lemma_contains_shift(escape_char(s[0]), spec_escape(s.drop_first()), escape_char(s[k]));
    }
}

} // verus!
