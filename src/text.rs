//! Text helpers: key normalization and quote stripping.
use vstd::prelude::*;
use vstd::std_specs::iter::IteratorSpec;

verus! {

/// What `str::to_uppercase` returns for a string: the Unicode uppercase mapping
/// of each character.
pub uninterp spec fn upper_of(s: Seq<char>) -> Seq<char>;

/// True when every character is ASCII.
pub open spec fn all_ascii(s: Seq<char>) -> bool {
    forall|i: int| 0 <= i < s.len() ==> (s[i] as u32) < 128
}

/// The ASCII uppercase form of one character.
pub open spec fn ascii_upper_char(c: char) -> char {
    if 'a' <= c && c <= 'z' {
        ((c as u32) - 32) as char
    } else {
        c
    }
}

/// The ASCII uppercase form of a string.
pub open spec fn ascii_upper(s: Seq<char>) -> Seq<char> {
    Seq::new(s.len(), |i: int| ascii_upper_char(s[i]))
}

/// Every hyphen replaced by an underscore.
pub open spec fn hyphens_to_underscores(s: Seq<char>) -> Seq<char> {
    Seq::new(s.len(), |i: int| if s[i] == '-' { '_' } else { s[i] })
}

/// The environment-variable name a setting key is written under: uppercased
/// (by ASCII rules where the key is ASCII), with hyphens made underscores.
pub open spec fn normalized(k: Seq<char>) -> Seq<char> {
    if all_ascii(k) {
        hyphens_to_underscores(ascii_upper(k))
    } else {
        hyphens_to_underscores(upper_of(k))
    }
}

/// One leading and then one trailing double quote removed, where present.
pub open spec fn strip_quotes(t: Seq<char>) -> Seq<char> {
    let a = if t.len() > 0 && t[0] == '"' { t.drop_first() } else { t };
    if a.len() > 0 && a.last() == '"' { a.drop_last() } else { a }
}

/// Relies on `str::to_uppercase`: the result depends on the characters alone,
/// and on ASCII text it is the ASCII uppercase form.
#[verifier::external_body]
fn to_upper(s: &str) -> (r: String)
    ensures
        r@ == upper_of(s@),
        all_ascii(s@) ==> r@ == ascii_upper(s@),
{
    s.to_uppercase()
}

/// The characters of `s` in order.
pub(crate) fn chars_of(s: &str) -> (r: Vec<char>)
    ensures
        r@ == s@,
{
    broadcast use vstd::string::axiom_spec_iter, vstd::string::next_postcondition;
    let mut it = s.chars();
    let mut out: Vec<char> = Vec::new();
    loop
        invariant
            out@ + it.remaining() == s@,
            it.decrease() is Some,
        ensures
            out@ == s@,
        decreases it.decrease()->0,
    {
        match it.next() {
            Some(c) => {
                let ghost before = out@;
                out.push(c);
                assert(out@ + it.remaining() =~= before + seq![c] + it.remaining());
            },
            None => {
                assert(out@ =~= s@);
                break;
            },
        }
    }
    out
}

/// Relies on `String: FromIterator<char>`: the string of the given characters.
#[verifier::external_body]
pub(crate) fn string_of(cs: &Vec<char>) -> (r: String)
    ensures
        r@ == cs@,
{
    cs.iter().collect()
}

/// Whether two strings hold the same characters.
pub fn same_text(a: &str, b: &str) -> (r: bool)
    ensures
        r == (a@ == b@),
{
    let ca = chars_of(a);
    let cb = chars_of(b);
    if ca.len() != cb.len() {
        return false;
    }
    let mut i: usize = 0;
    while i < ca.len()
        invariant
            ca@ == a@,
            cb@ == b@,
            ca.len() == cb.len(),
            i <= ca.len(),
            forall|j: int| 0 <= j < i ==> ca@[j] == cb@[j],
        decreases ca.len() - i,
    {
        if ca[i] != cb[i] {
            return false;
        }
        i = i + 1;
    }
    assert(ca@ =~= cb@);
    true
}

/// The environment-variable name for a setting key: uppercased, with every
/// hyphen replaced by an underscore.
pub fn normalize_key(k: &str) -> (r: String)
    ensures
        r@ == normalized(k@),
{
    let up = to_upper(k);
    let cs = chars_of(up.as_str());
    let mut out: Vec<char> = Vec::new();
    let mut i: usize = 0;
    while i < cs.len()
        invariant
            cs@ == up@,
            up@ == upper_of(k@),
            all_ascii(k@) ==> up@ == ascii_upper(k@),
            i <= cs.len(),
            out@ =~= hyphens_to_underscores(cs@.take(i as int)),
        decreases cs.len() - i,
    {
        let c = cs[i];
        if c == '-' {
            out.push('_');
        } else {
            out.push(c);
        }
        i = i + 1;
        assert(out@ =~= hyphens_to_underscores(cs@.take(i as int)));
    }
    assert(cs@.take(cs.len() as int) =~= cs@);
    string_of(&out)
}

/// Removes one leading and then one trailing double quote, where present.
pub fn strip_one_quote_each_side(t: &str) -> (r: String)
    ensures
        r@ == strip_quotes(t@),
{
    let cs = chars_of(t);
    let n = cs.len();
    let start: usize = if n > 0 && cs[0] == '"' { 1 } else { 0 };
    let end: usize = if n > start && cs[n - 1] == '"' { n - 1 } else { n };
    let mut out: Vec<char> = Vec::new();
    let mut i: usize = start;
    while i < end
        invariant
            cs@ == t@,
            n == cs.len(),
            start <= i <= end <= n,
            out@ =~= cs@.subrange(start as int, i as int),
        decreases end - i,
    {
        out.push(cs[i]);
        i = i + 1;
    }
    string_of(&out)
}

} // verus!
