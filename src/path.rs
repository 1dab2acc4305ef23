//! Textual storage paths: `pallet/item[/key1[/key2...]]`.

use vstd::prelude::*;
use vstd::string::*;

verus! {

/// The views of a sequence of strings.
pub open spec fn string_views(v: Seq<String>) -> Seq<Seq<char>> {
    v.map_values(|s: String| s@)
}

/// `c` with an ASCII lower-case letter made upper-case; every other character unchanged.
pub open spec fn ascii_upper(c: char) -> char {
    if 'a' <= c && c <= 'z' {
        ((c as u8) - 32) as u8 as char
    } else {
        c
    }
}

fn to_ascii_upper(c: char) -> (r: char)
    ensures
        r == ascii_upper(c),
{
    if 'a' <= c && c <= 'z' {
        ((c as u8) - 32) as char
    } else {
        c
    }
}

/// The camel-case form of `s` so far, and whether the next letter starts a word.
pub open spec fn camel_state(s: Seq<char>) -> (Seq<char>, bool)
    decreases s.len(),
{
    if s.len() == 0 {
        (seq![], true)
    } else {
        let (r, at_new_word) = camel_state(s.drop_last());
        let c = s.last();
        if c == '-' {
            (r, true)
        } else if at_new_word {
            (r.push(ascii_upper(c)), false)
        } else {
            (r.push(c), false)
        }
    }
}

/// `s` with its hyphens removed and the first letter of each hyphen-delimited word upper-cased.
pub open spec fn camel_spec(s: Seq<char>) -> Seq<char> {
    camel_state(s).0
}

/// The pieces of `s` between its `/` characters, in order; there is always at least one.
pub open spec fn split_spec(s: Seq<char>) -> Seq<Seq<char>>
    decreases s.len(),
{
    if s.len() == 0 {
        seq![seq![]]
    } else {
        let prev = split_spec(s.drop_last());
        if s.last() == '/' {
            prev.push(seq![])
        } else {
            prev.update(prev.len() - 1, prev.last().push(s.last()))
        }
    }
}

pub proof fn lemma_split_nonempty(s: Seq<char>)
    ensures
        split_spec(s).len() >= 1,
    decreases s.len(),
{
    if s.len() > 0 {
        lemma_split_nonempty(s.drop_last());
    }
}

/// Relies on String's FromIterator<&char>: the string holds the characters in order.
#[verifier::external_body]
fn string_from_chars(chars: &Vec<char>) -> (r: String)
    ensures
        r@ == chars@,
{
    chars.iter().collect()
}

/// Converts a hyphen-delimited lower-case word list to capitalised words:
/// `"account-nonce"` becomes `"AccountNonce"`.
pub fn to_camel(term: &str) -> (r: String)
    ensures
        r@ == camel_spec(term@),
{
    let n = term.unicode_len();
    let mut out: Vec<char> = Vec::new();
    let mut at_new_word = true;
    let mut i: usize = 0;
    while i < n
        invariant
            n == term@.len(),
            i <= n,
            (out@, at_new_word) == camel_state(term@.subrange(0, i as int)),
        decreases n - i,
    {
        let c = term.get_char(i);
        proof {
            assert(term@.subrange(0, i + 1).drop_last() == term@.subrange(0, i as int));
        }
        if c == '-' {
            at_new_word = true;
        } else if at_new_word {
            out.push(to_ascii_upper(c));
            at_new_word = false;
        } else {
            out.push(c);
        }
        i = i + 1;
    }
    assert(term@.subrange(0, n as int) == term@);
    string_from_chars(&out)
}

/// Splits `s` at every `/`.
pub fn split_path(s: &str) -> (r: Vec<String>)
    ensures
        string_views(r@) == split_spec(s@),
{
    let n = s.unicode_len();
    let mut segs: Vec<String> = Vec::new();
    let mut cur: Vec<char> = Vec::new();
    let mut i: usize = 0;
    proof {
        assert(s@.subrange(0, 0) =~= Seq::<char>::empty());
        assert(string_views(segs@).push(cur@) =~= split_spec(s@.subrange(0, 0)));
    }
    while i < n
        invariant
            n == s@.len(),
            i <= n,
            string_views(segs@).push(cur@) == split_spec(s@.subrange(0, i as int)),
        decreases n - i,
    {
        let c = s.get_char(i);
        let ghost before = s@.subrange(0, i as int);
        proof {
            assert(s@.subrange(0, i + 1).drop_last() == before);
            lemma_split_nonempty(before);
        }
        if c == '/' {
            let seg = string_from_chars(&cur);
            segs.push(seg);
            cur = Vec::new();
            proof {
                assert(string_views(segs@).push(cur@) =~= split_spec(before).push(seq![]));
            }
        } else {
            cur.push(c);
            proof {
                let prev = split_spec(before);
                assert(string_views(segs@).push(cur@) =~= prev.update(prev.len() - 1, prev.last().push(c)));
            }
        }
        i = i + 1;
    }
    let last = string_from_chars(&cur);
    segs.push(last);
    proof {
        assert(s@.subrange(0, n as int) == s@);
        assert(string_views(segs@) =~= split_spec(s@));
    }
    segs
}

} // verus!
