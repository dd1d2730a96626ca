// Text primitives shared by the rest of the crate: the contracts under which
// the standard library's string functions are used, and decimal rendering.

use vstd::prelude::*;
use vstd::string::*;

verus! {

/// `needle` occurs in `haystack` starting at character `at`.
pub open spec fn occurs_at(needle: Seq<char>, haystack: Seq<char>, at: int) -> bool {
    &&& 0 <= at
    &&& at + needle.len() <= haystack.len()
    &&& haystack.subrange(at, at + needle.len()) == needle
}

/// `needle` occurs somewhere in `haystack` as a contiguous run of characters.
/// The empty sequence occurs in every sequence.
pub open spec fn is_substring(needle: Seq<char>, haystack: Seq<char>) -> bool {
    exists|at: int| occurs_at(needle, haystack, at)
}

/// Whether `c` has the Unicode property `White_Space`, the characters that
/// `str::trim` removes: the controls from tab to carriage return, the space,
/// next line, the no-break space, the ogham space mark, the spaces from en
/// quad to hair space, the line and paragraph separators, the narrow
/// no-break space, the medium mathematical space and the ideographic space.
pub open spec fn white_space(c: char) -> bool {
    let code: u32 = c as u32;
    ||| 0x09 <= code <= 0x0d
    ||| code == 0x20
    ||| code == 0x85
    ||| code == 0xa0
    ||| code == 0x1680
    ||| 0x2000 <= code <= 0x200a
    ||| code == 0x2028
    ||| code == 0x2029
    ||| code == 0x202f
    ||| code == 0x205f
    ||| code == 0x3000
}

/// The result of `str::to_lowercase` on the text `s`: its lowercase
/// equivalent under the Unicode case mappings.
pub uninterp spec fn lowercase(s: Seq<char>) -> Seq<char>;

/// Every character of `s` is white space.
pub open spec fn all_white_space(s: Seq<char>) -> bool {
    forall|i: int| 0 <= i < s.len() ==> white_space(#[trigger] s[i])
}

/// `s` without its leading white space.
pub open spec fn trim_start(s: Seq<char>) -> Seq<char>
    decreases s.len(),
{
    if s.len() > 0 && white_space(s.first()) {
        trim_start(s.drop_first())
    } else {
        s
    }
}

/// `s` without its trailing white space.
pub open spec fn trim_end(s: Seq<char>) -> Seq<char>
    decreases s.len(),
{
    if s.len() > 0 && white_space(s.last()) {
        trim_end(s.drop_last())
    } else {
        s
    }
}

/// `s` without leading and trailing white space.
pub open spec fn trimmed(s: Seq<char>) -> Seq<char> {
    trim_end(trim_start(s))
}

/// The form in which texts are compared: trimmed, then lowercased.
pub open spec fn normalized(s: Seq<char>) -> Seq<char> {
    lowercase(trimmed(s))
}

/// `str::trim`: the returned slice is the text with its leading and trailing
/// white space removed, so where it is not empty it begins and ends with a
/// character that is not white space.
pub assume_specification[ str::trim ](s: &str) -> (r: &str)
    ensures
        r@ == trimmed(s@),
        r@.len() > 0 ==> !white_space(r@.first()) && !white_space(r@.last()),
;

/// `str::to_lowercase`: the returned string is the lowercase equivalent of
/// the text. Nothing is claimed of which characters it holds.
pub assume_specification[ str::to_lowercase ](s: &str) -> (r: String)
    ensures
        r@ == lowercase(s@),
;

/// `str::contains` with a string pattern: true exactly when the pattern
/// matches a sub-slice of the text.
#[verifier::external_body]
pub(crate) fn str_contains(haystack: &str, needle: &str) -> (r: bool)
    ensures
        r == is_substring(needle@, haystack@),
{
    haystack.contains(needle)
}

/// Trims and lowercases a text.
pub fn normalize(s: &str) -> (r: String)
    ensures
        r@ == normalized(s@),
{
    s.trim().to_lowercase()
}

/// The character that writes the decimal digit `d`.
pub open spec fn digit_char(d: nat) -> char {
    if d == 0 {
        '0'
    } else if d == 1 {
        '1'
    } else if d == 2 {
        '2'
    } else if d == 3 {
        '3'
    } else if d == 4 {
        '4'
    } else if d == 5 {
        '5'
    } else if d == 6 {
        '6'
    } else if d == 7 {
        '7'
    } else if d == 8 {
        '8'
    } else {
        '9'
    }
}

/// The decimal numeral of `n`, without leading zeros.
pub open spec fn decimal(n: nat) -> Seq<char>
    decreases n,
{
    if n < 10 {
        seq![digit_char(n)]
    } else {
        decimal(n / 10).push(digit_char(n % 10))
    }
}

/// The one-character text of a decimal digit.
fn digit_str(d: u32) -> (r: &'static str)
    requires
        d < 10,
    ensures
        r@ == seq![digit_char(d as nat)],
{
    proof {
        reveal_strlit("0");
        reveal_strlit("1");
        reveal_strlit("2");
        reveal_strlit("3");
        reveal_strlit("4");
        reveal_strlit("5");
        reveal_strlit("6");
        reveal_strlit("7");
        reveal_strlit("8");
        reveal_strlit("9");
    }
    let r = if d == 0 {
        "0"
    } else if d == 1 {
        "1"
    } else if d == 2 {
        "2"
    } else if d == 3 {
        "3"
    } else if d == 4 {
        "4"
    } else if d == 5 {
        "5"
    } else if d == 6 {
        "6"
    } else if d == 7 {
        "7"
    } else if d == 8 {
        "8"
    } else {
        "9"
    };
    assert(r@ =~= seq![digit_char(d as nat)]);
    r
}

/// Appends the decimal numeral of `n` to `out`.
pub fn push_decimal(out: &mut String, n: u32)
    ensures
        final(out)@ == old(out)@ + decimal(n as nat),
    decreases n,
{
    if n >= 10 {
        push_decimal(out, n / 10);
    }
    out.append(digit_str(n % 10));
    proof {
        if n >= 10 {
            assert(out@ =~= old(out)@ + decimal((n / 10) as nat).push(digit_char((n % 10) as nat)));
        } else {
            assert(out@ =~= old(out)@ + seq![digit_char(n as nat)]);
        }
    }
}

/// Padding a text with white space on either side does not change what is
/// left after trimming.
pub proof fn lemma_trimmed_ignores_padding(lead: Seq<char>, s: Seq<char>, trail: Seq<char>)
    requires
        all_white_space(lead),
        all_white_space(trail),
    ensures
        trimmed(lead + s + trail) == trimmed(s),
{
    lemma_trim_start_skips(lead, s + trail);
    assert(lead + s + trail =~= lead + (s + trail));
    lemma_trim_start_append(s, trail);
    if trim_start(s).len() == 0 {
        lemma_trim_end_skips(Seq::<char>::empty(), trail);
        assert(Seq::<char>::empty() + trail =~= trail);
        assert(trim_start(s) =~= Seq::<char>::empty());
    } else {
        lemma_trim_end_skips(trim_start(s), trail);
    }
}

/// A text that neither begins nor ends with white space is what trimming
/// leaves of it, whatever white space is put around it.
pub proof fn lemma_trimmed_strips_padding(lead: Seq<char>, core: Seq<char>, trail: Seq<char>)
    requires
        all_white_space(lead),
        all_white_space(trail),
        core.len() > 0 ==> !white_space(core.first()) && !white_space(core.last()),
    ensures
        trimmed(lead + core + trail) == core,
{
    lemma_trimmed_ignores_padding(lead, core, trail);
}

/// Leading white space is dropped whatever follows it.
proof fn lemma_trim_start_skips(lead: Seq<char>, rest: Seq<char>)
    requires
        all_white_space(lead),
    ensures
        trim_start(lead + rest) == trim_start(rest),
    decreases lead.len(),
{
    if lead.len() == 0 {
        assert(lead + rest =~= rest);
    } else {
        let whole = lead + rest;
        assert(whole.first() == lead[0]);
        assert(whole.drop_first() =~= lead.drop_first() + rest);
        lemma_trim_start_skips(lead.drop_first(), rest);
    }
}

/// Trailing white space is dropped whatever stands before it.
proof fn lemma_trim_end_skips(rest: Seq<char>, trail: Seq<char>)
    requires
        all_white_space(trail),
    ensures
        trim_end(rest + trail) == trim_end(rest),
    decreases trail.len(),
{
    if trail.len() == 0 {
        assert(rest + trail =~= rest);
    } else {
        let whole = rest + trail;
        assert(whole.last() == trail[trail.len() - 1]);
        assert(whole.drop_last() =~= rest + trail.drop_last());
        lemma_trim_end_skips(rest, trail.drop_last());
    }
}

/// White space appended to a text is out of reach of `trim_start` unless
/// the text itself is nothing but white space.
proof fn lemma_trim_start_append(s: Seq<char>, trail: Seq<char>)
    requires
        all_white_space(trail),
    ensures
        trim_start(s).len() > 0 ==> trim_start(s + trail) == trim_start(s) + trail,
        trim_start(s).len() == 0 ==> trim_start(s + trail).len() == 0,
    decreases s.len(),
{
    if s.len() == 0 {
        assert(s + trail =~= trail);
        lemma_trim_start_skips(trail, Seq::<char>::empty());
        assert(trail + Seq::<char>::empty() =~= trail);
    } else if white_space(s.first()) {
        let whole = s + trail;
        assert(whole.first() == s.first());
        assert(whole.drop_first() =~= s.drop_first() + trail);
        lemma_trim_start_append(s.drop_first(), trail);
    } else {
        let whole = s + trail;
        assert(whole.first() == s.first());
    }
}

/// Whether two texts are the same.
pub fn same_text(left: &str, right: &str) -> (same: bool)
    ensures
        same == (left@ == right@),
{
    let left = left.to_owned();
    let right = right.to_owned();
    left == right
}

/// The texts of `parts` in their order, with `separator` between each two.
pub open spec fn joined(parts: Seq<Seq<char>>, separator: Seq<char>) -> Seq<char>
    decreases parts.len(),
{
    if parts.len() == 0 {
        Seq::empty()
    } else if parts.len() == 1 {
        parts[0]
    } else {
        joined(parts.drop_last(), separator) + separator + parts.last()
    }
}

/// Joins the texts of `parts` with `separator` between each two.
pub fn join(parts: &Vec<String>, separator: &str) -> (whole: String)
    ensures
        whole@ == joined(parts.deep_view(), separator@),
{
    let ghost all = parts.deep_view();
    let mut whole = String::new();
    let mut i: usize = 0;
    assert(all.subrange(0, 0) =~= Seq::<Seq<char>>::empty());
    while i < parts.len()
        invariant
            i <= parts.len(),
            all == parts.deep_view(),
            whole@ == joined(all.subrange(0, i as int), separator@),
        decreases parts.len() - i,
    {
        let ghost upto = all.subrange(0, i + 1);
        assert(upto.drop_last() =~= all.subrange(0, i as int));
        assert(upto.last() == parts@[i as int]@);
        if i > 0 {
            whole.append(separator);
        } else {
            assert(upto[0] == parts@[0]@);
            assert(whole@ + parts@[0]@ =~= parts@[0]@);
        }
        whole.append(parts[i].as_str());
        i += 1;
    }
    assert(all.subrange(0, i as int) =~= all);
    whole
}

} // verus!
