//! Leading whitespace of a line, and the whitespace that a set of lines share.
use vstd::prelude::*;
use vstd::string::*;

verus! {

/// Characters with the Unicode `White_Space` property.
pub open spec fn is_white_space(c: char) -> bool {
    ('\u{9}' <= c && c <= '\u{d}') || c == ' ' || c == '\u{85}' || c == '\u{a0}' || c == '\u{1680}'
        || ('\u{2000}' <= c && c <= '\u{200a}') || c == '\u{2028}' || c == '\u{2029}' || c
        == '\u{202f}' || c == '\u{205f}' || c == '\u{3000}'
}

/// Relies on `char::is_whitespace`, which tests the Unicode `White_Space` property.
#[verifier::external_body]
fn char_is_whitespace(c: char) -> (r: bool)
    ensures
        r == is_white_space(c),
{
    c.is_whitespace()
}

/// The longest leading run of whitespace characters of `s`.
pub open spec fn whitespace_prefix(s: Seq<char>) -> Seq<char>
    decreases s.len(),
{
    if s.len() > 0 && is_white_space(s[0]) {
        seq![s[0]] + whitespace_prefix(s.drop_first())
    } else {
        Seq::empty()
    }
}

/// The longest common prefix of `a` and `b`, compared character by character.
pub open spec fn common_prefix(a: Seq<char>, b: Seq<char>) -> Seq<char>
    decreases a.len(),
{
    if a.len() > 0 && b.len() > 0 && a[0] == b[0] {
        seq![a[0]] + common_prefix(a.drop_first(), b.drop_first())
    } else {
        Seq::empty()
    }
}

/// The whitespace shared by the non-empty lines of `lines`; `None` where every
/// line is empty.
pub open spec fn shared_whitespace(lines: Seq<Seq<char>>) -> Option<Seq<char>>
    decreases lines.len(),
{
    if lines.len() == 0 {
        None
    } else {
        let acc = shared_whitespace(lines.drop_last());
        let line = lines.last();
        if line.len() == 0 {
            acc
        } else {
            match acc {
                None => Some(whitespace_prefix(line)),
                Some(a) => Some(common_prefix(a, whitespace_prefix(line))),
            }
        }
    }
}

/// The whitespace shared by the non-empty lines, empty where there is none.
pub open spec fn common_whitespace(lines: Seq<Seq<char>>) -> Seq<char> {
    match shared_whitespace(lines) {
        Some(p) => p,
        None => Seq::empty(),
    }
}

proof fn lemma_whitespace_prefix(s: Seq<char>, k: int)
    requires
        0 <= k <= s.len(),
        forall|j: int| 0 <= j < k ==> is_white_space(#[trigger] s[j]),
        k == s.len() || !is_white_space(s[k]),
    ensures
        whitespace_prefix(s) == s.take(k),
    decreases k,
{
    if k > 0 {
        let t = s.drop_first();
        assert forall|j: int| 0 <= j < k - 1 implies is_white_space(#[trigger] t[j]) by {
            assert(t[j] == s[j + 1]);
        }
        assert(k - 1 == t.len() || t[k - 1] == s[k]);
        lemma_whitespace_prefix(t, k - 1);
        assert(s.take(k) =~= seq![s[0]] + t.take(k - 1));
    } else {
        assert(s.take(0) =~= Seq::<char>::empty());
    }
}

proof fn lemma_common_prefix(a: Seq<char>, b: Seq<char>, k: int)
    requires
        0 <= k <= a.len(),
        k <= b.len(),
        forall|j: int| 0 <= j < k ==> #[trigger] a[j] == b[j],
        k == a.len() || k == b.len() || a[k] != b[k],
    ensures
        common_prefix(a, b) == a.take(k),
    decreases k,
{
    if k > 0 {
        let (ta, tb) = (a.drop_first(), b.drop_first());
        assert forall|j: int| 0 <= j < k - 1 implies #[trigger] ta[j] == tb[j] by {
            assert(ta[j] == a[j + 1]);
        }
        assert(k - 1 == ta.len() || k - 1 == tb.len() || (ta[k - 1] == a[k] && tb[k - 1]
            == b[k]));
        lemma_common_prefix(ta, tb, k - 1);
        assert(a.take(k) =~= seq![a[0]] + ta.take(k - 1));
    } else {
        assert(a.take(0) =~= Seq::<char>::empty());
    }
}

/// The longest leading run of whitespace characters of `value`.
pub fn take_whitespaces_prefix(value: &str) -> (r: String)
    ensures
        r@ == whitespace_prefix(value@),
{
    let n = value.unicode_len();
    let mut k: usize = 0;
    while k < n && char_is_whitespace(value.get_char(k))
        invariant
            n == value@.len(),
            k <= n,
            forall|j: int| 0 <= j < k ==> is_white_space(#[trigger] value@[j]),
        decreases n - k,
    {
        k = k + 1;
    }
    proof {
        lemma_whitespace_prefix(value@, k as int);
    }
    value.substring_char(0, k).to_owned()
}

/// The longest common prefix of `a` and `b`.
fn shared_prefix(a: &str, b: &str) -> (r: String)
    ensures
        r@ == common_prefix(a@, b@),
{
    let na = a.unicode_len();
    let nb = b.unicode_len();
    let mut k: usize = 0;
    while k < na && k < nb && a.get_char(k) == b.get_char(k)
        invariant
            na == a@.len(),
            nb == b@.len(),
            k <= na,
            k <= nb,
            forall|j: int| 0 <= j < k ==> #[trigger] a@[j] == b@[j],
        decreases na - k,
    {
        k = k + 1;
    }
    proof {
        lemma_common_prefix(a@, b@, k as int);
    }
    a.substring_char(0, k).to_owned()
}

/// The whitespace that all non-empty `lines` begin with: the longest string that
/// is, position by position, a prefix of each such line's leading whitespace.
pub fn common_whitespace_prefix(lines: &[String]) -> (r: String)
    ensures
        r@ == common_whitespace(lines@.map_values(|l: String| l@)),
{
    let ghost views = lines@.map_values(|l: String| l@);
    let mut result: Option<String> = None;
    let mut i: usize = 0;
    while i < lines.len()
        invariant
            i <= lines@.len(),
            views == lines@.map_values(|l: String| l@),
            match result {
                None => shared_whitespace(views.take(i as int)) is None,
                Some(s) => shared_whitespace(views.take(i as int)) == Some(s@),
            },
        decreases lines.len() - i,
    {
        assert(views.take(i + 1).drop_last() =~= views.take(i as int));
        let line = &lines[i];
        if line.unicode_len() > 0 {
            let prefix = take_whitespaces_prefix(line.as_str());
            result = match result {
                None => Some(prefix),
                Some(acc) => Some(shared_prefix(acc.as_str(), prefix.as_str())),
            };
        }
        i = i + 1;
    }
    assert(views.take(lines@.len() as int) =~= views);
    match result {
        Some(s) => s,
        None => String::new(),
    }
}

} // verus!
