//! Finding a named region among a file's lines, and indenting it anew.
use vstd::prelude::*;
use vstd::string::*;
use crate::lines::views;
use crate::prefix::{common_whitespace, common_whitespace_prefix};

verus! {

/// What a line of a source file says about regions: the name of the region that
/// it begins, if it holds a begin marker (empty for one without `@name`), and
/// whether it holds an end marker.
pub struct LineKind {
    pub begin: Option<String>,
    pub end: bool,
}

/// The view of a [`LineKind`]: the name of the region begun, and whether one ends.
pub type KindView = (Option<Seq<char>>, bool);

impl View for LineKind {
    type V = KindView;

    open spec fn view(&self) -> KindView {
        (
            match self.begin {
                Some(n) => Some(n@),
                None => None,
            },
            self.end,
        )
    }
}

/// The views of a sequence of line kinds.
pub open spec fn kind_views(v: Seq<LineKind>) -> Seq<KindView> {
    v.map_values(|k: LineKind| k@)
}

/// The line begins the region called `name`.
pub open spec fn begins(k: KindView, name: Seq<char>) -> bool {
    k.0 == Some(name)
}

/// The first index at or after `from` whose line begins `name`; the length where none does.
pub open spec fn find_begin(kinds: Seq<KindView>, name: Seq<char>, from: int) -> int
    decreases kinds.len() - from,
{
    if from < 0 || from >= kinds.len() {
        kinds.len() as int
    } else if begins(kinds[from], name) {
        from
    } else {
        find_begin(kinds, name, from + 1)
    }
}

/// The first index at or after `from` whose line ends a region; the length where none does.
pub open spec fn find_end(kinds: Seq<KindView>, from: int) -> int
    decreases kinds.len() - from,
{
    if from < 0 || from >= kinds.len() {
        kinds.len() as int
    } else if kinds[from].1 {
        from
    } else {
        find_end(kinds, from + 1)
    }
}

/// The lines strictly between the first begin marker of `name` and the first end
/// marker after it (or the end of the file); `None` where no line begins `name`.
pub open spec fn region_of(lines: Seq<Seq<char>>, kinds: Seq<KindView>, name: Seq<char>) -> Option<
    Seq<Seq<char>>,
> {
    let b = find_begin(kinds, name, 0);
    if b >= kinds.len() {
        None
    } else {
        Some(lines.subrange(b + 1, find_end(kinds, b + 1)))
    }
}

/// `line` without its prefix `p`, or `line` itself where it does not start with `p`.
pub open spec fn strip(line: Seq<char>, p: Seq<char>) -> Seq<char> {
    if p.is_prefix_of(line) {
        line.skip(p.len() as int)
    } else {
        line
    }
}

/// Each line with the whitespace common to all non-empty lines removed, and
/// `indent` put in front.
pub open spec fn reindented(lines: Seq<Seq<char>>, indent: Seq<char>) -> Seq<Seq<char>> {
    lines.map_values(|l: Seq<char>| indent + strip(l, common_whitespace(lines)))
}

/// Each line with `indent` put in front.
pub open spec fn shifted(lines: Seq<Seq<char>>, indent: Seq<char>) -> Seq<Seq<char>> {
    lines.map_values(|l: Seq<char>| indent + l)
}

/// The lines that stand for a file in the output: its region `name`, reindented;
/// or, where it has no such region, the whole file shifted by `indent` and then
/// reindented.
pub open spec fn block_lines(
    lines: Seq<Seq<char>>,
    kinds: Seq<KindView>,
    name: Seq<char>,
    indent: Seq<char>,
) -> Seq<Seq<char>> {
    match region_of(lines, kinds, name) {
        Some(r) => reindented(r, indent),
        None => reindented(shifted(lines, indent), indent),
    }
}

proof fn lemma_reindented_index(lines: Seq<Seq<char>>, indent: Seq<char>, i: int)
    requires
        0 <= i < lines.len(),
    ensures
        reindented(lines, indent)[i] == indent + strip(lines[i], common_whitespace(lines)),
{
}

/// Whether `a` and `b` hold the same text.
fn same_text(a: &str, b: &str) -> (r: bool)
    ensures
        r == (a@ == b@),
{
    let n = a.unicode_len();
    if n != b.unicode_len() {
        return false;
    }
    let mut i: usize = 0;
    while i < n
        invariant
            n == a@.len(),
            n == b@.len(),
            i <= n,
            forall|j: int| 0 <= j < i ==> #[trigger] a@[j] == b@[j],
        decreases n - i,
    {
        if a.get_char(i) != b.get_char(i) {
            return false;
        }
        i = i + 1;
    }
    assert(a@ =~= b@);
    true
}

fn begins_name(k: &LineKind, name: &str) -> (r: bool)
    ensures
        r == begins(k@, name@),
{
    match &k.begin {
        Some(n) => same_text(n.as_str(), name),
        None => false,
    }
}

/// The lines of region `name`: those strictly between the first line that
/// begins it and the first end marker after that line. `None` where no line
/// begins `name`. `kinds[i]` describes `lines[i]`.
pub fn extract_region(lines: &Vec<String>, kinds: &Vec<LineKind>, name: &str) -> (r: Option<
    Vec<String>,
>)
    requires
        lines@.len() == kinds@.len(),
    ensures
        match r {
            Some(v) => region_of(views(lines@), kind_views(kinds@), name@) == Some(views(v@)),
            None => region_of(views(lines@), kind_views(kinds@), name@) is None,
        },
{
    let n = kinds.len();
    let mut b: usize = 0;
    while b < n && !begins_name(&kinds[b], name)
        invariant
            kind_views(kinds@).len() == n,
            n == kinds@.len(),
            b <= n,
            find_begin(kind_views(kinds@), name@, 0) == find_begin(kind_views(kinds@), name@, b as int),
        decreases n - b,
    {
        assert(kind_views(kinds@)[b as int] == kinds@[b as int]@);
        b = b + 1;
    }
    if b == n {
        return None;
    }
    assert(kind_views(kinds@)[b as int] == kinds@[b as int]@);
    let mut e: usize = b + 1;
    while e < n && !kinds[e].end
        invariant
            kind_views(kinds@).len() == n,
            n == kinds@.len(),
            b < e <= n,
            find_end(kind_views(kinds@), b + 1) == find_end(kind_views(kinds@), e as int),
        decreases n - e,
    {
        assert(kind_views(kinds@)[e as int] == kinds@[e as int]@);
        e = e + 1;
    }
    let mut out: Vec<String> = Vec::new();
    let mut i: usize = b + 1;
    while i < e
        invariant
            n == kinds@.len(),
            n == lines@.len(),
            b < i <= e <= n,
            views(out@) == views(lines@).subrange(b + 1, i as int),
        decreases e - i,
    {
        let ghost before = out@;
        out.push(lines[i].clone());
        assert(views(out@) =~= views(before).push(lines@[i as int]@));
        assert(views(lines@).subrange(b + 1, i + 1) =~= views(lines@).subrange(
            b + 1,
            i as int,
        ).push(lines@[i as int]@));
        i = i + 1;
    }
    Some(out)
}

/// `line` without its prefix `p`, or `line` itself where it does not start with `p`.
fn strip_prefix_or_keep(line: &str, p: &str) -> (r: String)
    ensures
        r@ == strip(line@, p@),
{
    let n = line.unicode_len();
    let k = p.unicode_len();
    if k <= n && same_text(line.substring_char(0, k), p) {
        assert(p@.is_prefix_of(line@)) by {
            assert(line@.subrange(0, k as int) == p@);
        }
        line.substring_char(k, n).to_owned()
    } else {
        assert(!p@.is_prefix_of(line@)) by {
            if p@.is_prefix_of(line@) {
                assert(line@.subrange(0, k as int) =~= p@);
            }
        }
        line.to_owned()
    }
}

/// Strips the whitespace common to all non-empty lines and puts `indent` in
/// front of each line; what each line has beyond that whitespace is kept.
pub fn reindent(lines: &Vec<String>, indent: &str) -> (r: Vec<String>)
    ensures
        views(r@) == reindented(views(lines@), indent@),
{
    let common = common_whitespace_prefix(lines.as_slice());
    let ghost c = common_whitespace(views(lines@));
    let mut out: Vec<String> = Vec::new();
    let mut i: usize = 0;
    while i < lines.len()
        invariant
            i <= lines@.len(),
            common@ == c,
            c == common_whitespace(views(lines@)),
            views(out@) == reindented(views(lines@), indent@).take(i as int),
        decreases lines.len() - i,
    {
        let mut line = indent.to_owned();
        let rest = strip_prefix_or_keep(lines[i].as_str(), common.as_str());
        line.append(rest.as_str());
        assert(views(lines@)[i as int] == lines@[i as int]@);
        proof {
            lemma_reindented_index(views(lines@), indent@, i as int);
        }
        assert(line@ == reindented(views(lines@), indent@)[i as int]);
        let ghost before = out@;
        out.push(line);
        assert(views(out@) =~= views(before).push(line@));
        assert(reindented(views(lines@), indent@).take(i + 1) =~= reindented(
            views(lines@),
            indent@,
        ).take(i as int).push(line@));
        i = i + 1;
    }
    assert(reindented(views(lines@), indent@).take(lines@.len() as int) =~= reindented(
        views(lines@),
        indent@,
    ));
    out
}

/// Each line with `indent` put in front.
pub fn shift(lines: &Vec<String>, indent: &str) -> (r: Vec<String>)
    ensures
        views(r@) == shifted(views(lines@), indent@),
{
    let mut out: Vec<String> = Vec::new();
    let mut i: usize = 0;
    while i < lines.len()
        invariant
            i <= lines@.len(),
            views(out@) == shifted(views(lines@), indent@).take(i as int),
        decreases lines.len() - i,
    {
        let mut line = indent.to_owned();
        line.append(lines[i].as_str());
        let ghost before = out@;
        out.push(line);
        assert(views(out@) =~= views(before).push(line@));
        assert(shifted(views(lines@), indent@).take(i + 1) =~= shifted(views(lines@), indent@).take(
            i as int,
        ).push(line@));
        i = i + 1;
    }
    assert(shifted(views(lines@), indent@).take(lines@.len() as int) =~= shifted(
        views(lines@),
        indent@,
    ));
    out
}

/// The lines that stand for a file in the output: its region `name` where a
/// line begins one, reindented to `indent`; otherwise the whole file, shifted by
/// `indent` and then reindented to it.
pub fn region_block(lines: &Vec<String>, kinds: &Vec<LineKind>, name: &str, indent: &str) -> (r:
    Vec<String>)
    requires
        lines@.len() == kinds@.len(),
    ensures
        views(r@) == block_lines(views(lines@), kind_views(kinds@), name@, indent@),
{
    match extract_region(lines, kinds, name) {
        Some(region) => reindent(&region, indent),
        None => reindent(&shift(lines, indent), indent),
    }
}

} // verus!
