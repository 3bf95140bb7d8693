//! What holds of region extraction and reindentation for every input.
use vstd::prelude::*;
use crate::prefix::{common_prefix, common_whitespace, shared_whitespace, whitespace_prefix};
use crate::region::{
    begins, block_lines, find_begin, find_end, region_of, reindented, shifted, strip, KindView,
};

verus! {

proof fn lemma_prefix_trans(a: Seq<char>, b: Seq<char>, c: Seq<char>)
    requires
        a.is_prefix_of(b),
        b.is_prefix_of(c),
    ensures
        a.is_prefix_of(c),
{
    assert(a =~= c.subrange(0, a.len() as int)) by {
        assert forall|j: int| 0 <= j < a.len() implies a[j] == c[j] by {
            assert(a[j] == b[j]);
            assert(b[j] == c[j]);
        }
    }
}

proof fn lemma_whitespace_prefix_is_prefix(s: Seq<char>)
    ensures
        whitespace_prefix(s).is_prefix_of(s),
    decreases s.len(),
{
    if s.len() > 0 && crate::prefix::is_white_space(s[0]) {
        lemma_whitespace_prefix_is_prefix(s.drop_first());
        let p = whitespace_prefix(s.drop_first());
        assert(whitespace_prefix(s) =~= s.subrange(0, (p.len() + 1) as int)) by {
            assert forall|j: int| 0 <= j < p.len() + 1 implies #[trigger] whitespace_prefix(s)[j]
                == s[j] by {
                if j > 0 {
                    assert(p[j - 1] == s.drop_first()[j - 1]);
                }
            }
        }
    }
}

proof fn lemma_common_prefix_is_prefix(a: Seq<char>, b: Seq<char>)
    ensures
        common_prefix(a, b).is_prefix_of(a),
        common_prefix(a, b).is_prefix_of(b),
    decreases a.len(),
{
    if a.len() > 0 && b.len() > 0 && a[0] == b[0] {
        let (ta, tb) = (a.drop_first(), b.drop_first());
        lemma_common_prefix_is_prefix(ta, tb);
        let p = common_prefix(ta, tb);
        let q = common_prefix(a, b);
        assert(q =~= a.subrange(0, q.len() as int)) by {
            assert forall|j: int| 0 <= j < q.len() implies #[trigger] q[j] == a[j] by {
                if j > 0 {
                    assert(p[j - 1] == ta[j - 1]);
                }
            }
        }
        assert(q =~= b.subrange(0, q.len() as int)) by {
            assert forall|j: int| 0 <= j < q.len() implies #[trigger] q[j] == b[j] by {
                if j > 0 {
                    assert(p[j - 1] == tb[j - 1]);
                }
            }
        }
    }
}

proof fn lemma_shared_whitespace_is_prefix(lines: Seq<Seq<char>>, i: int)
    requires
        0 <= i < lines.len(),
        lines[i].len() > 0,
    ensures
        common_whitespace(lines).is_prefix_of(lines[i]),
        shared_whitespace(lines) is Some,
    decreases lines.len(),
{
    let init = lines.drop_last();
    let line = lines.last();
    lemma_whitespace_prefix_is_prefix(line);
    if i < lines.len() - 1 {
        assert(init[i] == lines[i]);
        lemma_shared_whitespace_is_prefix(init, i);
        if line.len() > 0 {
            let a = shared_whitespace(init)->0;
            lemma_common_prefix_is_prefix(a, whitespace_prefix(line));
            lemma_prefix_trans(common_prefix(a, whitespace_prefix(line)), a, lines[i]);
        }
    } else {
        match shared_whitespace(init) {
            None => {},
            Some(a) => {
                lemma_common_prefix_is_prefix(a, whitespace_prefix(line));
                lemma_prefix_trans(
                    common_prefix(a, whitespace_prefix(line)),
                    whitespace_prefix(line),
                    line,
                );
            },
        }
    }
}

/// The whitespace removed in reindenting is a prefix of every non-empty line:
/// each such line loses the same leading text and gains `indent`, so the lines
/// keep their indentation relative to each other.
pub proof fn lemma_reindent_keeps_relative_indent(
    lines: Seq<Seq<char>>,
    indent: Seq<char>,
    i: int,
)
    requires
        0 <= i < lines.len(),
        lines[i].len() > 0,
    ensures
        common_whitespace(lines).is_prefix_of(lines[i]),
        reindented(lines, indent).len() == lines.len(),
        reindented(lines, indent)[i] == indent + lines[i].skip(
            common_whitespace(lines).len() as int,
        ),
{
    lemma_shared_whitespace_is_prefix(lines, i);
    assert(strip(lines[i], common_whitespace(lines)) == lines[i].skip(
        common_whitespace(lines).len() as int,
    ));
}

proof fn lemma_find_begin(kinds: Seq<KindView>, name: Seq<char>, from: int, b: int)
    requires
        0 <= from <= b <= kinds.len(),
        b == kinds.len() || begins(kinds[b], name),
        forall|k: int| from <= k < b ==> !begins(#[trigger] kinds[k], name),
    ensures
        find_begin(kinds, name, from) == b,
    decreases b - from,
{
    if from < b {
        lemma_find_begin(kinds, name, from + 1, b);
    }
}

proof fn lemma_find_end(kinds: Seq<KindView>, from: int, e: int)
    requires
        0 <= from <= e <= kinds.len(),
        e == kinds.len() || kinds[e].1,
        forall|k: int| from <= k < e ==> !(#[trigger] kinds[k]).1,
    ensures
        find_end(kinds, from) == e,
    decreases e - from,
{
    if from < e {
        lemma_find_end(kinds, from + 1, e);
    }
}

/// Where line `b` is the first to begin region `name` and line `e` the first
/// end marker after it, the region is the lines strictly between the two:
/// neither marker line, nor anything after `e`, nor any later region.
pub proof fn lemma_region_between_markers(
    lines: Seq<Seq<char>>,
    kinds: Seq<KindView>,
    name: Seq<char>,
    b: int,
    e: int,
)
    requires
        lines.len() == kinds.len(),
        0 <= b < e < kinds.len(),
        begins(kinds[b], name),
        forall|k: int| 0 <= k < b ==> !begins(#[trigger] kinds[k], name),
        kinds[e].1,
        forall|k: int| b < k < e ==> !(#[trigger] kinds[k]).1,
    ensures
        region_of(lines, kinds, name) == Some(lines.subrange(b + 1, e)),
{
    lemma_find_begin(kinds, name, 0, b);
    lemma_find_end(kinds, b + 1, e);
}

/// Where no line begins region `name`, the region is absent and the whole file
/// stands in the output, every line in its order.
pub proof fn lemma_missing_region_falls_back(
    lines: Seq<Seq<char>>,
    kinds: Seq<KindView>,
    name: Seq<char>,
    indent: Seq<char>,
)
    requires
        lines.len() == kinds.len(),
        forall|k: int| 0 <= k < kinds.len() ==> !begins(#[trigger] kinds[k], name),
    ensures
        region_of(lines, kinds, name) is None,
        block_lines(lines, kinds, name, indent) == reindented(shifted(lines, indent), indent),
{
    lemma_find_begin(kinds, name, 0, kinds.len() as int);
}

/// A file without begin markers comes out whole: line `i` of the output is line
/// `i` of the file shifted by `indent`, less the whitespace common to all
/// non-empty lines, with `indent` in front; so relative indentation is kept.
pub proof fn lemma_whole_file_round_trip(
    lines: Seq<Seq<char>>,
    kinds: Seq<KindView>,
    name: Seq<char>,
    indent: Seq<char>,
    i: int,
)
    requires
        lines.len() == kinds.len(),
        forall|k: int| 0 <= k < kinds.len() ==> (#[trigger] kinds[k]).0 is None,
        0 <= i < lines.len(),
        indent.len() + lines[i].len() > 0,
    ensures
        block_lines(lines, kinds, name, indent).len() == lines.len(),
        ({
            let s = shifted(lines, indent);
            let c = common_whitespace(s);
            &&& c.is_prefix_of(indent + lines[i])
            &&& block_lines(lines, kinds, name, indent)[i] == indent + (indent + lines[i]).skip(
                c.len() as int,
            )
        }),
{
    assert forall|k: int| 0 <= k < kinds.len() implies !begins(#[trigger] kinds[k], name) by {
        assert(kinds[k].0 is None);
    }
    lemma_missing_region_falls_back(lines, kinds, name, indent);
    let s = shifted(lines, indent);
    assert(s[i] == indent + lines[i]);
    lemma_reindent_keeps_relative_indent(s, indent, i);
}

} // verus!
