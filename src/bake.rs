//! Replacing placeholder fences with the source they name, and resolving escapes.
use vstd::prelude::*;
use vstd::string::*;
use crate::lines::{join_lines, joined, lines_of, split_lines, views};
use crate::pattern::{
    all_match_groups, first_match_groups, group_text, groups_views, unmatched_pieces, Groups,
    Matcher,
};
use crate::region::{block_lines, kind_views, region_block, KindView, LineKind};

verus! {

/// A placeholder fence: indent, language, optional `@region` and a path.
pub const PLACEHOLDER_PATTERN: &'static str = r"([\t ]*)```\s*(\w+)\s*:\s*source(\s*@\s*(\S+))?\s+(\S+)\s+```";

/// An escaped placeholder: the `!` between the two groups is dropped.
pub const ESCAPE_PATTERN: &'static str = r"(```\s*\w+\s*:\s*)!(\s*source(\s*@\s*\S+)?[\t ]*)";

/// A marker that begins a region, with an optional `@name`, in a comment of any
/// language.
pub const BEGIN_PATTERN: &'static str = r"\[\s*md-bakery\s*:\s*begin(\s*@\s*(\S+))?\s*\]";

/// A marker that ends a region, in a comment of any language.
pub const END_PATTERN: &'static str = r"\[\s*md-bakery\s*:\s*end\s*\]";

/// A pattern that the regex engine refused to compile.
#[derive(Debug)]
pub struct PatternError {
    pub pattern: String,
    pub cause: regex::Error,
}

/// Why a document could not be transformed.
#[derive(Debug, Clone, Copy, PartialEq, Eq)]
pub enum BakeError {
    /// The number of source contents given differs from the number of placeholders.
    SourceCount,
    /// The parts between the matches do not line up with the matches.
    Unaligned,
}

/// What a placeholder fence names.
#[derive(Debug, PartialEq, Eq)]
pub struct Placeholder {
    pub indent: String,
    pub lang: String,
    pub name: String,
    pub path: String,
}

/// The four compiled patterns that the transformation needs.
pub struct Patterns {
    placeholder: Matcher,
    escape: Matcher,
    begin: Matcher,
    end: Matcher,
}

/// The three backticks that open and close a fence.
pub open spec fn fence() -> Seq<char> {
    seq!['`', '`', '`']
}

/// What a source line says about regions, by the begin and end patterns.
pub open spec fn kind_of(line: Seq<char>) -> KindView {
    (
        match first_match_groups(BEGIN_PATTERN@, line) {
            Some(g) => Some(group_text(g, 2)),
            None => None,
        },
        first_match_groups(END_PATTERN@, line) is Some,
    )
}

/// The kinds of each line.
pub open spec fn kinds_of(lines: Seq<Seq<char>>) -> Seq<KindView> {
    lines.map_values(|l: Seq<char>| kind_of(l))
}

/// The fence that replaces a placeholder match with groups `g`, whose source
/// file holds `content`.
pub open spec fn rendered(g: Seq<Option<Seq<char>>>, content: Seq<char>) -> Seq<char> {
    let indent = group_text(g, 1);
    let lines = lines_of(content);
    let body = joined(block_lines(lines, kinds_of(lines), group_text(g, 4), indent));
    indent + fence() + group_text(g, 2) + seq!['\n'] + body + seq!['\n'] + indent + fence()
}

/// `pieces` with `reps[i]` between `pieces[i]` and `pieces[i + 1]`.
pub open spec fn interleaved(pieces: Seq<Seq<char>>, reps: Seq<Seq<char>>) -> Seq<char>
    decreases pieces.len(),
{
    if pieces.len() == 0 {
        Seq::empty()
    } else if pieces.len() == 1 {
        pieces[0]
    } else {
        interleaved(pieces.drop_last(), reps) + reps[pieces.len() - 2] + pieces.last()
    }
}

/// The parts between the matches of `pattern` line up with the matches.
pub open spec fn aligned(pattern: Seq<char>, text: Seq<char>) -> bool {
    unmatched_pieces(pattern, text).len() == all_match_groups(pattern, text).len() + 1
}

/// The fences that replace the placeholders of `doc`, in order.
pub open spec fn expansions(doc: Seq<char>, contents: Seq<Seq<char>>) -> Seq<Seq<char>> {
    let m = all_match_groups(PLACEHOLDER_PATTERN@, doc);
    Seq::new(m.len(), |i: int| rendered(m[i], contents[i]))
}

/// `doc` with each placeholder replaced, `contents[i]` being the content of the
/// source file that the `i`-th placeholder names.
pub open spec fn expand_result(doc: Seq<char>, contents: Seq<Seq<char>>) -> Result<
    Seq<char>,
    BakeError,
> {
    if contents.len() != all_match_groups(PLACEHOLDER_PATTERN@, doc).len() {
        Err(BakeError::SourceCount)
    } else if !aligned(PLACEHOLDER_PATTERN@, doc) {
        Err(BakeError::Unaligned)
    } else {
        Ok(interleaved(unmatched_pieces(PLACEHOLDER_PATTERN@, doc), expansions(doc, contents)))
    }
}

/// An escape match with its `!` dropped.
pub open spec fn unescaped_match(g: Seq<Option<Seq<char>>>) -> Seq<char> {
    group_text(g, 1) + group_text(g, 2)
}

/// The escape matches of `text` with their `!` dropped.
pub open spec fn unescapes(text: Seq<char>) -> Seq<Seq<char>> {
    all_match_groups(ESCAPE_PATTERN@, text).map_values(
        |g: Seq<Option<Seq<char>>>| unescaped_match(g),
    )
}

/// `text` with the `!` of each escaped placeholder dropped.
pub open spec fn escape_result(text: Seq<char>) -> Result<Seq<char>, BakeError> {
    if !aligned(ESCAPE_PATTERN@, text) {
        Err(BakeError::Unaligned)
    } else {
        Ok(interleaved(unmatched_pieces(ESCAPE_PATTERN@, text), unescapes(text)))
    }
}

/// Placeholders expanded first, escapes resolved in what results.
pub open spec fn bake_result(doc: Seq<char>, contents: Seq<Seq<char>>) -> Result<
    Seq<char>,
    BakeError,
> {
    match expand_result(doc, contents) {
        Ok(t) => escape_result(t),
        Err(e) => Err(e),
    }
}

/// The view of a result that holds a string.
pub open spec fn result_view(r: Result<String, BakeError>) -> Result<Seq<char>, BakeError> {
    match r {
        Ok(s) => Ok(s@),
        Err(e) => Err(e),
    }
}

/// `pieces` with `reps[i]` put between `pieces[i]` and `pieces[i + 1]`.
pub fn interleave(pieces: &Vec<String>, reps: &Vec<String>) -> (r: String)
    requires
        pieces@.len() == reps@.len() + 1,
    ensures
        r@ == interleaved(views(pieces@), views(reps@)),
{
    let ghost p = views(pieces@);
    let ghost q = views(reps@);
    let mut out = pieces[0].clone();
    assert(p.take(1).drop_last().len() == 0);
    let mut i: usize = 1;
    while i < pieces.len()
        invariant
            1 <= i <= pieces@.len(),
            pieces@.len() == reps@.len() + 1,
            p == views(pieces@),
            q == views(reps@),
            out@ == interleaved(p.take(i as int), q),
        decreases pieces.len() - i,
    {
        assert(p.take(i + 1).drop_last() =~= p.take(i as int));
        out.append(reps[i - 1].as_str());
        out.append(pieces[i].as_str());
        i = i + 1;
    }
    assert(p.take(pieces@.len() as int) =~= p);
    out
}

impl Patterns {
    /// The matchers hold the four patterns of this module.
    pub closed spec fn wf(&self) -> bool {
        &&& self.placeholder.pattern() == PLACEHOLDER_PATTERN@
        &&& self.escape.pattern() == ESCAPE_PATTERN@
        &&& self.begin.pattern() == BEGIN_PATTERN@
        &&& self.end.pattern() == END_PATTERN@
    }

    /// Compiles the four patterns; the first that fails to compile is reported.
    pub fn new() -> (r: Result<Patterns, PatternError>)
        ensures
            r matches Ok(p) ==> p.wf(),
            r matches Err(e) ==> e.pattern@ == PLACEHOLDER_PATTERN@ || e.pattern@
                == ESCAPE_PATTERN@ || e.pattern@ == BEGIN_PATTERN@ || e.pattern@ == END_PATTERN@,
    {
        let placeholder = match Matcher::compile(PLACEHOLDER_PATTERN) {
            Ok(m) => m,
            Err(cause) => return Err(PatternError { pattern: PLACEHOLDER_PATTERN.to_owned(), cause }),
        };
        let escape = match Matcher::compile(ESCAPE_PATTERN) {
            Ok(m) => m,
            Err(cause) => return Err(PatternError { pattern: ESCAPE_PATTERN.to_owned(), cause }),
        };
        let begin = match Matcher::compile(BEGIN_PATTERN) {
            Ok(m) => m,
            Err(cause) => return Err(PatternError { pattern: BEGIN_PATTERN.to_owned(), cause }),
        };
        let end = match Matcher::compile(END_PATTERN) {
            Ok(m) => m,
            Err(cause) => return Err(PatternError { pattern: END_PATTERN.to_owned(), cause }),
        };
        Ok(Patterns { placeholder, escape, begin, end })
    }

    /// What `line` says about regions: the region it begins (empty name where the
    /// marker has no `@name`), and whether it ends one.
    pub fn classify(&self, line: &str) -> (r: LineKind)
        requires
            self.wf(),
        ensures
            r@ == kind_of(line@),
    {
        let begin = match self.begin.first_match(line) {
            Some(g) => Some(g.text(2)),
            None => None,
        };
        let end = match self.end.first_match(line) {
            Some(_) => true,
            None => false,
        };
        LineKind { begin, end }
    }

    /// The kind of each line.
    pub fn classify_lines(&self, lines: &Vec<String>) -> (r: Vec<LineKind>)
        requires
            self.wf(),
        ensures
            kind_views(r@) == kinds_of(views(lines@)),
    {
        let mut out: Vec<LineKind> = Vec::new();
        let mut i: usize = 0;
        while i < lines.len()
            invariant
                self.wf(),
                i <= lines@.len(),
                kind_views(out@) == kinds_of(views(lines@)).take(i as int),
            decreases lines.len() - i,
        {
            let k = self.classify(lines[i].as_str());
            let ghost before = out@;
            out.push(k);
            assert(kind_views(out@) =~= kind_views(before).push(k@));
            assert(views(lines@)[i as int] == lines@[i as int]@);
            assert(kinds_of(views(lines@)).take(i + 1) =~= kinds_of(views(lines@)).take(
                i as int,
            ).push(k@));
            i = i + 1;
        }
        assert(kinds_of(views(lines@)).take(lines@.len() as int) =~= kinds_of(views(lines@)));
        out
    }

    /// The fence that replaces the placeholder match `g`, whose source file holds
    /// `content`: the region that the placeholder names (or the whole file),
    /// reindented to the placeholder's indent, between fences of its language.
    pub fn render(&self, g: &Groups, content: &str) -> (r: String)
        requires
            self.wf(),
        ensures
            r@ == rendered(g@, content@),
    {
        let indent = g.text(1);
        let lang = g.text(2);
        let name = g.text(4);
        let lines = split_lines(content);
        let kinds = self.classify_lines(&lines);
        assert(kind_views(kinds@).len() == kinds@.len());
        assert(kinds_of(views(lines@)).len() == lines@.len());
        let body = join_lines(&region_block(&lines, &kinds, name.as_str(), indent.as_str()));
        let mut out = indent.clone();
        out.append("```");
        out.append(lang.as_str());
        out.append("\n");
        out.append(body.as_str());
        out.append("\n");
        out.append(indent.as_str());
        out.append("```");
        proof {
            reveal_strlit("```");
            reveal_strlit("\n");
            assert(out@ =~= rendered(g@, content@));
        }
        out
    }

    /// The placeholders of `doc`, from left to right: what the caller must read
    /// before calling [`Patterns::bake`].
    pub fn placeholders(&self, doc: &str) -> (r: Vec<Placeholder>)
        requires
            self.wf(),
        ensures
            r@.len() == all_match_groups(PLACEHOLDER_PATTERN@, doc@).len(),
            forall|i: int|
                0 <= i < r@.len() ==> {
                    let g = #[trigger] all_match_groups(PLACEHOLDER_PATTERN@, doc@)[i];
                    &&& r@[i].indent@ == group_text(g, 1)
                    &&& r@[i].lang@ == group_text(g, 2)
                    &&& r@[i].name@ == group_text(g, 4)
                    &&& r@[i].path@ == group_text(g, 5)
                },
    {
        let matches = self.placeholder.all_matches(doc);
        let ghost m = all_match_groups(PLACEHOLDER_PATTERN@, doc@);
        let mut out: Vec<Placeholder> = Vec::new();
        let mut i: usize = 0;
        while i < matches.len()
            invariant
                i <= matches@.len(),
                groups_views(matches@) == m,
                out@.len() == i,
                forall|j: int|
                    0 <= j < i ==> {
                        let g = #[trigger] m[j];
                        &&& out@[j].indent@ == group_text(g, 1)
                        &&& out@[j].lang@ == group_text(g, 2)
                        &&& out@[j].name@ == group_text(g, 4)
                        &&& out@[j].path@ == group_text(g, 5)
                    },
            decreases matches.len() - i,
        {
            let g = &matches[i];
            assert(m[i as int] == g@);
            out.push(
                Placeholder { indent: g.text(1), lang: g.text(2), name: g.text(4), path: g.text(5) },
            );
            i = i + 1;
        }
        out
    }

    /// `doc` with each placeholder fence replaced by the fence that [`Patterns::render`]
    /// makes of it; `contents[i]` is the content of the file that the `i`-th
    /// placeholder names. What is put in is not searched again.
    pub fn expand(&self, doc: &str, contents: &Vec<String>) -> (r: Result<String, BakeError>)
        requires
            self.wf(),
        ensures
            result_view(r) == expand_result(doc@, views(contents@)),
    {
        let matches = self.placeholder.all_matches(doc);
        let ghost m = all_match_groups(PLACEHOLDER_PATTERN@, doc@);
        let ghost c = views(contents@);
        if contents.len() != matches.len() {
            return Err(BakeError::SourceCount);
        }
        let pieces = self.placeholder.split(doc);
        if pieces.len() == 0 || pieces.len() - 1 != matches.len() {
            return Err(BakeError::Unaligned);
        }
        let mut blocks: Vec<String> = Vec::new();
        let mut i: usize = 0;
        while i < matches.len()
            invariant
                self.wf(),
                i <= matches@.len(),
                contents@.len() == matches@.len(),
                groups_views(matches@) == m,
                m == all_match_groups(PLACEHOLDER_PATTERN@, doc@),
                c == views(contents@),
                views(blocks@) == expansions(doc@, c).take(i as int),
            decreases matches.len() - i,
        {
            let block = self.render(&matches[i], contents[i].as_str());
            let ghost before = blocks@;
            blocks.push(block);
            assert(views(blocks@) =~= views(before).push(block@));
            assert(m[i as int] == matches@[i as int]@);
            assert(c[i as int] == contents@[i as int]@);
            assert(m.len() == matches@.len());
            assert(expansions(doc@, c)[i as int] == rendered(m[i as int], c[i as int]));
            assert(expansions(doc@, c).take(i + 1) =~= expansions(doc@, c).take(i as int).push(
                block@,
            ));
            i = i + 1;
        }
        assert(expansions(doc@, c).take(matches@.len() as int) =~= expansions(doc@, c));
        Ok(interleave(&pieces, &blocks))
    }

    /// `text` with the `!` of each escaped placeholder (`` ```lang:!source ``)
    /// dropped, so that it reads as a placeholder in the output.
    pub fn resolve_escapes(&self, text: &str) -> (r: Result<String, BakeError>)
        requires
            self.wf(),
        ensures
            result_view(r) == escape_result(text@),
    {
        let matches = self.escape.all_matches(text);
        let ghost m = all_match_groups(ESCAPE_PATTERN@, text@);
        let pieces = self.escape.split(text);
        if pieces.len() == 0 || pieces.len() - 1 != matches.len() {
            return Err(BakeError::Unaligned);
        }
        let mut reps: Vec<String> = Vec::new();
        let mut i: usize = 0;
        while i < matches.len()
            invariant
                i <= matches@.len(),
                groups_views(matches@) == m,
                m == all_match_groups(ESCAPE_PATTERN@, text@),
                views(reps@) == unescapes(text@).take(i as int),
            decreases matches.len() - i,
        {
            let mut rep = matches[i].text(1);
            let second = matches[i].text(2);
            rep.append(second.as_str());
            let ghost before = reps@;
            reps.push(rep);
            assert(views(reps@) =~= views(before).push(rep@));
            assert(m[i as int] == matches@[i as int]@);
            assert(m.len() == matches@.len());
            assert(unescapes(text@)[i as int] == unescaped_match(m[i as int]));
            assert(unescapes(text@).take(i + 1) =~= unescapes(text@).take(i as int).push(rep@));
            i = i + 1;
        }
        assert(unescapes(text@).take(matches@.len() as int) =~= unescapes(text@));
        Ok(interleave(&pieces, &reps))
    }

    /// The whole transformation of a document: placeholders are expanded, then
    /// escapes resolved in the result, so that an escaped placeholder is never
    /// expanded. `contents[i]` is the content of the file that the `i`-th of
    /// [`Patterns::placeholders`] names.
    pub fn bake(&self, doc: &str, contents: &Vec<String>) -> (r: Result<String, BakeError>)
        requires
            self.wf(),
        ensures
            result_view(r) == bake_result(doc@, views(contents@)),
    {
        match self.expand(doc, contents) {
            Ok(expanded) => self.resolve_escapes(expanded.as_str()),
            Err(e) => Err(e),
        }
    }
}

} // verus!
