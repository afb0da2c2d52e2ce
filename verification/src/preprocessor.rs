//! The preprocessor: textual inclusion with cycle detection over a
//! caller-supplied file map, and `#if`/`#else`/`#endif` conditional
//! blocks against a key–value configuration.
//!
//! The filesystem is abstracted as a map from paths to contents; a
//! path exists exactly when the map holds it. The caller reads files
//! and fills the map; the expansion itself is pure and is specified by
//! `spec_expand`.

use vstd::prelude::*;
use vstd::string::*;
use crate::config::{spec_lookup, ConfigMap};
use crate::errors::{CompileError, SpecCompileError};
use crate::strutil::str_eq;
use crate::tokenizer::scan_line_end;

verus! {

/// The fixed system include directory.
pub open spec fn spec_system_lib_path() -> Seq<char> {
    "/usr/include/comfylang"@
}

/// A filesystem given as data: path–content pairs. A path exists when
/// some pair holds it; the first pair for a path wins.
#[derive(Debug)]
pub struct FileMap {
    pub files: Vec<(String, String)>,
}

/// The content under the first entry for the path, if any.
pub open spec fn fm_lookup(m: Seq<(Seq<char>, Seq<char>)>, key: Seq<char>) -> Option<Seq<char>>
    decreases m.len(),
{
    if m.len() == 0 {
        None
    } else if m[0].0 == key {
        Some(m[0].1)
    } else {
        fm_lookup(m.drop_first(), key)
    }
}

impl View for FileMap {
    type V = Seq<(Seq<char>, Seq<char>)>;

    open spec fn view(&self) -> Seq<(Seq<char>, Seq<char>)> {
        Seq::new(self.files@.len(), |i: int| (self.files@[i].0@, self.files@[i].1@))
    }
}

impl FileMap {
    /// An empty filesystem.
    pub fn new() -> (m: FileMap)
        ensures
            m@ =~= Seq::<(Seq<char>, Seq<char>)>::empty(),
    {
        FileMap { files: Vec::new() }
    }

    /// Add a file. An earlier entry for the same path keeps priority.
    pub fn insert(&mut self, path: String, content: String)
        ensures
            final(self)@ =~= old(self)@.push((path@, content@)),
    {
        self.files.push((path, content));
    }

    /// The content stored under a path, if any.
    pub fn get(&self, path: &str) -> (r: Option<String>)
        ensures
            match r {
                Some(c) => fm_lookup(self@, path@) == Some(c@),
                None => fm_lookup(self@, path@) is None,
            },
    {
        let mut j: usize = 0;
        proof {
            assert(self@.subrange(0, self@.len() as int) =~= self@);
        }
        while j < self.files.len()
            invariant
                j <= self.files.len(),
                fm_lookup(self@, path@) == fm_lookup(self@.subrange(j as int, self@.len() as int), path@),
            decreases self.files.len() - j,
        {
            proof {
                assert(self@.subrange(j as int, self@.len() as int).drop_first() =~= self@.subrange(
                    j as int + 1,
                    self@.len() as int,
                ));
            }
            if str_eq(self.files[j].0.as_str(), path) {
                return Some(self.files[j].1.clone());
            }
            j += 1;
        }
        None
    }
}

/// Whitespace as trimmed from directive lines.
pub open spec fn is_trim_ws(c: char) -> bool {
    c == ' ' || c == '\t' || c == '\r' || c == '\n'
}

/// The text with leading and trailing whitespace removed.
pub open spec fn spec_trim(s: Seq<char>) -> Seq<char>
    decreases s.len(),
{
    if s.len() == 0 {
        s
    } else if is_trim_ws(s[0]) {
        spec_trim(s.drop_first())
    } else if is_trim_ws(s.last()) {
        spec_trim(s.drop_last())
    } else {
        s
    }
}

/// The text with every leading and trailing double quote removed.
pub open spec fn spec_trim_quotes(s: Seq<char>) -> Seq<char>
    decreases s.len(),
{
    if s.len() == 0 {
        s
    } else if s[0] == '"' {
        spec_trim_quotes(s.drop_first())
    } else if s.last() == '"' {
        spec_trim_quotes(s.drop_last())
    } else {
        s
    }
}

/// Whether `p` begins `s`.
pub open spec fn has_prefix(s: Seq<char>, p: Seq<char>) -> bool {
    s.len() >= p.len() && s.subrange(0, p.len() as int) == p
}

/// Whether `p` ends `s`.
pub open spec fn has_suffix(s: Seq<char>, p: Seq<char>) -> bool {
    s.len() >= p.len() && s.subrange(s.len() - p.len(), s.len() as int) == p
}

/// The text with every copy of the prefix removed from the front.
pub open spec fn strip_prefix_rep(s: Seq<char>, p: Seq<char>) -> Seq<char>
    decreases s.len(),
{
    if p.len() > 0 && has_prefix(s, p) {
        strip_prefix_rep(s.subrange(p.len() as int, s.len() as int), p)
    } else {
        s
    }
}

/// The text with every copy of the suffix removed from the back.
pub open spec fn strip_suffix_rep(s: Seq<char>, p: Seq<char>) -> Seq<char>
    decreases s.len(),
{
    if p.len() > 0 && has_suffix(s, p) {
        strip_suffix_rep(s.subrange(0, s.len() - p.len()), p)
    } else {
        s
    }
}

/// The condition of an `#if` directive, when the line is one.
pub open spec fn spec_parse_if_directive(line: Seq<char>) -> Option<Seq<char>> {
    if has_prefix(line, "#if "@) {
        Some(spec_trim(strip_prefix_rep(line, "#if "@)))
    } else {
        None
    }
}

/// The name of a system include, when the line is one.
pub open spec fn spec_parse_system_include(line: Seq<char>) -> Option<Seq<char>> {
    if has_prefix(line, "#include<"@) && has_suffix(line, ">"@) {
        Some(spec_trim(strip_suffix_rep(strip_prefix_rep(line, "#include<"@), ">"@)))
    } else {
        None
    }
}

/// The name of a user include, when the line is one.
pub open spec fn spec_parse_user_include(line: Seq<char>) -> Option<Seq<char>> {
    if has_prefix(line, "#include<\""@) && has_suffix(line, "\">"@) {
        Some(spec_trim(strip_suffix_rep(strip_prefix_rep(line, "#include<\""@), "\">"@)))
    } else {
        None
    }
}

/// The first position at or after `i` where `pat` occurs in `s`, or the
/// length of `s` when it does not occur.
pub open spec fn find_pair(s: Seq<char>, i: int, c1: char, c2: char) -> int
    decreases s.len() - i,
{
    if i < 0 || i + 2 > s.len() {
        s.len() as int
    } else if s[i] == c1 && s[i + 1] == c2 {
        i
    } else {
        find_pair(s, i + 1, c1, c2)
    }
}

/// The truth of a conditional expression against the configuration:
/// `KEY == "VALUE"`, `KEY != "VALUE"`, or a bare key that must be
/// defined as `true` or `1`.
pub open spec fn spec_eval_condition(
    cond: Seq<char>,
    cfg: Seq<(Seq<char>, Seq<char>)>,
) -> bool {
    let je = find_pair(cond, 0, '=', '=');
    let jn = find_pair(cond, 0, '!', '=');
    if je < cond.len() {
        let k = spec_trim(cond.subrange(0, je));
        let v = spec_trim_quotes(spec_trim(cond.subrange(je + 2, cond.len() as int)));
        match spec_lookup(cfg, k) {
            Some(val) => val == v,
            None => false,
        }
    } else if jn < cond.len() {
        let k = spec_trim(cond.subrange(0, jn));
        let v = spec_trim_quotes(spec_trim(cond.subrange(jn + 2, cond.len() as int)));
        match spec_lookup(cfg, k) {
            Some(val) => val != v,
            None => true,
        }
    } else {
        match spec_lookup(cfg, spec_trim(cond)) {
            Some(val) => val == "true"@ || val == "1"@,
            None => false,
        }
    }
}

/// The index after the last `/` of a path, or zero when it has none.
pub open spec fn after_last_slash(s: Seq<char>) -> int
    decreases s.len(),
{
    if s.len() == 0 {
        0
    } else if s.last() == '/' {
        s.len() as int
    } else {
        after_last_slash(s.drop_last())
    }
}

/// The directory part of a path: everything before its last `/`, or the
/// empty text when it has none.
pub open spec fn spec_parent_dir(s: Seq<char>) -> Seq<char> {
    if after_last_slash(s) == 0 {
        Seq::empty()
    } else {
        s.subrange(0, after_last_slash(s) - 1)
    }
}

/// A directory joined with a file name.
pub open spec fn spec_join(dir: Seq<char>, name: Seq<char>) -> Seq<char> {
    if dir.len() == 0 {
        name
    } else {
        dir + "/"@ + name
    }
}

/// The paths probed for a user include, in probe order: beside the
/// current file first, then each user search directory.
pub open spec fn spec_candidates(
    name: Seq<char>,
    cur_path: Seq<char>,
    dirs: Seq<Seq<char>>,
) -> Seq<Seq<char>> {
    seq![spec_join(spec_parent_dir(cur_path), name)] + Seq::new(
        dirs.len(),
        |i: int| spec_join(dirs[i], name),
    )
}

/// The first candidate the file map holds, or the unresolved-include
/// error naming every candidate probed.
pub open spec fn spec_resolve_from(
    fs: Seq<(Seq<char>, Seq<char>)>,
    cands: Seq<Seq<char>>,
    i: int,
    name: Seq<char>,
) -> Result<Seq<char>, SpecCompileError>
    decreases cands.len() - i,
{
    if i < 0 || i >= cands.len() {
        Err(SpecCompileError::UnresolvedInclude(name, cands))
    } else if fm_lookup(fs, cands[i]) is Some {
        Ok(cands[i])
    } else {
        spec_resolve_from(fs, cands, i + 1, name)
    }
}

/// How many entries of the file map are not yet on the inclusion stack:
/// the measure that bounds the include recursion.
pub open spec fn count_unseen(m: Seq<(Seq<char>, Seq<char>)>, seen: Set<Seq<char>>) -> nat
    decreases m.len(),
{
    if m.len() == 0 {
        0
    } else {
        (if seen.contains(m[0].0) {
            0nat
        } else {
            1nat
        }) + count_unseen(m.drop_first(), seen)
    }
}

proof fn lemma_count_unseen_insert_le(m: Seq<(Seq<char>, Seq<char>)>, seen: Set<Seq<char>>, p: Seq<char>)
    ensures
        count_unseen(m, seen.insert(p)) <= count_unseen(m, seen),
    decreases m.len(),
{
    if m.len() > 0 {
        lemma_count_unseen_insert_le(m.drop_first(), seen, p);
    }
}

/// Stacking a path that the map holds and the stack does not strictly
/// shrinks the measure.
proof fn lemma_count_unseen_insert(m: Seq<(Seq<char>, Seq<char>)>, seen: Set<Seq<char>>, p: Seq<char>)
    requires
        fm_lookup(m, p) is Some,
        !seen.contains(p),
    ensures
        count_unseen(m, seen.insert(p)) < count_unseen(m, seen),
    decreases m.len(),
{
    if m.len() > 0 {
        if m[0].0 == p {
            lemma_count_unseen_insert_le(m.drop_first(), seen, p);
        } else {
            lemma_count_unseen_insert(m.drop_first(), seen, p);
        }
    }
}

/// The line split of a text, as `str::lines` makes it: segments between
/// newlines, each stripped of one trailing carriage return, without a
/// final empty segment.
pub open spec fn spec_lines(s: Seq<char>) -> Seq<Seq<char>>
    decreases s.len(),
    via spec_lines_decreases
{
    if s.len() == 0 {
        Seq::empty()
    } else {
        let j = scan_line_end(s, 0);
        let line = spec_strip_cr(s.subrange(0, j));
        if j >= s.len() {
            seq![line]
        } else {
            seq![line] + spec_lines(s.subrange(j + 1, s.len() as int))
        }
    }
}

/// One trailing carriage return removed.
pub open spec fn spec_strip_cr(l: Seq<char>) -> Seq<char> {
    if l.len() > 0 && l.last() == '\r' {
        l.drop_last()
    } else {
        l
    }
}

#[via_fn]
proof fn spec_lines_decreases(s: Seq<char>) {
    crate::tokenizer::lemma_scan_bounds(s, 0);
}

/// `Ok` with text prepended, or the unchanged error.
pub open spec fn cat_out(pre: Seq<char>, r: Result<Seq<char>, SpecCompileError>) -> Result<
    Seq<char>,
    SpecCompileError,
> {
    match r {
        Ok(s) => Ok(pre + s),
        Err(e) => Err(e),
    }
}

proof fn lemma_cat_out_assoc(pre: Seq<char>, x: Seq<char>, r: Result<Seq<char>, SpecCompileError>)
    ensures
        cat_out(pre, cat_out(x, r)) == cat_out(pre + x, r),
{
    match r {
        Ok(s) => {
            assert(pre + (x + s) =~= (pre + x) + s);
        },
        Err(_) => {},
    }
}

/// The expansion of one file: a cycle is fatal, a missing file is
/// fatal, and otherwise its lines are processed with a fresh
/// conditional state and the file on the inclusion stack.
pub open spec fn spec_expand(
    fs: Seq<(Seq<char>, Seq<char>)>,
    path: Seq<char>,
    stack: Set<Seq<char>>,
    dirs: Seq<Seq<char>>,
    cfg: Seq<(Seq<char>, Seq<char>)>,
) -> Result<Seq<char>, SpecCompileError>
    decreases count_unseen(fs, stack), 0nat, 0nat,
    via spec_expand_decreases
{
    if stack.contains(path) {
        Err(SpecCompileError::CircularInclude(path))
    } else {
        match fm_lookup(fs, path) {
            None => Err(SpecCompileError::IoError(path)),
            Some(content) => spec_expand_lines(
                fs,
                path,
                spec_lines(content),
                0,
                stack.insert(path),
                dirs,
                cfg,
                Seq::empty(),
                true,
            ),
        }
    }
}

#[via_fn]
proof fn spec_expand_decreases(
    fs: Seq<(Seq<char>, Seq<char>)>,
    path: Seq<char>,
    stack: Set<Seq<char>>,
    dirs: Seq<Seq<char>>,
    cfg: Seq<(Seq<char>, Seq<char>)>,
) {
    if !stack.contains(path) && fm_lookup(fs, path) is Some {
        lemma_count_unseen_insert(fs, stack, path);
    }
}

/// The expansion of the lines of one file, from line `li` on, under a
/// conditional-compilation state: the stack of enclosing activity
/// flags and the current flag.
pub open spec fn spec_expand_lines(
    fs: Seq<(Seq<char>, Seq<char>)>,
    cur_path: Seq<char>,
    lines: Seq<Seq<char>>,
    li: int,
    stack: Set<Seq<char>>,
    dirs: Seq<Seq<char>>,
    cfg: Seq<(Seq<char>, Seq<char>)>,
    conds: Seq<bool>,
    active: bool,
) -> Result<Seq<char>, SpecCompileError>
    decreases count_unseen(fs, stack), 1nat, lines.len() - li,
{
    if li < 0 || li >= lines.len() {
        if conds.len() > 0 {
            Err(SpecCompileError::UnmatchedConditional)
        } else {
            Ok(Seq::empty())
        }
    } else {
        let line = lines[li];
        let trimmed = spec_trim(line);
        match spec_parse_if_directive(trimmed) {
            Some(cond) => spec_expand_lines(
                fs,
                cur_path,
                lines,
                li + 1,
                stack,
                dirs,
                cfg,
                conds.push(active),
                active && spec_eval_condition(cond, cfg),
            ),
            None => {
                if trimmed == "#else"@ {
                    if conds.len() == 0 {
                        Err(SpecCompileError::UnmatchedConditional)
                    } else {
                        spec_expand_lines(
                            fs,
                            cur_path,
                            lines,
                            li + 1,
                            stack,
                            dirs,
                            cfg,
                            conds,
                            conds.last() && !active,
                        )
                    }
                } else if trimmed == "#endif"@ {
                    if conds.len() == 0 {
                        Err(SpecCompileError::UnmatchedConditional)
                    } else {
                        spec_expand_lines(
                            fs,
                            cur_path,
                            lines,
                            li + 1,
                            stack,
                            dirs,
                            cfg,
                            conds.drop_last(),
                            conds.last(),
                        )
                    }
                } else if !active {
                    spec_expand_lines(fs, cur_path, lines, li + 1, stack, dirs, cfg, conds, active)
                } else {
                    match spec_parse_user_include(trimmed) {
                        Some(name) => {
                            let cands = spec_candidates(name, cur_path, dirs);
                            match spec_resolve_from(fs, cands, 0, name) {
                                Err(e) => Err(e),
                                Ok(resolved) => match spec_expand(fs, resolved, stack, dirs, cfg) {
                                    Err(e) => Err(e),
                                    Ok(c1) => cat_out(
                                        c1,
                                        spec_expand_lines(
                                            fs,
                                            cur_path,
                                            lines,
                                            li + 1,
                                            stack,
                                            dirs,
                                            cfg,
                                            conds,
                                            active,
                                        ),
                                    ),
                                },
                            }
                        },
                        None => {
                            match spec_parse_system_include(trimmed) {
                                Some(name) => {
                                    let syspath = spec_join(spec_system_lib_path(), name);
                                    match spec_expand(fs, syspath, stack, dirs, cfg) {
                                        Err(e) => Err(e),
                                        Ok(c1) => cat_out(
                                            c1,
                                            spec_expand_lines(
                                                fs,
                                                cur_path,
                                                lines,
                                                li + 1,
                                                stack,
                                                dirs,
                                                cfg,
                                                conds,
                                                active,
                                            ),
                                        ),
                                    }
                                },
                                None => cat_out(
                                    line + "\n"@,
                                    spec_expand_lines(
                                        fs,
                                        cur_path,
                                        lines,
                                        li + 1,
                                        stack,
                                        dirs,
                                        cfg,
                                        conds,
                                        active,
                                    ),
                                ),
                            }
                        },
                    }
                }
            },
        }
    }
}

/// The whole preprocessing of an entry file against a file map, user
/// search directories, and a configuration.
pub open spec fn spec_preprocess(
    fs: Seq<(Seq<char>, Seq<char>)>,
    entry: Seq<char>,
    dirs: Seq<Seq<char>>,
    cfg: Seq<(Seq<char>, Seq<char>)>,
) -> Result<Seq<char>, SpecCompileError> {
    spec_expand(fs, entry, Set::empty(), dirs, cfg)
}

/// A line that is no directive: not `#if`, `#else`, `#endif`, nor an
/// include.
pub open spec fn is_plain_line(l: Seq<char>) -> bool {
    &&& spec_parse_if_directive(spec_trim(l)) is None
    &&& spec_trim(l) != "#else"@
    &&& spec_trim(l) != "#endif"@
    &&& spec_parse_user_include(spec_trim(l)) is None
    &&& spec_parse_system_include(spec_trim(l)) is None
}

/// The lines joined back together, a newline after each.
pub open spec fn spec_unsplit(lines: Seq<Seq<char>>, i: int) -> Seq<char>
    decreases lines.len() - i,
{
    if i < 0 || i >= lines.len() {
        Seq::empty()
    } else {
        lines[i] + "\n"@ + spec_unsplit(lines, i + 1)
    }
}

proof fn lemma_expand_lines_plain(
    fs: Seq<(Seq<char>, Seq<char>)>,
    path: Seq<char>,
    lines: Seq<Seq<char>>,
    li: int,
    stack: Set<Seq<char>>,
    dirs: Seq<Seq<char>>,
    cfg: Seq<(Seq<char>, Seq<char>)>,
)
    requires
        0 <= li,
        forall|i: int| li <= i < lines.len() ==> is_plain_line(#[trigger] lines[i]),
    ensures
        spec_expand_lines(fs, path, lines, li, stack, dirs, cfg, Seq::empty(), true) == Ok::<
            Seq<char>,
            SpecCompileError,
        >(spec_unsplit(lines, li)),
    decreases lines.len() - li,
{
    if li < lines.len() {
        lemma_expand_lines_plain(fs, path, lines, li + 1, stack, dirs, cfg);
    }
}

/// Law: a source text with no directives preprocesses to itself, up to
/// the normalization that puts a newline after every line.
pub proof fn lemma_preprocess_no_directives(
    fs: Seq<(Seq<char>, Seq<char>)>,
    entry: Seq<char>,
    dirs: Seq<Seq<char>>,
    cfg: Seq<(Seq<char>, Seq<char>)>,
    content: Seq<char>,
)
    requires
        fm_lookup(fs, entry) == Some(content),
        forall|i: int|
            0 <= i < spec_lines(content).len() ==> is_plain_line(#[trigger] spec_lines(content)[i]),
    ensures
        spec_preprocess(fs, entry, dirs, cfg) == Ok::<Seq<char>, SpecCompileError>(
            spec_unsplit(spec_lines(content), 0),
        ),
{
    assert(!Set::<Seq<char>>::empty().contains(entry));
    lemma_expand_lines_plain(
        fs,
        entry,
        spec_lines(content),
        0,
        Set::<Seq<char>>::empty().insert(entry),
        dirs,
        cfg,
    );
}

fn trim_str(s: &str) -> (r: String)
    ensures
        r@ == spec_trim(s@),
    decreases s@.len(),
{
    let n = s.unicode_len();
    if n == 0 {
        return s.to_owned();
    }
    let c0 = s.get_char(0);
    if c0 == ' ' || c0 == '\t' || c0 == '\r' || c0 == '\n' {
        let rest = s.substring_char(1, n);
        proof {
            assert(rest@ =~= s@.drop_first());
        }
        return trim_str(rest);
    }
    let cl = s.get_char(n - 1);
    if cl == ' ' || cl == '\t' || cl == '\r' || cl == '\n' {
        let rest = s.substring_char(0, n - 1);
        proof {
            assert(rest@ =~= s@.drop_last());
        }
        return trim_str(rest);
    }
    s.to_owned()
}

fn trim_quotes_str(s: &str) -> (r: String)
    ensures
        r@ == spec_trim_quotes(s@),
    decreases s@.len(),
{
    let n = s.unicode_len();
    if n == 0 {
        return s.to_owned();
    }
    let c0 = s.get_char(0);
    if c0 == '"' {
        let rest = s.substring_char(1, n);
        proof {
            assert(rest@ =~= s@.drop_first());
        }
        return trim_quotes_str(rest);
    }
    let cl = s.get_char(n - 1);
    if cl == '"' {
        let rest = s.substring_char(0, n - 1);
        proof {
            assert(rest@ =~= s@.drop_last());
        }
        return trim_quotes_str(rest);
    }
    s.to_owned()
}

fn has_prefix_str(s: &str, p: &str) -> (r: bool)
    ensures
        r == has_prefix(s@, p@),
{
    let n = s.unicode_len();
    let pn = p.unicode_len();
    if pn > n {
        return false;
    }
    let mut j: usize = 0;
    while j < pn
        invariant_except_break
            j <= pn,
            pn <= n,
            n as int == s@.len(),
            pn as int == p@.len(),
            forall|i: int| 0 <= i < j as int ==> s@[i] == p@[i],
        ensures
            n as int == s@.len(),
            pn as int == p@.len(),
            pn <= n,
            (j == pn && forall|i: int| 0 <= i < pn as int ==> s@[i] == p@[i]) || (j < pn
                && s@[j as int] != p@[j as int]),
        decreases pn - j,
    {
        if s.get_char(j) != p.get_char(j) {
            break;
        }
        j += 1;
    }
    if j == pn {
        proof {
            assert(s@.subrange(0, p@.len() as int) =~= p@);
        }
        true
    } else {
        proof {
            assert(s@.subrange(0, p@.len() as int)[j as int] == s@[j as int]);
        }
        false
    }
}

fn has_suffix_str(s: &str, p: &str) -> (r: bool)
    ensures
        r == has_suffix(s@, p@),
{
    let n = s.unicode_len();
    let pn = p.unicode_len();
    if pn > n {
        return false;
    }
    let tail = s.substring_char(n - pn, n);
    let r = has_prefix_str(tail, p);
    proof {
        if has_prefix(tail@, p@) {
            assert(s@.subrange(s@.len() - p@.len(), s@.len() as int) =~= tail@.subrange(
                0,
                p@.len() as int,
            ));
        } else if has_suffix(s@, p@) {
            assert(tail@.subrange(0, p@.len() as int) =~= s@.subrange(
                s@.len() - p@.len(),
                s@.len() as int,
            ));
        }
    }
    r
}

fn strip_prefix_rep_str(s: &str, p: &str) -> (r: String)
    requires
        p@.len() > 0,
    ensures
        r@ == strip_prefix_rep(s@, p@),
    decreases s@.len(),
{
    let n = s.unicode_len();
    let pn = p.unicode_len();
    if has_prefix_str(s, p) {
        let rest = s.substring_char(pn, n);
        strip_prefix_rep_str(rest, p)
    } else {
        s.to_owned()
    }
}

fn strip_suffix_rep_str(s: &str, p: &str) -> (r: String)
    requires
        p@.len() > 0,
    ensures
        r@ == strip_suffix_rep(s@, p@),
    decreases s@.len(),
{
    let n = s.unicode_len();
    let pn = p.unicode_len();
    if has_suffix_str(s, p) {
        let rest = s.substring_char(0, n - pn);
        strip_suffix_rep_str(rest, p)
    } else {
        s.to_owned()
    }
}

fn parse_if_directive(line: &str) -> (r: Option<String>)
    ensures
        match r {
            Some(c) => spec_parse_if_directive(line@) == Some(c@),
            None => spec_parse_if_directive(line@) is None,
        },
{
    if has_prefix_str(line, "#if ") {
        proof {
            reveal_strlit("#if ");
        }
        let stripped = strip_prefix_rep_str(line, "#if ");
        Some(trim_str(stripped.as_str()))
    } else {
        None
    }
}

fn parse_system_include(line: &str) -> (r: Option<String>)
    ensures
        match r {
            Some(c) => spec_parse_system_include(line@) == Some(c@),
            None => spec_parse_system_include(line@) is None,
        },
{
    if has_prefix_str(line, "#include<") && has_suffix_str(line, ">") {
        proof {
            reveal_strlit("#include<");
            reveal_strlit(">");
        }
        let s1 = strip_prefix_rep_str(line, "#include<");
        let s2 = strip_suffix_rep_str(s1.as_str(), ">");
        Some(trim_str(s2.as_str()))
    } else {
        None
    }
}

fn parse_user_include(line: &str) -> (r: Option<String>)
    ensures
        match r {
            Some(c) => spec_parse_user_include(line@) == Some(c@),
            None => spec_parse_user_include(line@) is None,
        },
{
    if has_prefix_str(line, "#include<\"") && has_suffix_str(line, "\">") {
        proof {
            reveal_strlit("#include<\"");
            reveal_strlit("\">");
        }
        let s1 = strip_prefix_rep_str(line, "#include<\"");
        let s2 = strip_suffix_rep_str(s1.as_str(), "\">");
        Some(trim_str(s2.as_str()))
    } else {
        None
    }
}

fn find_pair_str(s: &str, c1: char, c2: char) -> (j: usize)
    ensures
        j as int == find_pair(s@, 0, c1, c2),
        j as int + 2 <= s@.len() || j as int == s@.len(),
{
    let n = s.unicode_len();
    if n < 2 {
        return n;
    }
    let mut j: usize = 0;
    while j <= n - 2
        invariant_except_break
            j <= n - 1,
            2 <= n,
            n as int == s@.len(),
            find_pair(s@, 0, c1, c2) == find_pair(s@, j as int, c1, c2),
        ensures
            2 <= n,
            n as int == s@.len(),
            find_pair(s@, 0, c1, c2) == find_pair(s@, j as int, c1, c2),
            (j <= n - 2 && s@[j as int] == c1 && s@[j as int + 1] == c2) || j > n - 2,
        decreases n - j,
    {
        if s.get_char(j) == c1 && s.get_char(j + 1) == c2 {
            break;
        }
        j += 1;
    }
    if j <= n - 2 {
        j
    } else {
        n
    }
}

/// Evaluate one conditional expression against the configuration.
pub fn evaluate_condition(condition: &str, config: &ConfigMap) -> (r: bool)
    ensures
        r == spec_eval_condition(condition@, config@),
{
    let n = condition.unicode_len();
    let je = find_pair_str(condition, '=', '=');
    let jn = find_pair_str(condition, '!', '=');
    if je < n {
        let key = trim_str(condition.substring_char(0, je));
        let vraw = trim_str(condition.substring_char(je + 2, n));
        let v = trim_quotes_str(vraw.as_str());
        match config.get(key.as_str()) {
            Some(val) => str_eq(val.as_str(), v.as_str()),
            None => false,
        }
    } else if jn < n {
        let key = trim_str(condition.substring_char(0, jn));
        let vraw = trim_str(condition.substring_char(jn + 2, n));
        let v = trim_quotes_str(vraw.as_str());
        match config.get(key.as_str()) {
            Some(val) => !str_eq(val.as_str(), v.as_str()),
            None => true,
        }
    } else {
        let key = trim_str(condition);
        match config.get(key.as_str()) {
            Some(val) => str_eq(val.as_str(), "true") || str_eq(val.as_str(), "1"),
            None => false,
        }
    }
}

fn parent_dir(path: &str) -> (r: String)
    ensures
        r@ == spec_parent_dir(path@),
{
    let n = path.unicode_len();
    let mut j: usize = n;
    proof {
        assert(path@.subrange(0, n as int) =~= path@);
    }
    while j > 0
        invariant_except_break
            j <= n,
            n as int == path@.len(),
            after_last_slash(path@) == after_last_slash(path@.subrange(0, j as int)),
        ensures
            j <= n,
            n as int == path@.len(),
            j as int == after_last_slash(path@),
        decreases j,
    {
        let c = path.get_char(j - 1);
        if c == '/' {
            proof {
                assert(after_last_slash(path@.subrange(0, j as int)) == j as int);
            }
            break;
        }
        proof {
            assert(path@.subrange(0, j as int).drop_last() =~= path@.subrange(0, j as int - 1));
        }
        j -= 1;
        proof {
            if j == 0 {
                assert(path@.subrange(0, 0) =~= Seq::<char>::empty());
            }
        }
    }
    if j == 0 {
        proof {
            reveal_strlit("");
        }
        "".to_owned()
    } else {
        path.substring_char(0, j - 1).to_owned()
    }
}

fn join_path(dir: &str, name: &str) -> (r: String)
    ensures
        r@ == spec_join(dir@, name@),
{
    if dir.unicode_len() == 0 {
        name.to_owned()
    } else {
        let mut s = dir.to_owned();
        s.append("/");
        s.append(name);
        s
    }
}

fn resolve_user_include(
    fs: &FileMap,
    name: &str,
    cur_path: &str,
    user_paths: &Vec<String>,
) -> (r: Result<String, CompileError>)
    ensures
        match r {
            Ok(p) => spec_resolve_from(
                fs@,
                spec_candidates(name@, cur_path@, crate::ast::view_strings(user_paths@)),
                0,
                name@,
            ) == Ok::<_, SpecCompileError>(p@),
            Err(e) => spec_resolve_from(
                fs@,
                spec_candidates(name@, cur_path@, crate::ast::view_strings(user_paths@)),
                0,
                name@,
            ) == Err::<Seq<char>, _>(e@),
        },
{
    let ghost cands = spec_candidates(name@, cur_path@, crate::ast::view_strings(user_paths@));
    let mut candidates: Vec<String> = Vec::new();
    let parent = parent_dir(cur_path);
    candidates.push(join_path(parent.as_str(), name));
    let mut i: usize = 0;
    while i < user_paths.len()
        invariant
            i <= user_paths.len(),
            candidates@.len() == i + 1,
            forall|k: int| 0 <= k < candidates@.len() ==> candidates@[k]@ == cands[k],
            cands.len() == user_paths@.len() + 1,
            cands == spec_candidates(name@, cur_path@, crate::ast::view_strings(user_paths@)),
        decreases user_paths.len() - i,
    {
        candidates.push(join_path(user_paths[i].as_str(), name));
        i += 1;
    }
    let mut j: usize = 0;
    while j < candidates.len()
        invariant_except_break
            j <= candidates.len(),
            candidates@.len() == cands.len(),
            forall|k: int| 0 <= k < candidates@.len() ==> candidates@[k]@ == cands[k],
            spec_resolve_from(fs@, cands, 0, name@) == spec_resolve_from(fs@, cands, j as int, name@),
        ensures
            candidates@.len() == cands.len(),
            forall|k: int| 0 <= k < candidates@.len() ==> candidates@[k]@ == cands[k],
            spec_resolve_from(fs@, cands, 0, name@) == spec_resolve_from(fs@, cands, j as int, name@),
            j < candidates.len() ==> fm_lookup(fs@, cands[j as int]) is Some,
            j == candidates.len() || j < candidates.len(),
            j <= candidates.len(),
            j < candidates.len() || spec_resolve_from(fs@, cands, j as int, name@) == Err::<
                Seq<char>,
                _,
            >(SpecCompileError::UnresolvedInclude(name@, cands)),
        decreases candidates.len() - j,
    {
        match fs.get(candidates[j].as_str()) {
            Some(_) => {
                break;
            },
            None => {},
        }
        j += 1;
    }
    if j < candidates.len() {
        let p = candidates[j].clone();
        Ok(p)
    } else {
        proof {
            assert(crate::ast::view_strings(candidates@) =~= cands);
        }
        Err(CompileError::UnresolvedInclude(name.to_owned(), candidates))
    }
}

fn split_lines(text: &str) -> (r: Vec<String>)
    ensures
        crate::ast::view_strings(r@) == spec_lines(text@),
    decreases text@.len(),
{
    let n = text.unicode_len();
    if n == 0 {
        let r = Vec::<String>::new();
        proof {
            assert(crate::ast::view_strings(r@) =~= spec_lines(text@));
        }
        return r;
    }
    let j = crate::tokenizer::find_line_end(text, 0);
    let raw = text.substring_char(0, j);
    let rn = raw.unicode_len();
    let line = if rn > 0 && raw.get_char(rn - 1) == '\r' {
        let l = raw.substring_char(0, rn - 1);
        proof {
            assert(l@ =~= raw@.drop_last());
        }
        l.to_owned()
    } else {
        raw.to_owned()
    };
    if j >= n {
        let mut r = Vec::<String>::new();
        r.push(line);
        proof {
            assert(crate::ast::view_strings(r@) =~= spec_lines(text@));
        }
        r
    } else {
        let rest = text.substring_char(j + 1, n);
        let mut r = split_lines(rest);
        r.insert(0, line);
        proof {
            assert(crate::ast::view_strings(r@) =~= spec_lines(text@));
        }
        r
    }
}

/// The set of paths a stack of strings holds.
pub open spec fn seen_set(s: Seq<String>) -> Set<Seq<char>> {
    Set::new(|p: Seq<char>| exists|i: int| 0 <= i < s.len() && s[i]@ == p)
}

fn seen_contains(seen: &Vec<String>, path: &str) -> (r: bool)
    ensures
        r == seen_set(seen@).contains(path@),
{
    let mut j: usize = 0;
    while j < seen.len()
        invariant_except_break
            j <= seen.len(),
            forall|i: int| 0 <= i < j as int ==> seen@[i]@ != path@,
        ensures
            (j < seen.len() && seen@[j as int]@ == path@) || (j == seen.len() && forall|i: int|
                0 <= i < seen@.len() ==> seen@[i]@ != path@),
        decreases seen.len() - j,
    {
        if str_eq(seen[j].as_str(), path) {
            break;
        }
        j += 1;
    }
    if j < seen.len() {
        proof {
            assert(seen_set(seen@).contains(path@));
        }
        true
    } else {
        proof {
            assert(!seen_set(seen@).contains(path@));
        }
        false
    }
}

proof fn lemma_seen_push(s: Seq<String>, p: String)
    ensures
        seen_set(s.push(p)) == seen_set(s).insert(p@),
{
    assert forall|x: Seq<char>| seen_set(s.push(p)).contains(x) <==> seen_set(s).insert(
        p@,
    ).contains(x) by {
        if seen_set(s.push(p)).contains(x) {
            let i = choose|i: int| 0 <= i < s.push(p).len() && s.push(p)[i]@ == x;
            if i < s.len() {
                assert(s[i]@ == x);
            }
        }
        if seen_set(s).insert(p@).contains(x) {
            if x == p@ {
                assert(s.push(p)[s.len() as int]@ == x);
            } else {
                let i = choose|i: int| 0 <= i < s.len() && s[i]@ == x;
                assert(s.push(p)[i]@ == x);
            }
        }
    }
    assert(seen_set(s.push(p)) =~= seen_set(s).insert(p@));
}

#[verifier::rlimit(100)]
#[verifier::loop_isolation(false)]
#[verifier::spinoff_prover]
fn expand_includes_with_conditions(
    fs: &FileMap,
    file_path: &str,
    seen: &mut Vec<String>,
    user_include_dirs: &Vec<String>,
    config: &ConfigMap,
) -> (r: Result<String, CompileError>)
    ensures
        final(seen)@ == old(seen)@,
        match r {
            Ok(s) => spec_expand(
                fs@,
                file_path@,
                seen_set(old(seen)@),
                crate::ast::view_strings(user_include_dirs@),
                config@,
            ) == Ok::<_, SpecCompileError>(s@),
            Err(e) => spec_expand(
                fs@,
                file_path@,
                seen_set(old(seen)@),
                crate::ast::view_strings(user_include_dirs@),
                config@,
            ) == Err::<Seq<char>, _>(e@),
        },
    decreases count_unseen(fs@, seen_set(seen@)),
{
    let ghost dirs = crate::ast::view_strings(user_include_dirs@);
    let ghost stack0 = seen_set(old(seen)@);
    if seen_contains(seen, file_path) {
        return Err(CompileError::CircularInclude(file_path.to_owned()));
    }
    let content = match fs.get(file_path) {
        Some(c) => c,
        None => {
            return Err(CompileError::IoError(file_path.to_owned()));
        },
    };
    let fp_owned = file_path.to_owned();
    let ghost fp_ghost = fp_owned;
    seen.push(fp_owned);
    let ghost stack2 = seen_set(seen@);
    proof {
        lemma_seen_push(old(seen)@, fp_ghost);
        lemma_count_unseen_insert(fs@, stack0, file_path@);
        assert(seen@.drop_last() =~= old(seen)@);
    }
    let lines = split_lines(content.as_str());
    let ghost lv = spec_lines(content@);
    let mut output = String::new();
    let mut conds: Vec<bool> = Vec::new();
    let mut active = true;
    let mut li: usize = 0;
    proof {
        assert(crate::ast::view_strings(lines@) == lv);
    }
    while li < lines.len()
        invariant
            li <= lines.len(),
            lines@.len() == lv.len(),
            forall|i: int| 0 <= i < lv.len() ==> lines@[i]@ == lv[i],
            seen@.len() == old(seen)@.len() + 1,
            seen@.drop_last() =~= old(seen)@,
            seen_set(seen@) == stack2,
            count_unseen(fs@, stack2) < count_unseen(fs@, stack0),
            spec_expand_lines(fs@, file_path@, lv, 0, stack2, dirs, config@, Seq::empty(), true)
                == cat_out(
                output@,
                spec_expand_lines(
                    fs@,
                    file_path@,
                    lv,
                    li as int,
                    stack2,
                    dirs,
                    config@,
                    conds@,
                    active,
                ),
            ),
        decreases lines.len() - li,
    {
        let ghost pre = output@;
        let line = &lines[li];
        let trimmed = trim_str(line.as_str());
        if let Some(cond) = parse_if_directive(trimmed.as_str()) {
            let c = evaluate_condition(cond.as_str(), config);
            conds.push(active);
            active = active && c;
            li += 1;
        } else if str_eq(trimmed.as_str(), "#else") {
            proof {
                reveal_strlit("#else");
            }
            if conds.len() == 0 {
                seen.pop();
                proof {
                    assert(seen@ =~= old(seen)@);
                }
                return Err(CompileError::UnmatchedConditional);
            }
            let outer = conds[conds.len() - 1];
            active = outer && !active;
            li += 1;
        } else if str_eq(trimmed.as_str(), "#endif") {
            proof {
                reveal_strlit("#endif");
            }
            if conds.len() == 0 {
                seen.pop();
                proof {
                    assert(seen@ =~= old(seen)@);
                }
                return Err(CompileError::UnmatchedConditional);
            }
            let outer = conds[conds.len() - 1];
            conds.pop();
            active = outer;
            li += 1;
        } else if !active {
            li += 1;
        } else if let Some(name) = parse_user_include(trimmed.as_str()) {
            let resolved = match resolve_user_include(fs, name.as_str(), file_path, user_include_dirs) {
                Ok(p) => p,
                Err(e) => {
                    seen.pop();
                    proof {
                        assert(seen@ =~= old(seen)@);
                    }
                    return Err(e);
                },
            };
            let contents = match expand_includes_with_conditions(
                fs,
                resolved.as_str(),
                seen,
                user_include_dirs,
                config,
            ) {
                Ok(c) => c,
                Err(e) => {
                    seen.pop();
                    proof {
                        assert(seen@ =~= old(seen)@);
                    }
                    return Err(e);
                },
            };
            output.append(contents.as_str());
            li += 1;
            proof {
                lemma_cat_out_assoc(
                    pre,
                    contents@,
                    spec_expand_lines(
                        fs@,
                        file_path@,
                        lv,
                        li as int,
                        stack2,
                        dirs,
                        config@,
                        conds@,
                        active,
                    ),
                );
            }
        } else if let Some(name) = parse_system_include(trimmed.as_str()) {
            proof {
                reveal_strlit("/usr/include/comfylang");
            }
            let sys_path = join_path("/usr/include/comfylang", name.as_str());
            let contents = match expand_includes_with_conditions(
                fs,
                sys_path.as_str(),
                seen,
                user_include_dirs,
                config,
            ) {
                Ok(c) => c,
                Err(e) => {
                    seen.pop();
                    proof {
                        assert(seen@ =~= old(seen)@);
                    }
                    return Err(e);
                },
            };
            output.append(contents.as_str());
            li += 1;
            proof {
                lemma_cat_out_assoc(
                    pre,
                    contents@,
                    spec_expand_lines(
                        fs@,
                        file_path@,
                        lv,
                        li as int,
                        stack2,
                        dirs,
                        config@,
                        conds@,
                        active,
                    ),
                );
            }
        } else {
            output.append(line.as_str());
            output.append("\n");
            li += 1;
            proof {
                assert(output@ =~= pre + (lv[li as int - 1] + "\n"@));
                lemma_cat_out_assoc(
                    pre,
                    lv[li as int - 1] + "\n"@,
                    spec_expand_lines(
                        fs@,
                        file_path@,
                        lv,
                        li as int,
                        stack2,
                        dirs,
                        config@,
                        conds@,
                        active,
                    ),
                );
            }
        }
    }
    seen.pop();
    proof {
        assert(seen@ =~= old(seen)@);
    }
    if conds.len() > 0 {
        return Err(CompileError::UnmatchedConditional);
    }
    proof {
        assert(output@ + Seq::<char>::empty() =~= output@);
    }
    Ok(output)
}

/// Preprocess an entry file: expand includes with cycle detection and
/// apply conditional compilation, against the given file map, user
/// search directories, and configuration.
pub fn preprocess_file(
    entry_path: &str,
    user_include_dirs: &Vec<String>,
    config: &ConfigMap,
    fs: &FileMap,
) -> (r: Result<String, CompileError>)
    ensures
        match r {
            Ok(s) => spec_preprocess(
                fs@,
                entry_path@,
                crate::ast::view_strings(user_include_dirs@),
                config@,
            ) == Ok::<_, SpecCompileError>(s@),
            Err(e) => spec_preprocess(
                fs@,
                entry_path@,
                crate::ast::view_strings(user_include_dirs@),
                config@,
            ) == Err::<Seq<char>, _>(e@),
        },
{
    let mut seen: Vec<String> = Vec::new();
    proof {
        assert(seen_set(seen@) =~= Set::<Seq<char>>::empty());
    }
    expand_includes_with_conditions(fs, entry_path, &mut seen, user_include_dirs, config)
}

} // verus!
