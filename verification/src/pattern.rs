//! Glob-pattern matching over template-relative paths.
//!
//! Pattern lists come from the descriptor (`template.exclude`,
//! `template.disable_templating`).  Compilation and matching are done by the
//! `globset` crate behind trusted wrappers; everything the engine decides
//! from a match — stripping `./` prefixes, pruning whole subtrees — is
//! verified here.

use vstd::prelude::*;
use vstd::string::StrSliceExecFns;

use crate::error::ScaffoldError;

verus! {

#[verifier::external_type_specification]
#[verifier::external_body]
pub struct ExGlobSetBuilder(globset::GlobSetBuilder);

#[verifier::external_type_specification]
#[verifier::external_body]
pub struct ExGlobSet(globset::GlobSet);

/// The pattern texts a builder has accumulated so far.
pub uninterp spec fn builder_patterns(b: globset::GlobSetBuilder) -> Seq<Seq<char>>;

/// The pattern texts a compiled set was built from.
pub uninterp spec fn globset_patterns(g: globset::GlobSet) -> Seq<Seq<char>>;

/// Whether a path matches any pattern of the list, under the glob syntax of
/// the matching crate.
pub uninterp spec fn glob_match(patterns: Seq<Seq<char>>, path: Seq<char>) -> bool;

/// Whether the glob compiler accepts a single pattern text: a function of
/// the text alone.
pub uninterp spec fn glob_compiles(p: Seq<char>) -> bool;

/// Whether a whole pattern list builds into a matcher: a function of the
/// pattern texts alone.
pub uninterp spec fn set_compiles(patterns: Seq<Seq<char>>) -> bool;

/// Every pattern of the list compiles, and so does the set built from them.
pub open spec fn patterns_compile(patterns: Seq<Seq<char>>) -> bool {
    (forall|i: int| 0 <= i < patterns.len() ==> glob_compiles(#[trigger] patterns[i]))
        && set_compiles(patterns)
}

/// Relies on globset::GlobSetBuilder::new: a fresh builder holds no pattern.
#[verifier::external_body]
fn builder_new() -> (b: globset::GlobSetBuilder)
    ensures
        builder_patterns(b) == Seq::<Seq<char>>::empty(),
{
    globset::GlobSetBuilder::new()
}

/// Relies on globset::Glob::new and globset::GlobSetBuilder::add: whether
/// the pattern compiles depends on its text alone; a well-formed pattern is
/// compiled and appended; a malformed one leaves the builder unchanged and
/// yields the compiler's message.
#[verifier::external_body]
fn builder_add(b: &mut globset::GlobSetBuilder, pattern: &str) -> (r: Result<(), String>)
    ensures
        r is Ok <==> glob_compiles(pattern@),
        r is Ok ==> builder_patterns(*final(b)) == builder_patterns(*old(b)).push(pattern@),
        r is Err ==> builder_patterns(*final(b)) == builder_patterns(*old(b)),
{
    match globset::Glob::new(pattern) {
        Ok(g) => {
            b.add(g);
            Ok(())
        },
        Err(e) => Err(format!("{}", e)),
    }
}

/// Relies on globset::GlobSetBuilder::build: whether the set builds depends
/// on the pattern texts alone; the compiled set holds exactly the patterns
/// added so far; a failure yields the compiler's message.
#[verifier::external_body]
fn builder_build(b: &globset::GlobSetBuilder) -> (r: Result<globset::GlobSet, String>)
    ensures
        r is Ok <==> set_compiles(builder_patterns(*b)),
        r is Ok ==> globset_patterns(r->Ok_0) == builder_patterns(*b),
{
    globset::GlobSetBuilder::build(b).map_err(|e| format!("{}", e))
}

/// Relies on globset::GlobSet::is_match, and on its documentation that an
/// empty set matches nothing.
#[verifier::external_body]
fn set_is_match(g: &globset::GlobSet, path: &str) -> (r: bool)
    ensures
        r == glob_match(globset_patterns(*g), path@),
        globset_patterns(*g).len() == 0 ==> !r,
{
    g.is_match(path)
}

/// `p` with every leading `./` removed.
pub open spec fn strip_dot_slash(p: Seq<char>) -> Seq<char>
    decreases p.len(),
{
    if p.len() >= 2 && p[0] == '.' && p[1] == '/' {
        strip_dot_slash(p.subrange(2, p.len() as int))
    } else {
        p
    }
}

/// Removes every leading `./` of a pattern, as template authors write
/// path-relative patterns.
pub fn strip_leading_dot_slash(p: &str) -> (r: String)
    ensures
        r@ == strip_dot_slash(p@),
{
    let mut start: usize = 0;
    let n = p.unicode_len();
    proof {
        assert(p@.subrange(0, n as int) =~= p@);
    }
    while n - start >= 2 && p.get_char(start) == '.' && p.get_char(start + 1) == '/'
        invariant
            n == p@.len(),
            start <= n,
            strip_dot_slash(p@) == strip_dot_slash(p@.subrange(start as int, n as int)),
        decreases n - start,
    {
        proof {
            let cur = p@.subrange(start as int, n as int);
            assert(cur[0] == p@[start as int]);
            assert(cur[1] == p@[start as int + 1]);
            assert(cur.subrange(2, cur.len() as int) =~= p@.subrange(start + 2, n as int));
        }
        start += 2;
    }
    let r = p.substring_char(start, n).to_owned();
    proof {
        let cur = p@.subrange(start as int, n as int);
        if cur.len() >= 2 {
            assert(cur[0] == p@[start as int]);
            assert(cur[1] == p@[start as int + 1]);
        }
        assert(strip_dot_slash(cur) == cur);
    }
    r
}

/// A compiled list of glob patterns.
#[derive(Debug)]
pub struct Matcher {
    set: globset::GlobSet,
}

impl Matcher {
    /// The pattern texts this matcher was compiled from.
    pub closed spec fn patterns(&self) -> Seq<Seq<char>> {
        globset_patterns(self.set)
    }

    /// Compiles a pattern list, stripping each pattern's leading `./`.
    ///
    /// Success comes exactly when every stripped pattern compiles and the
    /// set builds from them, and yields a matcher for exactly those
    /// patterns; otherwise the compiler's refusal is `PatternError`.
    pub fn compile(patterns: &Vec<String>) -> (r: Result<Matcher, ScaffoldError>)
        ensures
            r is Ok <==> patterns_compile(patterns@.map_values(|p: String| strip_dot_slash(p@))),
            r is Ok ==> r->Ok_0.patterns() == patterns@.map_values(
                |p: String| strip_dot_slash(p@),
            ),
            r is Err ==> r->Err_0 is PatternError,
    {
        let ghost stripped_all = patterns@.map_values(|p: String| strip_dot_slash(p@));
        let mut b = builder_new();
        let n = patterns.len();
        let mut i: usize = 0;
        proof {
            assert(patterns@.subrange(0, 0).map_values(|p: String| strip_dot_slash(p@))
                =~= Seq::<Seq<char>>::empty());
        }
        while i < n
            invariant
                n == patterns@.len(),
                i <= n,
                stripped_all == patterns@.map_values(|p: String| strip_dot_slash(p@)),
                builder_patterns(b) == patterns@.subrange(0, i as int).map_values(
                    |p: String| strip_dot_slash(p@),
                ),
                forall|j: int| 0 <= j < i ==> glob_compiles(#[trigger] stripped_all[j]),
            decreases n - i,
        {
            let stripped = strip_leading_dot_slash(patterns[i].as_str());
            match builder_add(&mut b, stripped.as_str()) {
                Ok(()) => {},
                Err(e) => {
                    proof {
                        assert(!glob_compiles(stripped_all[i as int]));
                    }
                    return Err(ScaffoldError::PatternError(e));
                },
            }
            proof {
                assert(patterns@.subrange(0, i + 1).map_values(
                    |p: String| strip_dot_slash(p@),
                ) =~= patterns@.subrange(0, i as int).map_values(
                    |p: String| strip_dot_slash(p@),
                ).push(strip_dot_slash(patterns@[i as int]@)));
            }
            i += 1;
        }
        proof {
            assert(patterns@.subrange(0, n as int) =~= patterns@);
        }
        match builder_build(&b) {
            Ok(set) => Ok(Matcher { set }),
            Err(e) => {
                proof {
                    assert(!set_compiles(stripped_all));
                }
                Err(ScaffoldError::PatternError(e))
            },
        }
    }

    /// Whether the path matches any of the patterns.  An empty pattern list
    /// matches nothing.
    pub fn matches(&self, path: &str) -> (r: bool)
        ensures
            r == glob_match(self.patterns(), path@),
            self.patterns().len() == 0 ==> !r,
    {
        set_is_match(&self.set, path)
    }
}

/// Whether the path, or one of its ancestor directories, matches the
/// pattern list: a match on a directory prunes the whole subtree.
pub open spec fn prefix_matched(patterns: Seq<Seq<char>>, path: Seq<char>) -> bool {
    exists|i: int|
        #![trigger path.subrange(0, i)]
        0 < i <= path.len() && (i == path.len() || path[i] == '/') && glob_match(
            patterns,
            path.subrange(0, i),
        )
}

impl Matcher {
    /// Whether the path or any ancestor of it matches.
    pub fn matches_prefix(&self, path: &str) -> (r: bool)
        ensures
            r == prefix_matched(self.patterns(), path@),
    {
        let n = path.unicode_len();
        let mut i: usize = 1;
        if n == 0 {
            return false;
        }
        while i < n
            invariant
                n == path@.len(),
                1 <= i <= n,
                forall|j: int|
                    0 < j < i && path@[j] == '/' ==> !glob_match(
                        self.patterns(),
                        path@.subrange(0, j),
                    ),
            decreases n - i,
        {
            if path.get_char(i) == '/' {
                if self.matches(path.substring_char(0, i)) {
                    proof {
                        assert(0 < i <= path@.len() && path@[i as int] == '/' && glob_match(
                            self.patterns(),
                            path@.subrange(0, i as int),
                        ));
                    }
                    return true;
                }
            }
            i += 1;
        }
        if self.matches(path) {
            proof {
                assert(path@.subrange(0, n as int) =~= path@);
                assert(0 < n <= path@.len() && n as int == path@.len() && glob_match(
                    self.patterns(),
                    path@.subrange(0, n as int),
                ));
            }
            return true;
        }
        proof {
            assert(path@.subrange(0, n as int) =~= path@);
        }
        false
    }
}

} // verus!
