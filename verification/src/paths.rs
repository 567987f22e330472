//! The path sandbox: every path a client names is resolved against the base
//! directory, and nothing outside it is ever handed on.
//!
//! Paths are held as strings. Joining, prefix tests and the taking apart of
//! paths are left to `std::path`, as it works on Unix, where a path is a run
//! of components between slashes. What those functions return is given a
//! name here, and the rules of the sandbox are stated over these names.
//!
//! Each rule comes twice: as a function that takes what `std::path` returned
//! and decides, and as a function that asks `std::path` and then decides.
//!
//! There are two ways in. Listings resolve leniently: the canonical form of
//! the named path decides, and whatever does not lie within the base becomes
//! the base. Changes to a file resolve strictly: the path is taken as
//! written, and one that does not have the base as a prefix, or that climbs
//! above the base through "..", is refused.

use std::path::Path;
use vstd::prelude::*;

verus! {

/// What `Path::join` makes of `base` and `relative`.
pub uninterp spec fn path_join(base: Seq<char>, relative: Seq<char>) -> Seq<char>;

/// Whether `Path::starts_with` finds `base` to be a prefix of `path`, whole
/// components only.
pub uninterp spec fn path_has_prefix(path: Seq<char>, base: Seq<char>) -> bool;

/// What `Path::strip_prefix` leaves of `path` once `base` is taken off its
/// front. It means something only where `base` is a prefix of `path`.
pub uninterp spec fn path_strip_prefix(path: Seq<char>, base: Seq<char>) -> Seq<char>;

/// What `Path::parent` gives for `path`: the path without its final
/// component, where it has one.
pub uninterp spec fn path_parent(path: Seq<char>) -> Option<Seq<char>>;

/// What `Path::file_name` gives for `path`: its final component, where that
/// is a name.
pub uninterp spec fn path_file_name(path: Seq<char>) -> Option<Seq<char>>;

/// The view of an optional string.
pub open spec fn opt_text(text: Option<String>) -> Option<Seq<char>> {
    match text {
        Some(t) => Some(t@),
        None => None,
    }
}

/// The view of an optional string slice.
pub open spec fn opt_str(text: Option<&str>) -> Option<Seq<char>> {
    match text {
        Some(t) => Some(t@),
        None => None,
    }
}

/// The position of the last dot in a name, or -1 where it has none.
pub open spec fn last_dot(name: Seq<char>) -> int
    decreases name.len(),
{
    if name.len() == 0 {
        -1
    } else if name.last() == '.' {
        name.len() - 1
    } else {
        last_dot(name.drop_last())
    }
}

/// The extension of a file name: what follows its last dot. A name without a
/// dot has none, and neither has a name whose only dot is its first
/// character.
pub open spec fn name_extension(name: Seq<char>) -> Option<Seq<char>> {
    let dot = last_dot(name);
    if dot <= 0 {
        None
    } else {
        Some(name.subrange(dot + 1, name.len() as int))
    }
}

/// The extension of a path: that of its file name, where it has one.
pub open spec fn path_extension(path: Seq<char>) -> Option<Seq<char>> {
    match path_file_name(path) {
        Some(name) => name_extension(name),
        None => None,
    }
}

/// What is left of `path` once `base` is taken off its front: nothing where
/// `base` is no prefix of it.
pub open spec fn stripped(path: Seq<char>, base: Seq<char>) -> Option<Seq<char>> {
    if path_has_prefix(path, base) {
        Some(path_strip_prefix(path, base))
    } else {
        None
    }
}

/// How a path is shown, given what is left of it without the base: as that
/// rest where there is one and it is not empty, and as "." otherwise.
pub open spec fn shown(rest: Option<Seq<char>>) -> Seq<char> {
    match rest {
        Some(r) => if r.len() > 0 {
            r
        } else {
            seq!['.']
        },
        None => seq!['.'],
    }
}

/// How the directory above is shown, given what is left of the directory
/// itself without the base and, where it has a parent, what is left of that
/// parent: not at all for the base itself.
pub open spec fn shown_parent(
    dir_rest: Option<Seq<char>>,
    parent_rest: Option<Option<Seq<char>>>,
) -> Option<Seq<char>> {
    match dir_rest {
        Some(r) => if r.len() > 0 {
            match parent_rest {
                Some(rest) => Some(shown(rest)),
                None => None,
            }
        } else {
            None
        },
        None => None,
    }
}

/// A path as shown to clients: relative to the base where it lies strictly
/// below it, and "." otherwise.
pub open spec fn relative_path(base: Seq<char>, path: Seq<char>) -> Seq<char> {
    shown(stripped(path, base))
}

/// The relative path of the directory above `dir`: none for the base itself.
pub open spec fn parent_relative_path(base: Seq<char>, dir: Seq<char>) -> Option<Seq<char>> {
    shown_parent(
        stripped(dir, base),
        match path_parent(dir) {
            Some(parent) => Some(stripped(parent, base)),
            None => None,
        },
    )
}

/// `path` lies below `base` and is not `base` itself.
pub open spec fn is_strict_descendant(base: Seq<char>, path: Seq<char>) -> bool {
    path_has_prefix(path, base) && path_strip_prefix(path, base).len() > 0
}

/// A strict descendant of the base is shown by what is left of it without
/// the base; the base itself and every path outside it are shown as ".".
pub proof fn lemma_relative_path_cases(base: Seq<char>, path: Seq<char>)
    ensures
        is_strict_descendant(base, path) ==> relative_path(base, path) == path_strip_prefix(
            path,
            base,
        ),
        !is_strict_descendant(base, path) ==> relative_path(base, path) == seq!['.'],
        is_strict_descendant(base, path) ==> parent_relative_path(base, path) == (match path_parent(
            path,
        ) {
            Some(parent) => Some(relative_path(base, parent)),
            None => None,
        }),
        !is_strict_descendant(base, path) ==> parent_relative_path(base, path) is None,
{
}

/// Whether a client named a path: an absent or empty one names none.
pub open spec fn names_a_path(relative: Option<Seq<char>>) -> bool {
    relative matches Some(rel) && rel.len() > 0
}

/// The path whose canonical form decides a lenient resolution: none where
/// the client named no path.
pub open spec fn candidate(base: Seq<char>, relative: Option<Seq<char>>) -> Option<Seq<char>> {
    match relative {
        Some(rel) => if rel.len() > 0 {
            Some(path_join(base, rel))
        } else {
            None
        },
        None => None,
    }
}

/// The outcome of a lenient resolution, given the verdict `within` of the
/// prefix test on the canonical path: that canonical path where the client
/// named a path, it has a canonical form and that lies within the base; the
/// base in every other case.
pub open spec fn settled(
    base: Seq<char>,
    relative: Option<Seq<char>>,
    canonical: Option<Seq<char>>,
    within: bool,
) -> Seq<char> {
    match canonical {
        Some(c) => if names_a_path(relative) && within {
            c
        } else {
            base
        },
        None => base,
    }
}

/// Lenient resolution, as used for listings. `canonical` is the canonical
/// form of the candidate path, or none where it has no canonical form. The
/// result is that canonical form where it lies within the base, and the base
/// in every other case.
pub open spec fn resolved(
    base: Seq<char>,
    relative: Option<Seq<char>>,
    canonical: Option<Seq<char>>,
) -> Seq<char> {
    settled(base, relative, canonical, canonical matches Some(c) && path_has_prefix(c, base))
}

/// The components of a path as written: the runs of characters between its
/// slashes, empty ones included. A path without a slash is one component.
pub open spec fn components(path: Seq<char>) -> Seq<Seq<char>>
    decreases path.len(),
{
    if path.len() == 0 {
        seq![Seq::<char>::empty()]
    } else {
        let before = components(path.drop_last());
        if path.last() == '/' {
            before.push(Seq::<char>::empty())
        } else {
            before.drop_last().push(before.last().push(path.last()))
        }
    }
}

/// What kind of component this is: 0 for an empty one, 1 for ".", 2 for
/// "..", 3 for a name.
pub open spec fn component_kind(component: Seq<char>) -> int {
    if component.len() == 0 {
        0
    } else if component == seq!['.'] {
        1
    } else if component == seq!['.', '.'] {
        2
    } else {
        3
    }
}

/// How a component moves a walk through the tree: a name goes one level
/// down, ".." one level up, and an empty component or "." stays.
pub open spec fn component_step(component: Seq<char>) -> int {
    if component_kind(component) == 3 {
        1
    } else if component_kind(component) == 2 {
        -1
    } else {
        0
    }
}

/// How far below its start a walk along the components ends.
pub open spec fn depth_after(components: Seq<Seq<char>>) -> int
    decreases components.len(),
{
    if components.len() == 0 {
        0
    } else {
        depth_after(components.drop_last()) + component_step(components.last())
    }
}

/// A walk along the components never stands above its start.
pub open spec fn never_above_start(components: Seq<Seq<char>>) -> bool
    decreases components.len(),
{
    if components.len() == 0 {
        true
    } else {
        never_above_start(components.drop_last()) && depth_after(components) >= 0
    }
}

/// A path, taken relative to a directory, never climbs above that directory:
/// walking its components from left to right, there are at no point more
/// ".." behind than names.
pub open spec fn never_climbs(rest: Seq<char>) -> bool {
    never_above_start(components(rest))
}

/// A walk never stands above its start exactly when none of its beginnings
/// ends above the start.
pub proof fn lemma_never_above_start(components: Seq<Seq<char>>)
    ensures
        never_above_start(components) <==> forall|k: int|
            0 <= k <= components.len() ==> depth_after(#[trigger] components.take(k)) >= 0,
    decreases components.len(),
{
    if components.len() == 0 {
        assert forall|k: int| 0 <= k <= components.len() implies depth_after(
            #[trigger] components.take(k),
        ) >= 0 by {
            assert(components.take(k) =~= components);
        }
    } else {
        let shorter = components.drop_last();
        lemma_never_above_start(shorter);
        assert(components.take(components.len() as int) =~= components);
        assert forall|k: int| 0 <= k <= shorter.len() implies #[trigger] components.take(k)
            == shorter.take(k) by {
            assert(components.take(k) =~= shorter.take(k));
        }
        if never_above_start(components) {
            assert forall|k: int| 0 <= k <= components.len() implies depth_after(
                #[trigger] components.take(k),
            ) >= 0 by {
                if k <= shorter.len() {
                    assert(components.take(k) == shorter.take(k));
                }
            }
        }
        if forall|k: int|
            0 <= k <= components.len() ==> depth_after(#[trigger] components.take(k)) >= 0 {
            assert forall|k: int| 0 <= k <= shorter.len() implies depth_after(
                #[trigger] shorter.take(k),
            ) >= 0 by {
                assert(components.take(k) == shorter.take(k));
            }
        }
    }
}

/// The first component of a path is what stands before its first slash, or
/// the whole path where it has no slash.
pub proof fn lemma_first_component(path: Seq<char>, n: int)
    requires
        0 <= n <= path.len(),
        forall|j: int| 0 <= j < n ==> path[j] != '/',
        n == path.len() || path[n] == '/',
    ensures
        components(path).len() >= 1,
        components(path)[0] == path.take(n),
        n == path.len() ==> components(path).len() == 1,
        n < path.len() ==> components(path).len() >= 2,
    decreases path.len(),
{
    if path.len() == 0 {
        assert(path.take(n) =~= Seq::<char>::empty());
    } else {
        let shorter = path.drop_last();
        let before = components(shorter);
        if n == path.len() {
            lemma_first_component(shorter, n - 1);
            assert(shorter.take(n - 1) =~= shorter);
            assert(before.last().push(path.last()) =~= path.take(n));
        } else if n == path.len() - 1 {
            lemma_first_component(shorter, n);
            assert(shorter.take(n) =~= path.take(n));
        } else {
            assert(shorter[n] == path[n]);
            lemma_first_component(shorter, n);
            assert(shorter.take(n) =~= path.take(n));
        }
    }
}

/// A path begins with a step to the parent: its first component is "..".
pub open spec fn begins_with_parent(rest: Seq<char>) -> bool {
    rest.len() >= 2 && rest[0] == '.' && rest[1] == '.' && (rest.len() == 2 || rest[2] == '/')
}

/// A path that begins with a step to the parent climbs, whatever follows.
pub proof fn lemma_leading_parent_climbs(rest: Seq<char>)
    requires
        begins_with_parent(rest),
    ensures
        !never_climbs(rest),
{
    let parts = components(rest);
    lemma_first_component(rest, 2);
    assert(rest.take(2) =~= seq!['.', '.']);
    let first = parts.take(1);
    assert(first.drop_last() =~= Seq::<Seq<char>>::empty());
    assert(first.last() == parts[0]);
    assert(depth_after(first.drop_last()) == 0);
    assert(depth_after(first) == -1);
    lemma_never_above_start(parts);
}

/// A path of one component climbs only where that component is "..".
pub proof fn lemma_single_component(rest: Seq<char>)
    requires
        forall|j: int| 0 <= j < rest.len() ==> rest[j] != '/',
    ensures
        components(rest) == seq![rest],
        never_climbs(rest) <==> rest != seq!['.', '.'],
{
    let parts = components(rest);
    lemma_first_component(rest, rest.len() as int);
    assert(rest.take(rest.len() as int) =~= rest);
    assert(parts =~= seq![rest]);
    assert(parts.drop_last() =~= Seq::<Seq<char>>::empty());
    assert(depth_after(parts.drop_last()) == 0);
    assert(never_above_start(parts.drop_last()));
}

/// The outcome of a strict resolution, given the joined path and what is
/// left of it without the base: the joined path where the base is a prefix
/// of it and the rest never climbs above the base, a refusal otherwise.
pub open spec fn settled_strict(joined: Seq<char>, rest: Option<Seq<char>>) -> Result<
    Seq<char>,
    PathResolutionError,
> {
    match rest {
        Some(r) => if never_climbs(r) {
            Ok(joined)
        } else {
            Err(PathResolutionError::InvalidPath)
        },
        None => Err(PathResolutionError::InvalidPath),
    }
}

/// `path` has `base` as a prefix and, taken as written, never leaves it
/// through "..".
pub open spec fn stays_within(path: Seq<char>, base: Seq<char>) -> bool {
    path_has_prefix(path, base) && never_climbs(path_strip_prefix(path, base))
}

/// Strict resolution, as used for changes to a single file: the joined path,
/// taken as written, must have the base as a prefix and must never climb
/// above it.
pub open spec fn resolved_strict(base: Seq<char>, relative: Seq<char>) -> Result<
    Seq<char>,
    PathResolutionError,
> {
    settled_strict(path_join(base, relative), stripped(path_join(base, relative), base))
}

/// The view of the outcome of a strict resolution.
pub open spec fn strict_view(outcome: Result<String, PathResolutionError>) -> Result<
    Seq<char>,
    PathResolutionError,
> {
    match outcome {
        Ok(path) => Ok(path@),
        Err(e) => Err(e),
    }
}

/// Why a strict resolution was refused.
#[derive(Debug, Clone, Copy, PartialEq, Eq, Structural)]
pub enum PathResolutionError {
    /// The joined path does not have the base as a prefix, or climbs above
    /// it.
    InvalidPath,
}

impl PathResolutionError {
    /// The text shown to the client.
    pub fn message(&self) -> (text: String)
        ensures
            text@ == "Invalid path"@,
    {
        String::from_str("Invalid path")
    }
}

/// What a path names on disk, as the caller found it.
#[derive(Debug, Clone, Copy, PartialEq, Eq, Structural)]
pub enum PathKind {
    /// Nothing is there.
    Missing,
    /// A regular file.
    File,
    /// A directory.
    Directory,
    /// Something else.
    Other,
}

/// Calls `Path::join`. The result is named, not described: `std` adjoins
/// `relative` to `base`, and an absolute `relative` replaces `base`.
#[verifier::external_body]
pub(crate) fn join_paths(base: &str, relative: &str) -> (joined: String)
    ensures
        joined@ == path_join(base@, relative@),
{
    Path::new(base).join(relative).to_string_lossy().into_owned()
}

/// Calls `Path::starts_with`, which compares whole components.
#[verifier::external_body]
fn has_prefix(path: &str, base: &str) -> (yes: bool)
    ensures
        yes == path_has_prefix(path@, base@),
{
    Path::new(path).starts_with(base)
}

/// Calls `Path::strip_prefix`. `std` documents that it fails exactly where
/// `starts_with` is false; what it returns otherwise is named.
#[verifier::external_body]
pub(crate) fn strip_prefix(path: &str, base: &str) -> (rest: Option<String>)
    ensures
        rest is Some <==> path_has_prefix(path@, base@),
        rest matches Some(r) ==> r@ == path_strip_prefix(path@, base@),
{
    match Path::new(path).strip_prefix(base) {
        Ok(rest) => Some(rest.to_string_lossy().into_owned()),
        Err(_) => None,
    }
}

/// Calls `Path::parent`; the result is named.
#[verifier::external_body]
fn parent_of(path: &str) -> (parent: Option<String>)
    ensures
        opt_text(parent) == path_parent(path@),
{
    match Path::new(path).parent() {
        Some(parent) => Some(parent.to_string_lossy().into_owned()),
        None => None,
    }
}

/// Calls `Path::file_name`; the result is named.
#[verifier::external_body]
pub(crate) fn file_name_of(path: &str) -> (name: Option<String>)
    ensures
        opt_text(name) == path_file_name(path@),
{
    match Path::new(path).file_name() {
        Some(name) => Some(name.to_string_lossy().into_owned()),
        None => None,
    }
}

/// Calls `Path::extension`. `std` documents the extension as the part of
/// the file name after its last dot, and as absent where there is no file
/// name, no dot, or no dot but a leading one.
#[verifier::external_body]
pub(crate) fn extension_of(path: &str) -> (extension: Option<String>)
    ensures
        opt_text(extension) == path_extension(path@),
{
    match Path::new(path).extension() {
        Some(extension) => Some(extension.to_string_lossy().into_owned()),
        None => None,
    }
}

/// The path to canonicalize before a lenient resolution, if there is one.
pub fn candidate_path(base: &str, relative: Option<&str>) -> (path: Option<String>)
    ensures
        opt_text(path) == candidate(base@, opt_str(relative)),
{
    match relative {
        Some(rel) => {
            if rel.is_empty() {
                None
            } else {
                Some(join_paths(base, rel))
            }
        },
        None => None,
    }
}

/// Decides a lenient resolution once the canonical path was tested:
/// `within` says whether it has the base as a prefix.
pub fn settle(base: &str, relative: Option<&str>, canonical: Option<&str>, within: bool) -> (path:
    String)
    ensures
        path@ == settled(base@, opt_str(relative), opt_str(canonical), within),
{
    let named = match relative {
        Some(rel) => !rel.is_empty(),
        None => false,
    };
    match canonical {
        Some(c) => {
            if named && within {
                String::from_str(c)
            } else {
                String::from_str(base)
            }
        },
        None => String::from_str(base),
    }
}

/// Resolves the path of a listing request. `canonical` is what canonicalizing
/// `candidate_path(base, relative)` gave, none where that failed or where
/// there was no candidate. Whatever the client sent, the result is the base
/// or a canonical path within it.
pub fn resolve(base: &str, relative: Option<&str>, canonical: Option<&str>) -> (path: String)
    ensures
        path@ == resolved(base@, opt_str(relative), opt_str(canonical)),
        path@ == base@ || (opt_str(canonical) == Some(path@) && path_has_prefix(path@, base@)),
        (canonical matches Some(c) && !path_has_prefix(c@, base@)) ==> path@ == base@,
{
    let within = match canonical {
        Some(c) => has_prefix(c, base),
        None => false,
    };
    settle(base, relative, canonical, within)
}

/// The characters of a string.
fn chars_of(text: &str) -> (chars: Vec<char>)
    ensures
        chars@ == text@,
{
    let mut chars: Vec<char> = Vec::new();
    for c in it: text.chars()
        invariant
            it.seq() == text@,
            chars@ == it.seq().take(it.index()),
    {
        chars.push(c);
        assert(chars@ =~= it.seq().take(it.index() + 1));
    }
    assert(text@.take(text@.len() as int) =~= text@);
    chars
}

/// Whether a path, taken relative to a directory, never climbs above that
/// directory.
pub fn stays_below(rest: &str) -> (stays: bool)
    ensures
        stays == never_climbs(rest@),
        begins_with_parent(rest@) ==> !stays,
{
    proof {
        if begins_with_parent(rest@) {
            lemma_leading_parent_climbs(rest@);
        }
    }
    let chars = chars_of(rest);
    // Of the component that is being read: 0 empty, 1 ".", 2 "..", 3 a name.
    let mut kind: u8 = 0;
    // Whether the components read so far stayed at or below the start, and
    // if so, how far below it they ended.
    let mut within = true;
    let mut depth: usize = 0;
    let mut i: usize = 0;
    proof {
        assert(chars@.take(0) =~= Seq::<char>::empty());
    }
    while i < chars.len()
        invariant
            i <= chars.len(),
            components(chars@.take(i as int)).len() >= 1,
            kind == component_kind(components(chars@.take(i as int)).last()),
            within == never_above_start(components(chars@.take(i as int)).drop_last()),
            within ==> depth == depth_after(components(chars@.take(i as int)).drop_last()),
            depth <= i,
        decreases chars.len() - i,
    {
        let c = chars[i];
        proof {
            let before = components(chars@.take(i as int));
            let after = components(chars@.take(i + 1));
            assert(chars@.take(i + 1).drop_last() =~= chars@.take(i as int));
            assert(chars@.take(i + 1).last() == c);
            if c == '/' {
                assert(after == before.push(Seq::<char>::empty()));
                assert(after.drop_last() =~= before);
                assert(after.last().len() == 0);
            } else {
                let open = before.last();
                assert(after == before.drop_last().push(open.push(c)));
                assert(after.drop_last() =~= before.drop_last());
                assert(after.last() == open.push(c));
                assert(open.push(c).len() == open.len() + 1);
                assert(open.push(c)[open.len() as int] == c);
                if c == '.' {
                    if kind == 0 {
                        assert(open.push(c) =~= seq!['.']);
                    } else if kind == 1 {
                        assert(open.push(c) =~= seq!['.', '.']);
                    } else if kind == 3 {
                        if open.push(c) == seq!['.'] {
                            assert(open.len() == 0);
                        }
                        if open.push(c) == seq!['.', '.'] {
                            assert(open =~= seq!['.']);
                        }
                    }
                }
            }
        }
        if c == '/' {
            if within {
                if kind == 2 {
                    if depth == 0 {
                        within = false;
                    } else {
                        depth = depth - 1;
                    }
                } else if kind == 3 {
                    depth = depth + 1;
                }
            }
            kind = 0;
        } else if c == '.' && kind == 0 {
            kind = 1;
        } else if c == '.' && kind == 1 {
            kind = 2;
        } else {
            kind = 3;
        }
        i += 1;
    }
    proof {
        assert(chars@.take(i as int) =~= chars@);
    }
    within && !(kind == 2 && depth == 0)
}

/// Decides a strict resolution once the joined path was taken apart: `rest`
/// is what is left of it without the base, none where the base is no prefix
/// of it.
pub fn settle_strict(joined: String, rest: Option<String>) -> (target: Result<
    String,
    PathResolutionError,
>)
    ensures
        strict_view(target) == settled_strict(joined@, opt_text(rest)),
        rest is None ==> target is Err,
        (rest matches Some(r) && begins_with_parent(r@)) ==> target is Err,
{
    match rest {
        Some(rest) => {
            if stays_below(rest.as_str()) {
                Ok(joined)
            } else {
                Err(PathResolutionError::InvalidPath)
            }
        },
        None => Err(PathResolutionError::InvalidPath),
    }
}

/// Resolves the target of a change to a single file. There is no fallback: a
/// joined path that does not have the base as a prefix is refused, and so is
/// one that climbs above the base through "..", wherever in the path that
/// happens.
pub fn resolve_strict(base: &str, relative: &str) -> (target: Result<String, PathResolutionError>)
    ensures
        strict_view(target) == resolved_strict(base@, relative@),
        stays_within(path_join(base@, relative@), base@) ==> (target matches Ok(path) && path@
            == path_join(base@, relative@)),
        !stays_within(path_join(base@, relative@), base@) ==> target == Err::<
            String,
            PathResolutionError,
        >(PathResolutionError::InvalidPath),
{
    let joined = join_paths(base, relative);
    let rest = strip_prefix(joined.as_str(), base);
    settle_strict(joined, rest)
}

/// Shows a path, given what is left of it without the base.
pub fn shown_path(rest: Option<String>) -> (relative: String)
    ensures
        relative@ == shown(opt_text(rest)),
{
    proof {
        reveal_strlit(".");
        assert("."@ =~= seq!['.']);
    }
    match rest {
        Some(rest) => {
            if rest.as_str().is_empty() {
                String::from_str(".")
            } else {
                rest
            }
        },
        None => String::from_str("."),
    }
}

/// Expresses `path` relative to the base, as clients see it.
pub fn relative_to(base: &str, path: &str) -> (relative: String)
    ensures
        relative@ == relative_path(base@, path@),
{
    shown_path(strip_prefix(path, base))
}

/// The view of what is left of a parent, where there is a parent.
pub open spec fn opt_opt_text(rest: Option<Option<String>>) -> Option<Option<Seq<char>>> {
    match rest {
        Some(inner) => Some(opt_text(inner)),
        None => None,
    }
}

/// Shows the directory above, given what is left of the directory itself
/// without the base and, where it has a parent, what is left of that parent.
pub fn shown_parent_path(dir_rest: Option<String>, parent_rest: Option<Option<String>>) -> (parent:
    Option<String>)
    ensures
        opt_text(parent) == shown_parent(opt_text(dir_rest), opt_opt_text(parent_rest)),
{
    match dir_rest {
        Some(rest) => {
            if rest.as_str().is_empty() {
                None
            } else {
                match parent_rest {
                    Some(rest) => Some(shown_path(rest)),
                    None => None,
                }
            }
        },
        None => None,
    }
}

/// The relative path of the directory above `dir`, for the "up" link of a
/// listing: none where `dir` is the base itself.
pub fn parent_relative_to(base: &str, dir: &str) -> (parent: Option<String>)
    ensures
        opt_text(parent) == parent_relative_path(base@, dir@),
{
    let dir_rest = strip_prefix(dir, base);
    let parent_rest = match parent_of(dir) {
        Some(parent) => Some(strip_prefix(parent.as_str(), base)),
        None => None,
    };
    shown_parent_path(dir_rest, parent_rest)
}

} // verus!
