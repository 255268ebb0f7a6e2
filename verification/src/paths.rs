//! How `std::path` reads a path, for paths that read the same way on every
//! platform, and the calls into `std::path` that the other modules make.

use vstd::prelude::*;

use crate::text::string_option_view;

verus! {

/// One component of a path, with its name where it has one.
pub enum ComponentView {
    Root,
    Cur,
    Parent,
    Normal(Seq<char>),
}

/// The kind of one component of a path, as `std::path::Component` tells them
/// apart.
#[derive(Debug, Clone, Copy, PartialEq, Eq)]
pub enum PathPart {
    Prefix,
    RootDir,
    CurDir,
    ParentDir,
    Normal,
}

/// A path that every platform splits the same way: no `\\`, no `:` as its
/// second character (so no drive or other prefix), and not beginning with
/// `//`. A `:` anywhere else is an ordinary character everywhere.
pub open spec fn is_portable_path(p: Seq<char>) -> bool {
    &&& forall|i: int| 0 <= i < p.len() ==> p[i] != '\\'
    &&& !(p.len() >= 2 && p[1] == ':')
    &&& !(p.len() >= 2 && p[0] == '/' && p[1] == '/')
}

/// `c` separates components on some platform.
pub open spec fn is_any_separator(c: char) -> bool {
    c == '/' || c == '\\'
}

/// `p` ends in `.ext` such that every platform reads `ext` as the extension
/// of its file name: `ext` is non-empty and free of `.`, separators and `:`;
/// the `.` follows a character that is no separator and does not directly
/// follow a drive (`X:`); and `p` does not begin with two separators (where
/// network and device prefixes begin).
pub open spec fn has_clear_extension(p: Seq<char>, ext: Seq<char>) -> bool {
    let dot = p.len() - ext.len() - 1;
    &&& ext.len() > 0
    &&& forall|i: int|
        0 <= i < ext.len() ==> ext[i] != '.' && !is_any_separator(ext[i]) && ext[i] != ':'
    &&& p.len() >= ext.len() + 2
    &&& p.skip(dot + 1) == ext
    &&& p[dot] == '.'
    &&& !is_any_separator(p[dot - 1])
    &&& !(dot == 2 && p[1] == ':')
    &&& !(is_any_separator(p[0]) && is_any_separator(p[1]))
}

/// `s[i..j]` is one of the pieces that `/` and `\\` together separate `s`
/// into.
pub open spec fn is_any_segment(s: Seq<char>, i: int, j: int) -> bool {
    &&& 0 <= i <= j <= s.len()
    &&& (i == 0 || is_any_separator(s[i - 1]))
    &&& (j == s.len() || is_any_separator(s[j]))
    &&& forall|k: int| i <= k < j ==> !is_any_separator(s[k])
}

/// A relative path that every platform reads as normal components only: it
/// does not begin with a separator, has no `:` as its second character, and
/// no piece between separators of either kind is `.` or `..`.
pub open spec fn is_plainly_relative(s: Seq<char>) -> bool {
    &&& !(s.len() > 0 && is_any_separator(s[0]))
    &&& !(s.len() >= 2 && s[1] == ':')
    &&& forall|i: int, j: int|
        #![trigger s.subrange(i, j)]
        is_any_segment(s, i, j) ==> s.subrange(i, j) != seq!['.'] && s.subrange(i, j) != seq![
            '.',
            '.',
        ]
}

/// `path` is `base`, a `/`, and more, and does not begin with two separators
/// (where network and verbatim prefixes begin): every platform reads the
/// components of `base` first.
pub open spec fn is_joined_under(path: Seq<char>, base: Seq<char>) -> bool {
    &&& path.len() > base.len()
    &&& path.take(base.len() as int) == base
    &&& path[base.len() as int] == '/'
    &&& !(path.len() >= 2 && is_any_separator(path[0]) && is_any_separator(path[1]))
}

/// `k` is the position of the last `.` in `n`.
pub open spec fn is_last_dot(n: Seq<char>, k: int) -> bool {
    &&& 0 <= k < n.len()
    &&& n[k] == '.'
    &&& forall|j: int| k < j < n.len() ==> n[j] != '.'
}

/// The extension of a file name, as `Path::extension` documents it: none when
/// there is no `.`, none when the only `.` is the first character, and
/// otherwise everything after the last `.`.
pub open spec fn name_extension(n: Seq<char>) -> Option<Seq<char>> {
    if exists|k: int| is_last_dot(n, k) {
        let k = choose|k: int| is_last_dot(n, k);
        if k == 0 {
            None
        } else {
            Some(n.skip(k + 1))
        }
    } else {
        None
    }
}

/// `name` is present and has the extension `ext`.
pub open spec fn name_has_extension(name: Option<Seq<char>>, ext: Seq<char>) -> bool {
    name matches Some(n) && name_extension(n) == Some(ext)
}

/// `s` begins with `/`.
pub open spec fn starts_with_slash(s: Seq<char>) -> bool {
    s.len() > 0 && s[0] == '/'
}

/// `p` cut at every `/`: n slashes give n + 1 pieces, some possibly empty.
pub open spec fn pieces(p: Seq<char>) -> Seq<Seq<char>>
    decreases p.len(),
{
    if p.len() == 0 {
        seq![Seq::<char>::empty()]
    } else {
        let rest = pieces(p.drop_first());
        if p[0] == '/' {
            seq![Seq::<char>::empty()] + rest
        } else {
            rest.update(0, seq![p[0]] + rest[0])
        }
    }
}

/// A piece that becomes a component: neither empty nor `.`.
pub open spec fn is_named_piece(s: Seq<char>) -> bool {
    s.len() > 0 && s != seq!['.']
}

/// The component a named piece becomes.
pub open spec fn piece_component(s: Seq<char>) -> ComponentView {
    if s == seq!['.', '.'] {
        ComponentView::Parent
    } else {
        ComponentView::Normal(s)
    }
}

/// The components the named pieces become, in order.
pub open spec fn named_components(ps: Seq<Seq<char>>) -> Seq<ComponentView>
    decreases ps.len(),
{
    if ps.len() == 0 {
        Seq::empty()
    } else if is_named_piece(ps[0]) {
        seq![piece_component(ps[0])] + named_components(ps.skip(1))
    } else {
        named_components(ps.skip(1))
    }
}

/// The component a path begins with before its named pieces: the root for a
/// leading `/`, the current directory for a path that is `.` or begins with
/// `./`, else none.
pub open spec fn leading_components(p: Seq<char>) -> Seq<ComponentView> {
    if starts_with_slash(p) {
        seq![ComponentView::Root]
    } else if p == seq!['.'] || (p.len() >= 2 && p[0] == '.' && p[1] == '/') {
        seq![ComponentView::Cur]
    } else {
        Seq::empty()
    }
}

/// The components of a portable path, as `Path::components` yields them.
pub open spec fn components(p: Seq<char>) -> Seq<ComponentView> {
    leading_components(p) + named_components(pieces(p))
}

/// The kind of a component.
pub open spec fn component_kind(c: ComponentView) -> PathPart {
    match c {
        ComponentView::Root => PathPart::RootDir,
        ComponentView::Cur => PathPart::CurDir,
        ComponentView::Parent => PathPart::ParentDir,
        ComponentView::Normal(_) => PathPart::Normal,
    }
}

/// The kinds of the components of a portable path.
pub open spec fn component_kinds(p: Seq<char>) -> Seq<PathPart> {
    components(p).map_values(|c: ComponentView| component_kind(c))
}

/// The file name of a portable path, as `Path::file_name` gives it: the last
/// component when that is a normal one.
pub open spec fn final_name(p: Seq<char>) -> Option<Seq<char>> {
    let c = components(p);
    if c.len() > 0 {
        match c.last() {
            ComponentView::Normal(n) => Some(n),
            _ => None,
        }
    } else {
        None
    }
}

/// `n` can be a normal component of a path: non-empty, and not `.` or `..`.
pub open spec fn is_normal_component(n: Seq<char>) -> bool {
    &&& n.len() > 0
    &&& n != seq!['.']
    &&& n != seq!['.', '.']
}

/// `name` is absent or a normal component.
pub open spec fn is_file_name_result(name: Option<Seq<char>>) -> bool {
    name matches Some(n) ==> is_normal_component(n)
}

/// Every component is a normal one.
pub open spec fn all_normal(parts: Seq<PathPart>) -> bool {
    forall|i: int| 0 <= i < parts.len() ==> parts[i] == PathPart::Normal
}

/// `s[i..j]` is one of the pieces that `/` separates `s` into.
pub open spec fn is_segment(s: Seq<char>, i: int, j: int) -> bool {
    &&& 0 <= i <= j <= s.len()
    &&& (i == 0 || s[i - 1] == '/')
    &&& (j == s.len() || s[j] == '/')
    &&& forall|k: int| i <= k < j ==> s[k] != '/'
}

/// Some `/`-separated piece of `s` is exactly `..`.
pub open spec fn has_parent_segment(s: Seq<char>) -> bool {
    exists|i: int, j: int| is_segment(s, i, j) && #[trigger] s.subrange(i, j) == seq!['.', '.']
}

/// A bare file name on every platform: non-empty, not `.` or `..`, and free
/// of `/`, `\\` and `:`.
pub open spec fn is_plain_file_name(p: Seq<char>) -> bool {
    &&& is_normal_component(p)
    &&& forall|i: int| 0 <= i < p.len() ==> p[i] != '/' && p[i] != '\\' && p[i] != ':'
}

/// Calls `std::path::Path::file_name` on `path` and converts the name to a
/// `String` (`None` also where the name is not valid Unicode).
///
/// Claimed of it: a name it returns is a normal component; for a portable
/// path (see [`is_portable_path`]) it is the path's last component when that
/// is a normal one (see [`final_name`]); and a path that ends in an extension
/// every platform reads alike (see [`has_clear_extension`]) has a file name
/// with that extension, whatever separators or drive come before. Beyond
/// that, paths with prefixes or `\\` separators split differently on
/// different platforms, and nothing more is stated of them.
#[verifier::external_body]
pub(crate) fn path_file_name(path: &str) -> (r: Option<String>)
    ensures
        is_file_name_result(string_option_view(r)),
        is_portable_path(path@) ==> string_option_view(r) == final_name(path@),
        forall|ext: Seq<char>|
            #[trigger] has_clear_extension(path@, ext) ==> name_has_extension(
                string_option_view(r),
                ext,
            ),
{
    let name = std::path::Path::new(path).file_name()?;
    Some(name.to_str()?.to_string())
}

/// Calls `std::path::Path::components` on `path` and records the kind of
/// each component.
///
/// Claimed of it: for a portable path the kinds are those of
/// [`components`]; on any path, a leading `/` or a `..` piece gives some
/// component that is not a normal one (a root, a prefix or a parent), and a
/// path that is plainly relative (see [`is_plainly_relative`]) has normal
/// components only. Nothing more is stated of paths with prefixes or `\\`
/// separators.
#[verifier::external_body]
pub(crate) fn path_parts(path: &str) -> (r: Vec<PathPart>)
    ensures
        starts_with_slash(path@) ==> !all_normal(r@),
        has_parent_segment(path@) ==> !all_normal(r@),
        is_portable_path(path@) ==> r@ == component_kinds(path@),
        is_plainly_relative(path@) ==> all_normal(r@),
{
    let mut parts = Vec::new();
    for c in std::path::Path::new(path).components() {
        parts.push(match c {
            std::path::Component::Prefix(_) => PathPart::Prefix,
            std::path::Component::RootDir => PathPart::RootDir,
            std::path::Component::CurDir => PathPart::CurDir,
            std::path::Component::ParentDir => PathPart::ParentDir,
            std::path::Component::Normal(_) => PathPart::Normal,
        });
    }
    parts
}

/// Calls `std::path::Path::starts_with`: whether `base` is a prefix of
/// `path`, whole components only.
///
/// Claimed of it: for portable paths the answer is whether the components of
/// `base` are a prefix of those of `path`; on any platform a path starts
/// with itself, and with `base` when it is `base`, a `/` and more (see
/// [`is_joined_under`]). Nothing more is stated of other paths.
#[verifier::external_body]
pub(crate) fn path_starts_with(path: &str, base: &str) -> (r: bool)
    ensures
        is_portable_path(path@) && is_portable_path(base@) ==> r == components(base@).is_prefix_of(
            components(path@),
        ),
        path@ == base@ ==> r,
        is_joined_under(path@, base@) ==> r,
{
    std::path::Path::new(path).starts_with(base)
}

/// Whether every component is a normal one.
pub fn only_normal_parts(parts: &Vec<PathPart>) -> (r: bool)
    ensures
        r == all_normal(parts@),
{
    let mut i: usize = 0;
    while i < parts.len()
        invariant
            i <= parts@.len(),
            forall|j: int| 0 <= j < i ==> parts@[j] == PathPart::Normal,
        decreases parts@.len() - i,
    {
        match parts[i] {
            PathPart::Normal => {},
            _ => {
                return false;
            },
        }
        i = i + 1;
    }
    true
}

/// Keep a canonical path only when it lies under `root`, compared whole
/// component by whole component (a `root` of `/srv/site` does not take in
/// `/srv/site2`). With the canonical path, this defeats escapes through
/// symbolic links.
pub fn confine_to_root(root: &str, canonical: String) -> (r: Option<String>)
    ensures
        r matches Some(p) ==> p@ == canonical@,
        is_portable_path(root@) && is_portable_path(canonical@) ==> (r is Some <==> components(
            root@,
        ).is_prefix_of(components(canonical@))),
        canonical@ == root@ || is_joined_under(canonical@, root@) ==> r is Some,
{
    if path_starts_with(canonical.as_str(), root) {
        Some(canonical)
    } else {
        None
    }
}

// ---------------------------------------------------------------------------
// Facts about pieces and components
// ---------------------------------------------------------------------------

/// Every path has at least one piece.
pub proof fn lemma_pieces_nonempty(p: Seq<char>)
    ensures
        pieces(p).len() >= 1,
    decreases p.len(),
{
    if p.len() > 0 {
        lemma_pieces_nonempty(p.drop_first());
    }
}

/// A path without `/` is a single piece.
pub proof fn lemma_pieces_without_slash(p: Seq<char>)
    requires
        forall|i: int| 0 <= i < p.len() ==> p[i] != '/',
    ensures
        pieces(p) == seq![p],
    decreases p.len(),
{
    if p.len() > 0 {
        lemma_pieces_without_slash(p.drop_first());
        assert(seq![p[0]] + p.drop_first() =~= p);
        assert(pieces(p) =~= seq![p]);
    } else {
        assert(p =~= Seq::<char>::empty());
    }
}

/// Joining two paths with `/` joins their pieces.
pub proof fn lemma_pieces_join(a: Seq<char>, b: Seq<char>)
    ensures
        pieces(a + seq!['/'] + b) == pieces(a) + pieces(b),
    decreases a.len(),
{
    let p = a + seq!['/'] + b;
    if a.len() == 0 {
        assert(p.drop_first() =~= b);
        assert(pieces(a) =~= seq![Seq::<char>::empty()]);
        assert(pieces(p) =~= pieces(a) + pieces(b));
    } else {
        let a1 = a.drop_first();
        assert(p.drop_first() =~= a1 + seq!['/'] + b);
        lemma_pieces_join(a1, b);
        lemma_pieces_nonempty(a1);
        if a[0] == '/' {
            assert(pieces(p) =~= pieces(a) + pieces(b));
        } else {
            let r1 = pieces(a1);
            assert((r1 + pieces(b)).update(0, seq![a[0]] + r1[0]) =~= r1.update(
                0,
                seq![a[0]] + r1[0],
            ) + pieces(b));
            assert(pieces(p) =~= pieces(a) + pieces(b));
        }
    }
}

/// The named components of joined piece lists are joined.
pub proof fn lemma_named_components_join(ps: Seq<Seq<char>>, qs: Seq<Seq<char>>)
    ensures
        named_components(ps + qs) == named_components(ps) + named_components(qs),
    decreases ps.len(),
{
    if ps.len() == 0 {
        assert(ps + qs =~= qs);
        assert(named_components(ps) =~= Seq::<ComponentView>::empty());
        assert(named_components(ps) + named_components(qs) =~= named_components(qs));
    } else {
        assert((ps + qs).skip(1) =~= ps.skip(1) + qs);
        lemma_named_components_join(ps.skip(1), qs);
        if is_named_piece(ps[0]) {
            assert(named_components(ps + qs) =~= named_components(ps) + named_components(qs));
        } else {
            assert(named_components(ps + qs) =~= named_components(ps) + named_components(qs));
        }
    }
}

/// A bare file name is a single normal component, and its own file name.
pub proof fn lemma_plain_file_name_components(name: Seq<char>)
    requires
        is_plain_file_name(name),
    ensures
        is_portable_path(name),
        components(name) == seq![ComponentView::Normal(name)],
        final_name(name) == Some(name),
        all_normal(component_kinds(name)),
{
    lemma_pieces_without_slash(name);
    let ps = pieces(name);
    assert(ps.skip(1) =~= Seq::<Seq<char>>::empty());
    assert(named_components(ps.skip(1)) =~= Seq::<ComponentView>::empty());
    assert(is_named_piece(ps[0]) && piece_component(ps[0]) == ComponentView::Normal(name));
    assert(named_components(ps) =~= seq![ComponentView::Normal(name)]);
    assert(leading_components(name) =~= Seq::<ComponentView>::empty());
    assert(components(name) =~= seq![ComponentView::Normal(name)]);
}

/// The file name of `dir/name`, for a bare file name `name`, is `name`.
pub proof fn lemma_final_name_under_directory(dir: Seq<char>, name: Seq<char>)
    requires
        is_normal_component(name),
        forall|i: int| 0 <= i < name.len() ==> name[i] != '/',
    ensures
        final_name(dir + seq!['/'] + name) == Some(name),
{
    let p = dir + seq!['/'] + name;
    lemma_pieces_join(dir, name);
    lemma_pieces_without_slash(name);
    lemma_named_components_join(pieces(dir), seq![name]);
    let last = seq![name];
    assert(last.skip(1) =~= Seq::<Seq<char>>::empty());
    assert(named_components(last.skip(1)) =~= Seq::<ComponentView>::empty());
    assert(is_named_piece(last[0]) && piece_component(last[0]) == ComponentView::Normal(name));
    assert(named_components(last) =~= seq![ComponentView::Normal(name)]);
    let c = components(p);
    assert(c =~= leading_components(p) + named_components(pieces(dir)) + seq![
        ComponentView::Normal(name),
    ]);
    assert(c.last() == ComponentView::Normal(name));
}

} // verus!
