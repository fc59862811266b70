//! Unix path text: separators, components, file names and extensions.
//!
//! A path is held as its text; its components are those `std::path::Path::components`
//! yields on Unix: repeated separators and interior `.` segments are dropped, a leading
//! `/` is the root and a leading `.` the current directory.
use vstd::prelude::*;

use crate::text::{chars_eq, chars_of, concat, join_first, join_seqs, push_all, slice_range, views};

verus! {

broadcast use vstd::string::group_string_axioms;

/// `s` cut at every `sep` (`str::split` with one character); always at least one piece.
pub open spec fn split_on(s: Seq<char>, sep: char) -> Seq<Seq<char>>
    decreases s.len(),
{
    if s.len() == 0 {
        seq![seq![]]
    } else {
        let prev = split_on(s.drop_last(), sep);
        if s.last() == sep {
            prev.push(seq![])
        } else {
            prev.update(prev.len() - 1, prev.last().push(s.last()))
        }
    }
}

/// Splitting always yields at least one piece.
pub proof fn lemma_split_nonempty(s: Seq<char>, sep: char)
    ensures
        split_on(s, sep).len() >= 1,
    decreases s.len(),
{
    if s.len() > 0 {
        lemma_split_nonempty(s.drop_last(), sep);
    }
}

/// The character views of a vector of pieces.
pub open spec fn piece_views(v: Seq<Vec<char>>) -> Seq<Seq<char>> {
    v.map_values(|w: Vec<char>| w@)
}

/// `s` cut at every `sep`.
pub fn split_char(s: &[char], sep: char) -> (r: Vec<Vec<char>>)
    ensures
        piece_views(r@) == split_on(s@, sep),
        r@.len() >= 1,
{
    let mut out: Vec<Vec<char>> = Vec::new();
    let mut cur: Vec<char> = Vec::new();
    let mut i: usize = 0;
    while i < s.len()
        invariant
            i <= s.len(),
            split_on(s@.take(i as int), sep) == piece_views(out@).push(cur@),
        decreases s.len() - i,
    {
        let c = s[i];
        let ghost old_out = piece_views(out@);
        let ghost old_cur = cur@;
        assert(s@.take(i + 1).drop_last() =~= s@.take(i as int));
        assert(s@.take(i + 1).last() == c);
        if c == sep {
            let w = cur;
            cur = Vec::new();
            out.push(w);
            assert(piece_views(out@).push(cur@) =~= old_out.push(old_cur).push(seq![]));
        } else {
            cur.push(c);
            assert(piece_views(out@).push(cur@) =~= old_out.push(old_cur).update(
                old_out.len() as int,
                old_cur.push(c),
            ));
        }
        i = i + 1;
    }
    let ghost before = piece_views(out@);
    let ghost last = cur@;
    out.push(cur);
    assert(piece_views(out@) =~= before.push(last));
    assert(s@.take(s.len() as int) =~= s@);
    out
}

/// One component of a path.
pub enum PathComponent {
    RootDir,
    CurDir,
    ParentDir,
    Normal(Seq<char>),
}

/// The component a separator-free segment stands for, if any (empty and `.` segments
/// stand for none).
pub open spec fn segment_component(seg: Seq<char>) -> Option<PathComponent> {
    if seg.len() == 0 || seg == "."@ {
        None
    } else if seg == ".."@ {
        Some(PathComponent::ParentDir)
    } else {
        Some(PathComponent::Normal(seg))
    }
}

/// The components a run of segments stands for.
pub open spec fn segments_components(segs: Seq<Seq<char>>) -> Seq<PathComponent>
    decreases segs.len(),
{
    if segs.len() == 0 {
        seq![]
    } else {
        let prev = segments_components(segs.drop_last());
        match segment_component(segs.last()) {
            Some(c) => prev.push(c),
            None => prev,
        }
    }
}

/// Whether the path text is absolute (starts at the root).
pub open spec fn is_absolute(s: Seq<char>) -> bool {
    s.len() > 0 && s[0] == '/'
}

/// The components of a path (`Path::components` on Unix).
pub open spec fn path_components(s: Seq<char>) -> Seq<PathComponent> {
    let segs = split_on(s, '/');
    if is_absolute(s) {
        seq![PathComponent::RootDir] + segments_components(segs)
    } else if segs[0] == "."@ {
        seq![PathComponent::CurDir] + segments_components(segs.skip(1))
    } else {
        segments_components(segs)
    }
}

/// A path component, executable form.
#[derive(Debug, Clone, PartialEq, Eq)]
pub enum Component {
    RootDir,
    CurDir,
    ParentDir,
    Normal(Vec<char>),
}

impl View for Component {
    type V = PathComponent;

    open spec fn view(&self) -> PathComponent {
        match self {
            Component::RootDir => PathComponent::RootDir,
            Component::CurDir => PathComponent::CurDir,
            Component::ParentDir => PathComponent::ParentDir,
            Component::Normal(v) => PathComponent::Normal(v@),
        }
    }
}

/// The views of a vector of components.
pub open spec fn component_views(v: Seq<Component>) -> Seq<PathComponent> {
    v.map_values(|c: Component| c@)
}

fn is_dot(seg: &[char]) -> (r: bool)
    ensures
        r == (seg@ == "."@),
{
    let d = chars_of(".");
    chars_eq(seg, d.as_slice())
}

fn is_dot_dot(seg: &[char]) -> (r: bool)
    ensures
        r == (seg@ == ".."@),
{
    let d = chars_of("..");
    chars_eq(seg, d.as_slice())
}

fn push_segment(out: &mut Vec<Component>, seg: &Vec<char>)
    ensures
        component_views(final(out)@) == match segment_component(seg@) {
            Some(c) => component_views(old(out)@).push(c),
            None => component_views(old(out)@),
        },
{
    let ghost before = component_views(out@);
    if seg.len() == 0 || is_dot(seg.as_slice()) {
    } else if is_dot_dot(seg.as_slice()) {
        out.push(Component::ParentDir);
        assert(component_views(out@) =~= before.push(PathComponent::ParentDir));
    } else {
        let copy = slice_range(seg.as_slice(), 0, seg.len());
        assert(copy@ =~= seg@);
        out.push(Component::Normal(copy));
        assert(component_views(out@) =~= before.push(PathComponent::Normal(seg@)));
    }
}

/// The components of a path.
pub fn components(path: &[char]) -> (r: Vec<Component>)
    ensures
        component_views(r@) == path_components(path@),
{
    let segs = split_char(path, '/');
    let mut out: Vec<Component> = Vec::new();
    let mut start: usize = 0;
    assert(piece_views(segs@)[0] == segs@[0]@);
    if path.len() > 0 && path[0] == '/' {
        out.push(Component::RootDir);
    } else if is_dot(segs[0].as_slice()) {
        out.push(Component::CurDir);
        start = 1;
    }
    let ghost head = component_views(out@);
    let ghost segv = piece_views(segs@);
    let mut i = start;
    while i < segs.len()
        invariant
            start <= i <= segs.len(),
            segv == piece_views(segs@),
            segv.len() == segs@.len(),
            component_views(out@) == head + segments_components(segv.subrange(start as int, i as int)),
        decreases segs.len() - i,
    {
        proof {
            assert(segv.subrange(start as int, i + 1).drop_last() =~= segv.subrange(
                start as int,
                i as int,
            ));
            assert(segv[i as int] == segs@[i as int]@);
        }
        push_segment(&mut out, &segs[i]);
        i = i + 1;
        assert(component_views(out@) =~= head + segments_components(
            segv.subrange(start as int, i as int),
        ));
    }
    proof {
        if start == 1 {
            assert(segv.subrange(1, segv.len() as int) =~= segv.skip(1));
        } else {
            assert(segv.subrange(0, segv.len() as int) =~= segv);
        }
        if path@.len() > 0 && path@[0] == '/' {
            assert(head =~= seq![PathComponent::RootDir]);
        } else if segv[0] == "."@ {
            assert(head =~= seq![PathComponent::CurDir]);
        } else {
            assert(head =~= seq![]);
        }
    }
    out
}


/// The last position of `c` in `s`, if any.
pub open spec fn last_index_of(s: Seq<char>, c: char) -> Option<int>
    decreases s.len(),
{
    if s.len() == 0 {
        None
    } else if s.last() == c {
        Some(s.len() - 1)
    } else {
        last_index_of(s.drop_last(), c)
    }
}

/// A found position is in range and holds the character.
pub proof fn lemma_last_index_of(s: Seq<char>, c: char)
    ensures
        last_index_of(s, c) matches Some(k) ==> 0 <= k < s.len() && s[k] == c,
    decreases s.len(),
{
    if s.len() > 0 && s.last() != c {
        lemma_last_index_of(s.drop_last(), c);
    }
}

/// The extension of a file name: the text after its last `.`, unless there is no `.` or
/// the only `.` starts the name.
pub open spec fn name_extension(name: Seq<char>) -> Option<Seq<char>> {
    match last_index_of(name, '.') {
        None => None,
        Some(k) => if k == 0 {
            None
        } else {
            Some(name.skip(k + 1))
        },
    }
}

/// The file name of a path: its last component, when that is a normal one (`Path::file_name`).
pub open spec fn file_name(path: Seq<char>) -> Option<Seq<char>> {
    let cs = path_components(path);
    if cs.len() > 0 {
        match cs.last() {
            PathComponent::Normal(n) => Some(n),
            _ => None,
        }
    } else {
        None
    }
}

/// The extension of a path's file name (`Path::extension`).
pub open spec fn path_extension(path: Seq<char>) -> Option<Seq<char>> {
    match file_name(path) {
        Some(n) => name_extension(n),
        None => None,
    }
}

/// The last position of `c` in `s`.
pub fn find_last(s: &[char], c: char) -> (r: Option<usize>)
    ensures
        match r {
            Some(k) => last_index_of(s@, c) == Some(k as int) && k < s.len(),
            None => last_index_of(s@, c) is None,
        },
{
    proof {
        lemma_last_index_of(s@, c);
    }
    assert(s@.take(s.len() as int) =~= s@);
    let mut j = s.len();
    while j > 0
        invariant
            j <= s.len(),
            last_index_of(s@, c) == last_index_of(s@.take(j as int), c),
        decreases j,
    {
        assert(s@.take(j as int).drop_last() =~= s@.take(j - 1));
        assert(s@.take(j as int).last() == s@[j - 1]);
        if s[j - 1] == c {
            return Some(j - 1);
        }
        j = j - 1;
    }
    None
}

/// The extension of a file name.
pub fn extension_of_name(name: &[char]) -> (r: Option<Vec<char>>)
    ensures
        match r {
            Some(e) => name_extension(name@) == Some(e@),
            None => name_extension(name@) is None,
        },
{
    match find_last(name, '.') {
        None => None,
        Some(k) => {
            if k == 0 {
                None
            } else {
                let e = slice_range(name, k + 1, name.len());
                assert(e@ =~= name@.skip(k + 1));
                Some(e)
            }
        },
    }
}

/// The file name of a path.
pub fn file_name_of(path: &[char]) -> (r: Option<Vec<char>>)
    ensures
        match r {
            Some(n) => file_name(path@) == Some(n@),
            None => file_name(path@) is None,
        },
{
    let cs = components(path);
    assert(component_views(cs@).len() == cs@.len());
    if cs.len() == 0 {
        return None;
    }
    let last = cs.len() - 1;
    assert(component_views(cs@).last() == cs@[last as int]@);
    match &cs[last] {
        Component::Normal(n) => {
            let copy = slice_range(n.as_slice(), 0, n.len());
            assert(copy@ =~= n@);
            Some(copy)
        },
        _ => None,
    }
}

/// The extension of a path's file name.
pub fn extension_of_path(path: &[char]) -> (r: Option<Vec<char>>)
    ensures
        match r {
            Some(e) => path_extension(path@) == Some(e@),
            None => path_extension(path@) is None,
        },
{
    match file_name_of(path) {
        Some(n) => extension_of_name(n.as_slice()),
        None => None,
    }
}


/// `rel` appended to `base` as `PathBuf::push` does on Unix: an absolute `rel` replaces
/// `base`, and a separator is added unless `base` is empty or already ends with one.
pub open spec fn join_path(base: Seq<char>, rel: Seq<char>) -> Seq<char> {
    if is_absolute(rel) {
        rel
    } else if base.len() == 0 {
        rel
    } else if base.last() == '/' {
        base + rel
    } else {
        base.push('/') + rel
    }
}

/// `rel` appended to `base` as a path.
pub fn join(base: &[char], rel: &[char]) -> (r: Vec<char>)
    ensures
        r@ == join_path(base@, rel@),
{
    if rel.len() > 0 && rel[0] == '/' {
        slice_range(rel, 0, rel.len())
    } else if base.len() == 0 {
        slice_range(rel, 0, rel.len())
    } else if base[base.len() - 1] == '/' {
        concat(base, rel)
    } else {
        let mut b = slice_range(base, 0, base.len());
        b.push('/');
        assert(b@ =~= base@.push('/'));
        push_all(&mut b, rel);
        b
    }
}

/// The components of a path resolved lexically: whether it is rooted, and the names left
/// after `.` is dropped and each `..` removes the name before it (none at the root).
pub open spec fn resolve_components(cs: Seq<PathComponent>) -> (bool, Seq<Seq<char>>)
    decreases cs.len(),
{
    if cs.len() == 0 {
        (false, seq![])
    } else {
        let (rooted, names) = resolve_components(cs.drop_last());
        match cs.last() {
            PathComponent::RootDir => (true, names),
            PathComponent::CurDir => (rooted, names),
            PathComponent::Normal(n) => (rooted, names.push(n)),
            PathComponent::ParentDir => (
                rooted,
                if names.len() > 0 {
                    names.drop_last()
                } else {
                    names
                },
            ),
        }
    }
}

/// The text of a resolved path.
pub open spec fn resolved_text(rooted: bool, names: Seq<Seq<char>>) -> Seq<char> {
    if rooted {
        seq!['/'] + join_seqs(names, seq!['/'])
    } else {
        join_seqs(names, seq!['/'])
    }
}

/// A path with `.` and `..` resolved lexically, as text.
pub open spec fn normalize_absolute_path_spec(path: Seq<char>) -> Seq<char> {
    let (rooted, names) = resolve_components(path_components(path));
    resolved_text(rooted, names)
}

/// Resolves `.` and `..` in a path without touching the file system.
pub fn normalize_absolute_path(path: &[char]) -> (r: Vec<char>)
    ensures
        r@ == normalize_absolute_path_spec(path@),
{
    let cs = components(path);
    let ghost cv = component_views(cs@);
    assert(cv.len() == cs@.len());
    let mut rooted = false;
    let mut names: Vec<Vec<char>> = Vec::new();
    let mut i: usize = 0;
    while i < cs.len()
        invariant
            i <= cs.len(),
            cv == component_views(cs@),
            cv.len() == cs@.len(),
            resolve_components(cv.take(i as int)) == (rooted, views(names@)),
        decreases cs.len() - i,
    {
        assert(cv.take(i + 1).drop_last() =~= cv.take(i as int));
        assert(cv.take(i + 1).last() == cs@[i as int]@);
        let ghost before = views(names@);
        match &cs[i] {
            Component::RootDir => {
                rooted = true;
            },
            Component::CurDir => {},
            Component::Normal(n) => {
                let copy = slice_range(n.as_slice(), 0, n.len());
                assert(copy@ =~= n@);
                names.push(copy);
                assert(views(names@) =~= before.push(n@));
            },
            Component::ParentDir => {
                if names.len() > 0 {
                    names.pop();
                    assert(views(names@) =~= before.drop_last());
                }
            },
        }
        i = i + 1;
    }
    assert(cv.take(cs.len() as int) =~= cv);
    assert(views(names@).len() == names@.len());
    let joined = join_first(&names, names.len(), &['/']);
    assert(views(names@).take(names.len() as int) =~= views(names@));
    assert((&['/'])@ == seq!['/']);
    if rooted {
        let r = concat(&['/'], joined.as_slice());
        r
    } else {
        joined
    }
}

/// `prefix` matches the start of `cs`, component by component.
pub open spec fn is_component_prefix(cs: Seq<PathComponent>, prefix: Seq<PathComponent>) -> bool {
    prefix.len() <= cs.len() && cs.take(prefix.len() as int) == prefix
}

fn same_component(a: &Component, b: &Component) -> (r: bool)
    ensures
        r == (a@ == b@),
{
    match (a, b) {
        (Component::RootDir, Component::RootDir) => true,
        (Component::CurDir, Component::CurDir) => true,
        (Component::ParentDir, Component::ParentDir) => true,
        (Component::Normal(x), Component::Normal(y)) => chars_eq(x.as_slice(), y.as_slice()),
        _ => false,
    }
}

/// Whether path `p` starts with path `prefix`, component by component (`Path::starts_with`).
pub fn path_starts_with(p: &[char], prefix: &[char]) -> (r: bool)
    ensures
        r == is_component_prefix(path_components(p@), path_components(prefix@)),
{
    let a = components(p);
    let b = components(prefix);
    let ghost av = component_views(a@);
    let ghost bv = component_views(b@);
    assert(av.len() == a@.len() && bv.len() == b@.len());
    if b.len() > a.len() {
        return false;
    }
    let mut i: usize = 0;
    while i < b.len()
        invariant
            i <= b.len() <= a.len(),
            av == component_views(a@),
            bv == component_views(b@),
            av == path_components(p@),
            bv == path_components(prefix@),
            av.len() == a@.len(),
            bv.len() == b@.len(),
            forall|k: int| 0 <= k < i ==> av[k] == bv[k],
        decreases b.len() - i,
    {
        assert(av[i as int] == a@[i as int]@ && bv[i as int] == b@[i as int]@);
        if !same_component(&a[i], &b[i]) {
            assert(av.take(bv.len() as int)[i as int] != bv[i as int]);
            return false;
        }
        i = i + 1;
    }
    assert(av.take(bv.len() as int) =~= bv);
    true
}

/// Cutting at a separator splits the pieces of the two sides.
pub proof fn lemma_split_append(s: Seq<char>, t: Seq<char>, sep: char)
    ensures
        split_on(s + seq![sep] + t, sep) == split_on(s, sep) + split_on(t, sep),
    decreases t.len(),
{
    let u = s + seq![sep] + t;
    if t.len() == 0 {
        assert(u.drop_last() =~= s);
        assert(split_on(s, sep) + split_on(t, sep) =~= split_on(s, sep).push(seq![]));
    } else {
        assert(u.drop_last() =~= s + seq![sep] + t.drop_last());
        lemma_split_append(s, t.drop_last(), sep);
        lemma_split_nonempty(t.drop_last(), sep);
        let a = split_on(s, sep);
        let b = split_on(t.drop_last(), sep);
        if t.last() == sep {
            assert((a + b).push(seq![]) =~= a + b.push(seq![]));
        } else {
            assert((a + b).update((a + b).len() - 1, (a + b).last().push(t.last())) =~= a + b.update(
                b.len() - 1,
                b.last().push(t.last()),
            ));
        }
    }
}


/// A plain name: a path segment that is not empty, `.` or `..` and has no separator.
pub open spec fn is_plain_name(seg: Seq<char>) -> bool {
    &&& seg.len() > 0
    &&& seg != "."@
    &&& seg != ".."@
    &&& forall|i: int| 0 <= i < seg.len() ==> seg[i] != '/'
}

proof fn lemma_split_plain(p: Seq<char>)
    requires
        forall|i: int| 0 <= i < p.len() ==> p[i] != '/',
    ensures
        split_on(p, '/') == seq![p],
    decreases p.len(),
{
    if p.len() > 0 {
        let q = p.drop_last();
        assert forall|i: int| 0 <= i < q.len() implies q[i] != '/' by {
            assert(q[i] == p[i]);
        }
        lemma_split_plain(q);
        assert(q.push(p.last()) =~= p);
        assert(p.last() == p[p.len() - 1]);
        assert(seq![q].update(0, q.push(p.last())) =~= seq![p]);
    } else {
        assert(p =~= Seq::<char>::empty());
    }
}

proof fn lemma_components_extend(t: Seq<char>, segs: Seq<Seq<char>>, tail: Seq<char>, seg: Seq<char>)
    requires
        is_plain_name(seg),
        tail.len() == 0 || tail == seg,
        segs.len() >= 1,
    ensures
        segments_components(segs + seq![seg]) == segments_components(segs).push(
            PathComponent::Normal(seg),
        ),
        segments_components(segs + seq![seq![]]) == segments_components(segs),
        (segs + seq![seg]).skip(1) == segs.skip(1) + seq![seg],
        (segs + seq![seq![]]).skip(1) == segs.skip(1) + seq![seq![]],
        segments_components(segs.skip(1) + seq![seg]) == segments_components(segs.skip(1)).push(
            PathComponent::Normal(seg),
        ),
        segments_components(segs.skip(1) + seq![seq![]]) == segments_components(segs.skip(1)),
{
    assert((segs + seq![seg]).drop_last() =~= segs);
    assert((segs + seq![seq![]]).drop_last() =~= segs);
    assert((segs + seq![seg]).skip(1) =~= segs.skip(1) + seq![seg]);
    assert((segs + seq![seq![]]).skip(1) =~= segs.skip(1) + seq![seq![]]);
    assert((segs.skip(1) + seq![seg]).drop_last() =~= segs.skip(1));
    assert((segs.skip(1) + seq![seq![]]).drop_last() =~= segs.skip(1));
}

/// Appending a plain name to a path appends one component.
pub proof fn lemma_join_plain(t: Seq<char>, seg: Seq<char>)
    requires
        is_plain_name(seg),
    ensures
        path_components(join_path(t, seg)) == path_components(t).push(PathComponent::Normal(seg)),
{
    lemma_split_plain(seg);
    assert(seg[0] != '/');
    let r = join_path(t, seg);
    if t.len() == 0 {
        assert(r == seg);
        assert(split_on(t, '/') == seq![Seq::<char>::empty()]);
        assert(segments_components(seq![seg]) == seq![PathComponent::Normal(seg)]) by {
            assert(seq![seg].drop_last() =~= Seq::<Seq<char>>::empty());
            assert(segments_components(Seq::<Seq<char>>::empty()) == Seq::<PathComponent>::empty());
            assert(seq![seg].last() == seg);
            assert(Seq::<PathComponent>::empty().push(PathComponent::Normal(seg)) =~= seq![
                PathComponent::Normal(seg),
            ]);
        }
        assert(segments_components(seq![Seq::<char>::empty()]) == Seq::<PathComponent>::empty()) by {
            assert(seq![Seq::<char>::empty()].drop_last() =~= Seq::<Seq<char>>::empty());
            assert(segments_components(Seq::<Seq<char>>::empty()) == Seq::<PathComponent>::empty());
            assert(seq![Seq::<char>::empty()].last() == Seq::<char>::empty());
            assert(segment_component(Seq::<char>::empty()) is None);
        }
        reveal_strlit(".");
        assert(seq![Seq::<char>::empty()][0] == Seq::<char>::empty());
        assert(("."@).len() == 1);
        assert(split_on(t, '/')[0] != "."@);
        assert(path_components(t) =~= Seq::<PathComponent>::empty());
        assert(path_components(r) =~= seq![PathComponent::Normal(seg)]);
    } else if t.last() == '/' {
        let u = t.drop_last();
        assert(t =~= u + seq!['/'] + Seq::<char>::empty());
        assert(r =~= u + seq!['/'] + seg);
        lemma_split_append(u, Seq::<char>::empty(), '/');
        lemma_split_append(u, seg, '/');
        lemma_split_nonempty(u, '/');
        let a = split_on(u, '/');
        assert(split_on(Seq::<char>::empty(), '/') == seq![Seq::<char>::empty()]);
        assert(split_on(t, '/') == a + seq![seq![]]);
        assert(split_on(r, '/') == a + seq![seg]);
        lemma_components_extend(t, a, seg, seg);
        assert((a + seq![seg])[0] == a[0]);
        assert((a + seq![seq![]])[0] == a[0]);
        assert(r[0] == t[0]);
    } else {
        assert(r =~= t + seq!['/'] + seg);
        lemma_split_append(t, seg, '/');
        lemma_split_nonempty(t, '/');
        let a = split_on(t, '/');
        assert(split_on(r, '/') == a + seq![seg]);
        lemma_components_extend(t, a, seg, seg);
        assert((a + seq![seg])[0] == a[0]);
        assert(r[0] == t[0]);
    }
}

/// No piece of a split holds the separator.
pub proof fn lemma_split_pieces_free(s: Seq<char>, sep: char)
    ensures
        forall|i: int, j: int|
            0 <= i < split_on(s, sep).len() && 0 <= j < split_on(s, sep)[i].len() ==> split_on(
                s,
                sep,
            )[i][j] != sep,
    decreases s.len(),
{
    if s.len() > 0 {
        lemma_split_pieces_free(s.drop_last(), sep);
        lemma_split_nonempty(s.drop_last(), sep);
        let prev = split_on(s.drop_last(), sep);
        let cur = split_on(s, sep);
        if s.last() != sep {
            assert forall|i: int, j: int| 0 <= i < cur.len() && 0 <= j < cur[i].len() implies cur[i][j]
                != sep by {
                if i == prev.len() - 1 {
                    if j < prev[i].len() {
                        assert(cur[i][j] == prev[i][j]);
                    }
                } else {
                    assert(cur[i] == prev[i]);
                }
            }
        } else {
            assert forall|i: int, j: int| 0 <= i < cur.len() && 0 <= j < cur[i].len() implies cur[i][j]
                != sep by {
                if i < prev.len() {
                    assert(cur[i] == prev[i]);
                }
            }
        }
    }
}

proof fn lemma_segments_plain(segs: Seq<Seq<char>>)
    requires
        forall|i: int, j: int| 0 <= i < segs.len() && 0 <= j < segs[i].len() ==> segs[i][j] != '/',
    ensures
        forall|k: int|
            #![trigger segments_components(segs)[k]]
            0 <= k < segments_components(segs).len() ==> (segments_components(
                segs,
            )[k] matches PathComponent::Normal(n) ==> is_plain_name(n)),
    decreases segs.len(),
{
    if segs.len() > 0 {
        let d = segs.drop_last();
        assert forall|i: int, j: int| 0 <= i < d.len() && 0 <= j < d[i].len() implies d[i][j] != '/' by {
            assert(d[i] == segs[i]);
        }
        lemma_segments_plain(d);
        let l = segs.last();
        assert forall|j: int| 0 <= j < l.len() implies l[j] != '/' by {
            assert(l == segs[segs.len() - 1]);
        }
    }
}

/// Every plain-name component of a path is a plain name.
pub proof fn lemma_components_plain(s: Seq<char>)
    ensures
        forall|k: int|
            #![trigger path_components(s)[k]]
            0 <= k < path_components(s).len() ==> (path_components(s)[k] matches PathComponent::Normal(
                n,
            ) ==> is_plain_name(n)),
{
    let segs = split_on(s, '/');
    lemma_split_pieces_free(s, '/');
    lemma_split_nonempty(s, '/');
    lemma_segments_plain(segs);
    let rest = segs.skip(1);
    assert forall|i: int, j: int| 0 <= i < rest.len() && 0 <= j < rest[i].len() implies rest[i][j]
        != '/' by {
        assert(rest[i] == segs[i + 1]);
    }
    lemma_segments_plain(rest);
}

} // verus!
