//! Unix path strings taken by their components, as `std::path::Path` reads
//! them: a leading `/` is the root, repeated separators and `.` parts are
//! dropped (a leading `.` of a relative path stays), `..` is kept.

use vstd::prelude::*;
use crate::text::{chars_of, push_char, string_from_chars, string_from_range};

verus! {

broadcast use vstd::seq_lib::group_seq_properties;

/// The parts of `s` between `/` separators, empty parts included.
pub open spec fn split_parts(s: Seq<char>) -> Seq<Seq<char>>
    decreases s.len(),
{
    if s.len() == 0 {
        seq![seq![]]
    } else {
        let p = split_parts(s.drop_last());
        if s.last() == '/' {
            p.push(seq![])
        } else {
            p.update(p.len() - 1, p.last().push(s.last()))
        }
    }
}

/// A part that names something: not empty and not `.`.
pub open spec fn is_named_part(p: Seq<char>) -> bool {
    p.len() > 0 && p != "."@
}

/// The named parts of `s`, in order.
pub open spec fn named_parts(s: Seq<char>) -> Seq<Seq<char>> {
    split_parts(s).filter(|p: Seq<char>| is_named_part(p))
}

pub open spec fn is_absolute(s: Seq<char>) -> bool {
    s.len() > 0 && s[0] == '/'
}

/// A relative path that starts with a `.` part.
pub open spec fn has_cur_dir(s: Seq<char>) -> bool {
    !is_absolute(s) && split_parts(s)[0] == "."@
}

/// The components of `s`: `/` for the root, `.` for a leading current
/// directory, then the named parts.
pub open spec fn components(s: Seq<char>) -> Seq<Seq<char>> {
    (if is_absolute(s) { seq!["/"@] } else { seq![] }) + (if has_cur_dir(s) {
        seq!["."@]
    } else {
        seq![]
    }) + named_parts(s)
}

/// `a` is a leading part of `b`.
pub open spec fn is_prefix_of<T>(a: Seq<T>, b: Seq<T>) -> bool {
    a.len() <= b.len() && b.subrange(0, a.len() as int) == a
}

/// `path` lies at or below `base`, compared component by component.
pub open spec fn path_starts_with(path: Seq<char>, base: Seq<char>) -> bool {
    is_prefix_of(components(base), components(path))
}

/// `PathBuf::join`: an absolute `rel` replaces `base`; otherwise `rel` is
/// appended, with a `/` between unless `base` is empty or ends with one.
pub open spec fn join(base: Seq<char>, rel: Seq<char>) -> Seq<char> {
    if is_absolute(rel) {
        rel
    } else if base.len() == 0 || base.last() == '/' {
        base + rel
    } else {
        base + seq!['/'] + rel
    }
}

/// The last component when it names something (not the root, `.` or `..`).
pub open spec fn file_name(s: Seq<char>) -> Option<Seq<char>> {
    let c = components(s);
    if c.len() > 0 && c.last() != "/"@ && c.last() != "."@ && c.last() != ".."@ {
        Some(c.last())
    } else {
        None
    }
}

/// Components written out with `/` between them, the root as a leading `/`.
pub open spec fn render(c: Seq<Seq<char>>) -> Seq<char>
    decreases c.len(),
{
    if c.len() == 0 {
        seq![]
    } else if c.len() == 1 {
        c[0]
    } else {
        let head = render(c.drop_last());
        if head == "/"@ {
            head + c.last()
        } else {
            head + seq!['/'] + c.last()
        }
    }
}

/// The path without its last component, or `None` for the root and the empty path.
pub open spec fn parent(s: Seq<char>) -> Option<Seq<char>> {
    let c = components(s);
    if c.len() == 0 || c.last() == "/"@ {
        None
    } else {
        Some(render(c.drop_last()))
    }
}

/// The index of the last `c` in `s`, or -1.
pub open spec fn last_index_of(s: Seq<char>, c: char) -> int
    decreases s.len(),
{
    if s.len() == 0 {
        -1
    } else if s.last() == c {
        s.len() - 1
    } else {
        last_index_of(s.drop_last(), c)
    }
}

/// The part of a file name after its last `.`, unless that `.` starts the name.
pub open spec fn extension_of(name: Seq<char>) -> Option<Seq<char>> {
    let i = last_index_of(name, '.');
    if i > 0 {
        Some(name.subrange(i + 1, name.len() as int))
    } else {
        None
    }
}

/// The character sequences held by a vector of character vectors.
pub open spec fn views(v: Seq<Vec<char>>) -> Seq<Seq<char>> {
    v.map_values(|x: Vec<char>| x@)
}

proof fn lemma_views_push(v: Seq<Vec<char>>, x: Vec<char>)
    ensures
        views(v.push(x)) == views(v).push(x@),
{
    assert(views(v.push(x)) =~= views(v).push(x@));
}

/// `s` with its named parts and current part at position `i` of a scan.
proof fn lemma_split_step(s: Seq<char>, i: int)
    requires
        0 <= i < s.len(),
    ensures
        split_parts(s.subrange(0, i + 1)) == (if s[i] == '/' {
            split_parts(s.subrange(0, i)).push(seq![])
        } else {
            let p = split_parts(s.subrange(0, i));
            p.update(p.len() - 1, p.last().push(s[i]))
        }),
{
    assert(s.subrange(0, i + 1).drop_last() =~= s.subrange(0, i));
}

/// The components of `s`, as sequences of characters.
pub fn components_of(s: &str) -> (r: Vec<Vec<char>>)
    ensures
        views(r@) == components(s@),
{
    let chars = chars_of(s);
    let n = chars.len();
    let mut named: Vec<Vec<char>> = Vec::new();
    let mut current: Vec<char> = Vec::new();
    let mut first: Option<Vec<char>> = None;
    let mut i: usize = 0;
    proof {
        assert(chars@.subrange(0, 0) =~= Seq::<char>::empty());
    }
    while i < n
        invariant
            n == chars@.len(),
            chars@ == s@,
            i <= n,
            split_parts(chars@.subrange(0, i as int)).len() >= 1,
            current@ == split_parts(chars@.subrange(0, i as int)).last(),
            views(named@) == split_parts(chars@.subrange(0, i as int)).drop_last().filter(
                |p: Seq<char>| is_named_part(p),
            ),
            first is Some ==> split_parts(chars@.subrange(0, i as int)).len() >= 2
                && first->0@ == split_parts(chars@.subrange(0, i as int))[0],
            first is None ==> split_parts(chars@.subrange(0, i as int)).len() == 1,
        decreases n - i,
    {
        let c = chars[i];
        let ghost before = split_parts(chars@.subrange(0, i as int));
        proof {
            lemma_split_step(chars@, i as int);
        }
        if c == '/' {
            let ghost done = before.drop_last();
            let part = current;
            current = Vec::new();
            let keep = part.len() > 0 && !(part.len() == 1 && part[0] == '.');
            proof {
                reveal_strlit(".");
                if part@ == "."@ {
                    assert(part@.len() == 1 && part@[0] == '.');
                }
                if part.len() == 1 && part@[0] == '.' {
                    assert(part@ =~= "."@);
                }
                assert(keep == is_named_part(part@));
                assert(before.push(seq![]).drop_last() =~= done.push(part@));
                done.lemma_filter_push(part@, |p: Seq<char>| is_named_part(p));
            }
            if first.is_none() {
                let copy = part.clone();
                assert(copy@ =~= part@);
                first = Some(copy);
                assert(first->0@ =~= part@);
            }
            if keep {
                let ghost old_named = views(named@);
                named.push(part);
                assert(views(named@) =~= old_named.push(part@));
            }
        } else {
            current.push(c);
            proof {
                let p = before;
                assert(p.update(p.len() - 1, p.last().push(c)).drop_last() =~= p.drop_last());
            }
        }
        i = i + 1;
    }
    let ghost all = split_parts(chars@.subrange(0, n as int));
    assert(chars@.subrange(0, n as int) =~= s@);
    let keep_last = current.len() > 0 && !(current.len() == 1 && current[0] == '.');
    proof {
        reveal_strlit(".");
        if current.len() == 1 && current@[0] == '.' {
            assert(current@ =~= "."@);
        }
        assert(keep_last == is_named_part(current@));
        assert(all.drop_last().push(all.last()) =~= all);
        all.drop_last().lemma_filter_push(all.last(), |p: Seq<char>| is_named_part(p));
    }
    let first_part: Vec<char> = match first {
        Some(f) => f,
        None => {
            let c = current.clone();
            assert(c@ =~= current@);
            c
        },
    };
    assert(first_part@ == all[0]);
    if keep_last {
        let ghost old_named = views(named@);
        named.push(current);
        assert(views(named@) =~= old_named.push(all.last()));
    }
    assert(views(named@) == named_parts(s@));
    let absolute = n > 0 && chars[0] == '/';
    let cur_dir = !absolute && first_part.len() == 1 && first_part[0] == '.';
    proof {
        reveal_strlit(".");
        reveal_strlit("/");
        if first_part@ == "."@ {
            assert(first_part@.len() == 1 && first_part@[0] == '.');
        }
        if first_part.len() == 1 && first_part@[0] == '.' {
            assert(first_part@ =~= "."@);
        }
        assert(cur_dir == has_cur_dir(s@));
        assert(absolute == is_absolute(s@));
    }
    let mut r: Vec<Vec<char>> = Vec::new();
    if absolute {
        let mut root: Vec<char> = Vec::new();
        root.push('/');
        proof {
            reveal_strlit("/");
            lemma_views_push(r@, root);
            assert(root@ =~= "/"@);
        }
        r.push(root);
        assert(views(r@) =~= seq!["/"@]);
    }
    if cur_dir {
        let mut dot: Vec<char> = Vec::new();
        dot.push('.');
        proof {
            reveal_strlit(".");
            lemma_views_push(r@, dot);
            assert(dot@ =~= "."@);
        }
        r.push(dot);
        assert(views(r@) =~= seq!["."@]);
    }
    let ghost head = views(r@);
    let mut k: usize = 0;
    while k < named.len()
        invariant
            k <= named.len(),
            views(r@) == head + views(named@).subrange(0, k as int),
        decreases named.len() - k,
    {
        let ghost old_r = views(r@);
        let x = named[k].clone();
        assert(x@ =~= named@[k as int]@);
        proof {
            lemma_views_push(r@, x);
        }
        r.push(x);
        assert(views(r@) =~= head + views(named@).subrange(0, k + 1));
        k = k + 1;
    }
    assert(views(named@).subrange(0, named.len() as int) =~= views(named@));
    assert(views(r@) =~= components(s@));
    r
}

proof fn lemma_split_parts_nonempty(s: Seq<char>)
    ensures
        split_parts(s).len() >= 1,
    decreases s.len(),
{
    if s.len() > 0 {
        lemma_split_parts_nonempty(s.drop_last());
    }
}

/// Splitting at a `/` splits the parts of the two sides apart.
proof fn lemma_split_concat(a: Seq<char>, b: Seq<char>)
    ensures
        split_parts(a + seq!['/'] + b) == split_parts(a) + split_parts(b),
    decreases b.len(),
{
    let ab = a + seq!['/'] + b;
    if b.len() == 0 {
        assert(ab.drop_last() =~= a);
        assert(split_parts(a).push(seq![]) =~= split_parts(a) + seq![seq![]]);
    } else {
        let b2 = b.drop_last();
        assert(ab.drop_last() =~= a + seq!['/'] + b2);
        lemma_split_concat(a, b2);
        lemma_split_parts_nonempty(b2);
        lemma_split_parts_nonempty(a);
        let pa = split_parts(a);
        let pb = split_parts(b2);
        if b.last() == '/' {
            assert((pa + pb).push(seq![]) =~= pa + pb.push(seq![]));
        } else {
            let p = pa + pb;
            assert(p.last() == pb.last());
            assert(p.update(p.len() - 1, p.last().push(b.last())) =~= pa + pb.update(
                pb.len() - 1,
                pb.last().push(b.last()),
            ));
        }
    }
}

/// The named parts of a joined path are those of the base followed by those
/// of the relative part.
proof fn lemma_named_parts_join(base: Seq<char>, rel: Seq<char>)
    requires
        base.len() > 0,
        !is_absolute(rel),
    ensures
        named_parts(join(base, rel)) == named_parts(base) + named_parts(rel),
{
    let keep = |p: Seq<char>| is_named_part(p);
    if base.last() == '/' {
        let b2 = base.drop_last();
        assert(base =~= b2 + seq!['/'] + Seq::<char>::empty());
        assert(join(base, rel) =~= b2 + seq!['/'] + rel);
        lemma_split_concat(b2, rel);
        lemma_split_concat(b2, Seq::<char>::empty());
        assert(split_parts(Seq::<char>::empty()) == seq![Seq::<char>::empty()]);
        Seq::filter_distributes_over_add(split_parts(b2), split_parts(rel), keep);
        Seq::filter_distributes_over_add(split_parts(b2), seq![Seq::<char>::empty()], keep);
        assert(seq![Seq::<char>::empty()] =~= Seq::<Seq<char>>::empty().push(Seq::<char>::empty()));
        Seq::<Seq<char>>::empty().lemma_filter_push(Seq::<char>::empty(), keep);
        assert(Seq::<Seq<char>>::empty().filter(keep) =~= Seq::<Seq<char>>::empty()) by {
            reveal(Seq::filter);
        }
        assert(named_parts(base) =~= split_parts(b2).filter(keep));
    } else {
        assert(join(base, rel) =~= base + seq!['/'] + rel);
        lemma_split_concat(base, rel);
        Seq::filter_distributes_over_add(split_parts(base), split_parts(rel), keep);
    }
}

/// Joining a relative path to an absolute base keeps the base's components and
/// appends the named parts of the relative path.
pub proof fn lemma_join_components(base: Seq<char>, rel: Seq<char>)
    requires
        is_absolute(base),
        !is_absolute(rel),
    ensures
        components(join(base, rel)) == components(base) + named_parts(rel),
{
    lemma_named_parts_join(base, rel);
    assert(is_absolute(join(base, rel)));
    assert(components(join(base, rel)) =~= seq!["/"@] + named_parts(join(base, rel)));
    assert(components(base) =~= seq!["/"@] + named_parts(base));
}

/// Whether `s` is absolute.
pub fn is_absolute_path(s: &str) -> (r: bool)
    ensures
        r == is_absolute(s@),
{
    let n = s.unicode_len();
    n > 0 && s.get_char(0) == '/'
}

/// `base.join(rel)`, written out.
pub fn path_join(base: &str, rel: &str) -> (r: String)
    ensures
        r@ == join(base@, rel@),
{
    if is_absolute_path(rel) {
        return rel.to_owned();
    }
    let n = base.unicode_len();
    let mut r = base.to_owned();
    if n > 0 && base.get_char(n - 1) != '/' {
        push_char(&mut r, '/');
    }
    r.append(rel);
    r
}

/// Equality of two character vectors.
pub fn chars_eq(a: &Vec<char>, b: &Vec<char>) -> (r: bool)
    ensures
        r == (a@ == b@),
{
    if a.len() != b.len() {
        return false;
    }
    let mut i: usize = 0;
    while i < a.len()
        invariant
            a.len() == b.len(),
            i <= a.len(),
            forall|k: int| 0 <= k < i ==> a@[k] == b@[k],
        decreases a.len() - i,
    {
        if a[i] != b[i] {
            return false;
        }
        i = i + 1;
    }
    assert(a@ =~= b@);
    true
}

/// Whether the components `base` begin the components `path`.
pub fn components_prefix(base: &Vec<Vec<char>>, path: &Vec<Vec<char>>) -> (r: bool)
    ensures
        r == is_prefix_of(views(base@), views(path@)),
{
    if base.len() > path.len() {
        return false;
    }
    let mut i: usize = 0;
    while i < base.len()
        invariant
            base.len() <= path.len(),
            i <= base.len(),
            forall|k: int| 0 <= k < i ==> views(base@)[k] == views(path@)[k],
        decreases base.len() - i,
    {
        if !chars_eq(&base[i], &path[i]) {
            assert(views(path@).subrange(0, base.len() as int)[i as int] != views(base@)[i as int]);
            return false;
        }
        i = i + 1;
    }
    assert(views(path@).subrange(0, base.len() as int) =~= views(base@));
    true
}

/// Whether `path` lies at or below `base`, component by component, as
/// `Path::starts_with` decides.
pub fn starts_with_path(path: &str, base: &str) -> (r: bool)
    ensures
        r == path_starts_with(path@, base@),
{
    let p = components_of(path);
    let b = components_of(base);
    components_prefix(&b, &p)
}

/// The number of components of `s`.
pub fn component_count(s: &str) -> (n: usize)
    ensures
        n == components(s@).len(),
{
    components_of(s).len()
}

fn is_literal(v: &Vec<char>, lit: &str) -> (r: bool)
    ensures
        r == (v@ == lit@),
{
    let l = chars_of(lit);
    chars_eq(v, &l)
}

/// The last component of `s` when it names something.
pub fn file_name_of(s: &str) -> (r: Option<String>)
    ensures
        r.deep_view() == file_name(s@),
{
    let c = components_of(s);
    if c.len() == 0 {
        return None;
    }
    let last = &c[c.len() - 1];
    if is_literal(last, "/") || is_literal(last, ".") || is_literal(last, "..") {
        return None;
    }
    Some(string_from_chars(last))
}

/// The components `c` written out as a path.
pub fn render_components(c: &Vec<Vec<char>>) -> (r: String)
    ensures
        r@ == render(views(c@)),
{
    let mut r = String::new();
    let mut k: usize = 0;
    let mut root_only = false;
    proof {
        reveal_strlit("/");
        assert("/"@.len() == 1);
        assert(r@.len() == 0);
        assert(r@ != "/"@);
        assert(views(c@).subrange(0, 0) =~= Seq::<Seq<char>>::empty());
    }
    while k < c.len()
        invariant
            k <= c.len(),
            r@ == render(views(c@).subrange(0, k as int)),
            root_only == (r@ == "/"@),
        decreases c.len() - k,
    {
        let ghost prev = views(c@).subrange(0, k as int);
        let ghost next = views(c@).subrange(0, k + 1);
        assert(next.drop_last() =~= prev);
        let part = string_from_chars(&c[k]);
        if k == 0 {
            r = part;
        } else {
            if !root_only {
                push_char(&mut r, '/');
            }
            r.append(part.as_str());
        }
        proof {
            reveal_strlit("/");
        }
        let rc = chars_of(r.as_str());
        root_only = is_literal(&rc, "/");
        k = k + 1;
    }
    assert(views(c@).subrange(0, c.len() as int) =~= views(c@));
    r
}

/// The path without its last component, as `Path::parent` gives it up to
/// separators (repeated `/` and `.` parts are written in normal form).
pub fn parent_of(s: &str) -> (r: Option<String>)
    ensures
        r.deep_view() == parent(s@),
{
    let mut c = components_of(s);
    if c.len() == 0 || is_literal(&c[c.len() - 1], "/") {
        return None;
    }
    let ghost all = c@;
    c.pop();
    assert(views(c@) =~= views(all).drop_last());
    Some(render_components(&c))
}

/// The extension of a file name (`Path::extension` applied to the name).
pub fn extension_of_name(name: &str) -> (r: Option<String>)
    ensures
        r.deep_view() == extension_of(name@),
{
    let chars = chars_of(name);
    let n = chars.len();
    let mut i = n;
    assert(chars@.subrange(0, n as int) =~= chars@);
    while i > 0 && chars[i - 1] != '.'
        invariant
            i <= n,
            n == chars@.len(),
            last_index_of(chars@, '.') == last_index_of(chars@.subrange(0, i as int), '.'),
        decreases i,
    {
        assert(chars@.subrange(0, i as int).drop_last() =~= chars@.subrange(0, i - 1));
        i = i - 1;
    }
    assert(chars@.subrange(0, n as int) =~= chars@);
    if i == 0 {
        assert(last_index_of(chars@.subrange(0, 0), '.') == -1);
        return None;
    }
    assert(last_index_of(chars@.subrange(0, i as int), '.') == i - 1);
    if i == 1 {
        return None;
    }
    Some(string_from_range(&chars, i, n))
}

} // verus!
