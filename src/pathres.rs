//! Resolving a URL path into a path under the served root.
//!
//! A path is a sequence of components. The root is absolute; a resolved
//! path is accepted only when the root's components are a prefix of its own.
use vstd::prelude::*;

verus! {

broadcast use vstd::string::group_string_axioms;

/// A component that names an entry: not empty, not `.` or `..`, no `/`.
pub open spec fn is_plain_segment(seg: Seq<char>) -> bool {
    &&& seg.len() > 0
    &&& !(seg.len() == 1 && seg[0] == '.')
    &&& !(seg.len() == 2 && seg[0] == '.' && seg[1] == '.')
    &&& forall|i: int| 0 <= i < seg.len() ==> seg[i] != '/'
}

/// Every component of the path is plain.
pub open spec fn is_plain_path(p: Seq<Seq<char>>) -> bool {
    forall|i: int| 0 <= i < p.len() ==> is_plain_segment(#[trigger] p[i])
}

/// Applies one component to a stack of components: empty and `.` do
/// nothing, `..` goes up (staying put at the filesystem root), a name goes down.
pub open spec fn apply_segment(stack: Seq<Seq<char>>, seg: Seq<char>) -> Seq<Seq<char>> {
    if seg.len() == 0 || (seg.len() == 1 && seg[0] == '.') {
        stack
    } else if seg.len() == 2 && seg[0] == '.' && seg[1] == '.' {
        if stack.len() > 0 {
            stack.drop_last()
        } else {
            stack
        }
    } else {
        stack.push(seg)
    }
}

/// Walks the characters of `s` from `base`: the stack of components whose
/// separator has been seen, and the start of the component being read.
pub open spec fn walk(base: Seq<Seq<char>>, s: Seq<char>) -> (Seq<Seq<char>>, int)
    decreases s.len(),
{
    if s.len() == 0 {
        (base, 0)
    } else {
        let prev = walk(base, s.drop_last());
        if s.last() == '/' {
            (apply_segment(prev.0, s.subrange(prev.1, s.len() - 1)), s.len() as int)
        } else {
            prev
        }
    }
}

/// The path that `s` names when joined to `root`: a leading `/` starts at
/// the filesystem root instead, and `.` and `..` are applied in order.
pub open spec fn joined(root: Seq<Seq<char>>, s: Seq<char>) -> Seq<Seq<char>> {
    let base = if s.len() > 0 && s[0] == '/' { Seq::empty() } else { root };
    let w = walk(base, s);
    apply_segment(w.0, s.subrange(w.1, s.len() as int))
}

/// The resolved path, present only when it stays under `root`.
pub open spec fn resolve_spec(root: Seq<Seq<char>>, s: Seq<char>) -> Option<Seq<Seq<char>>> {
    let p = joined(root, s);
    if root.is_prefix_of(p) {
        Some(p)
    } else {
        None
    }
}

/// The components of `v`, as sequences of characters.
pub open spec fn segs(v: Seq<String>) -> Seq<Seq<char>> {
    v.map_values(|s: String| s@)
}

/// The path relative to the root's parent, used as a listing's breadcrumb:
/// the root's last component followed by what lies below the root.
pub open spec fn breadcrumb_spec(root: Seq<Seq<char>>, p: Seq<Seq<char>>) -> Seq<Seq<char>> {
    if root.len() > 0 {
        p.subrange(root.len() - 1, p.len() as int)
    } else {
        p
    }
}

/// Components joined by `/`.
pub open spec fn join_slash(p: Seq<Seq<char>>) -> Seq<char>
    decreases p.len(),
{
    if p.len() == 0 {
        Seq::empty()
    } else if p.len() == 1 {
        p[0]
    } else {
        join_slash(p.drop_last()) + seq!['/'] + p.last()
    }
}

/// The value of an ASCII hexadecimal digit, either case.
pub open spec fn hex_value(b: u8) -> Option<int> {
    if 0x30 <= b <= 0x39 {
        Some(b - 0x30)
    } else if 0x61 <= b <= 0x66 {
        Some(b - 0x61 + 10)
    } else if 0x41 <= b <= 0x46 {
        Some(b - 0x41 + 10)
    } else {
        None
    }
}

/// The bytes with each `%` followed by two hexadecimal digits replaced by
/// the byte they spell; every other byte, a lone `%` included, is kept.
pub open spec fn percent_bytes(b: Seq<u8>) -> Seq<u8>
    decreases b.len(),
{
    if b.len() == 0 {
        Seq::empty()
    } else if b[0] == 0x25 && b.len() >= 3 && hex_value(b[1]) is Some && hex_value(b[2]) is Some {
        seq![(hex_value(b[1])->0 * 16 + hex_value(b[2])->0) as u8] + percent_bytes(b.subrange(3, b.len() as int))
    } else {
        seq![b[0]] + percent_bytes(b.drop_first())
    }
}

/// The percent-decoded form of a URL path, when the decoded bytes are valid
/// UTF-8.
pub open spec fn percent_decoded(s: Seq<char>) -> Option<Seq<char>> {
    let b = percent_bytes(vstd::utf8::encode_utf8(s));
    if vstd::utf8::valid_utf8(b) {
        Some(vstd::utf8::decode_utf8(b))
    } else {
        None
    }
}

/// Relies on `percent_encoding::percent_decode` and `decode_utf8`: the
/// bytes of `s` with each `%XX` escape decoded (a `%` not followed by two
/// hexadecimal digits is kept), read back as UTF-8.
#[verifier::external_body]
fn percent_decode_utf8(s: &str) -> (r: Option<String>)
    ensures
        r.is_some() == percent_decoded(s@).is_some(),
        r.is_some() ==> r.unwrap()@ == percent_decoded(s@).unwrap(),
{
    match percent_encoding::percent_decode(s.as_bytes()).decode_utf8() {
        Ok(v) => Some(v.into_owned()),
        Err(_) => None,
    }
}

fn is_dot(s: &str) -> (r: bool)
    ensures
        r == (s@.len() == 1 && s@[0] == '.'),
{
    s.unicode_len() == 1 && s.get_char(0) == '.'
}

fn is_dot_dot(s: &str) -> (r: bool)
    ensures
        r == (s@.len() == 2 && s@[0] == '.' && s@[1] == '.'),
{
    s.unicode_len() == 2 && s.get_char(0) == '.' && s.get_char(1) == '.'
}

/// Applies the component `s@[from..to]` to `stack`.
fn push_segment(stack: &mut Vec<String>, s: &str, from: usize, to: usize)
    requires
        from <= to <= s@.len(),
    ensures
        segs(final(stack)@) == apply_segment(segs(old(stack)@), s@.subrange(from as int, to as int)),
{
    let seg = s.substring_char(from, to);
    if seg.unicode_len() == 0 || is_dot(seg) {
    } else if is_dot_dot(seg) {
        if stack.len() > 0 {
            stack.pop();
            assert(segs(final(stack)@) =~= segs(old(stack)@).drop_last());
        }
    } else {
        stack.push(seg.to_owned());
        assert(segs(final(stack)@) =~= segs(old(stack)@).push(seg@));
    }
}

fn copy_path(v: &Vec<String>) -> (r: Vec<String>)
    ensures
        segs(r@) == segs(v@),
{
    let mut r: Vec<String> = Vec::new();
    let mut i: usize = 0;
    while i < v.len()
        invariant
            i <= v.len(),
            r@.len() == i,
            forall|j: int| 0 <= j < i ==> r@[j]@ == v@[j]@,
        decreases v.len() - i,
    {
        let c = v[i].clone();
        r.push(c);
        i = i + 1;
    }
    assert(segs(r@) =~= segs(v@));
    r
}

/// Whether `p` lies under `root`: the root's components are a prefix of its own.
pub fn is_within(root: &Vec<String>, p: &Vec<String>) -> (r: bool)
    ensures
        r == segs(root@).is_prefix_of(segs(p@)),
{
    if root.len() > p.len() {
        return false;
    }
    let mut i: usize = 0;
    while i < root.len()
        invariant
            i <= root.len() <= p.len(),
            forall|j: int| 0 <= j < i ==> root@[j]@ == p@[j]@,
        decreases root.len() - i,
    {
        if !(root[i] == p[i]) {
            assert(segs(root@)[i as int] != segs(p@).subrange(0, root@.len() as int)[i as int]);
            return false;
        }
        i = i + 1;
    }
    assert(segs(root@) =~= segs(p@).subrange(0, root@.len() as int));
    true
}

/// Joins a decoded path to `root`, applying `.` and `..` in order; a leading
/// `/` starts at the filesystem root instead.
pub fn join_lexical(root: &Vec<String>, decoded: &str) -> (r: Vec<String>)
    ensures
        segs(r@) == joined(segs(root@), decoded@),
{
    let n = decoded.unicode_len();
    let mut stack: Vec<String> = if n > 0 && decoded.get_char(0) == '/' {
        Vec::new()
    } else {
        copy_path(root)
    };
    let ghost base = segs(stack@);
    assert(base =~= (if decoded@.len() > 0 && decoded@[0] == '/' {
        Seq::<Seq<char>>::empty()
    } else {
        segs(root@)
    }));
    assert(decoded@.subrange(0, 0) =~= Seq::<char>::empty());
    let mut start: usize = 0;
    let mut i: usize = 0;
    while i < n
        invariant
            n == decoded@.len(),
            start <= i <= n,
            walk(base, decoded@.subrange(0, i as int)) == (segs(stack@), start as int),
        decreases n - i,
    {
        let ghost pre = decoded@.subrange(0, i as int);
        let ghost cur = decoded@.subrange(0, i + 1);
        assert(cur.drop_last() =~= pre);
        assert(cur.last() == decoded@[i as int]);
        if decoded.get_char(i) == '/' {
            assert(cur.subrange(start as int, cur.len() - 1) =~= decoded@.subrange(start as int, i as int));
            push_segment(&mut stack, decoded, start, i);
            start = i + 1;
        }
        i = i + 1;
    }
    assert(decoded@.subrange(0, n as int) =~= decoded@);
    push_segment(&mut stack, decoded, start, n);
    stack
}

/// Joins an already decoded path to `root` and keeps it only when it stays
/// under `root`.
pub fn resolve(root: &Vec<String>, decoded: &str) -> (r: Option<Vec<String>>)
    ensures
        r.is_some() == resolve_spec(segs(root@), decoded@).is_some(),
        r.is_some() ==> segs(r.unwrap()@) == resolve_spec(segs(root@), decoded@).unwrap(),
{
    let p = join_lexical(root, decoded);
    if is_within(root, &p) {
        Some(p)
    } else {
        None
    }
}

/// Resolves the path of a request target (which starts with `/`) under
/// `root`: `None` when it is not valid percent-encoded UTF-8 or when it
/// would leave the root.
pub fn extract_path(root: &Vec<String>, path: &str) -> (r: Option<Vec<String>>)
    ensures
        ({
            let rest = if path@.len() > 0 { path@.drop_first() } else { path@ };
            match percent_decoded(rest) {
                None => r.is_none(),
                Some(d) => r.is_some() == resolve_spec(segs(root@), d).is_some()
                    && (r.is_some() ==> segs(r.unwrap()@) == resolve_spec(segs(root@), d).unwrap()),
            }
        }),
{
    let n = path.unicode_len();
    let rest = if n > 0 { path.substring_char(1, n) } else { path };
    proof {
        if n > 0 {
            assert(path@.subrange(1, n as int) =~= path@.drop_first());
        }
    }
    match percent_decode_utf8(rest) {
        None => None,
        Some(d) => resolve(root, d.as_str()),
    }
}

/// Joins components with `/`, as a listing shows a path.
pub fn normalize_path(parts: &Vec<String>) -> (r: String)
    ensures
        r@ == join_slash(segs(parts@)),
{
    let mut r = String::new();
    let mut i: usize = 0;
    while i < parts.len()
        invariant
            i <= parts.len(),
            r@ == join_slash(segs(parts@).subrange(0, i as int)),
        decreases parts.len() - i,
    {
        let ghost pre = segs(parts@).subrange(0, i as int);
        let ghost cur = segs(parts@).subrange(0, i + 1);
        assert(cur.drop_last() =~= pre);
        if i > 0 {
            proof {
                reveal_strlit("/");
            }
            r.append("/");
        } else {
            assert(pre =~= Seq::<Seq<char>>::empty());
        }
        r.append(parts[i].as_str());
        proof {
            if i > 0 {
                assert(r@ =~= join_slash(pre) + seq!['/'] + cur.last());
            } else {
                assert(r@ =~= cur[0]);
            }
        }
        i = i + 1;
    }
    assert(segs(parts@).subrange(0, parts@.len() as int) =~= segs(parts@));
    r
}

/// The display path of a listed directory, relative to the root's parent.
pub fn breadcrumb(root: &Vec<String>, path: &Vec<String>) -> (r: String)
    requires
        root@.len() <= path@.len(),
    ensures
        r@ == join_slash(breadcrumb_spec(segs(root@), segs(path@))),
{
    let from: usize = if root.len() > 0 { root.len() - 1 } else { 0 };
    let mut tail: Vec<String> = Vec::new();
    let mut i: usize = from;
    while i < path.len()
        invariant
            from <= i <= path.len(),
            tail@.len() == i - from,
            forall|j: int| 0 <= j < tail@.len() ==> tail@[j]@ == path@[from + j]@,
        decreases path.len() - i,
    {
        tail.push(path[i].clone());
        i = i + 1;
    }
    assert(segs(tail@) =~= breadcrumb_spec(segs(root@), segs(path@)));
    normalize_path(&tail)
}

proof fn lemma_apply_plain(stack: Seq<Seq<char>>, seg: Seq<char>)
    requires
        is_plain_path(stack),
        forall|i: int| 0 <= i < seg.len() ==> seg[i] != '/',
    ensures
        is_plain_path(apply_segment(stack, seg)),
{
    let r = apply_segment(stack, seg);
    assert forall|i: int| 0 <= i < r.len() implies is_plain_segment(#[trigger] r[i]) by {
        if i < stack.len() {
            assert(r[i] == stack[i]);
        }
    }
}

proof fn lemma_walk_plain(base: Seq<Seq<char>>, s: Seq<char>)
    requires
        is_plain_path(base),
    ensures
        is_plain_path(walk(base, s).0),
        0 <= walk(base, s).1 <= s.len(),
        forall|i: int| walk(base, s).1 <= i < s.len() ==> s[i] != '/',
    decreases s.len(),
{
    if s.len() > 0 {
        let pre = s.drop_last();
        lemma_walk_plain(base, pre);
        let w = walk(base, pre);
        if s.last() == '/' {
            let seg = s.subrange(w.1, s.len() - 1);
            assert forall|i: int| 0 <= i < seg.len() implies seg[i] != '/' by {
                assert(seg[i] == pre[w.1 + i]);
            }
            lemma_apply_plain(w.0, seg);
        } else {
            assert forall|i: int| w.1 <= i < s.len() implies s[i] != '/' by {
                if i < s.len() - 1 {
                    assert(s[i] == pre[i]);
                }
            }
        }
    }
}

/// Whatever the requested path holds (`..` components, a leading `/`,
/// repeated or trailing separators), a path that resolution accepts lies
/// under the root, and below the root it holds only plain names.
pub proof fn lemma_resolved_within_root(root: Seq<Seq<char>>, s: Seq<char>)
    requires
        is_plain_path(root),
    ensures
        resolve_spec(root, s) matches Some(p) ==> root.is_prefix_of(p) && is_plain_path(p),
{
    let base = if s.len() > 0 && s[0] == '/' { Seq::empty() } else { root };
    lemma_walk_plain(base, s);
    let w = walk(base, s);
    let seg = s.subrange(w.1, s.len() as int);
    assert forall|i: int| 0 <= i < seg.len() implies seg[i] != '/' by {
        assert(seg[i] == s[w.1 + i]);
    }
    lemma_apply_plain(w.0, seg);
}

proof fn lemma_walk_no_slash(base: Seq<Seq<char>>, p: Seq<char>, l: Seq<char>)
    requires
        forall|i: int| 0 <= i < l.len() ==> l[i] != '/',
    ensures
        walk(base, p + l) == walk(base, p),
    decreases l.len(),
{
    if l.len() > 0 {
        let pl = p + l;
        assert(pl.drop_last() =~= p + l.drop_last());
        assert(pl.last() == l.last());
        lemma_walk_no_slash(base, p, l.drop_last());
    } else {
        assert(p + l =~= p);
    }
}

proof fn lemma_join_first(names: Seq<Seq<char>>)
    requires
        names.len() > 0,
        is_plain_path(names),
    ensures
        join_slash(names).len() >= names[0].len() > 0,
        join_slash(names)[0] == names[0][0],
    decreases names.len(),
{
    assert(is_plain_segment(names[0]));
    if names.len() > 1 {
        let pre = names.drop_last();
        assert(is_plain_segment(names[names.len() - 1]));
        assert forall|i: int| 0 <= i < pre.len() implies is_plain_segment(#[trigger] pre[i]) by {
            assert(pre[i] == names[i]);
        }
        lemma_join_first(pre);
    }
}

proof fn lemma_join_walk(root: Seq<Seq<char>>, names: Seq<Seq<char>>)
    requires
        names.len() > 0,
        is_plain_path(names),
    ensures
        walk(root, join_slash(names)).0 == root + names.drop_last(),
        0 <= walk(root, join_slash(names)).1 <= join_slash(names).len(),
        join_slash(names).subrange(walk(root, join_slash(names)).1, join_slash(names).len() as int)
            == names.last(),
    decreases names.len(),
{
    let l = names.last();
    assert(is_plain_segment(names[names.len() - 1]));
    if names.len() == 1 {
        lemma_walk_no_slash(root, Seq::empty(), l);
        assert(Seq::<char>::empty() + l =~= l);
        assert(root + names.drop_last() =~= root);
        assert(l.subrange(0, l.len() as int) =~= l);
    } else {
        let pre = names.drop_last();
        assert forall|i: int| 0 <= i < pre.len() implies is_plain_segment(#[trigger] pre[i]) by {
            assert(pre[i] == names[i]);
        }
        lemma_join_walk(root, pre);
        let x = join_slash(pre);
        let xs = x + seq!['/'];
        let s = join_slash(names);
        assert(s == xs + l);
        lemma_walk_no_slash(root, xs, l);
        assert(xs.drop_last() =~= x);
        let wx = walk(root, x);
        assert(xs.subrange(wx.1, xs.len() - 1) =~= x.subrange(wx.1, x.len() as int));
        assert(is_plain_segment(pre.last()));
        assert(root + pre.drop_last().push(pre.last()) =~= root + names.drop_last()) by {
            assert(pre.drop_last().push(pre.last()) =~= pre);
        }
        assert(s.subrange(xs.len() as int, s.len() as int) =~= l);
    }
}

/// A requested path of plain names separated by `/`, with no leading `/`
/// and no `.` or `..`, is always accepted, and names the root followed by
/// those names.
pub proof fn lemma_plain_names_accepted(root: Seq<Seq<char>>, names: Seq<Seq<char>>)
    requires
        names.len() > 0,
        is_plain_path(names),
    ensures
        resolve_spec(root, join_slash(names)) == Some(root + names),
{
    lemma_join_walk(root, names);
    lemma_join_first(names);
    assert(is_plain_segment(names[0]));
    assert(is_plain_segment(names[names.len() - 1]));
    assert(root + names.drop_last().push(names.last()) =~= root + names) by {
        assert(names.drop_last().push(names.last()) =~= names);
    }
    assert((root + names).subrange(0, root.len() as int) =~= root);
}

} // verus!
