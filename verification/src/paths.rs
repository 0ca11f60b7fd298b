//! Unix paths held as strings: their `/`-separated segments, the final
//! segment, the parent, and rendering under a home directory as `~`.
//! Segments skip empty pieces (repeated or trailing slashes) and `.`, as the
//! components of a path do.
use vstd::prelude::*;
use vstd::string::*;

verus! {

/// `s` cut at every `/`: one piece more than there are slashes.
pub open spec fn split_slash(s: Seq<char>) -> Seq<Seq<char>>
    decreases s.len(),
{
    if s.len() == 0 {
        seq![Seq::empty()]
    } else {
        let r = split_slash(s.drop_last());
        if s.last() == '/' {
            r.push(Seq::empty())
        } else {
            r.update(r.len() - 1, r.last().push(s.last()))
        }
    }
}

/// A piece that names something: neither empty nor `.`.
pub open spec fn is_named(c: Seq<char>) -> bool {
    c.len() > 0 && c != seq!['.']
}

pub open spec fn named() -> spec_fn(Seq<char>) -> bool {
    |c: Seq<char>| is_named(c)
}

/// The named segments of `s`, in order.
pub open spec fn segments(s: Seq<char>) -> Seq<Seq<char>> {
    split_slash(s).filter(named())
}

/// `s` starts at the root.
pub open spec fn is_absolute(s: Seq<char>) -> bool {
    s.len() > 0 && s[0] == '/'
}

/// `/a/b/c` for segments `a`, `b`, `c`; empty for no segment.
pub open spec fn join_segments(segs: Seq<Seq<char>>) -> Seq<char>
    decreases segs.len(),
{
    if segs.len() == 0 {
        Seq::empty()
    } else {
        join_segments(segs.drop_last()) + seq!['/'] + segs.last()
    }
}

/// The final segment, unless it is `..` or there is none.
pub open spec fn file_name(s: Seq<char>) -> Option<Seq<char>> {
    let g = segments(s);
    if g.len() == 0 || g.last() == seq!['.', '.'] {
        None
    } else {
        Some(g.last())
    }
}

/// The parent of an absolute path: its segments but the last, from the root;
/// none for the root itself.
pub open spec fn parent_of(s: Seq<char>) -> Option<Seq<char>> {
    let g = segments(s);
    if g.len() == 0 {
        None
    } else if g.len() == 1 {
        Some(seq!['/'])
    } else {
        Some(join_segments(g.drop_last()))
    }
}

/// The pieces left after the first `n` named ones.
pub open spec fn drop_named(ps: Seq<Seq<char>>, n: nat) -> Seq<Seq<char>>
    decreases ps.len(),
{
    if n == 0 || ps.len() == 0 {
        ps
    } else if is_named(ps[0]) {
        drop_named(ps.drop_first(), (n - 1) as nat)
    } else {
        drop_named(ps.drop_first(), n)
    }
}

/// `ps` without its leading pieces that name nothing.
pub open spec fn trim_front(ps: Seq<Seq<char>>) -> Seq<Seq<char>>
    decreases ps.len(),
{
    if ps.len() > 0 && !is_named(ps[0]) {
        trim_front(ps.drop_first())
    } else {
        ps
    }
}

/// `ps` without its trailing pieces that name nothing.
pub open spec fn trim_back(ps: Seq<Seq<char>>) -> Seq<Seq<char>>
    decreases ps.len(),
{
    if ps.len() > 0 && !is_named(ps.last()) {
        trim_back(ps.drop_last())
    } else {
        ps
    }
}

/// The pieces put back together with a `/` between each two.
pub open spec fn join_pieces(ps: Seq<Seq<char>>) -> Seq<char>
    decreases ps.len(),
{
    if ps.len() == 0 {
        Seq::empty()
    } else if ps.len() == 1 {
        ps[0]
    } else {
        join_pieces(ps.drop_last()) + seq!['/'] + ps.last()
    }
}

/// What follows the first `n` segments of the absolute path `path`, as it is
/// written there, without the separators and `.` pieces at either end.
pub open spec fn rest_below(path: Seq<char>, n: nat) -> Seq<char> {
    join_pieces(trim_back(trim_front(drop_named(split_slash(path).drop_first(), n))))
}

/// `path` as the launcher shows it: `~` for the home directory itself,
/// `~/rest` for paths below it, the rest as `path` writes it, and `path`
/// unchanged otherwise, also when there is no home or it is not absolute (an
/// empty home would otherwise be a prefix of every path).
pub open spec fn tildify_spec(path: Seq<char>, home: Option<Seq<char>>) -> Seq<char> {
    match home {
        None => path,
        Some(h) => if is_absolute(h) && is_absolute(path) && segments(h).is_prefix_of(segments(path)) {
            let rest = rest_below(path, segments(h).len());
            if rest.len() == 0 {
                seq!['~']
            } else {
                seq!['~', '/'] + rest
            }
        } else {
            path
        },
    }
}

/// A relative path that starts with a `.` piece, which paths keep as a
/// component of their own.
pub open spec fn starts_with_cur_dir(s: Seq<char>) -> bool {
    s.len() >= 1 && s[0] == '.' && (s.len() == 1 || s[1] == '/')
}

/// Whether a path starts at the root, whether it starts with `.`, and its
/// named segments.
pub type PathId = (bool, bool, Seq<Seq<char>>);

/// What two paths are compared by: whether they start at the root, whether
/// they start with `.`, and their named segments. Repeated and trailing
/// slashes and inner `.` pieces make no difference.
pub open spec fn path_id(s: Seq<char>) -> PathId {
    (is_absolute(s), starts_with_cur_dir(s), segments(s))
}

pub open spec fn views(v: Seq<String>) -> Seq<Seq<char>> {
    v.map_values(|x: String| x@)
}

proof fn lemma_split_nonempty(s: Seq<char>)
    ensures
        split_slash(s).len() >= 1,
    decreases s.len(),
{
    if s.len() > 0 {
        lemma_split_nonempty(s.drop_last());
    }
}

proof fn lemma_named(p: Seq<char>)
    ensures
        is_named(p) == !(p.len() == 0 || (p.len() == 1 && p[0] == '.')),
{
    if p.len() == 1 && p[0] == '.' {
        assert(p =~= seq!['.']);
    } else if p.len() == 1 {
        assert(seq!['.'][0] == '.');
    }
}

fn str_is_absolute(s: &str) -> (r: bool)
    ensures
        r == is_absolute(s@),
{
    s.unicode_len() > 0 && s.get_char(0) == '/'
}

/// The named segments of `path`.
pub fn segments_of(path: &str) -> (r: Vec<String>)
    ensures
        views(r@) == segments(path@),
{
    let n = path.unicode_len();
    let ghost s = path@;
    let ghost mut done: Seq<Seq<char>> = Seq::empty();
    let mut out: Vec<String> = Vec::new();
    let mut start: usize = 0;
    let mut i: usize = 0;
    assert(s.take(0) =~= Seq::<char>::empty());
    assert(s.subrange(0, 0) =~= Seq::<char>::empty());
    while i < n
        invariant
            n == s.len(),
            s == path@,
            start <= i <= n,
            split_slash(s.take(i as int)) == done.push(s.subrange(start as int, i as int)),
            views(out@) == done.filter(named()),
        decreases n - i,
    {
        let c = path.get_char(i);
        assert(s.take(i as int + 1).drop_last() =~= s.take(i as int));
        assert(s.take(i as int + 1).last() == c);
        if c == '/' {
            let piece = path.substring_char(start, i);
            let ghost p = s.subrange(start as int, i as int);
            assert(piece@ == p);
            proof {
                done.lemma_filter_push(p, named());
            }
            let keep = !(i - start == 0 || (i - start == 1 && path.get_char(start) == '.'));
            proof {
                lemma_named(p);
            }
            if keep {
                let ghost before = out@;
                out.push(String::from_str(piece));
                assert(views(out@) =~= views(before).push(p));
            }
            proof {
                done = done.push(p);
            }
            start = i + 1;
            assert(s.subrange(start as int, i as int + 1) =~= Seq::<char>::empty());
        } else {
            assert(s.subrange(start as int, i as int + 1) =~= s.subrange(start as int, i as int).push(c));
        }
        i += 1;
    }
    assert(s.take(n as int) =~= s);
    let piece = path.substring_char(start, n);
    let ghost p = s.subrange(start as int, n as int);
    proof {
        done.lemma_filter_push(p, named());
    }
    let keep = !(n - start == 0 || (n - start == 1 && path.get_char(start) == '.'));
    proof {
        lemma_named(p);
    }
    if keep {
        let ghost before = out@;
        out.push(String::from_str(piece));
        assert(views(out@) =~= views(before).push(p));
    }
    out
}

/// The pieces of `path` between its slashes, empty ones and `.` included.
pub fn pieces_of(path: &str) -> (r: Vec<String>)
    ensures
        views(r@) == split_slash(path@),
{
    let n = path.unicode_len();
    let ghost s = path@;
    let mut out: Vec<String> = Vec::new();
    let mut start: usize = 0;
    let mut i: usize = 0;
    assert(s.take(0) =~= Seq::<char>::empty());
    assert(s.subrange(0, 0) =~= Seq::<char>::empty());
    assert(views(out@) =~= Seq::<Seq<char>>::empty());
    while i < n
        invariant
            n == s.len(),
            s == path@,
            start <= i <= n,
            split_slash(s.take(i as int)) == views(out@).push(s.subrange(start as int, i as int)),
        decreases n - i,
    {
        let c = path.get_char(i);
        assert(s.take(i as int + 1).drop_last() =~= s.take(i as int));
        assert(s.take(i as int + 1).last() == c);
        if c == '/' {
            let piece = path.substring_char(start, i);
            let ghost before = out@;
            out.push(String::from_str(piece));
            assert(views(out@) =~= views(before).push(s.subrange(start as int, i as int)));
            start = i + 1;
            assert(s.subrange(start as int, i as int + 1) =~= Seq::<char>::empty());
        } else {
            assert(s.subrange(start as int, i as int + 1) =~= s.subrange(start as int, i as int).push(c));
        }
        i += 1;
    }
    assert(s.take(n as int) =~= s);
    let piece = path.substring_char(start, n);
    let ghost before = out@;
    out.push(String::from_str(piece));
    assert(views(out@) =~= views(before).push(s.subrange(start as int, n as int)));
    out
}

/// Whether the piece `p` names something.
fn piece_named(p: &String) -> (r: bool)
    ensures
        r == is_named(p@),
{
    proof {
        lemma_named(p@);
    }
    let n = p.as_str().unicode_len();
    !(n == 0 || (n == 1 && p.as_str().get_char(0) == '.'))
}

/// A path taken apart into what paths are compared by.
pub struct PathKey {
    pub absolute: bool,
    pub cur_dir: bool,
    pub segs: Vec<String>,
}

impl PathKey {
    pub open spec fn id(&self) -> PathId {
        (self.absolute, self.cur_dir, views(self.segs@))
    }
}

/// `path` taken apart into what paths are compared by.
pub fn path_key(path: &str) -> (r: PathKey)
    ensures
        r.id() == path_id(path@),
{
    let n = path.unicode_len();
    let absolute = str_is_absolute(path);
    let cur_dir = n >= 1 && path.get_char(0) == '.' && (n == 1 || path.get_char(1) == '/');
    PathKey { absolute, cur_dir, segs: segments_of(path) }
}

/// Whether two taken-apart paths are the same path.
pub fn same_key(a: &PathKey, b: &PathKey) -> (r: bool)
    ensures
        r == (a.id() == b.id()),
{
    assert(views(a.segs@).len() == a.segs@.len() && views(b.segs@).len() == b.segs@.len());
    if a.absolute != b.absolute || a.cur_dir != b.cur_dir || a.segs.len() != b.segs.len() {
        return false;
    }
    let same = segments_prefix(&a.segs, &b.segs);
    proof {
        if same {
            assert(views(a.segs@) =~= views(b.segs@).subrange(0, a.segs@.len() as int));
            assert(views(b.segs@).subrange(0, a.segs@.len() as int) =~= views(b.segs@));
        }
    }
    same
}

/// `/seg` for every segment of `segs` from position `from` on.
pub fn join_from(segs: &Vec<String>, from: usize) -> (r: String)
    requires
        from <= segs@.len(),
    ensures
        r@ == join_segments(views(segs@).skip(from as int)),
{
    let mut r = String::new();
    let mut i = from;
    proof {
        reveal_strlit("/");
    }
    assert(views(segs@).subrange(from as int, from as int) =~= Seq::<Seq<char>>::empty());
    while i < segs.len()
        invariant
            from <= i <= segs@.len(),
            r@ == join_segments(views(segs@).subrange(from as int, i as int)),
        decreases segs@.len() - i,
    {
        let ghost before = r@;
        r.append("/");
        r.append(segs[i].as_str());
        proof {
            reveal_strlit("/");
            assert("/"@ =~= seq!['/']);
            let sub = views(segs@).subrange(from as int, i as int + 1);
            assert(sub.drop_last() =~= views(segs@).subrange(from as int, i as int));
            assert(sub.last() == segs@[i as int]@);
            assert(r@ =~= before + seq!['/'] + segs@[i as int]@);
        }
        i += 1;
    }
    assert(views(segs@).subrange(from as int, segs@.len() as int) =~= views(segs@).skip(from as int));
    r
}

/// Whether the segments `a` begin the segments `b`.
fn segments_prefix(a: &Vec<String>, b: &Vec<String>) -> (r: bool)
    ensures
        r == views(a@).is_prefix_of(views(b@)),
{
    if a.len() > b.len() {
        return false;
    }
    let mut i: usize = 0;
    while i < a.len()
        invariant
            a@.len() <= b@.len(),
            i <= a@.len(),
            forall|j: int| 0 <= j < i ==> a@[j]@ == b@[j]@,
        decreases a@.len() - i,
    {
        if a[i] != b[i] {
            assert(views(a@)[i as int] != views(b@).subrange(0, a@.len() as int)[i as int]);
            return false;
        }
        i += 1;
    }
    assert(views(a@) =~= views(b@).subrange(0, a@.len() as int));
    true
}

pub open spec fn opt_view(o: Option<&String>) -> Option<Seq<char>> {
    match o {
        Some(h) => Some(h@),
        None => None,
    }
}

/// What follows the first `n` named pieces of `ps` (its first piece left
/// out), as written, without the pieces that name nothing at either end.
fn rest_of(ps: &Vec<String>, n: usize) -> (r: String)
    requires
        ps@.len() >= 1,
    ensures
        r@ == join_pieces(trim_back(trim_front(drop_named(views(ps@).drop_first(), n as nat)))),
{
    let ghost v = views(ps@);
    let len = ps.len();
    let mut i: usize = 1;
    let mut c: usize = 0;
    assert(v.drop_first() =~= v.skip(1));
    while c < n && i < len
        invariant
            len == v.len(),
            v == views(ps@),
            1 <= i <= len,
            c <= n,
            drop_named(v.drop_first(), n as nat) == drop_named(v.skip(i as int), (n - c) as nat),
        decreases len - i,
    {
        assert(v.skip(i as int).drop_first() =~= v.skip(i as int + 1));
        assert(v.skip(i as int)[0] == ps@[i as int]@);
        if piece_named(&ps[i]) {
            c += 1;
        }
        i += 1;
    }
    let ghost d = v.skip(i as int);
    assert(drop_named(v.drop_first(), n as nat) == d) by {
        if c < n {
            assert(d.len() == 0);
        }
    }
    let mut a: usize = i;
    while a < len && !piece_named(&ps[a])
        invariant
            len == v.len(),
            v == views(ps@),
            i <= a <= len,
            trim_front(d) == trim_front(v.skip(a as int)),
        decreases len - a,
    {
        assert(v.skip(a as int).drop_first() =~= v.skip(a as int + 1));
        assert(v.skip(a as int)[0] == ps@[a as int]@);
        a += 1;
    }
    assert(trim_front(d) == v.skip(a as int)) by {
        if a < len {
            assert(v.skip(a as int)[0] == ps@[a as int]@);
        }
    }
    let mut b: usize = len;
    assert(v.skip(a as int) =~= v.subrange(a as int, len as int));
    while b > a && !piece_named(&ps[b - 1])
        invariant
            len == v.len(),
            v == views(ps@),
            a <= b <= len,
            trim_back(v.skip(a as int)) == trim_back(v.subrange(a as int, b as int)),
        decreases b,
    {
        assert(v.subrange(a as int, b as int).drop_last() =~= v.subrange(a as int, b as int - 1));
        assert(v.subrange(a as int, b as int).last() == ps@[b - 1]@);
        b -= 1;
    }
    assert(trim_back(v.skip(a as int)) == v.subrange(a as int, b as int)) by {
        if b > a {
            assert(v.subrange(a as int, b as int).last() == ps@[b - 1]@);
        }
    }
    let mut r = String::new();
    if a < b {
        r = ps[a].clone();
        let mut k: usize = a + 1;
        assert(v.subrange(a as int, k as int) =~= seq![v[a as int]]);
        while k < b
            invariant
                v == views(ps@),
                b <= len == v.len(),
                a < k <= b,
                r@ == join_pieces(v.subrange(a as int, k as int)),
            decreases b - k,
        {
            let ghost before = r@;
            proof {
                reveal_strlit("/");
            }
            r.append("/");
            r.append(ps[k].as_str());
            proof {
                let sub = v.subrange(a as int, k as int + 1);
                assert(sub.drop_last() =~= v.subrange(a as int, k as int));
                assert(sub.last() == ps@[k as int]@);
                assert("/"@ =~= seq!['/']);
                assert(r@ =~= before + seq!['/'] + ps@[k as int]@);
            }
            k += 1;
        }
    } else {
        assert(v.subrange(a as int, b as int).len() == 0);
    }
    r
}

/// `path` as the launcher shows it, `~` standing for `home`.
pub fn tildify(path: &String, home: Option<&String>) -> (r: String)
    ensures
        r@ == tildify_spec(path@, opt_view(home)),
{
    match home {
        None => path.clone(),
        Some(h) => {
            if !str_is_absolute(h.as_str()) || !str_is_absolute(path.as_str()) {
                return path.clone();
            }
            let hs = segments_of(h.as_str());
            let ps = segments_of(path.as_str());
            if !segments_prefix(&hs, &ps) {
                return path.clone();
            }
            let pieces = pieces_of(path.as_str());
            proof {
                lemma_split_nonempty(path@);
            }
            assert(views(hs@).len() == hs@.len());
            let rest = rest_of(&pieces, hs.len());
            proof {
                reveal_strlit("~");
                reveal_strlit("~/");
            }
            if rest.as_str().unicode_len() == 0 {
                String::from_str("~")
            } else {
                let mut r = String::from_str("~/");
                r.append(rest.as_str());
                assert("~/"@ =~= seq!['~', '/']);
                r
            }
        },
    }
}

/// The final segment of `path`, or the empty string when there is none.
pub fn file_name_or_empty(path: &String) -> (r: String)
    ensures
        r@ == match file_name(path@) {
            Some(n) => n,
            None => Seq::empty(),
        },
{
    let segs = segments_of(path.as_str());
    let n = segs.len();
    if n == 0 {
        return String::new();
    }
    proof {
        reveal_strlit("..");
    }
    let dots = String::from_str("..");
    if segs[n - 1] == dots {
        assert(views(segs@).last() == seq!['.', '.']) by {
            assert(seq!['.', '.'] =~= ".."@);
        }
        return String::new();
    }
    assert(views(segs@).last() != seq!['.', '.']) by {
        assert(seq!['.', '.'] =~= ".."@);
    }
    segs[n - 1].clone()
}

/// The parent directory of an absolute path; none for the root.
pub fn parent_dir(path: &String) -> (r: Option<String>)
    ensures
        match r {
            Some(p) => parent_of(path@) == Some(p@),
            None => parent_of(path@) is None,
        },
{
    let segs = segments_of(path.as_str());
    let n = segs.len();
    if n == 0 {
        None
    } else if n == 1 {
        proof {
            reveal_strlit("/");
        }
        Some(String::from_str("/"))
    } else {
        let mut front = segs;
        let ghost all = views(front@);
        front.pop();
        assert(views(front@) =~= all.drop_last());
        assert(views(front@).skip(0) =~= views(front@));
        Some(join_from(&front, 0))
    }
}

/// `rel` appended below `base`, with one `/` between them unless `base` is
/// empty or already ends with one.
pub open spec fn join_relative_spec(base: Seq<char>, rel: Seq<char>) -> Seq<char> {
    if base.len() == 0 || base.last() == '/' {
        base + rel
    } else {
        base + seq!['/'] + rel
    }
}

/// `base` joined with the relative path `rel`.
pub fn join_relative(base: &String, rel: &str) -> (r: String)
    ensures
        r@ == join_relative_spec(base@, rel@),
{
    let n = base.as_str().unicode_len();
    let mut r = base.clone();
    if n > 0 && base.as_str().get_char(n - 1) != '/' {
        proof {
            reveal_strlit("/");
        }
        r.append("/");
        assert("/"@ =~= seq!['/']);
    }
    r.append(rel);
    r
}

/// `c` holds no `/`.
pub open spec fn no_slash(c: Seq<char>) -> bool {
    forall|i: int| 0 <= i < c.len() ==> c[i] != '/'
}

proof fn lemma_split_pieces_no_slash(s: Seq<char>)
    ensures
        forall|i: int| 0 <= i < split_slash(s).len() ==> no_slash(#[trigger] split_slash(s)[i]),
    decreases s.len(),
{
    lemma_split_nonempty(s);
    if s.len() > 0 {
        lemma_split_pieces_no_slash(s.drop_last());
        lemma_split_nonempty(s.drop_last());
        let r = split_slash(s.drop_last());
        if s.last() != '/' {
            assert forall|i: int| 0 <= i < split_slash(s).len() implies no_slash(#[trigger] split_slash(s)[i]) by {
                if i == r.len() - 1 {
                    let c = r.last().push(s.last());
                    assert(split_slash(s)[i] == c);
                    assert forall|j: int| 0 <= j < c.len() implies c[j] != '/' by {
                        if j < c.len() - 1 {
                            assert(c[j] == r.last()[j]);
                        }
                    }
                }
            }
        }
    }
}

/// Every segment is named and holds no `/`.
pub proof fn lemma_segments_clean(s: Seq<char>)
    ensures
        forall|i: int|
            0 <= i < segments(s).len() ==> is_named(#[trigger] segments(s)[i]) && no_slash(segments(s)[i]),
{
    lemma_split_pieces_no_slash(s);
    let r = split_slash(s);
    assert forall|i: int| 0 <= i < segments(s).len() implies is_named(#[trigger] segments(s)[i]) && no_slash(
        segments(s)[i],
    ) by {
        r.lemma_filter_contains_rev(named(), segments(s)[i]);
        let j = choose|j: int| 0 <= j < r.len() && r[j] == segments(s)[i];
        assert(named()(segments(s)[i]));
    }
}

/// Cutting `a`, a slash and a slash-free `b` gives the pieces of `a` and then `b`.
proof fn lemma_split_append(a: Seq<char>, b: Seq<char>)
    requires
        no_slash(b),
    ensures
        split_slash(a + seq!['/'] + b) == split_slash(a).push(b),
    decreases b.len(),
{
    if b.len() == 0 {
        assert((a + seq!['/'] + b).drop_last() =~= a);
        assert(a + seq!['/'] + b =~= a + seq!['/']);
        assert(b =~= Seq::<char>::empty());
    } else {
        let b0 = b.drop_last();
        assert forall|i: int| 0 <= i < b0.len() implies b0[i] != '/' by {
            assert(b0[i] == b[i]);
        }
        lemma_split_append(a, b0);
        let t = a + seq!['/'] + b;
        assert(t.drop_last() =~= a + seq!['/'] + b0);
        assert(t.last() == b.last());
        assert(b0.push(b.last()) =~= b);
    }
}

/// The pieces of a joined path: an empty one (before the leading slash), then
/// the joined segments.
proof fn lemma_split_join(g: Seq<Seq<char>>)
    requires
        forall|i: int| 0 <= i < g.len() ==> no_slash(#[trigger] g[i]),
    ensures
        split_slash(join_segments(g)) == seq![Seq::<char>::empty()] + g,
    decreases g.len(),
{
    if g.len() == 0 {
        assert(seq![Seq::<char>::empty()] + g =~= seq![Seq::<char>::empty()]);
    } else {
        let g0 = g.drop_last();
        assert forall|i: int| 0 <= i < g0.len() implies no_slash(#[trigger] g0[i]) by {
            assert(g0[i] == g[i]);
        }
        lemma_split_join(g0);
        assert(no_slash(g[g.len() - 1]));
        lemma_split_append(join_segments(g0), g.last());
        assert(seq![Seq::<char>::empty()] + g0 + seq![g.last()] =~= seq![Seq::<char>::empty()] + g);
        assert((seq![Seq::<char>::empty()] + g0).push(g.last()) =~= seq![Seq::<char>::empty()] + g);
    }
}

proof fn lemma_filter_all_named(g: Seq<Seq<char>>)
    requires
        forall|i: int| 0 <= i < g.len() ==> is_named(#[trigger] g[i]),
    ensures
        g.filter(named()) == g,
    decreases g.len(),
{
    if g.len() == 0 {
        assert(g.filter(named()) =~= g);
    } else {
        let g0 = g.drop_last();
        assert forall|i: int| 0 <= i < g0.len() implies is_named(#[trigger] g0[i]) by {
            assert(g0[i] == g[i]);
        }
        lemma_filter_all_named(g0);
        g0.lemma_filter_push(g.last(), named());
        assert(g0.push(g.last()) =~= g);
        assert(is_named(g[g.len() - 1]));
    }
}

/// Joining clean segments and cutting the result again gives them back.
pub proof fn lemma_segments_of_join(g: Seq<Seq<char>>)
    requires
        forall|i: int| 0 <= i < g.len() ==> is_named(#[trigger] g[i]) && no_slash(g[i]),
    ensures
        segments(join_segments(g)) == g,
{
    lemma_split_join(g);
    lemma_filter_all_named(g);
    let e = seq![Seq::<char>::empty()];
    assert(!is_named(Seq::<char>::empty()));
    assert(e.filter(named()) =~= Seq::<Seq<char>>::empty()) by {
        Seq::<Seq<char>>::empty().lemma_filter_push(Seq::<char>::empty(), named());
        assert(Seq::<Seq<char>>::empty().push(Seq::<char>::empty()) =~= e);
        assert(Seq::<Seq<char>>::empty().filter(named()) =~= Seq::<Seq<char>>::empty());
    }
    Seq::filter_distributes_over_add(e, g, named());
    assert(Seq::<Seq<char>>::empty() + g =~= g);
}

/// The parent of a path has exactly its segments but the last: walking up
/// from a directory visits each ancestor once and ends at the root.
pub proof fn law_parent_drops_the_last_segment(s: Seq<char>)
    requires
        parent_of(s) is Some,
    ensures
        segments(parent_of(s)->0) == segments(s).drop_last(),
{
    let g = segments(s);
    lemma_segments_clean(s);
    if g.len() == 1 {
        proof_segments_of_root();
        assert(g.drop_last() =~= Seq::<Seq<char>>::empty());
    } else {
        let g0 = g.drop_last();
        assert forall|i: int| 0 <= i < g0.len() implies is_named(#[trigger] g0[i]) && no_slash(g0[i]) by {
            assert(g0[i] == g[i]);
        }
        lemma_segments_of_join(g0);
    }
}

/// The root has no segment.
proof fn proof_segments_of_root()
    ensures
        segments(seq!['/']) == Seq::<Seq<char>>::empty(),
{
    let root = seq!['/'];
    assert(root.drop_last() =~= Seq::<char>::empty());
    assert(root.len() == 1 && root.last() == '/');
    assert(split_slash(Seq::<char>::empty()) == seq![Seq::<char>::empty()]);
    assert(split_slash(root) == split_slash(root.drop_last()).push(Seq::<char>::empty()));
    let r = split_slash(root);
    assert(r =~= seq![Seq::<char>::empty(), Seq::<char>::empty()]);
    lemma_filter_none(r);
}

proof fn lemma_filter_none(g: Seq<Seq<char>>)
    requires
        forall|i: int| 0 <= i < g.len() ==> !is_named(#[trigger] g[i]),
    ensures
        g.filter(named()) == Seq::<Seq<char>>::empty(),
    decreases g.len(),
{
    if g.len() == 0 {
        assert(g.filter(named()) =~= Seq::<Seq<char>>::empty());
    } else {
        let g0 = g.drop_last();
        assert forall|i: int| 0 <= i < g0.len() implies !is_named(#[trigger] g0[i]) by {
            assert(g0[i] == g[i]);
        }
        lemma_filter_none(g0);
        g0.lemma_filter_push(g.last(), named());
        assert(g0.push(g.last()) =~= g);
        assert(!is_named(g[g.len() - 1]));
    }
}

/// Every piece of `ps` is free of `/`.
pub open spec fn all_no_slash(ps: Seq<Seq<char>>) -> bool {
    forall|i: int| 0 <= i < ps.len() ==> no_slash(#[trigger] ps[i])
}

/// The named pieces of `x` followed by those of `rest`.
proof fn lemma_filter_cons(ps: Seq<Seq<char>>)
    requires
        ps.len() > 0,
    ensures
        ps.filter(named()) == if is_named(ps[0]) {
            seq![ps[0]] + ps.drop_first().filter(named())
        } else {
            ps.drop_first().filter(named())
        },
{
    let head = seq![ps[0]];
    assert(ps =~= head + ps.drop_first());
    Seq::filter_distributes_over_add(head, ps.drop_first(), named());
    Seq::<Seq<char>>::empty().lemma_filter_push(ps[0], named());
    assert(Seq::<Seq<char>>::empty().push(ps[0]) =~= head);
    assert(Seq::<Seq<char>>::empty().filter(named()) =~= Seq::<Seq<char>>::empty());
    if is_named(ps[0]) {
        assert(head.filter(named()) =~= head);
    } else {
        assert(head.filter(named()) =~= Seq::<Seq<char>>::empty());
        assert(Seq::<Seq<char>>::empty() + ps.drop_first().filter(named()) =~= ps.drop_first().filter(named()));
    }
}

/// Leaving out the first `n` named pieces leaves out the first `n` segments.
proof fn lemma_drop_named_filter(ps: Seq<Seq<char>>, n: nat)
    requires
        n <= ps.filter(named()).len(),
    ensures
        drop_named(ps, n).filter(named()) == ps.filter(named()).skip(n as int),
        all_no_slash(ps) ==> all_no_slash(drop_named(ps, n)),
    decreases ps.len(),
{
    if n == 0 || ps.len() == 0 {
        assert(ps.filter(named()).skip(0) =~= ps.filter(named()));
    } else {
        lemma_filter_cons(ps);
        let t = ps.drop_first();
        if all_no_slash(ps) {
            assert forall|i: int| 0 <= i < t.len() implies no_slash(#[trigger] t[i]) by {
                assert(t[i] == ps[i + 1]);
            }
        }
        if is_named(ps[0]) {
            lemma_drop_named_filter(t, (n - 1) as nat);
            assert(ps.filter(named()).skip(n as int) =~= t.filter(named()).skip(n - 1));
        } else {
            lemma_drop_named_filter(t, n);
        }
    }
}

/// Trimming keeps the named pieces.
proof fn lemma_trim_filter(ps: Seq<Seq<char>>)
    ensures
        trim_front(ps).filter(named()) == ps.filter(named()),
        all_no_slash(ps) ==> all_no_slash(trim_front(ps)),
        trim_back(ps).filter(named()) == ps.filter(named()),
        all_no_slash(ps) ==> all_no_slash(trim_back(ps)),
    decreases ps.len(),
{
    if ps.len() > 0 {
        let t = ps.drop_first();
        let u = ps.drop_last();
        if all_no_slash(ps) {
            assert forall|i: int| 0 <= i < t.len() implies no_slash(#[trigger] t[i]) by {
                assert(t[i] == ps[i + 1]);
            }
            assert forall|i: int| 0 <= i < u.len() implies no_slash(#[trigger] u[i]) by {
                assert(u[i] == ps[i]);
            }
        }
        lemma_trim_filter(t);
        lemma_trim_filter(u);
        lemma_filter_cons(ps);
        u.lemma_filter_push(ps.last(), named());
        assert(u.push(ps.last()) =~= ps);
    }
}

/// A piece without `/` is cut into itself alone.
proof fn lemma_split_no_slash(c: Seq<char>)
    requires
        no_slash(c),
    ensures
        split_slash(c) == seq![c],
    decreases c.len(),
{
    if c.len() > 0 {
        let c0 = c.drop_last();
        assert forall|i: int| 0 <= i < c0.len() implies c0[i] != '/' by {
            assert(c0[i] == c[i]);
        }
        lemma_split_no_slash(c0);
        assert(c[c.len() - 1] != '/');
        assert(c0.push(c.last()) =~= c);
        assert(seq![c0].update(0, c0.push(c.last())) =~= seq![c]);
    } else {
        assert(c =~= Seq::<char>::empty());
    }
}

/// Joining pieces without `/` and cutting the result again gives them back.
proof fn lemma_split_join_pieces(ps: Seq<Seq<char>>)
    requires
        ps.len() >= 1,
        all_no_slash(ps),
    ensures
        split_slash(join_pieces(ps)) == ps,
    decreases ps.len(),
{
    if ps.len() == 1 {
        assert(no_slash(ps[0]));
        lemma_split_no_slash(ps[0]);
        assert(seq![ps[0]] =~= ps);
    } else {
        let u = ps.drop_last();
        assert forall|i: int| 0 <= i < u.len() implies no_slash(#[trigger] u[i]) by {
            assert(u[i] == ps[i]);
        }
        lemma_split_join_pieces(u);
        assert(no_slash(ps[ps.len() - 1]));
        lemma_split_append(join_pieces(u), ps.last());
        assert(u.push(ps.last()) =~= ps);
    }
}

/// An absolute path is cut into an empty piece before its first slash, and
/// more.
proof fn lemma_split_absolute(s: Seq<char>)
    requires
        is_absolute(s),
    ensures
        split_slash(s).len() >= 2,
        split_slash(s)[0] == Seq::<char>::empty(),
    decreases s.len(),
{
    if s.len() == 1 {
        assert(s.drop_last() =~= Seq::<char>::empty());
        assert(split_slash(s.drop_last()) == seq![Seq::<char>::empty()]);
    } else {
        let s0 = s.drop_last();
        assert(s0[0] == s[0]);
        lemma_split_absolute(s0);
    }
}

/// A path shortened under its home names the same place: the home's segments
/// followed by the segments of what follows the `~` are the path's segments.
pub proof fn law_tildify_keeps_the_location(path: Seq<char>, home: Seq<char>)
    requires
        is_absolute(home),
        is_absolute(path),
        segments(home).is_prefix_of(segments(path)),
    ensures
        tildify_spec(path, Some(home))[0] == '~',
        tildify_spec(path, Some(home)) == seq!['~'] ==> segments(home) == segments(path),
        tildify_spec(path, Some(home)) != seq!['~'] ==> tildify_spec(path, Some(home)) == seq!['~', '/']
            + rest_below(path, segments(home).len()) && segments(home) + segments(
            rest_below(path, segments(home).len()),
        ) == segments(path),
{
    let n = segments(home).len();
    let p = split_slash(path);
    lemma_split_absolute(path);
    lemma_split_pieces_no_slash(path);
    let q = p.drop_first();
    lemma_filter_cons(p);
    assert(!is_named(p[0]));
    assert(q.filter(named()) == segments(path));
    assert forall|i: int| 0 <= i < q.len() implies no_slash(#[trigger] q[i]) by {
        assert(q[i] == p[i + 1]);
    }
    lemma_drop_named_filter(q, n);
    let d = drop_named(q, n);
    lemma_trim_filter(d);
    let f = trim_front(d);
    lemma_trim_filter(f);
    let y = trim_back(f);
    assert(y.filter(named()) == segments(path).skip(n as int));
    let r = join_pieces(y);
    assert(segments(r) == y.filter(named())) by {
        if y.len() >= 1 {
            lemma_split_join_pieces(y);
        } else {
            assert(r == Seq::<char>::empty());
            assert(split_slash(r) == seq![Seq::<char>::empty()]);
            lemma_filter_none(seq![Seq::<char>::empty()]);
            assert(y =~= Seq::<Seq<char>>::empty());
            assert(y.filter(named()) =~= Seq::<Seq<char>>::empty());
        }
    }
    assert(segments(home) + segments(r) =~= segments(path));
    if r.len() == 0 {
        assert(r =~= Seq::<char>::empty());
        lemma_filter_none(seq![Seq::<char>::empty()]);
        assert(split_slash(r) == seq![Seq::<char>::empty()]);
        assert(segments(home) + segments(r) =~= segments(home));
    } else {
        assert((seq!['~', '/'] + r) != seq!['~']) by {
            assert((seq!['~', '/'] + r).len() != 1);
        }
    }
}

/// A path that is not below an absolute home is shown unchanged.
pub proof fn law_tildify_leaves_other_paths(path: Seq<char>, home: Option<Seq<char>>)
    requires
        !(home matches Some(h) && is_absolute(h) && is_absolute(path) && segments(h).is_prefix_of(segments(path))),
    ensures
        tildify_spec(path, home) == path,
{
}

/// Two paths are the same path exactly when both or neither start at the
/// root, both or neither start with `.`, and they have the same named
/// segments: paths that differ in any segment, not only in the last, are
/// different paths.
pub proof fn law_paths_are_compared_segment_by_segment(a: Seq<char>, b: Seq<char>)
    ensures
        path_id(a) == path_id(b) <==> (is_absolute(a) == is_absolute(b) && starts_with_cur_dir(a)
            == starts_with_cur_dir(b) && segments(a) == segments(b)),
        segments(a) != segments(b) ==> path_id(a) != path_id(b),
{
}

/// Every path with a segment has a parent, whose segments are its own but
/// the last; only a path without segments (the root) has none. So walking up
/// from a directory visits every ancestor, however deep it lies.
pub proof fn law_every_path_below_the_root_has_a_parent(s: Seq<char>)
    ensures
        segments(s).len() > 0 <==> parent_of(s) is Some,
        segments(s).len() > 0 ==> segments(parent_of(s)->0) == segments(s).drop_last(),
{
    if segments(s).len() > 0 {
        law_parent_drops_the_last_segment(s);
    }
}

/// The final name of a path is its last segment whenever it has one that is
/// not `..`, and there is none otherwise.
pub proof fn law_file_name_is_the_last_segment(s: Seq<char>)
    ensures
        segments(s).len() > 0 && segments(s).last() != seq!['.', '.'] ==> file_name(s) == Some(
            segments(s).last(),
        ),
        segments(s).len() == 0 || segments(s).last() == seq!['.', '.'] ==> file_name(s) is None,
{
}

/// Appending slash-free text extends the last piece.
proof fn lemma_split_extend(a: Seq<char>, b: Seq<char>)
    requires
        no_slash(b),
    ensures
        split_slash(a + b) == split_slash(a).update(split_slash(a).len() - 1, split_slash(a).last() + b),
    decreases b.len(),
{
    lemma_split_nonempty(a);
    let r = split_slash(a);
    if b.len() == 0 {
        assert(a + b =~= a);
        assert(r.last() + b =~= r.last());
        assert(r.update(r.len() - 1, r.last()) =~= r);
    } else {
        let b0 = b.drop_last();
        assert forall|i: int| 0 <= i < b0.len() implies b0[i] != '/' by {
            assert(b0[i] == b[i]);
        }
        lemma_split_extend(a, b0);
        assert((a + b).drop_last() =~= a + b0);
        assert((a + b).last() == b.last());
        assert(b[b.len() - 1] != '/');
        lemma_split_nonempty(a + b0);
        let q = split_slash(a + b0);
        assert(q.last() == r.last() + b0);
        assert(q.last().push(b.last()) =~= r.last() + b);
        assert(q.update(q.len() - 1, q.last().push(b.last())) =~= r.update(r.len() - 1, r.last() + b));
    }
}

/// A file joined below a directory lies in it: its segments are the
/// directory's followed by the file's name, and it starts at the root
/// exactly when a non-empty directory does.
pub proof fn law_join_relative_adds_one_segment(dir: Seq<char>, rel: Seq<char>)
    requires
        no_slash(rel),
        is_named(rel),
    ensures
        segments(join_relative_spec(dir, rel)) == segments(dir).push(rel),
        dir.len() > 0 ==> is_absolute(join_relative_spec(dir, rel)) == is_absolute(dir),
{
    let j = join_relative_spec(dir, rel);
    if dir.len() == 0 {
        assert(j =~= rel);
        lemma_split_no_slash(rel);
        Seq::<Seq<char>>::empty().lemma_filter_push(rel, named());
        assert(Seq::<Seq<char>>::empty().push(rel) =~= seq![rel]);
        assert(Seq::<Seq<char>>::empty().filter(named()) =~= Seq::<Seq<char>>::empty());
        assert(split_slash(dir) == seq![Seq::<char>::empty()]);
        lemma_filter_none(seq![Seq::<char>::empty()]);
        assert(Seq::<Seq<char>>::empty().push(rel) =~= seq![rel]);
    } else if dir.last() == '/' {
        let d0 = dir.drop_last();
        assert(d0.push('/') =~= dir);
        lemma_split_nonempty(d0);
        assert(split_slash(dir) == split_slash(d0).push(Seq::<char>::empty()));
        lemma_split_extend(dir, rel);
        assert(Seq::<char>::empty() + rel =~= rel);
        assert(split_slash(j) =~= split_slash(d0).push(rel));
        split_slash(d0).lemma_filter_push(rel, named());
        split_slash(d0).lemma_filter_push(Seq::<char>::empty(), named());
        assert(j[0] == dir[0]);
    } else {
        lemma_split_append(dir, rel);
        split_slash(dir).lemma_filter_push(rel, named());
        assert(j[0] == dir[0]);
    }
}

} // verus!
