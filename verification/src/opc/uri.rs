//! Part names (absolute URIs inside the package) and the resolution of relationship
//! targets relative to a base URI.
use vstd::prelude::*;
use crate::error::PptxError;
use crate::text::{str_to_chars, string_push};

verus! {

/// A path segment: the characters between two slashes.
pub type Segment = Seq<char>;

/// One step of path normalization: `..` drops the last segment, `.` and empty
/// segments are skipped, anything else is appended.
pub open spec fn step(stack: Seq<Segment>, seg: Segment) -> Seq<Segment> {
    if seg == seq!['.', '.'] {
        if stack.len() > 0 { stack.drop_last() } else { stack }
    } else if seg.len() == 0 || seg == seq!['.'] {
        stack
    } else {
        stack.push(seg)
    }
}

/// Normalization of the path `rest` on top of the segments `stack`, with `cur` the
/// segment read so far: the path is split at `/` and each segment applied by `step`.
pub open spec fn walk(stack: Seq<Segment>, cur: Segment, rest: Seq<char>) -> Seq<Segment>
    decreases rest.len(),
{
    if rest.len() == 0 {
        step(stack, cur)
    } else if rest[0] == '/' {
        walk(step(stack, cur), Seq::empty(), rest.drop_first())
    } else {
        walk(stack, cur.push(rest[0]), rest.drop_first())
    }
}

/// The normalized segments of a path.
pub open spec fn segments(p: Seq<char>) -> Seq<Segment> {
    walk(Seq::empty(), Seq::empty(), p)
}

/// Segments joined with a `/` in front of each.
pub open spec fn join_slashed(segs: Seq<Segment>) -> Seq<char>
    decreases segs.len(),
{
    if segs.len() == 0 {
        Seq::empty()
    } else {
        join_slashed(segs.drop_last()) + seq!['/'] + segs.last()
    }
}

/// The absolute path of a list of segments (`/` for none).
pub open spec fn join_abs(segs: Seq<Segment>) -> Seq<char> {
    if segs.len() == 0 { seq!['/'] } else { join_slashed(segs) }
}

/// Segments joined by `/`, without a leading slash.
pub open spec fn join_rel(segs: Seq<Segment>) -> Seq<char> {
    if segs.len() == 0 { Seq::empty() } else { join_slashed(segs).drop_first() }
}

/// Whether a path starts with `/`.
pub open spec fn is_absolute(p: Seq<char>) -> bool {
    p.len() > 0 && p[0] == '/'
}

/// The part name that a relationship target `target` denotes relative to `base`:
/// an absolute target is only normalized; a relative one is normalized on top of the base.
pub open spec fn resolve(base: Seq<char>, target: Seq<char>) -> Seq<char> {
    if is_absolute(target) {
        join_abs(segments(target))
    } else {
        join_abs(walk(segments(base), Seq::empty(), target))
    }
}

/// The directory of a part name: everything before the last `/`, or `/` when that is the first character.
pub open spec fn base_uri_spec(p: Seq<char>) -> Seq<char>
    decreases p.len(),
{
    if p.len() == 0 {
        seq!['/']
    } else if p.last() == '/' {
        if p.len() == 1 { seq!['/'] } else { p.drop_last() }
    } else {
        base_uri_spec(p.drop_last())
    }
}

/// Number of leading segments that two lists share.
pub open spec fn common_len(a: Seq<Segment>, b: Seq<Segment>, i: nat) -> nat
    decreases a.len() - i,
{
    if i < a.len() && i < b.len() && a[i as int] == b[i as int] {
        common_len(a, b, i + 1)
    } else {
        i
    }
}

/// `n` copies of the `..` segment.
pub open spec fn dots(n: nat) -> Seq<Segment>
    decreases n,
{
    if n == 0 { Seq::empty() } else { dots((n - 1) as nat).push(seq!['.', '.']) }
}

/// The relative reference from the directory `base` to the part `p`: up to the common
/// ancestor with `..`, then down to `p`.
pub open spec fn relative_ref_spec(p: Seq<char>, base: Seq<char>) -> Seq<char> {
    let ps = segments(p);
    let bs = segments(base);
    let k = common_len(ps, bs, 0);
    join_rel(dots((bs.len() - k) as nat) + ps.subrange(k as int, ps.len() as int))
}

/// A segment that normalization keeps as it is: not empty, not `.`, not `..`, no `/`.
pub open spec fn plain_segment(s: Segment) -> bool {
    &&& s.len() > 0
    &&& s != seq!['.']
    &&& s != seq!['.', '.']
    &&& no_slash(s)
}

/// A segment without `/`.
pub open spec fn no_slash(s: Segment) -> bool {
    forall|i: int| 0 <= i < s.len() ==> s[i] != '/'
}

/// A part name in normal form: absolute, and equal to the join of its own segments, so no
/// empty, `.` or `..` segments and no trailing slash.
pub open spec fn canonical(p: Seq<char>) -> bool {
    &&& is_absolute(p)
    &&& join_abs(segments(p)) == p
    &&& forall|i: int| 0 <= i < segments(p).len() ==> plain_segment(#[trigger] segments(p)[i])
}

// ---------------------------------------------------------------------------
// Lemmas

proof fn lemma_walk_plain(stack: Seq<Segment>, cur: Segment, seg: Segment, tail: Seq<char>)
    requires
        no_slash(seg),
    ensures
        walk(stack, cur, seg + tail) == walk(stack, cur + seg, tail),
    decreases seg.len(),
{
    if seg.len() > 0 {
        let s = seg + tail;
        assert(s[0] == seg[0]);
        assert(s.drop_first() == seg.drop_first() + tail);
        lemma_walk_plain(stack, cur.push(seg[0]), seg.drop_first(), tail);
        assert(cur.push(seg[0]) + seg.drop_first() == cur + seg);
    } else {
        assert(seg + tail == tail);
        assert(cur + seg == cur);
    }
}

/// Applying `step` for each segment of a list, in order.
pub open spec fn fold_steps(stack: Seq<Segment>, segs: Seq<Segment>) -> Seq<Segment>
    decreases segs.len(),
{
    if segs.len() == 0 {
        stack
    } else {
        fold_steps(step(stack, segs[0]), segs.drop_first())
    }
}

proof fn lemma_join_slashed_front(segs: Seq<Segment>)
    requires
        segs.len() > 0,
    ensures
        join_slashed(segs) == seq!['/'] + segs[0] + join_slashed(segs.drop_first()),
    decreases segs.len(),
{
    if segs.len() == 1 {
        assert(segs.drop_last().len() == 0);
        assert(segs.drop_first().len() == 0);
        assert(segs.drop_last() =~= Seq::<Segment>::empty());
        assert(segs.last() == segs[0]);
        assert(join_slashed(segs.drop_last()) == Seq::<char>::empty());
        assert(join_slashed(segs) == Seq::<char>::empty() + seq!['/'] + segs[0]);
        assert(join_slashed(segs) =~= seq!['/'] + segs[0] + join_slashed(segs.drop_first()));
    } else {
        lemma_join_slashed_front(segs.drop_last());
        assert(segs.drop_last()[0] == segs[0]);
        assert(segs.drop_last().drop_first() == segs.drop_first().drop_last());
        assert(segs.drop_first().last() == segs.last());
        assert(join_slashed(segs) =~= seq!['/'] + segs[0] + join_slashed(segs.drop_first()));
    }
}

/// Walking over `/`-joined segments applies `step` for each of them after the current one.
proof fn lemma_walk_slashed(stack: Seq<Segment>, cur: Segment, segs: Seq<Segment>)
    requires
        forall|i: int| 0 <= i < segs.len() ==> no_slash(#[trigger] segs[i]),
    ensures
        walk(stack, cur, join_slashed(segs)) == fold_steps(step(stack, cur), segs),
    decreases segs.len(),
{
    if segs.len() == 0 {
        assert(walk(stack, cur, Seq::empty()) == step(stack, cur));
    } else {
        lemma_join_slashed_front(segs);
        let rest = join_slashed(segs.drop_first());
        let s = seq!['/'] + segs[0] + rest;
        assert(s[0] == '/');
        assert(s.drop_first() == segs[0] + rest);
        lemma_walk_plain(step(stack, cur), Seq::empty(), segs[0], rest);
        assert(Seq::<char>::empty() + segs[0] == segs[0]);
        lemma_walk_slashed(step(stack, cur), segs[0], segs.drop_first());
        assert forall|i: int| 0 <= i < segs.drop_first().len() implies no_slash(#[trigger] segs.drop_first()[i]) by {
            assert(segs.drop_first()[i] == segs[i + 1]);
        }
    }
}

proof fn lemma_walk_rel(stack: Seq<Segment>, segs: Seq<Segment>)
    requires
        forall|i: int| 0 <= i < segs.len() ==> no_slash(#[trigger] segs[i]),
    ensures
        walk(stack, Seq::empty(), join_rel(segs)) == fold_steps(stack, segs),
{
    if segs.len() == 0 {
        assert(walk(stack, Seq::empty(), Seq::empty()) == step(stack, Seq::empty()));
    } else {
        lemma_join_slashed_front(segs);
        let rest = join_slashed(segs.drop_first());
        assert(join_rel(segs) == segs[0] + rest);
        lemma_walk_plain(stack, Seq::empty(), segs[0], rest);
        assert(Seq::<char>::empty() + segs[0] == segs[0]);
        lemma_walk_slashed(stack, segs[0], segs.drop_first());
        assert forall|i: int| 0 <= i < segs.drop_first().len() implies no_slash(#[trigger] segs.drop_first()[i]) by {
            assert(segs.drop_first()[i] == segs[i + 1]);
        }
        assert(step(Seq::empty(), Seq::empty()) == Seq::<Segment>::empty());
        assert(fold_steps(stack, segs) == fold_steps(step(stack, segs[0]), segs.drop_first()));
    }
}

proof fn lemma_fold_append(stack: Seq<Segment>, a: Seq<Segment>, b: Seq<Segment>)
    ensures
        fold_steps(stack, a + b) == fold_steps(fold_steps(stack, a), b),
    decreases a.len(),
{
    if a.len() == 0 {
        assert(a + b == b);
    } else {
        assert((a + b)[0] == a[0]);
        assert((a + b).drop_first() == a.drop_first() + b);
        lemma_fold_append(step(stack, a[0]), a.drop_first(), b);
    }
}

proof fn lemma_fold_dots(stack: Seq<Segment>, n: nat)
    requires
        n <= stack.len(),
    ensures
        fold_steps(stack, dots(n)) == stack.subrange(0, stack.len() - n),
    decreases n,
{
    if n == 0 {
        assert(stack.subrange(0, stack.len() as int) == stack);
    } else {
        let d = dots((n - 1) as nat);
        assert(dots(n) == d + seq![seq!['.', '.']]);
        lemma_fold_append(stack, d, seq![seq!['.', '.']]);
        lemma_fold_dots(stack, (n - 1) as nat);
        let mid = stack.subrange(0, stack.len() - (n - 1));
        let dd: Seq<Segment> = seq![seq!['.', '.']];
        assert(dd[0] == seq!['.', '.']);
        assert(dd.drop_first() =~= Seq::<Segment>::empty());
        assert(fold_steps(mid, dd) == fold_steps(step(mid, seq!['.', '.']), Seq::empty()));
        assert(step(mid, seq!['.', '.']) == mid.drop_last());
        assert(mid.drop_last() == stack.subrange(0, stack.len() - n));
    }
}

proof fn lemma_fold_plain(stack: Seq<Segment>, segs: Seq<Segment>)
    requires
        forall|i: int| 0 <= i < segs.len() ==> plain_segment(#[trigger] segs[i]),
    ensures
        fold_steps(stack, segs) == stack + segs,
    decreases segs.len(),
{
    if segs.len() == 0 {
        assert(stack + segs == stack);
    } else {
        assert(plain_segment(segs[0]));
        assert(step(stack, segs[0]) == stack.push(segs[0]));
        assert forall|i: int| 0 <= i < segs.drop_first().len() implies plain_segment(
            #[trigger] segs.drop_first()[i],
        ) by {
            assert(segs.drop_first()[i] == segs[i + 1]);
        }
        lemma_fold_plain(stack.push(segs[0]), segs.drop_first());
        assert(stack.push(segs[0]) + segs.drop_first() == stack + segs);
    }
}

proof fn lemma_common_len(a: Seq<Segment>, b: Seq<Segment>, i: nat)
    requires
        i <= a.len(),
        i <= b.len(),
        a.subrange(0, i as int) == b.subrange(0, i as int),
    ensures
        i <= common_len(a, b, i) <= a.len(),
        common_len(a, b, i) <= b.len(),
        a.subrange(0, common_len(a, b, i) as int) == b.subrange(0, common_len(a, b, i) as int),
    decreases a.len() - i,
{
    if i < a.len() && i < b.len() && a[i as int] == b[i as int] {
        assert(a.subrange(0, i as int + 1) == a.subrange(0, i as int).push(a[i as int]));
        assert(b.subrange(0, i as int + 1) == b.subrange(0, i as int).push(b[i as int]));
        lemma_common_len(a, b, i + 1);
    }
}

/// The relative reference from a directory to a canonical part resolves back to that part.
pub proof fn lemma_relative_ref_resolves(p: Seq<char>, base: Seq<char>)
    requires
        canonical(p),
        forall|i: int| 0 <= i < segments(base).len() ==> plain_segment(#[trigger] segments(base)[i]),
    ensures
        !is_absolute(relative_ref_spec(p, base)) || segments(p).len() == 0,
        resolve(base, relative_ref_spec(p, base)) == p,
{
    let ps = segments(p);
    let bs = segments(base);
    assert(ps.subrange(0, 0) == bs.subrange(0, 0));
    lemma_common_len(ps, bs, 0);
    let k = common_len(ps, bs, 0);
    let n = (bs.len() - k) as nat;
    let tail = ps.subrange(k as int, ps.len() as int);
    let segs = dots(n) + tail;
    assert forall|i: int| 0 <= i < tail.len() implies plain_segment(#[trigger] tail[i]) by {
        assert(tail[i] == ps[i + k]);
    }
    lemma_dots_all(n);
    assert forall|i: int| 0 <= i < segs.len() implies no_slash(#[trigger] segs[i]) by {
        if i < dots(n).len() {
            assert(segs[i] == dots(n)[i]);
            assert(segs[i] == seq!['.', '.']);
        } else {
            assert(segs[i] == tail[i - dots(n).len()]);
            assert(plain_segment(tail[i - dots(n).len()]));
        }
    }
    lemma_walk_rel(bs, segs);
    lemma_fold_append(bs, dots(n), tail);
    lemma_fold_dots(bs, n);
    lemma_fold_plain(bs.subrange(0, bs.len() - n), tail);
    assert(bs.subrange(0, bs.len() - n) == bs.subrange(0, k as int));
    assert(bs.subrange(0, k as int) + tail =~= ps);
    let r = relative_ref_spec(p, base);
    assert(r == join_rel(segs));
    if segs.len() > 0 {
        lemma_join_slashed_front(segs);
        if segs[0].len() > 0 {
            assert(segs[0][0] != '/');
            assert(join_rel(segs)[0] == segs[0][0]);
        } else {
            if i_lt(0, dots(n).len() as int) {
                assert(segs[0] == seq!['.', '.']);
            } else {
                assert(plain_segment(tail[0]));
            }
        }
    }
}

/// Plain segments joined with slashes form a canonical part name whose segments they are.
pub proof fn lemma_canonical_join(segs: Seq<Segment>)
    requires
        segs.len() > 0,
        forall|i: int| 0 <= i < segs.len() ==> plain_segment(#[trigger] segs[i]),
    ensures
        canonical(join_slashed(segs)),
        segments(join_slashed(segs)) == segs,
{
    assert forall|i: int| 0 <= i < segs.len() implies no_slash(#[trigger] segs[i]) by {
        assert(plain_segment(segs[i]));
    }
    lemma_walk_slashed(Seq::empty(), Seq::empty(), segs);
    assert(step(Seq::<Segment>::empty(), Seq::<char>::empty()) == Seq::<Segment>::empty());
    lemma_fold_plain(Seq::empty(), segs);
    assert(Seq::<Segment>::empty() + segs =~= segs);
    lemma_join_slashed_front(segs);
}

spec fn i_lt(a: int, b: int) -> bool {
    a < b
}

proof fn lemma_dots_all(n: nat)
    ensures
        dots(n).len() == n,
        forall|i: int| 0 <= i < dots(n).len() ==> #[trigger] dots(n)[i] == seq!['.', '.'],
    decreases n,
{
    if n > 0 {
        lemma_dots_all((n - 1) as nat);
    }
}

// ---------------------------------------------------------------------------
// Executable code

fn seg_is(seg: &Vec<char>, a: char, b: Option<char>) -> (r: bool)
    ensures
        r == (match b { Some(b) => seg@ == seq![a, b], None => seg@ == seq![a] }),
{
    match b {
        Some(bb) => {
            let r = seg.len() == 2 && seg[0] == a && seg[1] == bb;
            if r { assert(seg@ =~= seq![a, bb]); }
            r
        },
        None => {
            let r = seg.len() == 1 && seg[0] == a;
            if r { assert(seg@ =~= seq![a]); }
            r
        },
    }
}

/// The view of a vector of segment vectors.
pub open spec fn segs_view(v: Seq<Vec<char>>) -> Seq<Segment> {
    v.map_values(|s: Vec<char>| s@)
}

fn exec_step(stack: &mut Vec<Vec<char>>, seg: Vec<char>)
    ensures
        segs_view(final(stack)@) == step(segs_view(old(stack)@), seg@),
{
    let ghost st = segs_view(stack@);
    if seg_is(&seg, '.', Some('.')) {
        if stack.len() > 0 {
            stack.pop();
            assert(segs_view(stack@) =~= st.drop_last());
        }
    } else if seg.len() == 0 || seg_is(&seg, '.', None) {
    } else {
        stack.push(seg);
        assert(segs_view(stack@) =~= st.push(seg@));
    }
}

/// Normalizes the path `p` on top of `stack`.
fn exec_walk(stack: &mut Vec<Vec<char>>, p: &Vec<char>)
    ensures
        segs_view(final(stack)@) == walk(segs_view(old(stack)@), Seq::empty(), p@),
{
    let mut cur: Vec<char> = Vec::new();
    let mut i: usize = 0;
    assert(p@.subrange(0, p.len() as int) =~= p@);
    assert(cur@ =~= Seq::<char>::empty());
    while i < p.len()
        invariant
            i <= p.len(),
            walk(segs_view(stack@), cur@, p@.subrange(i as int, p.len() as int))
                == walk(segs_view(old(stack)@), Seq::empty(), p@),
        decreases p.len() - i,
    {
        let c = p[i];
        let ghost rest = p@.subrange(i as int, p.len() as int);
        assert(rest[0] == c);
        assert(rest.drop_first() == p@.subrange(i + 1, p.len() as int));
        if c == '/' {
            let mut seg: Vec<char> = Vec::new();
            std::mem::swap(&mut seg, &mut cur);
            exec_step(stack, seg);
        } else {
            cur.push(c);
        }
        i = i + 1;
    }
    assert(p@.subrange(i as int, p.len() as int) == Seq::<char>::empty());
    exec_step(stack, cur);
}

fn push_chars(out: &mut String, s: &Vec<char>)
    ensures
        final(out)@ == old(out)@ + s@,
{
    let mut i: usize = 0;
    while i < s.len()
        invariant
            i <= s.len(),
            out@ == old(out)@ + s@.subrange(0, i as int),
        decreases s.len() - i,
    {
        string_push(out, s[i]);
        assert(s@.subrange(0, i + 1) == s@.subrange(0, i as int).push(s[i as int]));
        i = i + 1;
    }
    assert(s@.subrange(0, i as int) == s@);
}

fn exec_join_slashed(segs: &Vec<Vec<char>>, out: &mut String)
    ensures
        final(out)@ == old(out)@ + join_slashed(segs_view(segs@)),
{
    let mut i: usize = 0;
    while i < segs.len()
        invariant
            i <= segs.len(),
            out@ == old(out)@ + join_slashed(segs_view(segs@).subrange(0, i as int)),
        decreases segs.len() - i,
    {
        let ghost sv = segs_view(segs@);
        string_push(out, '/');
        push_chars(out, &segs[i]);
        assert(sv.subrange(0, i + 1).drop_last() == sv.subrange(0, i as int));
        assert(sv.subrange(0, i + 1).last() == segs[i as int]@);
        i = i + 1;
    }
    assert(segs_view(segs@).subrange(0, i as int) == segs_view(segs@));
}

fn exec_join_abs(segs: &Vec<Vec<char>>) -> (r: String)
    ensures
        r@ == join_abs(segs_view(segs@)),
{
    let mut out = String::new();
    if segs.len() == 0 {
        string_push(&mut out, '/');
    } else {
        exec_join_slashed(segs, &mut out);
    }
    out
}

/// The absolute part name that `target` denotes relative to the directory `base`.
pub fn resolve_target(base: &str, target: &str) -> (r: String)
    ensures
        r@ == resolve(base@, target@),
{
    let t = str_to_chars(target);
    let mut stack: Vec<Vec<char>> = Vec::new();
    if t.len() > 0 && t[0] == '/' {
        assert(segs_view(stack@) =~= Seq::<Segment>::empty());
        exec_walk(&mut stack, &t);
    } else {
        let b = str_to_chars(base);
        assert(segs_view(stack@) =~= Seq::<Segment>::empty());
        exec_walk(&mut stack, &b);
        exec_walk(&mut stack, &t);
    }
    exec_join_abs(&stack)
}

/// The reference from the directory `base` to the part `p`.
pub fn relative_ref(p: &str, base: &str) -> (r: String)
    ensures
        r@ == relative_ref_spec(p@, base@),
{
    let pc = str_to_chars(p);
    let bc = str_to_chars(base);
    let mut ps: Vec<Vec<char>> = Vec::new();
    let mut bs: Vec<Vec<char>> = Vec::new();
    assert(segs_view(ps@) =~= Seq::<Segment>::empty());
    assert(segs_view(bs@) =~= Seq::<Segment>::empty());
    exec_walk(&mut ps, &pc);
    exec_walk(&mut bs, &bc);
    let ghost psv = segs_view(ps@);
    let ghost bsv = segs_view(bs@);
    let mut k: usize = 0;
    while k < ps.len() && k < bs.len() && vec_chars_eq(&ps[k], &bs[k])
        invariant
            k <= ps.len(),
            k <= bs.len(),
            psv == segs_view(ps@),
            bsv == segs_view(bs@),
            common_len(psv, bsv, k as nat) == common_len(psv, bsv, 0),
        decreases ps.len() - k,
    {
        assert(psv[k as int] == ps[k as int]@);
        k = k + 1;
    }
    assert(common_len(psv, bsv, k as nat) == k);
    let mut segs: Vec<Vec<char>> = Vec::new();
    let mut j: usize = 0;
    while j < bs.len() - k
        invariant
            k <= bs.len(),
            j <= bs.len() - k,
            segs_view(segs@) == dots(j as nat),
        decreases bs.len() - k - j,
    {
        let mut d = Vec::new();
        d.push('.');
        d.push('.');
        assert(d@ =~= seq!['.', '.']);
        segs.push(d);
        assert(segs_view(segs@) =~= dots(j as nat).push(seq!['.', '.']));
        j = j + 1;
    }
    let ghost dv = segs_view(segs@);
    let mut m: usize = k;
    while m < ps.len()
        invariant
            k <= m <= ps.len(),
            psv == segs_view(ps@),
            segs_view(segs@) == dv + psv.subrange(k as int, m as int),
        decreases ps.len() - m,
    {
        let ghost before = segs@;
        let cp = copy_chars(&ps[m]);
        segs.push(cp);
        assert(psv[m as int] == ps@[m as int]@);
        assert(segs_view(segs@) =~= segs_view(before).push(psv[m as int]));
        assert(psv.subrange(k as int, m + 1) =~= psv.subrange(k as int, m as int).push(psv[m as int]));
        assert(segs_view(segs@) =~= dv + psv.subrange(k as int, m + 1));
        m = m + 1;
    }
    let mut out = String::new();
    if segs.len() == 0 {
        assert(out@ == join_rel(segs_view(segs@)));
        return out;
    }
    let mut first = String::new();
    exec_join_slashed(&segs, &mut first);
    // drop the leading slash
    let fc = str_to_chars(first.as_str());
    let mut i: usize = 1;
    assert(fc@.len() > 0) by {
        lemma_join_slashed_front(segs_view(segs@));
    }
    while i < fc.len()
        invariant
            1 <= i <= fc.len(),
            out@ == fc@.subrange(1, i as int),
        decreases fc.len() - i,
    {
        string_push(&mut out, fc[i]);
        assert(fc@.subrange(1, i + 1) == fc@.subrange(1, i as int).push(fc[i as int]));
        i = i + 1;
    }
    assert(fc@.subrange(1, fc.len() as int) == fc@.drop_first());
    out
}

/// A copy of a character vector.
pub fn copy_chars(v: &Vec<char>) -> (r: Vec<char>)
    ensures
        r@ == v@,
{
    let mut r: Vec<char> = Vec::new();
    let mut i: usize = 0;
    while i < v.len()
        invariant
            i <= v.len(),
            r@ == v@.subrange(0, i as int),
        decreases v.len() - i,
    {
        r.push(v[i]);
        assert(v@.subrange(0, i as int + 1) == v@.subrange(0, i as int).push(v[i as int]));
        i = i + 1;
    }
    assert(v@.subrange(0, i as int) == v@);
    r
}

/// Whether two character vectors are equal.
pub fn vec_chars_eq(a: &Vec<char>, b: &Vec<char>) -> (r: bool)
    ensures
        r == (a@ == b@),
{
    if a.len() != b.len() {
        return false;
    }
    let mut i: usize = 0;
    while i < a.len()
        invariant
            a.len() == b.len(),
            i <= a.len(),
            forall|j: int| 0 <= j < i ==> a@[j] == b@[j],
        decreases a.len() - i,
    {
        if a[i] != b[i] {
            return false;
        }
        i = i + 1;
    }
    assert(a@ =~= b@);
    true
}

/// The directory of a part name.
pub fn base_uri_of(p: &str) -> (r: String)
    ensures
        r@ == base_uri_spec(p@),
{
    let c = str_to_chars(p);
    let mut n: usize = c.len();
    assert(c@.subrange(0, n as int) =~= p@);
    while n > 0 && c[n - 1] != '/'
        invariant
            n <= c.len(),
            base_uri_spec(c@.subrange(0, n as int)) == base_uri_spec(p@),
            c@ == p@,
        decreases n,
    {
        assert(c@.subrange(0, n - 1) == c@.subrange(0, n as int).drop_last());
        n = n - 1;
    }
    let mut out = String::new();
    if n <= 1 {
        string_push(&mut out, '/');
        return out;
    }
    let mut i: usize = 0;
    while i < n - 1
        invariant
            n <= c.len(),
            i <= n - 1,
            out@ == c@.subrange(0, i as int),
        decreases n - 1 - i,
    {
        string_push(&mut out, c[i]);
        assert(c@.subrange(0, i + 1) == c@.subrange(0, i as int).push(c[i as int]));
        i = i + 1;
    }
    assert(c@.subrange(0, n as int).drop_last() == c@.subrange(0, (n - 1) as int));
    out
}

/// A part name: an absolute URI of a part inside the package, such as `/ppt/slides/slide1.xml`.
#[derive(Debug, Clone, PartialEq, Eq, Hash)]
pub struct PackURI(String);

impl View for PackURI {
    type V = Seq<char>;

    closed spec fn view(&self) -> Seq<char> {
        self.0@
    }
}

impl PackURI {
    /// A part name from text; refused unless it starts with `/`.
    pub fn new(s: &str) -> (r: Result<PackURI, PptxError>)
        ensures
            is_absolute(s@) <==> r is Ok,
            r matches Ok(u) ==> u@ == s@,
    {
        let c = str_to_chars(s);
        if c.len() > 0 && c[0] == '/' {
            Ok(PackURI(s.to_owned()))
        } else {
            Err(PptxError::InvalidXml(s.to_owned()))
        }
    }

    /// A part name from a string known to be absolute.
    pub fn from_string(s: String) -> (r: PackURI)
        ensures
            r@ == s@,
    {
        PackURI(s)
    }

    /// The part name as text.
    pub fn as_str(&self) -> (r: &str)
        ensures
            r@ == self@,
    {
        self.0.as_str()
    }

    /// A copy of this part name.
    pub fn copied(&self) -> (r: PackURI)
        ensures
            r@ == self@,
    {
        PackURI(self.0.clone())
    }

    /// The part name as an owned string.
    pub fn to_string(&self) -> (r: String)
        ensures
            r@ == self@,
    {
        self.0.clone()
    }

    /// The directory of this part name.
    pub fn base_uri(&self) -> (r: String)
        ensures
            r@ == base_uri_spec(self@),
    {
        base_uri_of(self.0.as_str())
    }

    /// The reference to this part from the directory `base`.
    pub fn relative_ref(&self, base: &str) -> (r: String)
        ensures
            r@ == relative_ref_spec(self@, base@),
    {
        relative_ref(self.0.as_str(), base)
    }

    /// Whether two part names are the same text.
    pub fn same_as(&self, other: &PackURI) -> (r: bool)
        ensures
            r == (self@ == other@),
    {
        crate::enums::str_eq(self.0.as_str(), other.0.as_str())
    }
}

} // verus!
