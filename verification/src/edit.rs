//! Editing XML text by position: removing the first element with a given name, finding
//! the last occurrence of a pattern, inserting text.
use vstd::prelude::*;
use crate::scan::{find_from, lemma_find_from, occurs_at};
use crate::id_list::{find_chars, occurs_at_exec, push_str_chars};

verus! {

/// `t` with the text of `ins` inserted at `q`.
pub open spec fn inserted(t: Seq<char>, q: int, ins: Seq<char>) -> Seq<char> {
    t.subrange(0, q) + ins + t.subrange(q, t.len() as int)
}

/// `<name`
pub open spec fn open_tag(name: Seq<char>) -> Seq<char> {
    seq!['<'] + name
}

/// `</name>`
pub open spec fn close_tag(name: Seq<char>) -> Seq<char> {
    seq!['<', '/'] + name + seq!['>']
}

/// `t` without its first element `name`: from the first `<name` to the end of the next
/// `</name>`, or else to the end of the next `/>`; `t` itself when there is no `<name`
/// or neither end follows it.
pub open spec fn removed_element(t: Seq<char>, name: Seq<char>) -> Seq<char> {
    match find_from(t, open_tag(name), 0) {
        Some(s) => match find_from(t, close_tag(name), s) {
            Some(e) => t.subrange(0, s) + t.subrange(e + close_tag(name).len(), t.len() as int),
            None => match find_from(t, seq!['/', '>'], s) {
                Some(e) => t.subrange(0, s) + t.subrange(e + 2, t.len() as int),
                None => t,
            },
        },
        None => t,
    }
}

/// The last position at or before `i` where `pat` occurs in `t`.
pub open spec fn rfind_from(t: Seq<char>, pat: Seq<char>, i: int) -> Option<int>
    decreases i + 1,
{
    if i < 0 {
        None
    } else if occurs_at(t, pat, i) {
        Some(i)
    } else {
        rfind_from(t, pat, i - 1)
    }
}

/// The last position where `pat` occurs in `t`.
pub open spec fn rfind(t: Seq<char>, pat: Seq<char>) -> Option<int> {
    rfind_from(t, pat, t.len() - pat.len())
}

/// A position found from the end is an occurrence.
pub proof fn lemma_rfind_from(t: Seq<char>, pat: Seq<char>, i: int)
    ensures
        rfind_from(t, pat, i) matches Some(j) ==> 0 <= j <= i && occurs_at(t, pat, j),
    decreases i + 1,
{
    if i >= 0 && !occurs_at(t, pat, i) {
        lemma_rfind_from(t, pat, i - 1);
    }
}

fn copy_range(out: &mut Vec<char>, v: &Vec<char>, a: usize, b: usize)
    requires
        a <= b <= v.len(),
    ensures
        final(out)@ == old(out)@ + v@.subrange(a as int, b as int),
{
    let mut k = a;
    while k < b
        invariant
            a <= k <= b <= v.len(),
            out@ == old(out)@ + v@.subrange(a as int, k as int),
        decreases b - k,
    {
        out.push(v[k]);
        assert(v@.subrange(a as int, k + 1) == v@.subrange(a as int, k as int).push(v@[k as int]));
        assert(out@ =~= old(out)@ + v@.subrange(a as int, k + 1));
        k = k + 1;
    }
}

/// The characters of `v` without the range from `a` to `b`.
pub fn cut(v: &Vec<char>, a: usize, b: usize) -> (r: Vec<char>)
    requires
        a <= b <= v.len(),
    ensures
        r@ == v@.subrange(0, a as int) + v@.subrange(b as int, v.len() as int),
{
    let mut out: Vec<char> = Vec::new();
    copy_range(&mut out, v, 0, a);
    copy_range(&mut out, v, b, v.len());
    out
}

/// The characters of `v` with `ins` inserted at `q`.
pub fn insert_at(v: &Vec<char>, q: usize, ins: &str) -> (r: Vec<char>)
    requires
        q <= v.len(),
    ensures
        r@ == inserted(v@, q as int, ins@),
{
    let mut out: Vec<char> = Vec::new();
    copy_range(&mut out, v, 0, q);
    push_str_chars(&mut out, ins);
    copy_range(&mut out, v, q, v.len());
    assert(out@ =~= inserted(v@, q as int, ins@));
    out
}

/// Removes the first element `name` (see `removed_element`).
pub fn remove_element_chars(t: &Vec<char>, name: &str) -> (r: Vec<char>)
    ensures
        r@ == removed_element(t@, name@),
{
    let n = crate::text::str_to_chars(name);
    let mut open: Vec<char> = Vec::new();
    open.push('<');
    crate::id_list::push_vec_chars(&mut open, &n);
    let mut close: Vec<char> = Vec::new();
    close.push('<');
    close.push('/');
    crate::id_list::push_vec_chars(&mut close, &n);
    close.push('>');
    assert(open@ =~= open_tag(name@));
    assert(close@ =~= close_tag(name@));
    match find_chars(t, &open, 0) {
        Some(s) => {
            proof { lemma_find_from(t@, open@, 0); }
            match find_chars(t, &close, s) {
                Some(e) => {
                    proof { lemma_find_from(t@, close@, s as int); }
                    assert(e + close@.len() <= t@.len());
                    assert(t@.len() == t.len() && close@.len() == close.len());
                    assert(s <= e);
                    cut(t, s, e + close.len())
                },
                None => {
                    let mut sc: Vec<char> = Vec::new();
                    sc.push('/');
                    sc.push('>');
                    assert(sc@ =~= seq!['/', '>']);
                    match find_chars(t, &sc, s) {
                        Some(e) => {
                            proof { lemma_find_from(t@, sc@, s as int); }
                            assert(e + sc@.len() <= t@.len());
                            assert(t@.len() == t.len() && sc@.len() == 2);
                            cut(t, s, e + 2)
                        },
                        None => crate::opc::uri::copy_chars(t),
                    }
                },
            }
        },
        None => crate::opc::uri::copy_chars(t),
    }
}

/// Removes the first element named `element_name` from `xml`: a paired element
/// `<name ...>...</name>`, or else one ending at the next `/>`.
pub fn remove_xml_element(xml: &str, element_name: &str) -> (r: String)
    ensures
        r@ == removed_element(xml@, element_name@),
{
    let t = crate::text::str_to_chars(xml);
    crate::text::chars_to_string(&remove_element_chars(&t, element_name))
}

/// The last position where `pat` occurs in `t`.
pub fn rfind_chars(t: &Vec<char>, pat: &Vec<char>) -> (r: Option<usize>)
    ensures
        match rfind(t@, pat@) {
            Some(j) => r matches Some(q) && q as int == j,
            None => r is None,
        },
{
    if pat.len() > t.len() {
        assert(rfind_from(t@, pat@, t@.len() - pat@.len()) is None);
        return None;
    }
    let mut i: usize = t.len() - pat.len();
    loop
        invariant
            i + pat.len() <= t.len(),
            rfind(t@, pat@) == rfind_from(t@, pat@, i as int),
        decreases i,
    {
        if occurs_at_exec(t, pat, i) {
            return Some(i);
        }
        if i == 0 {
            assert(rfind_from(t@, pat@, -1) is None);
            return None;
        }
        i = i - 1;
    }
}

/// Whether `x` is an empty-element tag `<name …/>` whose only `<` is its first character
/// and whose only `/` is the one before its final `>`.
pub open spec fn empty_element_of(x: Seq<char>, name: Seq<char>) -> bool {
    &&& x.len() >= open_tag(name).len() + 2
    &&& x.subrange(0, open_tag(name).len() as int) == open_tag(name)
    &&& x[x.len() - 2] == '/'
    &&& x[x.len() - 1] == '>'
    &&& forall|i: int| 0 < i < x.len() ==> x[i] != '<'
    &&& forall|i: int| 0 <= i < x.len() - 2 ==> x[i] != '/'
}

/// A name without `<` and `/`.
pub open spec fn plain_name(name: Seq<char>) -> bool {
    name.len() > 0 && forall|i: int| 0 <= i < name.len() ==> name[i] != '<' && name[i] != '/'
}

/// Removing the element `name` from text into which one empty-element tag `x` of that name
/// was inserted gives the text back, when the text has neither a start nor an end tag of
/// that name.
pub proof fn lemma_remove_inserted(t: Seq<char>, q: int, x: Seq<char>, name: Seq<char>)
    requires
        0 <= q <= t.len(),
        plain_name(name),
        find_from(t, open_tag(name), 0) is None,
        find_from(t, close_tag(name), 0) is None,
        empty_element_of(x, name),
    ensures
        removed_element(inserted(t, q, x), name) == t,
{
    let open = open_tag(name);
    let close = close_tag(name);
    let u = inserted(t, q, x);
    let a = t.subrange(0, q);
    let b = x + t.subrange(q, t.len() as int);
    assert(u =~= a + b);
    lemma_find_from(t, open, 0);
    lemma_find_from(t, close, 0);
    // the first start tag is the inserted one
    assert(crate::scan::lt_only_first(open)) by {
        assert forall|j: int| 0 < j < open.len() implies open[j] != '<' by {
            assert(open[j] == name[j - 1]);
        }
    }
    assert forall|k: int| 0 <= k implies !occurs_at(a, open, k) by {
        if occurs_at(a, open, k) {
            assert(t.subrange(k, k + open.len()) =~= a.subrange(k, k + open.len()));
            assert(occurs_at(t, open, k));
        }
    }
    assert(b[0] == '<') by {
        assert(x.subrange(0, open.len() as int)[0] == x[0]);
    }
    crate::scan::lemma_no_occurrence_before_lt(a, b, open);
    assert(occurs_at(u, open, q)) by {
        assert(u.subrange(q, q + open.len()) =~= x.subrange(0, open.len() as int));
    }
    crate::scan::lemma_find_from_is(u, open, 0, q);
    // no end tag after it
    assert forall|k: int| q <= k implies !occurs_at(u, close, k) by {
        if occurs_at(u, close, k) {
            assert(u.subrange(k, k + close.len())[0] == u[k]);
            assert(u.subrange(k, k + close.len())[1] == u[k + 1]);
            if k < q + x.len() {
                assert(u[k] == x[k - q]);
                if k == q {
                    assert(u[k + 1] == x[1]);
                    assert(x.subrange(0, open.len() as int)[1] == x[1]);
                    assert(open[1] == name[0]);
                }
            } else {
                let k2 = k - x.len();
                assert(t.subrange(k2, k2 + close.len()) =~= u.subrange(k, k + close.len()));
                assert(occurs_at(t, close, k2));
            }
        }
    }
    crate::scan::lemma_find_from_none(u, close, q);
    // the tag ends at its own `/>`
    let e = q + x.len() - 2;
    assert forall|k: int| q <= k < e implies !occurs_at(u, seq!['/', '>'], k) by {
        if occurs_at(u, seq!['/', '>'], k) {
            assert(u.subrange(k, k + 2)[0] == u[k]);
            assert(u[k] == x[k - q]);
        }
    }
    assert(occurs_at(u, seq!['/', '>'], e)) by {
        assert(u[e] == x[x.len() - 2]);
        assert(u[e + 1] == x[x.len() - 1]);
        assert(u.subrange(e, e + 2) =~= seq!['/', '>']);
    }
    crate::scan::lemma_find_from_is(u, seq!['/', '>'], q, e);
    assert(u.subrange(0, q) + u.subrange(e + 2, u.len() as int) =~= t);
}

/// Whether `x` is one element `<name …>…</name>` whose first end tag of that name is the
/// one at its end.
pub open spec fn paired_element_of(x: Seq<char>, name: Seq<char>) -> bool {
    &&& x.len() >= open_tag(name).len() + close_tag(name).len()
    &&& x.subrange(0, open_tag(name).len() as int) == open_tag(name)
    &&& find_from(x, close_tag(name), 0) == Some(x.len() - close_tag(name).len())
}

/// Removing the element `name` from text into which one element `x` of that name with an
/// end tag was inserted gives the text back, when the text has no start tag of that name.
pub proof fn lemma_remove_inserted_paired(t: Seq<char>, q: int, x: Seq<char>, name: Seq<char>)
    requires
        0 <= q <= t.len(),
        plain_name(name),
        find_from(t, open_tag(name), 0) is None,
        paired_element_of(x, name),
    ensures
        removed_element(inserted(t, q, x), name) == t,
{
    let open = open_tag(name);
    let close = close_tag(name);
    let u = inserted(t, q, x);
    let a = t.subrange(0, q);
    let b = x + t.subrange(q, t.len() as int);
    assert(u =~= a + b);
    lemma_find_from(t, open, 0);
    // the first start tag is the inserted one
    assert(crate::scan::lt_only_first(open)) by {
        assert forall|j: int| 0 < j < open.len() implies open[j] != '<' by {
            assert(open[j] == name[j - 1]);
        }
    }
    assert forall|k: int| 0 <= k implies !occurs_at(a, open, k) by {
        if occurs_at(a, open, k) {
            assert(t.subrange(k, k + open.len()) =~= a.subrange(k, k + open.len()));
            assert(occurs_at(t, open, k));
        }
    }
    assert(b[0] == '<') by {
        assert(x.subrange(0, open.len() as int)[0] == x[0]);
    }
    crate::scan::lemma_no_occurrence_before_lt(a, b, open);
    assert(occurs_at(u, open, q)) by {
        assert(u.subrange(q, q + open.len()) =~= x.subrange(0, open.len() as int));
    }
    crate::scan::lemma_find_from_is(u, open, 0, q);
    // the first end tag after it is the inserted element's own
    let e = q + x.len() - close.len();
    lemma_find_from(x, close, 0);
    assert forall|k: int| q <= k < e implies !occurs_at(u, close, k) by {
        if occurs_at(u, close, k) {
            assert(x.subrange(k - q, k - q + close.len()) =~= u.subrange(k, k + close.len()));
            assert(occurs_at(x, close, k - q));
        }
    }
    assert(occurs_at(u, close, e)) by {
        assert(occurs_at(x, close, x.len() - close.len()));
        assert(u.subrange(e, e + close.len()) =~= x.subrange(x.len() - close.len(), x.len() as int));
    }
    crate::scan::lemma_find_from_is(u, close, q, e);
    assert(u.subrange(0, q) + u.subrange(e + close.len(), u.len() as int) =~= t);
}

} // verus!
