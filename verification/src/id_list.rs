//! Id lists of presentation.xml such as `<p:sldIdLst>`: a list element holding entries
//! `<p:sldId id="256" r:id="rId2"/>`. Reading them, and rewriting them in place.
use vstd::prelude::*;
use crate::scan::{
    digit_run, digits_value, find_from, is_digit, lemma_digit_run, lemma_find_from, lemma_find_from_is,
    lemma_find_stable, lemma_nat_digits, lemma_no_occurrence_before_lt, lt_only_first, occurs_at,
};
use crate::text::nat_digits;

verus! {

/// One entry: the relationship id and the numeric id.
pub type Entry = (Seq<char>, nat);

/// Characters allowed in a relationship id: ASCII letters and digits.
pub open spec fn is_rid_char(c: char) -> bool {
    ('a' <= c <= 'z') || ('A' <= c <= 'Z') || ('0' <= c <= '9')
}

/// Number of leading relationship-id characters of `s` from `i`.
pub open spec fn rid_run(s: Seq<char>, i: int) -> int
    decreases s.len() - i,
{
    if i < 0 || i >= s.len() || !is_rid_char(s[i]) { 0 } else { 1 + rid_run(s, i + 1) }
}

/// `<elem id="`
pub open spec fn entry_head(elem: Seq<char>) -> Seq<char> {
    seq!['<'] + elem + " id=\""@
}

/// `" r:id="`
pub open spec fn entry_mid() -> Seq<char> {
    "\" r:id=\""@
}

/// `"/>`
pub open spec fn entry_tail() -> Seq<char> {
    "\"/>"@
}

/// The largest numeric id an entry may have.
pub open spec fn max_id() -> nat {
    4294967295
}

/// Reads one entry at the start of `s`: the entry and its length in characters.
pub open spec fn parse_entry(elem: Seq<char>, s: Seq<char>) -> Option<(Entry, int)> {
    let h = entry_head(elem);
    let a: int = h.len() as int;
    if !occurs_at(s, h, 0) {
        None
    } else {
        let nd: int = digit_run(s, a);
        let b: int = a + nd;
        if nd == 0 || digits_value(s.subrange(a, b)) > max_id() || !occurs_at(s, entry_mid(), b) {
            None
        } else {
            let c: int = b + entry_mid().len();
            let nr: int = rid_run(s, c);
            let d: int = c + nr;
            if nr == 0 || !occurs_at(s, entry_tail(), d) {
                None
            } else {
                Some(((s.subrange(c, d), digits_value(s.subrange(a, b))), d + entry_tail().len()))
            }
        }
    }
}

/// Reads a whole run of entries; `None` unless `s` is exactly a sequence of entries.
pub open spec fn parse_entries(elem: Seq<char>, s: Seq<char>) -> Option<Seq<Entry>>
    decreases s.len(),
{
    if s.len() == 0 {
        Some(Seq::empty())
    } else {
        match parse_entry(elem, s) {
            Some((e, n)) => if 0 < n <= s.len() {
                match parse_entries(elem, s.subrange(n, s.len() as int)) {
                    Some(rest) => Some(seq![e] + rest),
                    None => None,
                }
            } else {
                None
            },
            None => None,
        }
    }
}

/// `<list>`
pub open spec fn list_open(list: Seq<char>) -> Seq<char> {
    seq!['<'] + list + seq!['>']
}

/// `</list>`
pub open spec fn list_close(list: Seq<char>) -> Seq<char> {
    seq!['<', '/'] + list + seq!['>']
}

/// Where the content of the first `<list>…</list>` element lies: from after the opening
/// tag to the start of the first closing tag after it.
pub open spec fn list_bounds(t: Seq<char>, list: Seq<char>) -> Option<(int, int)> {
    match find_from(t, list_open(list), 0) {
        Some(s) => match find_from(t, list_close(list), s + list_open(list).len()) {
            Some(e) => Some((s + list_open(list).len(), e)),
            None => None,
        },
        None => None,
    }
}

/// The entries of the list element `list` in `t`: none when there is no opening tag;
/// `None` (unreadable) when the element is not closed or its content is not a run of entries.
pub open spec fn parse_id_list(t: Seq<char>, list: Seq<char>, elem: Seq<char>) -> Option<Seq<Entry>> {
    match find_from(t, list_open(list), 0) {
        None => Some(Seq::empty()),
        Some(_) => match list_bounds(t, list) {
            Some((a, b)) => parse_entries(elem, t.subrange(a, b)),
            None => None,
        },
    }
}

/// The text of one entry.
pub open spec fn entry_text(elem: Seq<char>, e: Entry) -> Seq<char> {
    entry_head(elem) + nat_digits(e.1) + entry_mid() + e.0 + entry_tail()
}

/// The text of a run of entries.
pub open spec fn entries_text(elem: Seq<char>, l: Seq<Entry>) -> Seq<char>
    decreases l.len(),
{
    if l.len() == 0 {
        Seq::empty()
    } else {
        entry_text(elem, l[0]) + entries_text(elem, l.drop_first())
    }
}

/// An entry that can be written and read back: a non-empty id of letters and digits,
/// and a numeric id in range.
pub open spec fn valid_entry(e: Entry) -> bool {
    &&& e.0.len() > 0
    &&& forall|i: int| 0 <= i < e.0.len() ==> is_rid_char(#[trigger] e.0[i])
    &&& e.1 <= max_id()
}

/// All entries valid.
pub open spec fn valid_entries(l: Seq<Entry>) -> bool {
    forall|i: int| 0 <= i < l.len() ==> valid_entry(#[trigger] l[i])
}

/// An element name usable for entries and lists: non-empty, no `<`, `>`, `"` or `/`
/// in it, and not starting with a digit or letter-digit confusion.
pub open spec fn valid_name(n: Seq<char>) -> bool {
    &&& n.len() > 0
    &&& forall|i: int| 0 <= i < n.len() ==> (#[trigger] n[i] != '<' && n[i] != '/' && n[i] != '>' && n[i] != '"')
}

/// The text with the content of the list element replaced by `l`.
pub open spec fn replace_list(t: Seq<char>, a: int, b: int, elem: Seq<char>, l: Seq<Entry>) -> Seq<char> {
    t.subrange(0, a) + entries_text(elem, l) + t.subrange(b, t.len() as int)
}

// ---------------------------------------------------------------------------
// Lemmas

proof fn lemma_rid_run(s: Seq<char>, i: int, n: int)
    requires
        0 <= i,
        0 <= n,
        i + n <= s.len(),
        forall|k: int| i <= k < i + n ==> is_rid_char(#[trigger] s[k]),
        i + n == s.len() || !is_rid_char(s[i + n]),
    ensures
        rid_run(s, i) == n,
    decreases n,
{
    if n > 0 {
        lemma_rid_run(s, i + 1, n - 1);
    }
}

proof fn lemma_literals()
    ensures
        entry_mid().len() == 8,
        entry_mid()[0] == '"',
        entry_tail().len() == 3,
        entry_tail()[0] == '"',
        forall|i: int| 0 <= i < 8 ==> #[trigger] entry_mid()[i] != '<' && entry_mid()[i] != '>',
        forall|i: int| 0 <= i < 3 ==> #[trigger] entry_tail()[i] != '<',
        " id=\""@.len() == 5,
        forall|i: int| 0 <= i < 5 ==> #[trigger] " id=\""@[i] != '<' && " id=\""@[i] != '"' || i == 4,
        " id=\""@[4] == '"',
{
    reveal_strlit("\" r:id=\"");
    reveal_strlit("\"/>");
    reveal_strlit(" id=\"");
}

/// Reading the text of a valid entry gives the entry back, whatever follows it.
pub proof fn lemma_parse_entry(elem: Seq<char>, e: Entry, rest: Seq<char>)
    requires
        valid_entry(e),
        valid_name(elem),
    ensures
        parse_entry(elem, entry_text(elem, e) + rest) == Some((e, entry_text(elem, e).len() as int)),
{
    lemma_literals();
    lemma_nat_digits(e.1);
    let s = entry_text(elem, e) + rest;
    let h = entry_head(elem);
    let d = nat_digits(e.1);
    let a: int = h.len() as int;
    let b: int = a + d.len();
    let c: int = b + 8;
    let dd = c + e.0.len();
    assert(s.subrange(0, a) =~= h);
    assert forall|k: int| a <= k < b implies is_digit(#[trigger] s[k]) by {
        assert(s[k] == d[k - a]);
    }
    assert(s[b] == '"');
    lemma_digit_run(s, a, d.len() as int);
    assert(s.subrange(a, b) =~= d);
    assert(s.subrange(b, b + 8) =~= entry_mid());
    assert forall|k: int| c <= k < dd implies is_rid_char(#[trigger] s[k]) by {
        assert(s[k] == e.0[k - c]);
    }
    assert(s[dd] == '"');
    lemma_rid_run(s, c, e.0.len() as int);
    assert(s.subrange(dd, dd + 3) =~= entry_tail());
    assert(s.subrange(c, dd) =~= e.0);
}

/// Reading the text of valid entries gives them back.
pub proof fn lemma_parse_entries(elem: Seq<char>, l: Seq<Entry>)
    requires
        valid_entries(l),
        valid_name(elem),
    ensures
        parse_entries(elem, entries_text(elem, l)) == Some(l),
    decreases l.len(),
{
    if l.len() > 0 {
        let t = entries_text(elem, l);
        let first = entry_text(elem, l[0]);
        let rest = entries_text(elem, l.drop_first());
        assert(valid_entry(l[0]));
        lemma_parse_entry(elem, l[0], rest);
        assert(first.len() > 0);
        assert(t.subrange(first.len() as int, t.len() as int) =~= rest);
        assert forall|i: int| 0 <= i < l.drop_first().len() implies valid_entry(#[trigger] l.drop_first()[i]) by {
            assert(l.drop_first()[i] == l[i + 1]);
        }
        lemma_parse_entries(elem, l.drop_first());
        assert(seq![l[0]] + l.drop_first() =~= l);
    } else {
        assert(entries_text(elem, l).len() == 0);
    }
}

/// Every `<` of an entry text starts an element name: it is followed by a character that
/// is not `/`.
pub open spec fn lt_then_name(t: Seq<char>) -> bool {
    forall|k: int| 0 <= k < t.len() && #[trigger] t[k] == '<' ==> k + 1 < t.len() && t[k + 1] != '/'
}

proof fn lemma_entry_lt(elem: Seq<char>, e: Entry)
    requires
        valid_entry(e),
        valid_name(elem),
    ensures
        lt_then_name(entry_text(elem, e)),
        entry_text(elem, e).len() > 0,
        entry_text(elem, e).last() != '<',
{
    lemma_literals();
    lemma_nat_digits(e.1);
    let t = entry_text(elem, e);
    let d = nat_digits(e.1);
    let a: int = 1 + elem.len() as int + 5;
    let b: int = a + d.len();
    let c: int = b + 8;
    let dd = c + e.0.len();
    assert(t.len() == dd + 3);
    assert forall|k: int| 0 <= k < t.len() && #[trigger] t[k] == '<' implies k + 1 < t.len() && t[k + 1] != '/' by {
        if k == 0 {
            assert(t[1] == elem[0]);
        } else if k < 1 + elem.len() {
            assert(t[k] == elem[k - 1]);
        } else if k < a {
            assert(t[k] == " id=\""@[k - 1 - elem.len()]);
        } else if k < b {
            assert(t[k] == d[k - a]);
            assert(is_digit(d[k - a]));
        } else if k < c {
            assert(t[k] == entry_mid()[k - b]);
        } else if k < dd {
            assert(t[k] == e.0[k - c]);
            assert(is_rid_char(e.0[k - c]));
        } else {
            assert(t[k] == entry_tail()[k - dd]);
        }
    }
    assert(t.last() == entry_tail()[2]);
}

proof fn lemma_concat_lt(x: Seq<char>, y: Seq<char>)
    requires
        lt_then_name(x),
        x.len() == 0 || x.last() != '<',
        lt_then_name(y),
        y.len() == 0 || y.last() != '<',
    ensures
        lt_then_name(x + y),
        (x + y).len() == 0 || (x + y).last() != '<',
{
    let t = x + y;
    assert forall|k: int| 0 <= k < t.len() && #[trigger] t[k] == '<' implies k + 1 < t.len() && t[k + 1] != '/' by {
        if k < x.len() {
            assert(t[k] == x[k]);
            if k == x.len() - 1 {
                assert(x.last() == x[k]);
            } else {
                assert(t[k + 1] == x[k + 1]);
            }
        } else {
            assert(t[k] == y[k - x.len()]);
            assert(t[k + 1] == y[k + 1 - x.len()]);
        }
    }
    if y.len() > 0 {
        assert(t.last() == y.last());
    } else {
        assert(t == x);
    }
}

/// Entry texts have every `<` followed by a non-`/`, and do not end in `<`.
pub proof fn lemma_entries_lt(elem: Seq<char>, l: Seq<Entry>)
    requires
        valid_entries(l),
        valid_name(elem),
    ensures
        lt_then_name(entries_text(elem, l)),
        entries_text(elem, l).len() == 0 || entries_text(elem, l).last() != '<',
    decreases l.len(),
{
    if l.len() > 0 {
        assert(valid_entry(l[0]));
        lemma_entry_lt(elem, l[0]);
        assert forall|i: int| 0 <= i < l.drop_first().len() implies valid_entry(#[trigger] l.drop_first()[i]) by {
            assert(l.drop_first()[i] == l[i + 1]);
        }
        lemma_entries_lt(elem, l.drop_first());
        lemma_concat_lt(entry_text(elem, l[0]), entries_text(elem, l.drop_first()));
    } else {
        assert forall|k: int| 0 <= k < entries_text(elem, l).len() && #[trigger] entries_text(elem, l)[k] == '<' implies
            false by {}
    }
}

proof fn lemma_close_literals(list: Seq<char>)
    requires
        valid_name(list),
    ensures
        lt_only_first(list_open(list)),
        lt_only_first(list_close(list)),
        list_close(list)[1] == '/',
        list_close(list).len() >= 2,
{
    let o = list_open(list);
    let c = list_close(list);
    assert forall|j: int| 0 < j < o.len() implies o[j] != '<' by {
        if j <= list.len() {
            assert(o[j] == list[j - 1]);
        }
    }
    assert forall|j: int| 0 < j < c.len() implies c[j] != '<' by {
        if 2 <= j < 2 + list.len() {
            assert(c[j] == list[j - 2]);
        }
    }
}

/// After writing valid entries into an existing list element, the list element is found
/// at the same place and holds exactly the written entries.
pub proof fn lemma_replace_list(t: Seq<char>, list: Seq<char>, elem: Seq<char>, l: Seq<Entry>)
    requires
        valid_name(list),
        valid_name(elem),
        valid_entries(l),
        list_bounds(t, list) is Some,
    ensures
        ({
            let (a, b) = list_bounds(t, list).unwrap();
            let u = replace_list(t, a, b, elem, l);
            &&& list_bounds(u, list) == Some((a, a + entries_text(elem, l).len()))
            &&& parse_id_list(u, list, elem) == Some(l)
        }),
{
    let o = list_open(list);
    let c = list_close(list);
    let s = find_from(t, o, 0).unwrap();
    lemma_find_from(t, o, 0);
    let a: int = s + o.len();
    lemma_find_from(t, c, a);
    let b: int = find_from(t, c, a).unwrap();
    let e = entries_text(elem, l);
    let u = replace_list(t, a, b, elem, l);
    assert(u.len() == a + e.len() + (t.len() - b));
    // the opening tag is found at the same place
    assert forall|m: int| 0 <= m < s + o.len() implies t[m] == u[m] by {
        assert(u[m] == t.subrange(0, a)[m]);
    }
    lemma_find_stable(t, u, o, 0, s);
    // the closing tag is found right after the entries
    lemma_close_literals(list);
    lemma_entries_lt(elem, l);
    assert(occurs_at(u, c, a + e.len())) by {
        assert(u.subrange(a + e.len(), a + e.len() + c.len()) =~= t.subrange(b, b + c.len()));
    }
    assert forall|k: int| a <= k < a + e.len() implies !occurs_at(u, c, k) by {
        if occurs_at(u, c, k) {
            assert(u.subrange(k, k + c.len())[0] == c[0]);
            assert(u[k] == '<');
            assert(u[k] == e[k - a]);
            assert(k + 1 - a < e.len());
            assert(u.subrange(k, k + c.len())[1] == c[1]);
            assert(u[k + 1] == e[k + 1 - a]);
        }
    }
    lemma_find_from_is(u, c, a, a + e.len());
    assert(u.subrange(a, a + e.len()) =~= e);
    lemma_parse_entries(elem, l);
}

/// The text with a new list element `<list>` + entries + `</list>` inserted at `p`.
pub open spec fn insert_list(t: Seq<char>, p: int, list: Seq<char>, elem: Seq<char>, l: Seq<Entry>) -> Seq<char> {
    t.subrange(0, p) + list_open(list) + entries_text(elem, l) + list_close(list) + t.subrange(p, t.len() as int)
}

/// Inserting a list element into text that has none gives a list holding the entries.
pub proof fn lemma_insert_list(t: Seq<char>, p: int, list: Seq<char>, elem: Seq<char>, l: Seq<Entry>)
    requires
        valid_name(list),
        valid_name(elem),
        valid_entries(l),
        0 <= p <= t.len(),
        find_from(t, list_open(list), 0) is None,
    ensures
        parse_id_list(insert_list(t, p, list, elem, l), list, elem) == Some(l),
{
    let o = list_open(list);
    let c = list_close(list);
    let e = entries_text(elem, l);
    let pre = t.subrange(0, p);
    let post = o + e + c + t.subrange(p, t.len() as int);
    let u = insert_list(t, p, list, elem, l);
    assert(u =~= pre + post);
    lemma_close_literals(list);
    lemma_find_from(t, o, 0);
    assert forall|k: int| 0 <= k implies !occurs_at(pre, o, k) by {
        if occurs_at(pre, o, k) {
            assert(t.subrange(k, k + o.len()) =~= pre.subrange(k, k + o.len()));
            assert(occurs_at(t, o, k));
        }
    }
    assert(post[0] == '<');
    lemma_no_occurrence_before_lt(pre, post, o);
    assert(occurs_at(u, o, p)) by {
        assert(u.subrange(p, p + o.len()) =~= o);
    }
    lemma_find_from_is(u, o, 0, p);
    // reuse the replacement argument: the inserted element is an existing list now
    let a: int = p + o.len();
    lemma_entries_lt(elem, l);
    assert(occurs_at(u, c, a + e.len())) by {
        assert(u.subrange(a + e.len(), a + e.len() + c.len()) =~= c);
    }
    assert forall|k: int| a <= k < a + e.len() implies !occurs_at(u, c, k) by {
        if occurs_at(u, c, k) {
            assert(u.subrange(k, k + c.len())[0] == c[0]);
            assert(u[k] == e[k - a]);
            assert(u.subrange(k, k + c.len())[1] == c[1]);
            assert(u[k + 1] == e[k + 1 - a]);
        }
    }
    lemma_find_from_is(u, c, a, a + e.len());
    assert(u.subrange(a, a + e.len()) =~= e);
    lemma_parse_entries(elem, l);
}

// ---------------------------------------------------------------------------
// Executable code

/// The view of executable entries.
pub open spec fn entries_view(v: Seq<(Vec<char>, u32)>) -> Seq<Entry> {
    v.map_values(|e: (Vec<char>, u32)| (e.0@, e.1 as nat))
}

proof fn lemma_sub_occurs(v: Seq<char>, i: int, pat: Seq<char>, j: int)
    requires
        0 <= i <= v.len(),
        0 <= j,
    ensures
        occurs_at(v.subrange(i, v.len() as int), pat, j) == occurs_at(v, pat, i + j),
{
    let s = v.subrange(i, v.len() as int);
    if j + pat.len() <= s.len() {
        assert(s.subrange(j, j + pat.len()) =~= v.subrange(i + j, i + j + pat.len()));
    }
}

proof fn lemma_sub_digit_run(v: Seq<char>, i: int, j: int)
    requires
        0 <= i <= v.len(),
        0 <= j,
    ensures
        digit_run(v.subrange(i, v.len() as int), j) == digit_run(v, i + j),
    decreases v.len() - i - j,
{
    let s = v.subrange(i, v.len() as int);
    if j < s.len() {
        assert(s[j] == v[i + j]);
        if is_digit(s[j]) {
            lemma_sub_digit_run(v, i, j + 1);
        }
    }
}

proof fn lemma_sub_rid_run(v: Seq<char>, i: int, j: int)
    requires
        0 <= i <= v.len(),
        0 <= j,
    ensures
        rid_run(v.subrange(i, v.len() as int), j) == rid_run(v, i + j),
    decreases v.len() - i - j,
{
    let s = v.subrange(i, v.len() as int);
    if j < s.len() {
        assert(s[j] == v[i + j]);
        if is_rid_char(s[j]) {
            lemma_sub_rid_run(v, i, j + 1);
        }
    }
}

pub proof fn lemma_digits_value_mono(d: Seq<char>, k: int)
    requires
        0 <= k <= d.len(),
    ensures
        digits_value(d.subrange(0, k)) <= digits_value(d),
    decreases d.len() - k,
{
    if k < d.len() {
        lemma_digits_value_mono(d.drop_last(), k);
        assert(d.drop_last().subrange(0, k) == d.subrange(0, k));
    } else {
        assert(d.subrange(0, k) == d);
    }
}

/// Whether `pat` occurs in `v` at `i`.
pub fn occurs_at_exec(v: &Vec<char>, pat: &Vec<char>, i: usize) -> (r: bool)
    ensures
        r == occurs_at(v@, pat@, i as int),
{
    if i > v.len() || pat.len() > v.len() - i {
        return false;
    }
    let mut k: usize = 0;
    while k < pat.len()
        invariant
            i + pat.len() <= v.len(),
            k <= pat.len(),
            forall|m: int| 0 <= m < k ==> v@[i + m] == pat@[m],
        decreases pat.len() - k,
    {
        if v[i + k] != pat[k] {
            assert(v@.subrange(i as int, i + pat.len())[k as int] != pat@[k as int]);
            return false;
        }
        k = k + 1;
    }
    assert(v@.subrange(i as int, i + pat.len()) =~= pat@);
    true
}

/// The first position at or after `from` where `pat` occurs in `v`.
pub fn find_chars(v: &Vec<char>, pat: &Vec<char>, from: usize) -> (r: Option<usize>)
    ensures
        r matches Some(i) ==> find_from(v@, pat@, from as int) == Some(i as int),
        r is None ==> find_from(v@, pat@, from as int) is None,
{
    if from > v.len() {
        return None;
    }
    let mut i: usize = from;
    while pat.len() <= v.len() - i
        invariant
            from <= i <= v.len(),
            find_from(v@, pat@, from as int) == find_from(v@, pat@, i as int),
        decreases v.len() + 1 - i,
    {
        if occurs_at_exec(v, pat, i) {
            return Some(i);
        }
        if i == v.len() {
            assert(pat@.len() > 0) by {
                if pat@.len() == 0 {
                    assert(v@.subrange(i as int, i as int) =~= pat@);
                }
            }
            return None;
        }
        i = i + 1;
    }
    None
}

fn digits_at(v: &Vec<char>, i: usize) -> (r: (usize, Option<u32>))
    requires
        i <= v.len(),
    ensures
        r.0 as int == digit_run(v@, i as int),
        i + r.0 <= v.len(),
        r.1 matches Some(x) ==> x as nat == digits_value(v@.subrange(i as int, i + r.0)) && x as nat <= max_id(),
        r.1 is None ==> digits_value(v@.subrange(i as int, i + r.0)) > max_id(),
{
    let mut k: usize = i;
    let mut val: u64 = 0;
    let mut over = false;
    while k < v.len() && '0' <= v[k] && v[k] <= '9'
        invariant
            i <= k <= v.len(),
            digit_run(v@, i as int) == (k - i) + digit_run(v@, k as int),
            !over ==> val as nat == digits_value(v@.subrange(i as int, k as int)) && val <= max_id(),
            over ==> digits_value(v@.subrange(i as int, k as int)) > max_id(),
        decreases v.len() - k,
    {
        let ghost prev = v@.subrange(i as int, k as int);
        assert(v@.subrange(i as int, k + 1).drop_last() == prev);
        assert(v@.subrange(i as int, k + 1).last() == v@[k as int]);
        let d: u64 = (v[k] as u32 - '0' as u32) as u64;
        if !over {
            let nv = val * 10 + d;
            if nv > 4294967295 {
                over = true;
            } else {
                val = nv;
            }
        } else {
            proof {
                lemma_digits_value_mono(v@.subrange(i as int, k + 1), (k - i) as int);
                assert(v@.subrange(i as int, k + 1).subrange(0, (k - i) as int) == prev);
            }
        }
        k = k + 1;
    }
    if over { (k - i, None) } else { (k - i, Some(val as u32)) }
}

fn rid_chars_at(v: &Vec<char>, i: usize) -> (r: usize)
    requires
        i <= v.len(),
    ensures
        r as int == rid_run(v@, i as int),
        i + r <= v.len(),
{
    let mut k: usize = i;
    while k < v.len() && (('a' <= v[k] && v[k] <= 'z') || ('A' <= v[k] && v[k] <= 'Z') || ('0' <= v[k] && v[k] <= '9'))
        invariant
            i <= k <= v.len(),
            rid_run(v@, i as int) == (k - i) + rid_run(v@, k as int),
        decreases v.len() - k,
    {
        k = k + 1;
    }
    k - i
}

fn sub_chars(v: &Vec<char>, a: usize, b: usize) -> (r: Vec<char>)
    requires
        a <= b <= v.len(),
    ensures
        r@ == v@.subrange(a as int, b as int),
{
    let mut r: Vec<char> = Vec::new();
    let mut k: usize = a;
    while k < b
        invariant
            a <= k <= b <= v.len(),
            r@ == v@.subrange(a as int, k as int),
        decreases b - k,
    {
        r.push(v[k]);
        assert(v@.subrange(a as int, k + 1) == v@.subrange(a as int, k as int).push(v@[k as int]));
        k = k + 1;
    }
    r
}

/// Reads one entry of `v` at `i` (the text from `i` to the end).
fn parse_entry_at(v: &Vec<char>, i: usize, elem: &Vec<char>) -> (r: Option<((Vec<char>, u32), usize)>)
    requires
        i <= v.len(),
    ensures
        match parse_entry(elem@, v@.subrange(i as int, v.len() as int)) {
            Some((e, n)) => r matches Some((x, m)) && x.0@ == e.0 && x.1 as nat == e.1 && m as int == n,
            None => r is None,
        },
{
    let ghost s = v@.subrange(i as int, v.len() as int);
    let mut head: Vec<char> = Vec::new();
    head.push('<');
    let mut k: usize = 0;
    while k < elem.len()
        invariant
            k <= elem.len(),
            head@ == seq!['<'] + elem@.subrange(0, k as int),
        decreases elem.len() - k,
    {
        head.push(elem[k]);
        assert(seq!['<'] + elem@.subrange(0, k + 1) =~= (seq!['<'] + elem@.subrange(0, k as int)).push(elem@[k as int]));
        k = k + 1;
    }
    let tail_id = crate::text::str_to_chars(" id=\"");
    let mut t2: usize = 0;
    while t2 < tail_id.len()
        invariant
            t2 <= tail_id.len(),
            head@ == seq!['<'] + elem@ + tail_id@.subrange(0, t2 as int),
        decreases tail_id.len() - t2,
    {
        head.push(tail_id[t2]);
        assert(seq!['<'] + elem@ + tail_id@.subrange(0, t2 + 1) =~= (seq!['<'] + elem@ + tail_id@.subrange(0, t2 as int)).push(tail_id@[t2 as int]));
        t2 = t2 + 1;
    }
    assert(elem@.subrange(0, elem.len() as int) == elem@);
    assert(tail_id@.subrange(0, tail_id.len() as int) == tail_id@);
    assert(head@ == entry_head(elem@));
    proof { lemma_sub_occurs(v@, i as int, head@, 0); }
    if !occurs_at_exec(v, &head, i) {
        return None;
    }
    let a: usize = i + head.len();
    let (nd, val) = digits_at(v, a);
    proof {
        lemma_sub_digit_run(v@, i as int, head.len() as int);
        assert(s.subrange(head.len() as int, head.len() + nd) =~= v@.subrange(a as int, a + nd));
    }
    let b: usize = a + nd;
    let mid = crate::text::str_to_chars("\" r:id=\"");
    proof { lemma_sub_occurs(v@, i as int, mid@, (b - i) as int); }
    if nd == 0 || val.is_none() || !occurs_at_exec(v, &mid, b) {
        return None;
    }
    let c: usize = b + mid.len();
    let nr: usize = rid_chars_at(v, c);
    proof {
        lemma_literals();
        lemma_sub_rid_run(v@, i as int, (c - i) as int);
    }
    let d: usize = c + nr;
    let tail = crate::text::str_to_chars("\"/>");
    proof { lemma_sub_occurs(v@, i as int, tail@, (d - i) as int); }
    if nr == 0 || !occurs_at_exec(v, &tail, d) {
        return None;
    }
    let rid = sub_chars(v, c, d);
    proof {
        assert(s.subrange((c - i) as int, (d - i) as int) =~= v@.subrange(c as int, d as int));
    }
    Some(((rid, val.unwrap()), d + tail.len() - i))
}

proof fn lemma_runs_nonneg(s: Seq<char>, i: int)
    ensures
        digit_run(s, i) >= 0,
        rid_run(s, i) >= 0,
    decreases s.len() - i,
{
    if 0 <= i < s.len() {
        lemma_runs_nonneg(s, i + 1);
    }
}

proof fn lemma_parse_entry_len(elem: Seq<char>, s: Seq<char>)
    ensures
        parse_entry(elem, s) matches Some((e, n)) ==> 0 < n <= s.len(),
{
    lemma_literals();
    let a = entry_head(elem).len() as int;
    lemma_runs_nonneg(s, a);
    let b = a + digit_run(s, a);
    lemma_runs_nonneg(s, b + 8);
}

/// Reads the entries of `v` between `a` and `b`.
fn parse_entries_exec(v: &Vec<char>, a: usize, b: usize, elem: &Vec<char>) -> (r: Option<Vec<(Vec<char>, u32)>>)
    requires
        a <= b <= v.len(),
    ensures
        match parse_entries(elem@, v@.subrange(a as int, b as int)) {
            Some(l) => r matches Some(x) && entries_view(x@) == l,
            None => r is None,
        },
{
    let region = sub_chars(v, a, b);
    let mut out: Vec<(Vec<char>, u32)> = Vec::new();
    let mut i: usize = 0;
    assert(region@.subrange(0, region.len() as int) =~= region@);
    while i < region.len()
        invariant
            i <= region.len(),
            region@ == v@.subrange(a as int, b as int),
            parse_entries(elem@, region@) == match parse_entries(elem@, region@.subrange(i as int, region.len() as int)) {
                Some(rest) => Some(entries_view(out@) + rest),
                None => None,
            },
        decreases region.len() - i,
    {
        let ghost s = region@.subrange(i as int, region.len() as int);
        proof { lemma_parse_entry_len(elem@, s); }
        match parse_entry_at(&region, i, elem) {
            Some((e, n)) => {
                assert(s.subrange(n as int, s.len() as int) =~= region@.subrange(i + n, region.len() as int));
                let ghost ev = (e.0@, e.1 as nat);
                let ghost prev = entries_view(out@);
                out.push(e);
                assert(entries_view(out@) =~= prev.push(ev));
                assert forall|rest: Seq<Entry>| true implies prev + (seq![ev] + rest) =~= prev.push(ev) + rest by {}
                i = i + n;
            },
            None => {
                return None;
            },
        }
    }
    assert(region@.subrange(i as int, region.len() as int) =~= Seq::<char>::empty());
    assert(entries_view(out@) + Seq::<Entry>::empty() =~= entries_view(out@));
    Some(out)
}

/// Reads the id list `list` (entries named `elem`) of the text `v`.
pub fn read_id_list(v: &Vec<char>, list: &str, elem: &str) -> (r: Option<Vec<(Vec<char>, u32)>>)
    ensures
        match parse_id_list(v@, list@, elem@) {
            Some(l) => r matches Some(x) && entries_view(x@) == l,
            None => r is None,
        },
{
    let (o, c) = list_tags(list);
    let e = crate::text::str_to_chars(elem);
    match find_chars(v, &o, 0) {
        None => {
            let out: Vec<(Vec<char>, u32)> = Vec::new();
            assert(entries_view(out@) =~= Seq::<Entry>::empty());
            Some(out)
        },
        Some(s) => {
            proof { lemma_find_from(v@, o@, 0); }
            assert(s + o@.len() <= v@.len());
            assert(o@.len() == o.len());
            assert(v@.len() == v.len());
            match find_chars(v, &c, s + o.len()) {
                Some(end) => {
                    proof { lemma_find_from(v@, c@, (s + o.len()) as int); }
                    parse_entries_exec(v, s + o.len(), end, &e)
                },
                None => None,
            }
        },
    }
}

/// The opening and closing tags of a list element.
pub fn list_tags(list: &str) -> (r: (Vec<char>, Vec<char>))
    ensures
        r.0@ == list_open(list@),
        r.1@ == list_close(list@),
{
    let l = crate::text::str_to_chars(list);
    let mut o: Vec<char> = Vec::new();
    o.push('<');
    let mut c: Vec<char> = Vec::new();
    c.push('<');
    c.push('/');
    let mut k: usize = 0;
    while k < l.len()
        invariant
            k <= l.len(),
            o@ == seq!['<'] + l@.subrange(0, k as int),
            c@ == seq!['<', '/'] + l@.subrange(0, k as int),
        decreases l.len() - k,
    {
        o.push(l[k]);
        c.push(l[k]);
        assert(seq!['<'] + l@.subrange(0, k + 1) =~= (seq!['<'] + l@.subrange(0, k as int)).push(l@[k as int]));
        assert(seq!['<', '/'] + l@.subrange(0, k + 1) =~= (seq!['<', '/'] + l@.subrange(0, k as int)).push(l@[k as int]));
        k = k + 1;
    }
    o.push('>');
    c.push('>');
    assert(l@.subrange(0, l.len() as int) == l@);
    assert(o@ =~= list_open(list@));
    assert(c@ =~= list_close(list@));
    (o, c)
}

/// The text after rewriting the list element `list` to hold `l`: the content of an
/// existing element is replaced; without one, a new element is inserted before the first
/// occurrence of `m1`, else of `m2`; `None` when the element is not closed or neither
/// marker occurs.
pub open spec fn id_list_rewritten(
    t: Seq<char>,
    list: Seq<char>,
    elem: Seq<char>,
    l: Seq<Entry>,
    m1: Seq<char>,
    m2: Seq<char>,
) -> Option<Seq<char>> {
    match find_from(t, list_open(list), 0) {
        Some(_) => match list_bounds(t, list) {
            Some((a, b)) => Some(replace_list(t, a, b, elem, l)),
            None => None,
        },
        None => match find_from(t, m1, 0) {
            Some(p) => Some(insert_list(t, p, list, elem, l)),
            None => match find_from(t, m2, 0) {
                Some(p) => Some(insert_list(t, p, list, elem, l)),
                None => None,
            },
        },
    }
}

/// A rewritten list reads back as exactly the written entries.
pub proof fn lemma_rewrite_reads_back(
    t: Seq<char>,
    list: Seq<char>,
    elem: Seq<char>,
    l: Seq<Entry>,
    m1: Seq<char>,
    m2: Seq<char>,
)
    requires
        valid_name(list),
        valid_name(elem),
        valid_entries(l),
    ensures
        id_list_rewritten(t, list, elem, l, m1, m2) matches Some(u) ==> parse_id_list(u, list, elem) == Some(l),
{
    match find_from(t, list_open(list), 0) {
        Some(_) => {
            if list_bounds(t, list) is Some {
                lemma_replace_list(t, list, elem, l);
                let (a, b) = list_bounds(t, list).unwrap();
                let u = replace_list(t, a, b, elem, l);
                lemma_find_from(u, list_open(list), 0);
            }
        },
        None => {
            lemma_find_from(t, m1, 0);
            lemma_find_from(t, m2, 0);
            match find_from(t, m1, 0) {
                Some(p) => lemma_insert_list(t, p, list, elem, l),
                None => match find_from(t, m2, 0) {
                    Some(p) => lemma_insert_list(t, p, list, elem, l),
                    None => {},
                },
            }
        },
    }
}

proof fn lemma_entries_text_push(elem: Seq<char>, l: Seq<Entry>, e: Entry)
    ensures
        entries_text(elem, l.push(e)) == entries_text(elem, l) + entry_text(elem, e),
    decreases l.len(),
{
    if l.len() == 0 {
        assert(l.push(e).drop_first() =~= Seq::<Entry>::empty());
        assert(l.push(e)[0] == e);
        assert(entries_text(elem, Seq::<Entry>::empty()) == Seq::<char>::empty());
        assert(entries_text(elem, l.push(e)) == entry_text(elem, e) + entries_text(elem, l.push(e).drop_first()));
        assert(entries_text(elem, l.push(e)) =~= entry_text(elem, e) + Seq::<char>::empty());
        assert(entries_text(elem, l) == Seq::<char>::empty());
    } else {
        assert(l.push(e)[0] == l[0]);
        assert(l.push(e).drop_first() =~= l.drop_first().push(e));
        lemma_entries_text_push(elem, l.drop_first(), e);
        assert(entries_text(elem, l.push(e)) =~= entries_text(elem, l) + entry_text(elem, e));
    }
}

/// Appends the characters of a string slice.
pub fn push_str_chars(out: &mut Vec<char>, s: &str)
    ensures
        final(out)@ == old(out)@ + s@,
{
    let c = crate::text::str_to_chars(s);
    push_vec_chars(out, &c);
}

/// Appends characters.
pub fn push_vec_chars(out: &mut Vec<char>, v: &Vec<char>)
    ensures
        final(out)@ == old(out)@ + v@,
{
    let mut i: usize = 0;
    while i < v.len()
        invariant
            i <= v.len(),
            out@ == old(out)@ + v@.subrange(0, i as int),
        decreases v.len() - i,
    {
        out.push(v[i]);
        assert(v@.subrange(0, i as int + 1) == v@.subrange(0, i as int).push(v@[i as int]));
        assert(out@ =~= old(out)@ + v@.subrange(0, i as int + 1));
        i = i + 1;
    }
    assert(v@.subrange(0, i as int) == v@);
}

/// Appends the decimal digits of `n`.
pub fn push_digit_chars(out: &mut Vec<char>, n: u64)
    ensures
        final(out)@ == old(out)@ + nat_digits(n as nat),
{
    let s = {
        let mut s = String::new();
        crate::text::push_u64(&mut s, n);
        s
    };
    push_str_chars(out, s.as_str());
}

fn write_entry(out: &mut Vec<char>, elem: &Vec<char>, e: &(Vec<char>, u32))
    ensures
        final(out)@ == old(out)@ + entry_text(elem@, (e.0@, e.1 as nat)),
{
    out.push('<');
    push_vec_chars(out, elem);
    push_str_chars(out, " id=\"");
    push_digit_chars(out, e.1 as u64);
    push_str_chars(out, "\" r:id=\"");
    push_vec_chars(out, &e.0);
    push_str_chars(out, "\"/>");
    assert(out@ =~= old(out)@ + entry_text(elem@, (e.0@, e.1 as nat)));
}

/// Appends the text of the entries.
pub fn write_entries(out: &mut Vec<char>, elem: &Vec<char>, l: &Vec<(Vec<char>, u32)>)
    ensures
        final(out)@ == old(out)@ + entries_text(elem@, entries_view(l@)),
{
    let mut i: usize = 0;
    assert(entries_view(l@).take(0) =~= Seq::<Entry>::empty());
    assert(old(out)@ + entries_text(elem@, Seq::<Entry>::empty()) =~= old(out)@);
    while i < l.len()
        invariant
            i <= l.len(),
            out@ == old(out)@ + entries_text(elem@, entries_view(l@).take(i as int)),
        decreases l.len() - i,
    {
        let ghost lv = entries_view(l@);
        write_entry(out, elem, &l[i]);
        proof {
            lemma_entries_text_push(elem@, lv.take(i as int), lv[i as int]);
            assert(lv.take(i as int + 1) =~= lv.take(i as int).push(lv[i as int]));
        }
        i = i + 1;
    }
    assert(entries_view(l@).take(i as int) =~= entries_view(l@));
}

fn copy_range(out: &mut Vec<char>, v: &Vec<char>, a: usize, b: usize)
    requires
        a <= b <= v.len(),
    ensures
        final(out)@ == old(out)@ + v@.subrange(a as int, b as int),
{
    let mut k = a;
    while k < b
        invariant
            a <= k <= b <= v.len(),
            out@ == old(out)@ + v@.subrange(a as int, k as int),
        decreases b - k,
    {
        out.push(v[k]);
        assert(v@.subrange(a as int, k + 1) == v@.subrange(a as int, k as int).push(v@[k as int]));
        assert(out@ =~= old(out)@ + v@.subrange(a as int, k + 1));
        k = k + 1;
    }
}

fn insert_list_exec(t: &Vec<char>, p: usize, list: &str, elem: &Vec<char>, l: &Vec<(Vec<char>, u32)>) -> (r: Vec<char>)
    requires
        p <= t.len(),
    ensures
        r@ == insert_list(t@, p as int, list@, elem@, entries_view(l@)),
{
    let (o, c) = list_tags(list);
    let mut out: Vec<char> = Vec::new();
    copy_range(&mut out, t, 0, p);
    push_vec_chars(&mut out, &o);
    write_entries(&mut out, elem, l);
    push_vec_chars(&mut out, &c);
    copy_range(&mut out, t, p, t.len());
    assert(out@ =~= insert_list(t@, p as int, list@, elem@, entries_view(l@)));
    out
}

/// Rewrites the list element `list` of `t` to hold `l` (see `id_list_rewritten`).
pub fn rewrite_id_list(
    t: &Vec<char>,
    list: &str,
    elem: &str,
    l: &Vec<(Vec<char>, u32)>,
    m1: &str,
    m2: &str,
) -> (r: Option<Vec<char>>)
    ensures
        match id_list_rewritten(t@, list@, elem@, entries_view(l@), m1@, m2@) {
            Some(u) => r matches Some(x) && x@ == u,
            None => r is None,
        },
{
    let (o, c) = list_tags(list);
    let e = crate::text::str_to_chars(elem);
    match find_chars(t, &o, 0) {
        Some(s) => {
            proof { lemma_find_from(t@, o@, 0); }
            assert(o@.len() == o.len());
            assert(t@.len() == t.len());
            match find_chars(t, &c, s + o.len()) {
                Some(b) => {
                    proof { lemma_find_from(t@, c@, (s + o.len()) as int); }
                    let a = s + o.len();
                    let mut out: Vec<char> = Vec::new();
                    copy_range(&mut out, t, 0, a);
                    write_entries(&mut out, &e, l);
                    copy_range(&mut out, t, b, t.len());
                    assert(out@ =~= replace_list(t@, a as int, b as int, elem@, entries_view(l@)));
                    Some(out)
                },
                None => None,
            }
        },
        None => {
            let m1c = crate::text::str_to_chars(m1);
            match find_chars(t, &m1c, 0) {
                Some(p) => {
                    proof { lemma_find_from(t@, m1@, 0); }
                    Some(insert_list_exec(t, p, list, &e, l))
                },
                None => {
                    let m2c = crate::text::str_to_chars(m2);
                    match find_chars(t, &m2c, 0) {
                        Some(p) => {
                            proof { lemma_find_from(t@, m2@, 0); }
                            Some(insert_list_exec(t, p, list, &e, l))
                        },
                        None => None,
                    }
                },
            }
        },
    }
}

proof fn lemma_rid_run_chars(s: Seq<char>, i: int)
    requires
        0 <= i,
    ensures
        rid_run(s, i) >= 0,
        i + rid_run(s, i) <= s.len() || rid_run(s, i) == 0,
        forall|k: int| i <= k < i + rid_run(s, i) ==> is_rid_char(#[trigger] s[k]),
    decreases s.len() - i,
{
    if i < s.len() && is_rid_char(s[i]) {
        lemma_rid_run_chars(s, i + 1);
    }
}

proof fn lemma_parse_entries_valid(elem: Seq<char>, s: Seq<char>)
    ensures
        parse_entries(elem, s) matches Some(l) ==> valid_entries(l),
    decreases s.len(),
{
    if s.len() > 0 {
        if let Some((e, n)) = parse_entry(elem, s) {
            if 0 < n <= s.len() {
                let rest = s.subrange(n, s.len() as int);
                lemma_parse_entries_valid(elem, rest);
                if let Some(r) = parse_entries(elem, rest) {
                    let h = entry_head(elem);
                    let a: int = h.len() as int;
                    let nd: int = digit_run(s, a);
                    let b: int = a + nd;
                    let c: int = b + entry_mid().len();
                    lemma_rid_run_chars(s, c);
                    let d: int = c + rid_run(s, c);
                    assert(e.0 == s.subrange(c, d));
                    assert forall|k: int| 0 <= k < e.0.len() implies is_rid_char(#[trigger] e.0[k]) by {
                        assert(e.0[k] == s[c + k]);
                    }
                    assert(valid_entry(e));
                    let l = seq![e] + r;
                    assert forall|k: int| 0 <= k < l.len() implies valid_entry(#[trigger] l[k]) by {
                        if k > 0 {
                            assert(l[k] == r[k - 1]);
                        }
                    }
                }
            }
        }
    }
}

/// The entries read from a list can be written back: each is valid.
pub proof fn lemma_parse_id_list_valid(t: Seq<char>, list: Seq<char>, elem: Seq<char>)
    ensures
        parse_id_list(t, list, elem) matches Some(l) ==> valid_entries(l),
{
    if let Some((a, b)) = list_bounds(t, list) {
        lemma_parse_entries_valid(elem, t.subrange(a, b));
    }
}

} // verus!
