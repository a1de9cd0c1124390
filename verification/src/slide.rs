//! The slide lists of presentation.xml (`<p:sldIdLst>`, `<p:sldMasterIdLst>`), the
//! slide size, and the XML of new slides, notes slides and notes masters.
use vstd::prelude::*;
use vstd::utf8::{decode_utf8, encode_utf8, valid_utf8};
use crate::error::PptxError;
use crate::scan::{digit_run, digits_value, find_from, is_digit, lemma_digit_run, lemma_nat_digits, occurs_at};
use crate::text::int_text;
use crate::edit::{inserted, removed_element};
use crate::id_list::{entries_view, id_list_rewritten, lemma_rewrite_reads_back, parse_id_list, read_id_list, rewrite_id_list, valid_entries, valid_name, Entry};

verus! {

// ---------------------------------------------------------------------------
// Bytes and text

/// The text of an XML part: its characters when its bytes are valid UTF-8.
pub open spec fn blob_text(b: Seq<u8>) -> Option<Seq<char>> {
    if valid_utf8(b) { Some(decode_utf8(b)) } else { None }
}

/// Bytes written from text read back as that text.
pub proof fn lemma_blob_text_encoded(t: Seq<char>)
    ensures
        blob_text(encode_utf8(t)) == Some(t),
{
    vstd::utf8::encode_utf8_valid_utf8(t);
    vstd::utf8::encode_utf8_decode_utf8(t);
}

/// The characters of an XML part; an error when its bytes are not UTF-8.
pub fn blob_chars(b: &[u8]) -> (r: Result<Vec<char>, PptxError>)
    ensures
        match blob_text(b@) {
            Some(t) => r matches Ok(v) && v@ == t,
            None => r matches Err(e) && e is InvalidXml,
        },
{
    match crate::text::str_from_utf8(b) {
        Some(s) => Ok(crate::text::str_to_chars(s)),
        None => Err(PptxError::InvalidXml("part is not UTF-8".to_owned())),
    }
}

/// The UTF-8 bytes of the given characters.
pub fn chars_blob(v: &Vec<char>) -> (r: Vec<u8>)
    ensures
        r@ == encode_utf8(v@),
        blob_text(r@) == Some(v@),
{
    proof { lemma_blob_text_encoded(v@); }
    crate::text::string_into_bytes(crate::text::chars_to_string(v))
}

// ---------------------------------------------------------------------------
// The slide list and the slide master list

/// `p:sldIdLst`
pub open spec fn sld_list() -> Seq<char> {
    "p:sldIdLst"@
}

/// `p:sldId`
pub open spec fn sld_elem() -> Seq<char> {
    "p:sldId"@
}

/// `p:sldMasterIdLst`
pub open spec fn master_list() -> Seq<char> {
    "p:sldMasterIdLst"@
}

/// `p:sldMasterId`
pub open spec fn master_elem() -> Seq<char> {
    "p:sldMasterId"@
}

/// Where a new slide list goes when there is none: before the slide size, else before
/// the end of the presentation element.
pub open spec fn list_marker1() -> Seq<char> {
    "<p:sldSz"@
}

/// The second place a new slide list may go.
pub open spec fn list_marker2() -> Seq<char> {
    "</p:presentation>"@
}

/// The slide entries (relationship id, slide id) of presentation.xml, in order; `None`
/// when the part is not UTF-8 or the list cannot be read.
pub open spec fn slide_entries(b: Seq<u8>) -> Option<Seq<Entry>> {
    match blob_text(b) {
        Some(t) => parse_id_list(t, sld_list(), sld_elem()),
        None => None,
    }
}

/// The slide master entries of presentation.xml, in order.
pub open spec fn master_entries(b: Seq<u8>) -> Option<Seq<Entry>> {
    match blob_text(b) {
        Some(t) => parse_id_list(t, master_list(), master_elem()),
        None => None,
    }
}

/// presentation.xml with its slide list rewritten to hold `l`.
pub open spec fn with_slide_entries(b: Seq<u8>, l: Seq<Entry>) -> Option<Seq<u8>> {
    match blob_text(b) {
        Some(t) => match id_list_rewritten(t, sld_list(), sld_elem(), l, list_marker1(), list_marker2()) {
            Some(u) => Some(encode_utf8(u)),
            None => None,
        },
        None => None,
    }
}

proof fn lemma_names()
    ensures
        valid_name(sld_list()),
        valid_name(sld_elem()),
{
    reveal_strlit("p:sldIdLst");
    reveal_strlit("p:sldId");
    assert(valid_name(sld_list()));
    assert(valid_name(sld_elem()));
}

/// A slide list that was written reads back as exactly the written entries.
pub proof fn lemma_slide_entries_written(b: Seq<u8>, l: Seq<Entry>)
    requires
        valid_entries(l),
    ensures
        with_slide_entries(b, l) matches Some(u) ==> slide_entries(u) == Some(l),
{
    lemma_names();
    if let Some(t) = blob_text(b) {
        lemma_rewrite_reads_back(t, sld_list(), sld_elem(), l, list_marker1(), list_marker2());
        if let Some(u) = id_list_rewritten(t, sld_list(), sld_elem(), l, list_marker1(), list_marker2()) {
            lemma_blob_text_encoded(u);
        }
    }
}

/// Reads the slide entries of presentation.xml.
pub fn parse_slide_ids(blob: &[u8]) -> (r: Result<Vec<(Vec<char>, u32)>, PptxError>)
    ensures
        match slide_entries(blob@) {
            Some(l) => r matches Ok(v) && entries_view(v@) == l,
            None => r is Err,
        },
{
    let t = blob_chars(blob)?;
    match read_id_list(&t, "p:sldIdLst", "p:sldId") {
        Some(v) => Ok(v),
        None => Err(PptxError::InvalidXml("unreadable p:sldIdLst".to_owned())),
    }
}

/// Reads the slide master entries of presentation.xml.
pub fn parse_slide_master_ids(blob: &[u8]) -> (r: Result<Vec<(Vec<char>, u32)>, PptxError>)
    ensures
        match master_entries(blob@) {
            Some(l) => r matches Ok(v) && entries_view(v@) == l,
            None => r is Err,
        },
{
    let t = blob_chars(blob)?;
    match read_id_list(&t, "p:sldMasterIdLst", "p:sldMasterId") {
        Some(v) => Ok(v),
        None => Err(PptxError::InvalidXml("unreadable p:sldMasterIdLst".to_owned())),
    }
}

fn write_slide_ids(blob: &[u8], l: &Vec<(Vec<char>, u32)>) -> (r: Result<Vec<u8>, PptxError>)
    ensures
        match with_slide_entries(blob@, entries_view(l@)) {
            Some(u) => r matches Ok(x) && x@ == u,
            None => r is Err,
        },
{
    let t = blob_chars(blob)?;
    match rewrite_id_list(&t, "p:sldIdLst", "p:sldId", l, "<p:sldSz", "</p:presentation>") {
        Some(u) => Ok(chars_blob(&u)),
        None => Err(PptxError::InvalidXml("presentation XML has no place for p:sldIdLst".to_owned())),
    }
}

// ---------------------------------------------------------------------------
// Changing the slide list

/// The entries without those whose relationship id is `rid`.
pub open spec fn without_rid(l: Seq<Entry>, rid: Seq<char>) -> Seq<Entry>
    decreases l.len(),
{
    if l.len() == 0 {
        l
    } else {
        let w = without_rid(l.drop_last(), rid);
        if l.last().0 == rid { w } else { w.push(l.last()) }
    }
}

/// The entries with the one at `from` moved to position `to`.
pub open spec fn moved(l: Seq<Entry>, from: int, to: int) -> Seq<Entry> {
    l.remove(from).insert(to, l[from])
}

/// presentation.xml with `l` computed from its current slide entries by `f`.
pub open spec fn slide_list_changed(b: Seq<u8>, f: spec_fn(Seq<Entry>) -> Seq<Entry>) -> Option<Seq<u8>> {
    match slide_entries(b) {
        Some(l) => with_slide_entries(b, f(l)),
        None => None,
    }
}

/// Appends the entry (`r_id`, `id`) to the slide list.
pub fn add_slide_id_to_presentation_xml(blob: &[u8], r_id: &str, id: u32) -> (r: Result<Vec<u8>, PptxError>)
    ensures
        match slide_list_changed(blob@, |l: Seq<Entry>| l.push((r_id@, id as nat))) {
            Some(u) => r matches Ok(x) && x@ == u,
            None => r is Err,
        },
{
    let mut l = parse_slide_ids(blob)?;
    let ghost l0 = l@;
    l.push((crate::text::str_to_chars(r_id), id));
    assert(entries_view(l@) =~= entries_view(l0).push((r_id@, id as nat)));
    write_slide_ids(blob, &l)
}

/// Removes every entry whose relationship id is `r_id` from the slide list.
pub fn remove_slide_id_from_presentation_xml(blob: &[u8], r_id: &str) -> (r: Result<Vec<u8>, PptxError>)
    ensures
        match slide_list_changed(blob@, |l: Seq<Entry>| without_rid(l, r_id@)) {
            Some(u) => r matches Ok(x) && x@ == u,
            None => r is Err,
        },
{
    let l = parse_slide_ids(blob)?;
    let rid = crate::text::str_to_chars(r_id);
    let mut out: Vec<(Vec<char>, u32)> = Vec::new();
    let mut i: usize = 0;
    while i < l.len()
        invariant
            i <= l.len(),
            rid@ == r_id@,
            entries_view(out@) == without_rid(entries_view(l@).take(i as int), r_id@),
        decreases l.len() - i,
    {
        let ghost lv = entries_view(l@);
        assert(lv.take(i as int + 1).drop_last() =~= lv.take(i as int));
        assert(lv.take(i as int + 1).last() == lv[i as int]);
        if !crate::opc::uri::vec_chars_eq(&l[i].0, &rid) {
            let ghost before = out@;
            out.push((crate::opc::uri::copy_chars(&l[i].0), l[i].1));
            assert(entries_view(out@) =~= entries_view(before).push(lv[i as int]));
        }
        i = i + 1;
    }
    assert(entries_view(l@).take(i as int) =~= entries_view(l@));
    write_slide_ids(blob, &out)
}

/// Moves the slide entry at `from` to position `to`; an error when either is out of range.
pub fn reorder_slide_in_presentation_xml(blob: &[u8], from: usize, to: usize) -> (r: Result<Vec<u8>, PptxError>)
    ensures
        match slide_entries(blob@) {
            Some(l) => if from < l.len() && to < l.len() {
                match with_slide_entries(blob@, moved(l, from as int, to as int)) {
                    Some(u) => r matches Ok(x) && x@ == u,
                    None => r is Err,
                }
            } else {
                r is Err
            },
            None => r is Err,
        },
{
    let mut l = parse_slide_ids(blob)?;
    if from >= l.len() || to >= l.len() {
        return Err(PptxError::InvalidXml("slide index out of range".to_owned()));
    }
    let ghost l0 = entries_view(l@);
    let e = l.remove(from);
    l.insert(to, e);
    assert(entries_view(l@) =~= moved(l0, from as int, to as int));
    write_slide_ids(blob, &l)
}

// ---------------------------------------------------------------------------
// Slide ids

/// The largest slide id a presentation may use.
pub open spec fn max_slide_id() -> nat {
    2147483647
}

/// Whether some entry has id `id`.
pub open spec fn id_used(l: Seq<Entry>, id: nat) -> bool {
    exists|i: int| 0 <= i < l.len() && #[trigger] l[i].1 == id
}

/// The largest id among the entries, and at least 255.
pub open spec fn max_entry_id(l: Seq<Entry>) -> nat
    decreases l.len(),
{
    if l.len() == 0 {
        255
    } else {
        let m = max_entry_id(l.drop_last());
        if l.last().1 > m { l.last().1 } else { m }
    }
}

/// The id of a new slide: one more than the largest id in use (and at least 256) when
/// that is at most `max_slide_id()`; else the smallest unused id from 256 up; `None` when
/// every id from 256 to `max_slide_id()` is taken.
pub open spec fn next_slide_id_ok(l: Seq<Entry>, r: Option<u32>) -> bool {
    if max_entry_id(l) + 1 <= max_slide_id() {
        r == Some((max_entry_id(l) + 1) as u32)
    } else {
        match r {
            Some(c) => 256 <= c <= max_slide_id() && !id_used(l, c as nat) && forall|d: nat|
                256 <= d < c ==> id_used(l, d),
            None => forall|d: nat| 256 <= d <= max_slide_id() ==> id_used(l, d),
        }
    }
}

/// The smallest id from 256 up that no entry uses, when there is one up to `max_slide_id()`.
pub open spec fn smallest_unused(l: Seq<Entry>) -> Option<nat> {
    if exists|c: nat| 256 <= c <= max_slide_id() && !id_used(l, c) {
        Some(
            choose|c: nat|
                256 <= c <= max_slide_id() && !id_used(l, c) && forall|d: nat| 256 <= d < c ==> id_used(l, d),
        )
    } else {
        None
    }
}

/// The id of a new slide: one more than the largest id in use (and at least 256) when
/// that is at most `max_slide_id()`; else the smallest unused id from 256 up.
pub open spec fn new_slide_id(l: Seq<Entry>) -> Option<nat> {
    if max_entry_id(l) + 1 <= max_slide_id() {
        Some((max_entry_id(l) + 1) as nat)
    } else {
        smallest_unused(l)
    }
}

proof fn lemma_smallest_unused(l: Seq<Entry>, c: nat)
    requires
        256 <= c <= max_slide_id(),
        !id_used(l, c),
        forall|d: nat| 256 <= d < c ==> id_used(l, d),
    ensures
        smallest_unused(l) == Some(c),
{
    let w = choose|c: nat|
        256 <= c <= max_slide_id() && !id_used(l, c) && forall|d: nat| 256 <= d < c ==> id_used(l, d);
    assert(256 <= w <= max_slide_id() && !id_used(l, w) && forall|d: nat| 256 <= d < w ==> id_used(l, d));
    if w < c {
        assert(id_used(l, w));
    }
    if c < w {
        assert(id_used(l, c));
    }
}

/// The id for a new slide (see `new_slide_id`).
pub fn next_slide_id(ids: &Vec<(Vec<char>, u32)>) -> (r: Option<u32>)
    ensures
        next_slide_id_ok(entries_view(ids@), r),
        match new_slide_id(entries_view(ids@)) {
            Some(c) => r matches Some(x) && x as nat == c,
            None => r is None,
        },
{
    let ghost l = entries_view(ids@);
    let mut m: u32 = 255;
    let mut i: usize = 0;
    while i < ids.len()
        invariant
            i <= ids.len(),
            l == entries_view(ids@),
            m == max_entry_id(l.take(i as int)),
        decreases ids.len() - i,
    {
        assert(l.take(i as int + 1).drop_last() =~= l.take(i as int));
        assert(l.take(i as int + 1).last() == l[i as int]);
        if ids[i].1 > m {
            m = ids[i].1;
        }
        i = i + 1;
    }
    assert(l.take(i as int) =~= l);
    if m < 2147483647 {
        return Some(m + 1);
    }
    let mut c: u32 = 256;
    while c <= 2147483647
        invariant
            256 <= c <= 2147483648,
            l == entries_view(ids@),
            max_entry_id(l) + 1 > max_slide_id(),
            forall|d: nat| 256 <= d < c ==> id_used(l, d),
        decreases 2147483648 - c,
    {
        let mut used = false;
        let mut k: usize = 0;
        while k < ids.len()
            invariant
                k <= ids.len(),
                l == entries_view(ids@),
                !used ==> forall|j: int| 0 <= j < k ==> l[j].1 != c,
                used ==> id_used(l, c as nat),
            decreases ids.len() - k,
        {
            if ids[k].1 == c {
                assert(l[k as int].1 == c);
                used = true;
            }
            k = k + 1;
        }
        if !used {
            proof { lemma_smallest_unused(l, c as nat); }
            return Some(c);
        }
        c = c + 1;
    }
    None
}

// ---------------------------------------------------------------------------
// Slide size: `<p:sldSz cx="W" cy="H" .../>`

/// `<p:sldSz`
pub open spec fn size_tag() -> Seq<char> {
    "<p:sldSz"@
}

/// `<p:sldSz cx="`
pub open spec fn size_head() -> Seq<char> {
    "<p:sldSz cx=\""@
}

/// `" cy="`
pub open spec fn size_mid() -> Seq<char> {
    "\" cy=\""@
}

/// `"/>`
pub open spec fn size_end() -> Seq<char> {
    "\"/>"@
}

/// Where a new size element goes: before the notes size, else before the end of the
/// presentation element.
pub open spec fn size_marker1() -> Seq<char> {
    "<p:notesSz"@
}

/// Whether a value fits in an `i64`.
pub open spec fn fits_i64(v: int) -> bool {
    i64::MIN <= v <= i64::MAX
}

/// A decimal integer at `a` (an optional `-`, then digits): its value and the position
/// after it; `None` when there are no digits or the value does not fit in an `i64`.
pub open spec fn num_at(s: Seq<char>, a: int) -> Option<(int, int)> {
    let neg = 0 <= a < s.len() && s[a] == '-';
    let d0: int = if neg { a + 1 } else { a };
    let n: int = digit_run(s, d0);
    if a < 0 || n == 0 {
        None
    } else {
        let m: int = digits_value(s.subrange(d0, d0 + n)) as int;
        let v: int = if neg { -m } else { m };
        if fits_i64(v) { Some((v, d0 + n)) } else { None }
    }
}

/// The size element at `p`, read as `<p:sldSz cx="W" cy="H"`: W, the end of W, H and the
/// end of H.
pub open spec fn size_layout(t: Seq<char>, p: int) -> Option<(int, int, int, int)> {
    if !occurs_at(t, size_head(), p) {
        None
    } else {
        match num_at(t, p + size_head().len()) {
            Some((cx, e1)) => if !occurs_at(t, size_mid(), e1) {
                None
            } else {
                match num_at(t, e1 + size_mid().len()) {
                    Some((cy, e2)) => if occurs_at(t, seq!['"'], e2) { Some((cx, e1, cy, e2)) } else { None },
                    None => None,
                }
            },
            None => None,
        }
    }
}

/// The slide size in text: `Some(None)` without a size element, `None` when the first
/// size element cannot be read.
pub open spec fn slide_size_text(t: Seq<char>) -> Option<Option<(int, int)>> {
    match find_from(t, size_tag(), 0) {
        None => Some(None),
        Some(p) => match size_layout(t, p) {
            Some((cx, _e1, cy, _e2)) => Some(Some((cx, cy))),
            None => None,
        },
    }
}

/// The slide size of presentation.xml (see `slide_size_text`).
pub open spec fn slide_size_of(b: Seq<u8>) -> Option<Option<(int, int)>> {
    match blob_text(b) {
        Some(t) => slide_size_text(t),
        None => None,
    }
}

/// A new size element.
pub open spec fn size_text(cx: int, cy: int) -> Seq<char> {
    size_head() + int_text(cx) + size_mid() + int_text(cy) + size_end()
}

/// The text with the slide size set: the numbers of the first size element are replaced;
/// without one a new element goes before `<p:notesSz`, else before `</p:presentation>`;
/// `None` when the size element cannot be read or there is no place for a new one.
pub open spec fn resized_text(t: Seq<char>, cx: int, cy: int) -> Option<Seq<char>> {
    match find_from(t, size_tag(), 0) {
        Some(p) => match size_layout(t, p) {
            Some((_cx, _e1, _cy, e2)) => Some(
                t.subrange(0, p + size_head().len()) + int_text(cx) + size_mid() + int_text(cy) + t.subrange(
                    e2,
                    t.len() as int,
                ),
            ),
            None => None,
        },
        None => match find_from(t, size_marker1(), 0) {
            Some(q) => Some(inserted(t, q, size_text(cx, cy))),
            None => match find_from(t, list_marker2(), 0) {
                Some(q) => Some(inserted(t, q, size_text(cx, cy))),
                None => None,
            },
        },
    }
}

/// presentation.xml with the slide size set (see `resized_text`).
pub open spec fn resized(b: Seq<u8>, cx: int, cy: int) -> Option<Seq<u8>> {
    match blob_text(b) {
        Some(t) => match resized_text(t, cx, cy) {
            Some(u) => Some(encode_utf8(u)),
            None => None,
        },
        None => None,
    }
}

/// Reads the decimal integer at `a` (see `num_at`).
fn num_at_exec(v: &Vec<char>, a: usize) -> (r: Option<(i64, usize)>)
    requires
        a <= v.len(),
    ensures
        match num_at(v@, a as int) {
            Some((x, e)) => r matches Some((y, f)) && y as int == x && f as int == e,
            None => r is None,
        },
{
    let neg = a < v.len() && v[a] == '-';
    let d0 = if neg { a + 1 } else { a };
    let mut k: usize = d0;
    let mut val: u64 = 0;
    let mut over = false;
    while k < v.len() && '0' <= v[k] && v[k] <= '9'
        invariant
            d0 <= k <= v.len(),
            digit_run(v@, d0 as int) == (k - d0) + digit_run(v@, k as int),
            !over ==> val as nat == digits_value(v@.subrange(d0 as int, k as int)) && val <= 9223372036854775808u64,
            over ==> digits_value(v@.subrange(d0 as int, k as int)) > 9223372036854775808u64,
        decreases v.len() - k,
    {
        let ghost prev = v@.subrange(d0 as int, k as int);
        assert(v@.subrange(d0 as int, k + 1).drop_last() == prev);
        assert(v@.subrange(d0 as int, k + 1).last() == v@[k as int]);
        let d: u64 = (v[k] as u32 - '0' as u32) as u64;
        if !over {
            if val > 922337203685477580u64 || (val == 922337203685477580u64 && d > 8) {
                over = true;
            } else {
                val = val * 10 + d;
            }
        } else {
            proof {
                crate::id_list::lemma_digits_value_mono(v@.subrange(d0 as int, k + 1), (k - d0) as int);
                assert(v@.subrange(d0 as int, k + 1).subrange(0, (k - d0) as int) == prev);
            }
        }
        k = k + 1;
    }
    if k == d0 || over {
        return None;
    }
    if neg {
        if val == 9223372036854775808u64 {
            Some((i64::MIN, k))
        } else {
            Some((-(val as i64), k))
        }
    } else {
        if val > 9223372036854775807u64 {
            None
        } else {
            Some((val as i64, k))
        }
    }
}

/// Reads the size element at `p`.
fn size_layout_exec(v: &Vec<char>, p: usize) -> (r: Option<(i64, usize, i64, usize)>)
    requires
        p <= v.len(),
    ensures
        match size_layout(v@, p as int) {
            Some((cx, e1, cy, e2)) => r matches Some((x, f1, y, f2)) && x as int == cx && f1 as int == e1
                && y as int == cy && f2 as int == e2,
            None => r is None,
        },
{
    let head = crate::text::str_to_chars("<p:sldSz cx=\"");
    let mid = crate::text::str_to_chars("\" cy=\"");
    let quote = crate::text::str_to_chars("\"");
    proof { reveal_strlit("\""); }
    assert(quote@ =~= seq!['"']);
    if !crate::id_list::occurs_at_exec(v, &head, p) {
        return None;
    }
    match num_at_exec(v, p + head.len()) {
        Some((cx, e1)) => {
            if !crate::id_list::occurs_at_exec(v, &mid, e1) {
                return None;
            }
            match num_at_exec(v, e1 + mid.len()) {
                Some((cy, e2)) => {
                    if crate::id_list::occurs_at_exec(v, &quote, e2) {
                        Some((cx, e1, cy, e2))
                    } else {
                        None
                    }
                },
                None => None,
            }
        },
        None => None,
    }
}

/// Reads the slide size (width, height) in EMU from presentation.xml: `Ok(None)` without
/// a `<p:sldSz>` element, an error when it cannot be read.
pub fn parse_slide_size(blob: &[u8]) -> (r: Result<Option<(i64, i64)>, PptxError>)
    ensures
        match slide_size_of(blob@) {
            Some(Some((cx, cy))) => r matches Ok(Some((x, y))) && x as int == cx && y as int == cy,
            Some(None) => r matches Ok(None),
            None => r is Err,
        },
{
    let t = blob_chars(blob)?;
    let tag = crate::text::str_to_chars("<p:sldSz");
    match crate::id_list::find_chars(&t, &tag, 0) {
        None => Ok(None),
        Some(p) => {
            proof { crate::scan::lemma_find_from(t@, tag@, 0); }
            match size_layout_exec(&t, p) {
                Some((cx, _e1, cy, _e2)) => Ok(Some((cx, cy))),
                None => Err(PptxError::InvalidXml("unreadable p:sldSz".to_owned())),
            }
        },
    }
}

fn push_i64_chars(out: &mut Vec<char>, v: i64)
    ensures
        final(out)@ == old(out)@ + int_text(v as int),
{
    let s = crate::text::i64_to_string(v);
    crate::id_list::push_str_chars(out, s.as_str());
}

fn copy_range_chars(out: &mut Vec<char>, v: &Vec<char>, a: usize, b: usize)
    requires
        a <= b <= v.len(),
    ensures
        final(out)@ == old(out)@ + v@.subrange(a as int, b as int),
{
    let mut k = a;
    while k < b
        invariant
            a <= k <= b <= v.len(),
            out@ == old(out)@ + v@.subrange(a as int, k as int),
        decreases b - k,
    {
        out.push(v[k]);
        assert(v@.subrange(a as int, k + 1) == v@.subrange(a as int, k as int).push(v@[k as int]));
        assert(out@ =~= old(out)@ + v@.subrange(a as int, k + 1));
        k = k + 1;
    }
}

fn insert_size(t: &Vec<char>, q: usize, cx: i64, cy: i64) -> (r: Vec<char>)
    requires
        q <= t.len(),
    ensures
        r@ == inserted(t@, q as int, size_text(cx as int, cy as int)),
{
    let mut out: Vec<char> = Vec::new();
    copy_range_chars(&mut out, t, 0, q);
    crate::id_list::push_str_chars(&mut out, "<p:sldSz cx=\"");
    push_i64_chars(&mut out, cx);
    crate::id_list::push_str_chars(&mut out, "\" cy=\"");
    push_i64_chars(&mut out, cy);
    crate::id_list::push_str_chars(&mut out, "\"/>");
    copy_range_chars(&mut out, t, q, t.len());
    assert(out@ =~= inserted(t@, q as int, size_text(cx as int, cy as int)));
    out
}

/// Sets the slide size of presentation.xml (see `resized_text`).
pub fn set_slide_size_in_xml(blob: &[u8], cx: i64, cy: i64) -> (r: Result<Vec<u8>, PptxError>)
    ensures
        match resized(blob@, cx as int, cy as int) {
            Some(u) => r matches Ok(x) && x@ == u,
            None => r is Err,
        },
{
    let t = blob_chars(blob)?;
    let tag = crate::text::str_to_chars("<p:sldSz");
    match crate::id_list::find_chars(&t, &tag, 0) {
        Some(p) => {
            proof { crate::scan::lemma_find_from(t@, tag@, 0); }
            match size_layout_exec(&t, p) {
                Some((_cx, _e1, _cy, e2)) => {
                    proof { reveal_strlit("<p:sldSz cx=\""); }
                    let mut out: Vec<char> = Vec::new();
                    copy_range_chars(&mut out, &t, 0, p + 13);
                    push_i64_chars(&mut out, cx);
                    crate::id_list::push_str_chars(&mut out, "\" cy=\"");
                    push_i64_chars(&mut out, cy);
                    copy_range_chars(&mut out, &t, e2, t.len());
                    Ok(chars_blob(&out))
                },
                None => Err(PptxError::InvalidXml("unreadable p:sldSz".to_owned())),
            }
        },
        None => {
            let m1 = crate::text::str_to_chars("<p:notesSz");
            match crate::id_list::find_chars(&t, &m1, 0) {
                Some(q) => {
                    proof { crate::scan::lemma_find_from(t@, m1@, 0); }
                    Ok(chars_blob(&insert_size(&t, q, cx, cy)))
                },
                None => {
                    let m2 = crate::text::str_to_chars("</p:presentation>");
                    match crate::id_list::find_chars(&t, &m2, 0) {
                        Some(q) => {
                            proof { crate::scan::lemma_find_from(t@, m2@, 0); }
                            Ok(chars_blob(&insert_size(&t, q, cx, cy)))
                        },
                        None => Err(PptxError::InvalidXml("presentation XML has no place for p:sldSz".to_owned())),
                    }
                },
            }
        },
    }
}

proof fn lemma_num_at_text(s: Seq<char>, a: int, v: int)
    requires
        0 <= a,
        fits_i64(v),
        a + int_text(v).len() < s.len(),
        s.subrange(a, a + int_text(v).len()) == int_text(v),
        s[a + int_text(v).len()] == '"',
    ensures
        num_at(s, a) == Some((v, a + int_text(v).len())),
{
    let w = int_text(v);
    let e = a + w.len();
    if v < 0 {
        let m: nat = (-v) as nat;
        let d = crate::text::nat_digits(m);
        lemma_nat_digits(m);
        assert(w == seq!['-'] + d);
        assert(s[a] == w[0]);
        assert forall|k: int| a + 1 <= k < e implies is_digit(#[trigger] s[k]) by {
            assert(s[k] == s.subrange(a, e)[k - a]);
            assert(w[k - a] == d[k - a - 1]);
        }
        lemma_digit_run(s, a + 1, d.len() as int);
        assert(s.subrange(a + 1, e) =~= d) by {
            assert forall|k: int| 0 <= k < d.len() implies s.subrange(a + 1, e)[k] == d[k] by {
                assert(s[a + 1 + k] == s.subrange(a, e)[k + 1]);
            }
        }
    } else {
        let m: nat = v as nat;
        let d = crate::text::nat_digits(m);
        lemma_nat_digits(m);
        assert(w == d);
        assert(s[a] == w[0]);
        assert(is_digit(d[0]));
        assert forall|k: int| a <= k < e implies is_digit(#[trigger] s[k]) by {
            assert(s[k] == s.subrange(a, e)[k - a]);
        }
        lemma_digit_run(s, a, d.len() as int);
        assert(s.subrange(a, e) =~= d);
    }
}

proof fn lemma_size_literals()
    ensures
        size_head().len() == 13,
        size_mid().len() == 6,
        size_mid()[0] == '"',
        size_end()[0] == '"',
        size_end().len() == 3,
        size_tag().len() == 8,
        size_head().subrange(0, 8) == size_tag(),
        crate::scan::lt_only_first(size_tag()),
{
    reveal_strlit("<p:sldSz cx=\"");
    reveal_strlit("\" cy=\"");
    reveal_strlit("\"/>");
    reveal_strlit("<p:sldSz");
    assert(size_head().subrange(0, 8) =~= size_tag());
}

/// Reading the fields of `pre + head + W + mid + H + post`, where `post` starts with `"`.
proof fn lemma_size_fields(t: Seq<char>, p: int, cx: int, cy: int)
    requires
        0 <= p,
        fits_i64(cx),
        fits_i64(cy),
        p + size_head().len() + int_text(cx).len() + size_mid().len() + int_text(cy).len() < t.len(),
        t.subrange(p, p + size_head().len()) == size_head(),
        t.subrange(p + size_head().len(), p + size_head().len() + int_text(cx).len()) == int_text(cx),
        t.subrange(p + size_head().len() + int_text(cx).len(), p + size_head().len() + int_text(cx).len()
            + size_mid().len()) == size_mid(),
        t.subrange(
            p + size_head().len() + int_text(cx).len() + size_mid().len(),
            p + size_head().len() + int_text(cx).len() + size_mid().len() + int_text(cy).len(),
        ) == int_text(cy),
        t[p + size_head().len() + int_text(cx).len() + size_mid().len() + int_text(cy).len()] == '"',
    ensures
        size_layout(t, p) matches Some((x, _e1, y, _e2)) && x == cx && y == cy,
{
    lemma_size_literals();
    let a1 = p + size_head().len();
    let e1 = a1 + int_text(cx).len();
    let a2 = e1 + size_mid().len();
    let e2 = a2 + int_text(cy).len();
    assert(t[e1] == t.subrange(e1, a2)[0]);
    lemma_num_at_text(t, a1, cx);
    lemma_num_at_text(t, a2, cy);
    assert(t.subrange(e2, e2 + 1) =~= seq!['"']);
}

proof fn lemma_size_replaced(t: Seq<char>, cx: int, cy: int)
    requires
        fits_i64(cx),
        fits_i64(cy),
        find_from(t, size_tag(), 0) is Some,
        resized_text(t, cx, cy) is Some,
    ensures
        slide_size_text(resized_text(t, cx, cy).unwrap()) == Some(Some((cx, cy))),
{
    lemma_size_literals();
    let u = resized_text(t, cx, cy).unwrap();
    let h = size_head();
    let hl: int = h.len() as int;
    let wl: int = int_text(cx).len() as int;
    let ml: int = size_mid().len() as int;
    let yl: int = int_text(cy).len() as int;
    let p = find_from(t, size_tag(), 0).unwrap();
    crate::scan::lemma_find_from(t, size_tag(), 0);
    let (x0, e1, y0, e2) = size_layout(t, p).unwrap();
    assert(occurs_at(t, seq!['"'], e2));
    let pre = t.subrange(0, p + hl);
    assert(u =~= pre + int_text(cx) + size_mid() + int_text(cy) + t.subrange(e2, t.len() as int));
    assert forall|m: int| 0 <= m < p + size_tag().len() implies t[m] == u[m] by {
        assert(u[m] == pre[m]);
    }
    crate::scan::lemma_find_stable(t, u, size_tag(), 0, p);
    assert(u.subrange(p, p + hl) =~= t.subrange(p, p + hl));
    assert(u.subrange(p + hl, p + hl + wl) =~= int_text(cx));
    assert(u.subrange(p + hl + wl, p + hl + wl + ml) =~= size_mid());
    assert(u.subrange(p + hl + wl + ml, p + hl + wl + ml + yl) =~= int_text(cy));
    assert(t[e2] == '"') by {
        assert(t.subrange(e2, e2 + 1)[0] == seq!['"'][0]);
    }
    assert(u[p + hl + wl + ml + yl] == t[e2]);
    lemma_size_fields(u, p, cx, cy);
}

proof fn lemma_size_inserted(t: Seq<char>, q: int, cx: int, cy: int)
    requires
        fits_i64(cx),
        fits_i64(cy),
        find_from(t, size_tag(), 0) is None,
        0 <= q <= t.len(),
    ensures
        slide_size_text(inserted(t, q, size_text(cx, cy))) == Some(Some((cx, cy))),
{
    lemma_size_literals();
    let h = size_head();
    let hl: int = h.len() as int;
    let wl: int = int_text(cx).len() as int;
    let ml: int = size_mid().len() as int;
    let yl: int = int_text(cy).len() as int;
    crate::scan::lemma_find_from(t, size_tag(), 0);
    let st = size_text(cx, cy);
    let u = inserted(t, q, st);
    let pre = t.subrange(0, q);
    let post = st + t.subrange(q, t.len() as int);
    assert(u =~= pre + post);
    assert forall|k: int| 0 <= k implies !occurs_at(pre, size_tag(), k) by {
        if occurs_at(pre, size_tag(), k) {
            assert(t.subrange(k, k + size_tag().len()) =~= pre.subrange(k, k + size_tag().len()));
            assert(occurs_at(t, size_tag(), k));
        }
    }
    assert(post[0] == h[0]);
    assert(h[0] == size_tag()[0]);
    crate::scan::lemma_no_occurrence_before_lt(pre, post, size_tag());
    assert(u.subrange(q, q + size_tag().len()) =~= size_tag()) by {
        assert forall|m: int| 0 <= m < size_tag().len() implies u.subrange(q, q + size_tag().len())[m]
            == size_tag()[m] by {
            assert(u[q + m] == h[m]);
            assert(h.subrange(0, 8)[m] == h[m]);
        }
    }
    crate::scan::lemma_find_from_is(u, size_tag(), 0, q);
    assert(u.subrange(q, q + hl) =~= h);
    assert(u.subrange(q + hl, q + hl + wl) =~= int_text(cx));
    assert(u.subrange(q + hl + wl, q + hl + wl + ml) =~= size_mid());
    assert(u.subrange(q + hl + wl + ml, q + hl + wl + ml + yl) =~= int_text(cy));
    assert(u[q + hl + wl + ml + yl] == size_end()[0]);
    lemma_size_fields(u, q, cx, cy);
}

/// A size that was written reads back as the written size.
pub proof fn lemma_size_written(b: Seq<u8>, cx: int, cy: int)
    requires
        fits_i64(cx),
        fits_i64(cy),
    ensures
        resized(b, cx, cy) matches Some(u) ==> slide_size_of(u) == Some(Some((cx, cy))),
{
    if let Some(t) = blob_text(b) {
        if let Some(u) = resized_text(t, cx, cy) {
            lemma_blob_text_encoded(u);
            match find_from(t, size_tag(), 0) {
                Some(p) => lemma_size_replaced(t, cx, cy),
                None => {
                    crate::scan::lemma_find_from(t, size_marker1(), 0);
                    crate::scan::lemma_find_from(t, list_marker2(), 0);
                    match find_from(t, size_marker1(), 0) {
                        Some(q) => lemma_size_inserted(t, q, cx, cy),
                        None => lemma_size_inserted(t, find_from(t, list_marker2(), 0).unwrap(), cx, cy),
                    }
                },
            }
        }
    }
}

// ---------------------------------------------------------------------------
// Names: `<p:cSld name="...">`

/// What the XML reader gives for attribute `key` of a tag whose content (name and
/// attributes) is `content`.
pub open spec fn attr_of(content: Seq<char>, key: Seq<char>) -> Result<Option<Seq<char>>, ()> {
    crate::xml::xml_attr_lookup(content, crate::xml::tag_name_len_spec(encode_utf8(content)), key)
}

/// The content (name and attributes) of the tag starting at `p`: up to the next `>`,
/// without a closing `/`; `None` when the tag is not closed.
pub open spec fn tag_content(t: Seq<char>, p: int) -> Option<Seq<char>> {
    match find_from(t, seq!['>'], p + 1) {
        Some(g) => Some(
            if g > p + 1 && t[g - 1] == '/' { t.subrange(p + 1, g - 1) } else { t.subrange(p + 1, g) },
        ),
        None => None,
    }
}

/// `<p:cSld`
pub open spec fn csld_tag() -> Seq<char> {
    "<p:cSld"@
}

/// The name of a slide, layout or notes slide: the `name` attribute of its first
/// `<p:cSld>`; `Some(None)` without the element, the attribute, or with an empty name;
/// `None` when the tag cannot be read.
pub open spec fn csld_name(t: Seq<char>) -> Option<Option<Seq<char>>> {
    match find_from(t, csld_tag(), 0) {
        None => Some(None),
        Some(p) => match tag_content(t, p) {
            Some(c) => match attr_of(c, "name"@) {
                Ok(Some(v)) => Some(if v.len() > 0 { Some(v) } else { None }),
                Ok(None) => Some(None),
                Err(_) => None,
            },
            None => None,
        },
    }
}

/// The name of the slide part with bytes `b` (see `csld_name`).
pub open spec fn part_name_attr(b: Seq<u8>) -> Option<Option<Seq<char>>> {
    match blob_text(b) {
        Some(t) => csld_name(t),
        None => None,
    }
}

fn sub_chars(v: &Vec<char>, a: usize, b: usize) -> (r: Vec<char>)
    requires
        a <= b <= v.len(),
    ensures
        r@ == v@.subrange(a as int, b as int),
{
    let mut r: Vec<char> = Vec::new();
    copy_range_chars(&mut r, v, a, b);
    r
}

/// The content of the tag at `p` (see `tag_content`).
pub fn tag_content_exec(t: &Vec<char>, p: usize) -> (r: Option<Vec<char>>)
    requires
        p < t.len(),
    ensures
        match tag_content(t@, p as int) {
            Some(c) => r matches Some(x) && x@ == c,
            None => r is None,
        },
{
    let gt = crate::text::str_to_chars(">");
    proof { reveal_strlit(">"); }
    assert(gt@ =~= seq!['>']);
    match crate::id_list::find_chars(t, &gt, p + 1) {
        Some(g) => {
            proof { crate::scan::lemma_find_from(t@, gt@, p + 1); }
            if g > p + 1 && t[g - 1] == '/' {
                Some(sub_chars(t, p + 1, g - 1))
            } else {
                Some(sub_chars(t, p + 1, g))
            }
        },
        None => None,
    }
}

/// Attribute `key` of the tag with content `content` (see `attr_of`).
pub fn attr_of_exec(content: &Vec<char>, key: &str) -> (r: Result<Option<String>, ()>)
    ensures
        match (r, attr_of(content@, key@)) {
            (Ok(Some(v)), Ok(Some(w))) => v@ == w,
            (Ok(None), Ok(None)) => true,
            (Err(_), Err(_)) => true,
            _ => false,
        },
{
    let s = crate::text::chars_to_string(content);
    let n = crate::xml::tag_name_len(s.as_str());
    crate::xml::attr_value(s.as_str(), n, key)
}

/// The name of a slide (see `csld_name`); an error when the bytes are not UTF-8 or the
/// tag cannot be read.
pub fn parse_slide_name(blob: &[u8]) -> (r: Result<Option<String>, PptxError>)
    ensures
        match part_name_attr(blob@) {
            Some(Some(n)) => r matches Ok(Some(x)) && x@ == n,
            Some(None) => r matches Ok(None),
            None => r is Err,
        },
{
    let t = blob_chars(blob)?;
    let tag = crate::text::str_to_chars("<p:cSld");
    match crate::id_list::find_chars(&t, &tag, 0) {
        None => Ok(None),
        Some(p) => {
            proof {
                crate::scan::lemma_find_from(t@, tag@, 0);
                reveal_strlit("<p:cSld");
            }
            match tag_content_exec(&t, p) {
                Some(c) => match attr_of_exec(&c, "name") {
                    Ok(Some(v)) => {
                        if v.as_str().unicode_len() > 0 {
                            Ok(Some(v))
                        } else {
                            Ok(None)
                        }
                    },
                    Ok(None) => Ok(None),
                    Err(_) => Err(PptxError::MalformedAttribute),
                },
                None => Err(PptxError::InvalidXml("unclosed p:cSld tag".to_owned())),
            }
        },
    }
}

/// The name of a slide layout: its `<p:cSld name>`, or empty without one.
pub fn parse_layout_name(blob: &[u8]) -> (r: Result<String, PptxError>)
    ensures
        match part_name_attr(blob@) {
            Some(Some(n)) => r matches Ok(x) && x@ == n,
            Some(None) => r matches Ok(x) && x@.len() == 0,
            None => r is Err,
        },
{
    match parse_slide_name(blob)? {
        Some(n) => Ok(n),
        None => Ok(String::new()),
    }
}

// ---------------------------------------------------------------------------
// New parts

/// The XML of a new, blank slide.
pub open spec fn new_slide_text() -> Seq<char> {
    "<?xml version=\"1.0\" encoding=\"UTF-8\" standalone=\"yes\"?>\n<p:sld xmlns:a=\"http://schemas.openxmlformats.org/drawingml/2006/main\" xmlns:r=\"http://schemas.openxmlformats.org/officeDocument/2006/relationships\" xmlns:p=\"http://schemas.openxmlformats.org/presentationml/2006/main\"><p:cSld><p:spTree><p:nvGrpSpPr><p:cNvPr id=\"1\" name=\"\"/><p:cNvGrpSpPr/><p:nvPr/></p:nvGrpSpPr><p:grpSpPr/></p:spTree></p:cSld><p:clrMapOvr><a:masterClrMapping/></p:clrMapOvr></p:sld>"@
}

/// The XML of a new notes slide: a slide image placeholder and an empty notes body.
pub open spec fn new_notes_slide_text() -> Seq<char> {
    "<?xml version=\"1.0\" encoding=\"UTF-8\" standalone=\"yes\"?>\n<p:notes xmlns:a=\"http://schemas.openxmlformats.org/drawingml/2006/main\" xmlns:r=\"http://schemas.openxmlformats.org/officeDocument/2006/relationships\" xmlns:p=\"http://schemas.openxmlformats.org/presentationml/2006/main\"><p:cSld><p:spTree><p:nvGrpSpPr><p:cNvPr id=\"1\" name=\"\"/><p:cNvGrpSpPr/><p:nvPr/></p:nvGrpSpPr><p:grpSpPr/><p:sp><p:nvSpPr><p:cNvPr id=\"2\" name=\"Slide Image Placeholder 1\"/><p:cNvSpPr><a:spLocks noGrp=\"1\" noRot=\"1\" noChangeAspect=\"1\"/></p:cNvSpPr><p:nvPr><p:ph type=\"sldImg\"/></p:nvPr></p:nvSpPr><p:spPr/></p:sp><p:sp><p:nvSpPr><p:cNvPr id=\"3\" name=\"Notes Placeholder 2\"/><p:cNvSpPr><a:spLocks noGrp=\"1\"/></p:cNvSpPr><p:nvPr><p:ph type=\"body\" idx=\"1\"/></p:nvPr></p:nvSpPr><p:spPr/><p:txBody><a:bodyPr/><a:lstStyle/><a:p><a:endParaRPr lang=\"en-US\"/></a:p></p:txBody></p:sp></p:spTree></p:cSld><p:clrMapOvr><a:masterClrMapping/></p:clrMapOvr></p:notes>"@
}

/// The XML of a new notes master.
pub open spec fn new_notes_master_text() -> Seq<char> {
    "<?xml version=\"1.0\" encoding=\"UTF-8\" standalone=\"yes\"?>\n<p:notesMaster xmlns:a=\"http://schemas.openxmlformats.org/drawingml/2006/main\" xmlns:r=\"http://schemas.openxmlformats.org/officeDocument/2006/relationships\" xmlns:p=\"http://schemas.openxmlformats.org/presentationml/2006/main\"><p:cSld><p:bg><p:bgRef idx=\"1001\"><a:schemeClr val=\"bg1\"/></p:bgRef></p:bg><p:spTree><p:nvGrpSpPr><p:cNvPr id=\"1\" name=\"\"/><p:cNvGrpSpPr/><p:nvPr/></p:nvGrpSpPr><p:grpSpPr/></p:spTree></p:cSld><p:clrMap bg1=\"lt1\" tx1=\"dk1\" bg2=\"lt2\" tx2=\"dk2\" accent1=\"accent1\" accent2=\"accent2\" accent3=\"accent3\" accent4=\"accent4\" accent5=\"accent5\" accent6=\"accent6\" hlink=\"hlink\" folHlink=\"folHlink\"/></p:notesMaster>"@
}

/// The bytes of a new, blank slide.
pub fn new_slide_xml() -> (r: Vec<u8>)
    ensures
        r@ == encode_utf8(new_slide_text()),
{
    crate::text::string_into_bytes("<?xml version=\"1.0\" encoding=\"UTF-8\" standalone=\"yes\"?>\n<p:sld xmlns:a=\"http://schemas.openxmlformats.org/drawingml/2006/main\" xmlns:r=\"http://schemas.openxmlformats.org/officeDocument/2006/relationships\" xmlns:p=\"http://schemas.openxmlformats.org/presentationml/2006/main\"><p:cSld><p:spTree><p:nvGrpSpPr><p:cNvPr id=\"1\" name=\"\"/><p:cNvGrpSpPr/><p:nvPr/></p:nvGrpSpPr><p:grpSpPr/></p:spTree></p:cSld><p:clrMapOvr><a:masterClrMapping/></p:clrMapOvr></p:sld>".to_owned())
}

/// The bytes of a new notes slide.
pub fn new_notes_slide_xml() -> (r: Vec<u8>)
    ensures
        r@ == encode_utf8(new_notes_slide_text()),
{
    crate::text::string_into_bytes("<?xml version=\"1.0\" encoding=\"UTF-8\" standalone=\"yes\"?>\n<p:notes xmlns:a=\"http://schemas.openxmlformats.org/drawingml/2006/main\" xmlns:r=\"http://schemas.openxmlformats.org/officeDocument/2006/relationships\" xmlns:p=\"http://schemas.openxmlformats.org/presentationml/2006/main\"><p:cSld><p:spTree><p:nvGrpSpPr><p:cNvPr id=\"1\" name=\"\"/><p:cNvGrpSpPr/><p:nvPr/></p:nvGrpSpPr><p:grpSpPr/><p:sp><p:nvSpPr><p:cNvPr id=\"2\" name=\"Slide Image Placeholder 1\"/><p:cNvSpPr><a:spLocks noGrp=\"1\" noRot=\"1\" noChangeAspect=\"1\"/></p:cNvSpPr><p:nvPr><p:ph type=\"sldImg\"/></p:nvPr></p:nvSpPr><p:spPr/></p:sp><p:sp><p:nvSpPr><p:cNvPr id=\"3\" name=\"Notes Placeholder 2\"/><p:cNvSpPr><a:spLocks noGrp=\"1\"/></p:cNvSpPr><p:nvPr><p:ph type=\"body\" idx=\"1\"/></p:nvPr></p:nvSpPr><p:spPr/><p:txBody><a:bodyPr/><a:lstStyle/><a:p><a:endParaRPr lang=\"en-US\"/></a:p></p:txBody></p:sp></p:spTree></p:cSld><p:clrMapOvr><a:masterClrMapping/></p:clrMapOvr></p:notes>".to_owned())
}

/// The bytes of a new notes master.
pub fn new_notes_master_xml() -> (r: Vec<u8>)
    ensures
        r@ == encode_utf8(new_notes_master_text()),
{
    crate::text::string_into_bytes("<?xml version=\"1.0\" encoding=\"UTF-8\" standalone=\"yes\"?>\n<p:notesMaster xmlns:a=\"http://schemas.openxmlformats.org/drawingml/2006/main\" xmlns:r=\"http://schemas.openxmlformats.org/officeDocument/2006/relationships\" xmlns:p=\"http://schemas.openxmlformats.org/presentationml/2006/main\"><p:cSld><p:bg><p:bgRef idx=\"1001\"><a:schemeClr val=\"bg1\"/></p:bgRef></p:bg><p:spTree><p:nvGrpSpPr><p:cNvPr id=\"1\" name=\"\"/><p:cNvGrpSpPr/><p:nvPr/></p:nvGrpSpPr><p:grpSpPr/></p:spTree></p:cSld><p:clrMap bg1=\"lt1\" tx1=\"dk1\" bg2=\"lt2\" tx2=\"dk2\" accent1=\"accent1\" accent2=\"accent2\" accent3=\"accent3\" accent4=\"accent4\" accent5=\"accent5\" accent6=\"accent6\" hlink=\"hlink\" folHlink=\"folHlink\"/></p:notesMaster>".to_owned())
}

// ---------------------------------------------------------------------------
// Notes text

/// `<a:t>`
pub open spec fn run_open() -> Seq<char> {
    "<a:t>"@
}

/// `</a:t>`
pub open spec fn run_close() -> Seq<char> {
    "</a:t>"@
}

/// The lengths of the run tags.
pub proof fn lemma_run_literals()
    ensures
        run_open().len() == 5,
        run_close().len() == 6,
{
    reveal_strlit("<a:t>");
    reveal_strlit("</a:t>");
}

/// The contents of the text runs `<a:t>…</a:t>` from position `i` on, in order and
/// joined; `None` when a run is not closed.
pub open spec fn run_texts(t: Seq<char>, i: int) -> Option<Seq<char>>
    decreases t.len() + 1 - i,
{
    if i < 0 {
        None
    } else {
        match find_from(t, run_open(), i) {
            None => Some(Seq::empty()),
            Some(a) => match find_from(t, run_close(), a + 5) {
                Some(b) => {
                    proof {
                        lemma_run_literals();
                        crate::scan::lemma_find_from(t, run_open(), i);
                        crate::scan::lemma_find_from(t, run_close(), a + 5);
                    }
                    match run_texts(t, b + 6) {
                        Some(rest) => Some(t.subrange(a + 5, b) + rest),
                        None => None,
                    }
                },
                None => None,
            },
        }
    }
}

/// The text of a notes slide: its text runs joined (see `run_texts`).
pub open spec fn notes_text_of(b: Seq<u8>) -> Option<Seq<char>> {
    match blob_text(b) {
        Some(t) => run_texts(t, 0),
        None => None,
    }
}

/// Reads the text of a notes slide (see `notes_text_of`).
pub fn parse_notes_slide_text(blob: &[u8]) -> (r: Result<String, PptxError>)
    ensures
        match notes_text_of(blob@) {
            Some(x) => r matches Ok(s) && s@ == x,
            None => r is Err,
        },
{
    let t = blob_chars(blob)?;
    let open = crate::text::str_to_chars("<a:t>");
    let close = crate::text::str_to_chars("</a:t>");
    proof { lemma_run_literals(); }
    let mut i: usize = 0;
    let mut out: Vec<char> = Vec::new();
    loop
        invariant
            i <= t.len(),
            open@ == run_open(),
            close@ == run_close(),
            blob_text(blob@) == Some(t@),
            run_texts(t@, 0) matches Some(all) ==> run_texts(t@, i as int) matches Some(rest) && all == out@ + rest,
            run_texts(t@, 0) is None ==> run_texts(t@, i as int) is None,
        decreases t.len() + 1 - i,
    {
        proof { lemma_run_literals(); }
        match crate::id_list::find_chars(&t, &open, i) {
            None => {
                assert(run_texts(t@, i as int) == Some(Seq::<char>::empty()));
                assert(out@ + Seq::<char>::empty() =~= out@);
                assert(run_texts(t@, 0) is Some ==> run_texts(t@, 0) == Some(out@));
                assert(notes_text_of(blob@) == run_texts(t@, 0));
                return Ok(crate::text::chars_to_string(&out));
            },
            Some(a) => {
                proof { crate::scan::lemma_find_from(t@, open@, i as int); }
                assert(t@.len() == t.len());
                assert(a + 5 <= t.len());
                match crate::id_list::find_chars(&t, &close, a + 5) {
                    Some(b) => {
                        proof { crate::scan::lemma_find_from(t@, close@, a + 5); }
                        assert(b + 6 <= t.len());
                        let ghost before = out@;
                        copy_range_chars(&mut out, &t, a + 5, b);
                        proof {
                            if let Some(all) = run_texts(t@, 0) {
                                let rest = run_texts(t@, i as int).unwrap();
                                let rest2 = run_texts(t@, b + 6).unwrap();
                                assert(rest == t@.subrange(a + 5, b as int) + rest2);
                                assert(all =~= out@ + rest2);
                            }
                        }
                        i = b + 6;
                    },
                    None => {
                        assert(run_texts(t@, i as int) is None);
                        assert(notes_text_of(blob@) == run_texts(t@, 0));
                        return Err(PptxError::InvalidXml("unclosed a:t element".to_owned()));
                    },
                }
            },
        }
    }
}

// ---------------------------------------------------------------------------
// Backgrounds

/// A solid background of color `color` (written escaped).
pub open spec fn solid_bg_text(color: Seq<char>) -> Seq<char> {
    "<p:bg><p:bgPr><a:solidFill><a:srgbClr val=\""@ + crate::text::xml_escape_spec(color)
        + "\"/></a:solidFill><a:effectLst/></p:bgPr></p:bg>"@
}

/// The text with its background element set to `bg`: the first `<p:bg>` element is
/// removed, and `bg` goes right after the start tag of the first `<p:cSld>`; `None` when
/// there is no such tag or it is not closed.
pub open spec fn with_bg(t: Seq<char>, bg: Seq<char>) -> Option<Seq<char>> {
    let t1 = removed_element(t, "p:bg"@);
    match find_from(t1, csld_tag(), 0) {
        Some(p) => match find_from(t1, seq!['>'], p + 1) {
            Some(g) => Some(inserted(t1, g + 1, bg)),
            None => None,
        },
        None => None,
    }
}

/// The text with a solid background of color `color` (see `with_bg`).
pub open spec fn with_solid_bg(t: Seq<char>, color: Seq<char>) -> Option<Seq<char>> {
    with_bg(t, solid_bg_text(color))
}

/// A picture background: the image that relationship `rid` points to, stretched over
/// the slide (`rid` written escaped).
pub open spec fn image_bg_text(rid: Seq<char>) -> Seq<char> {
    "<p:bg><p:bgPr><a:blipFill><a:blip r:embed=\""@ + crate::text::xml_escape_spec(rid)
        + "\"/><a:stretch><a:fillRect/></a:stretch></a:blipFill><a:effectLst/></p:bgPr></p:bg>"@
}

/// Bytes of a part with its background element set to `bg` (see `with_bg`).
pub open spec fn with_bg_bytes(b: Seq<u8>, bg: Seq<char>) -> Option<Seq<u8>> {
    match blob_text(b) {
        Some(t) => match with_bg(t, bg) {
            Some(u) => Some(encode_utf8(u)),
            None => None,
        },
        None => None,
    }
}

/// Bytes of a part with its background set (see `with_solid_bg`).
pub open spec fn with_solid_bg_bytes(b: Seq<u8>, color: Seq<char>) -> Option<Seq<u8>> {
    match blob_text(b) {
        Some(t) => match with_solid_bg(t, color) {
            Some(u) => Some(encode_utf8(u)),
            None => None,
        },
        None => None,
    }
}

/// Sets the background element of a slide-like part to `bg` (see `with_bg`).
pub fn set_background_xml(blob: &mut Vec<u8>, bg: &str) -> (r: Result<(), PptxError>)
    ensures
        match with_bg_bytes(old(blob)@, bg@) {
            Some(u) => r is Ok && final(blob)@ == u,
            None => r is Err && final(blob)@ == old(blob)@,
        },
{
    let t0 = blob_chars(blob.as_slice())?;
    let t = crate::edit::remove_element_chars(&t0, "p:bg");
    let tag = crate::text::str_to_chars("<p:cSld");
    match crate::id_list::find_chars(&t, &tag, 0) {
        Some(p) => {
            proof { crate::scan::lemma_find_from(t@, tag@, 0); reveal_strlit("<p:cSld"); }
            assert(t@.len() == t.len());
            let gt = crate::text::str_to_chars(">");
            proof { reveal_strlit(">"); }
            assert(gt@ =~= seq!['>']);
            match crate::id_list::find_chars(&t, &gt, p + 1) {
                Some(g) => {
                    proof { crate::scan::lemma_find_from(t@, gt@, p + 1); }
                    assert(g + 1 <= t.len());
                    let u = crate::edit::insert_at(&t, g + 1, bg);
                    *blob = chars_blob(&u);
                    Ok(())
                },
                None => Err(PptxError::InvalidXml("unclosed p:cSld tag".to_owned())),
            }
        },
        None => Err(PptxError::InvalidXml("part has no p:cSld element".to_owned())),
    }
}

/// Sets a solid background of color `color` (hex RGB such as `FF0000`) on a slide-like
/// part (see `with_solid_bg`).
pub fn set_slide_background_solid(blob: &mut Vec<u8>, color: &str) -> (r: Result<(), PptxError>)
    ensures
        match with_solid_bg_bytes(old(blob)@, color@) {
            Some(u) => r is Ok && final(blob)@ == u,
            None => r is Err && final(blob)@ == old(blob)@,
        },
{
    let mut ins = String::new();
    crate::text::string_push_str(&mut ins, "<p:bg><p:bgPr><a:solidFill><a:srgbClr val=\"");
    crate::text::push_escaped(&mut ins, color);
    crate::text::string_push_str(&mut ins, "\"/></a:solidFill><a:effectLst/></p:bgPr></p:bg>");
    assert(ins@ =~= solid_bg_text(color@));
    set_background_xml(blob, ins.as_str())
}

/// Sets a picture background on a slide-like part: the image that its relationship
/// `image_r_id` points to, stretched (see `image_bg_text`).
pub fn set_slide_background_image(blob: &mut Vec<u8>, image_r_id: &str) -> (r: Result<(), PptxError>)
    ensures
        match with_bg_bytes(old(blob)@, image_bg_text(image_r_id@)) {
            Some(u) => r is Ok && final(blob)@ == u,
            None => r is Err && final(blob)@ == old(blob)@,
        },
{
    let mut ins = String::new();
    crate::text::string_push_str(&mut ins, "<p:bg><p:bgPr><a:blipFill><a:blip r:embed=\"");
    crate::text::push_escaped(&mut ins, image_r_id);
    crate::text::string_push_str(&mut ins, "\"/><a:stretch><a:fillRect/></a:stretch></a:blipFill><a:effectLst/></p:bgPr></p:bg>");
    assert(ins@ =~= image_bg_text(image_r_id@));
    set_background_xml(blob, ins.as_str())
}

// ---------------------------------------------------------------------------
// The layout list of a slide master: `<p:sldLayoutIdLst>`

/// `p:sldLayoutIdLst`
pub open spec fn layout_list() -> Seq<char> {
    "p:sldLayoutIdLst"@
}

/// `p:sldLayoutId`
pub open spec fn layout_elem() -> Seq<char> {
    "p:sldLayoutId"@
}

/// A slide master without the layout entries whose relationship id is `rid`; a master
/// without a layout list gets an empty one before `<p:txStyles`, else before
/// `</p:sldMaster>`.
pub open spec fn without_layout(b: Seq<u8>, rid: Seq<char>) -> Option<Seq<u8>> {
    match blob_text(b) {
        Some(t) => match parse_id_list(t, layout_list(), layout_elem()) {
            Some(l) => match id_list_rewritten(t, layout_list(), layout_elem(), without_rid(l, rid), "<p:txStyles"@, "</p:sldMaster>"@) {
                Some(u) => Some(encode_utf8(u)),
                None => None,
            },
            None => None,
        },
        None => None,
    }
}

/// Removes the layout entries with relationship id `r_id` from a slide master.
pub fn remove_layout_from_master_xml(blob: &[u8], r_id: &str) -> (r: Result<Vec<u8>, PptxError>)
    ensures
        match without_layout(blob@, r_id@) {
            Some(u) => r matches Ok(x) && x@ == u,
            None => r is Err,
        },
{
    let t = blob_chars(blob)?;
    let l = match read_id_list(&t, "p:sldLayoutIdLst", "p:sldLayoutId") {
        Some(v) => v,
        None => return Err(PptxError::InvalidXml("unreadable p:sldLayoutIdLst".to_owned())),
    };
    let rid = crate::text::str_to_chars(r_id);
    let mut out: Vec<(Vec<char>, u32)> = Vec::new();
    let mut i: usize = 0;
    while i < l.len()
        invariant
            i <= l.len(),
            rid@ == r_id@,
            entries_view(out@) == without_rid(entries_view(l@).take(i as int), r_id@),
        decreases l.len() - i,
    {
        let ghost lv = entries_view(l@);
        assert(lv.take(i as int + 1).drop_last() =~= lv.take(i as int));
        assert(lv.take(i as int + 1).last() == lv[i as int]);
        if !crate::opc::uri::vec_chars_eq(&l[i].0, &rid) {
            let ghost before = out@;
            out.push((crate::opc::uri::copy_chars(&l[i].0), l[i].1));
            assert(entries_view(out@) =~= entries_view(before).push(lv[i as int]));
        }
        i = i + 1;
    }
    assert(entries_view(l@).take(i as int) =~= entries_view(l@));
    match rewrite_id_list(&t, "p:sldLayoutIdLst", "p:sldLayoutId", &out, "<p:txStyles", "</p:sldMaster>") {
        Some(u) => Ok(chars_blob(&u)),
        None => Err(PptxError::InvalidXml("slide master has no place for p:sldLayoutIdLst".to_owned())),
    }
}

} // verus!
