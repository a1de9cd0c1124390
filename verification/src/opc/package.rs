//! Relationships, parts and the package that holds them.
use vstd::prelude::*;
use crate::enums::str_eq;
use crate::error::PptxError;
use crate::opc::uri::{PackURI, base_uri_spec, resolve, resolve_target};
use crate::text::{nat_digits, push_u64, string_push, string_push_str};

verus! {

/// What a relationship holds.
pub struct RelView {
    pub r_id: Seq<char>,
    pub rel_type: Seq<char>,
    pub target_ref: Seq<char>,
    pub is_external: bool,
}

/// A relationship from a part (or the package) to a target.
#[derive(Debug, Clone, PartialEq, Eq)]
pub struct Relationship {
    /// The relationship id, unique within its collection.
    pub r_id: String,
    /// The relationship type URI.
    pub rel_type: String,
    /// The target reference: relative to the source's directory unless external.
    pub target_ref: String,
    /// Whether the target lies outside the package (a URL).
    pub is_external: bool,
}

impl View for Relationship {
    type V = RelView;

    open spec fn view(&self) -> RelView {
        RelView {
            r_id: self.r_id@,
            rel_type: self.rel_type@,
            target_ref: self.target_ref@,
            is_external: self.is_external,
        }
    }
}

impl Relationship {
    /// The part name of the target, resolved against the source's directory `base_uri`;
    /// an error for an external target.
    pub fn target_partname(&self, base_uri: &str) -> (r: Result<PackURI, PptxError>)
        ensures
            self.is_external <==> r is Err,
            r matches Ok(u) ==> u@ == resolve(base_uri@, self.target_ref@),
            r matches Err(e) ==> e is InvalidXml,
    {
        if self.is_external {
            Err(PptxError::InvalidXml(self.target_ref.clone()))
        } else {
            Ok(PackURI::from_string(resolve_target(base_uri, self.target_ref.as_str())))
        }
    }

    fn copied(&self) -> (r: Relationship)
        ensures
            r@ == self@,
    {
        Relationship {
            r_id: self.r_id.clone(),
            rel_type: self.rel_type.clone(),
            target_ref: self.target_ref.clone(),
            is_external: self.is_external,
        }
    }
}

/// The views of a list of relationships.
pub open spec fn rel_views(v: Seq<Relationship>) -> Seq<RelView> {
    v.map_values(|r: Relationship| r@)
}

/// Index of the first relationship at or after `i` with id `rid`.
pub open spec fn find_rid(rels: Seq<RelView>, rid: Seq<char>, i: int) -> Option<int>
    decreases rels.len() - i,
{
    if i < 0 || i >= rels.len() {
        None
    } else if rels[i].r_id == rid {
        Some(i)
    } else {
        find_rid(rels, rid, i + 1)
    }
}

/// Index of the first relationship at or after `i` of type `rt`.
pub open spec fn find_type(rels: Seq<RelView>, rt: Seq<char>, i: int) -> Option<int>
    decreases rels.len() - i,
{
    if i < 0 || i >= rels.len() {
        None
    } else if rels[i].rel_type == rt {
        Some(i)
    } else {
        find_type(rels, rt, i + 1)
    }
}

/// The relationships of type `rt`, in order.
pub open spec fn of_type(rels: Seq<RelView>, rt: Seq<char>) -> Seq<RelView>
    decreases rels.len(),
{
    if rels.len() == 0 {
        Seq::empty()
    } else if rels.last().rel_type == rt {
        of_type(rels.drop_last(), rt).push(rels.last())
    } else {
        of_type(rels.drop_last(), rt)
    }
}

/// Whether some relationship has id `rid`.
pub open spec fn rid_used(rels: Seq<RelView>, rid: Seq<char>) -> bool {
    exists|i: int| 0 <= i < rels.len() && #[trigger] rels[i].r_id == rid
}

/// The id `rIdN`.
pub open spec fn rid_text(n: nat) -> Seq<char> {
    seq!['r', 'I', 'd'] + nat_digits(n)
}

/// The longest id length in a list.
pub open spec fn max_rid_len(rels: Seq<RelView>) -> nat
    decreases rels.len(),
{
    if rels.len() == 0 {
        0
    } else {
        let m = max_rid_len(rels.drop_last());
        if rels.last().r_id.len() > m { rels.last().r_id.len() } else { m }
    }
}

/// `n` zero characters.
pub open spec fn zeros(n: nat) -> Seq<char>
    decreases n,
{
    if n == 0 { Seq::empty() } else { zeros((n - 1) as nat).push('0') }
}

/// The id given to a new relationship: the first `rIdN`, counting from `n`, that is not
/// in use, with `N` at most one more than the number of relationships; should all those
/// be taken, an id longer than every id in use.
pub open spec fn next_rid_from(rels: Seq<RelView>, n: nat) -> Seq<char>
    decreases rels.len() + 2 - n,
{
    if n == 0 {
        next_rid_from(rels, 1)
    } else if n > rels.len() + 1 {
        seq!['r', 'I', 'd'] + zeros(max_rid_len(rels) + 1)
    } else if !rid_used(rels, rid_text(n)) {
        rid_text(n)
    } else {
        next_rid_from(rels, n + 1)
    }
}

/// The id given to a new relationship.
pub open spec fn next_rid(rels: Seq<RelView>) -> Seq<char> {
    next_rid_from(rels, 1)
}

/// What a relationship collection holds: the relationships in order, and the directory
/// against which their targets are resolved.
pub struct RelsView {
    pub rels: Seq<RelView>,
    pub base: Seq<char>,
}

/// The relationships of a part or of the package.
#[derive(Debug, Clone, PartialEq, Eq)]
pub struct Relationships {
    rels: Vec<Relationship>,
    base_uri: String,
}

impl View for Relationships {
    type V = RelsView;

    closed spec fn view(&self) -> RelsView {
        RelsView { rels: rel_views(self.rels@), base: self.base_uri@ }
    }
}

proof fn lemma_find_rid_step(rels: Seq<RelView>, rid: Seq<char>, i: int)
    requires
        0 <= i < rels.len(),
        rels[i].r_id != rid,
    ensures
        find_rid(rels, rid, i) == find_rid(rels, rid, i + 1),
{
}

proof fn lemma_find_type_step(rels: Seq<RelView>, rt: Seq<char>, i: int)
    requires
        0 <= i < rels.len(),
        rels[i].rel_type != rt,
    ensures
        find_type(rels, rt, i) == find_type(rels, rt, i + 1),
{
}

/// A found index is in range and matches.
pub proof fn lemma_find_rid_found(rels: Seq<RelView>, rid: Seq<char>, i: int)
    requires
        0 <= i,
    ensures
        find_rid(rels, rid, i) matches Some(j) ==> i <= j < rels.len() && rels[j].r_id == rid
            && forall|k: int| i <= k < j ==> rels[k].r_id != rid,
        find_rid(rels, rid, i) is None ==> forall|k: int| i <= k < rels.len() ==> rels[k].r_id != rid,
    decreases rels.len() - i,
{
    if i < rels.len() && rels[i].r_id != rid {
        lemma_find_rid_found(rels, rid, i + 1);
    }
}

/// A found index is in range and matches.
pub proof fn lemma_find_type_found(rels: Seq<RelView>, rt: Seq<char>, i: int)
    requires
        0 <= i,
    ensures
        find_type(rels, rt, i) matches Some(j) ==> i <= j < rels.len() && rels[j].rel_type == rt
            && forall|k: int| i <= k < j ==> rels[k].rel_type != rt,
        find_type(rels, rt, i) is None ==> forall|k: int| i <= k < rels.len() ==> rels[k].rel_type != rt,
    decreases rels.len() - i,
{
    if i < rels.len() && rels[i].rel_type != rt {
        lemma_find_type_found(rels, rt, i + 1);
    }
}

/// `zeros(n)` has `n` characters.
pub proof fn lemma_zeros_len(n: nat)
    ensures
        zeros(n).len() == n,
    decreases n,
{
    if n > 0 {
        lemma_zeros_len((n - 1) as nat);
    }
}

proof fn lemma_max_rid_len(rels: Seq<RelView>)
    ensures
        forall|i: int| 0 <= i < rels.len() ==> #[trigger] rels[i].r_id.len() <= max_rid_len(rels),
    decreases rels.len(),
{
    if rels.len() > 0 {
        lemma_max_rid_len(rels.drop_last());
        assert forall|i: int| 0 <= i < rels.len() implies #[trigger] rels[i].r_id.len() <= max_rid_len(rels) by {
            if i < rels.len() - 1 {
                assert(rels.drop_last()[i] == rels[i]);
            }
        }
    }
}

/// A new relationship id is not in use.
pub proof fn lemma_next_rid_unused(rels: Seq<RelView>, n: nat)
    ensures
        !rid_used(rels, next_rid_from(rels, n)),
    decreases rels.len() + 2 - n,
{
    if n == 0 {
        lemma_next_rid_unused(rels, 1);
    } else if n > rels.len() + 1 {
        lemma_max_rid_len(rels);
        lemma_zeros_len(max_rid_len(rels) + 1);
        let r = seq!['r', 'I', 'd'] + zeros(max_rid_len(rels) + 1);
        if rid_used(rels, r) {
            let i = choose|i: int| 0 <= i < rels.len() && #[trigger] rels[i].r_id == r;
            assert(rels[i].r_id.len() <= max_rid_len(rels));
        }
    } else if rid_used(rels, rid_text(n)) {
        lemma_next_rid_unused(rels, n + 1);
    }
}

/// The relationships of a type after one more is appended.
pub proof fn lemma_of_type_push(rels: Seq<RelView>, r: RelView, rt: Seq<char>)
    ensures
        of_type(rels.push(r), rt) == if r.rel_type == rt { of_type(rels, rt).push(r) } else { of_type(rels, rt) },
{
    assert(rels.push(r).drop_last() == rels);
}

impl Relationships {
    /// An empty collection whose targets are resolved against `base_uri`.
    pub fn new(base_uri: &str) -> (r: Relationships)
        ensures
            r@.rels == Seq::<RelView>::empty(),
            r@.base == base_uri@,
    {
        let r = Relationships { rels: Vec::new(), base_uri: base_uri.to_owned() };
        assert(rel_views(r.rels@) =~= Seq::<RelView>::empty());
        r
    }

    /// A collection holding `rels`, in order, resolved against `base_uri`.
    pub fn from_list(rels: Vec<Relationship>, base_uri: &str) -> (r: Relationships)
        ensures
            r@.rels == rel_views(rels@),
            r@.base == base_uri@,
    {
        Relationships { rels, base_uri: base_uri.to_owned() }
    }

    /// The directory against which targets are resolved.
    pub fn base_uri(&self) -> (r: &str)
        ensures
            r@ == self@.base,
    {
        self.base_uri.as_str()
    }

    /// Number of relationships.
    pub fn len(&self) -> (r: usize)
        ensures
            r == self@.rels.len(),
    {
        self.rels.len()
    }

    /// Whether there are no relationships.
    pub fn is_empty(&self) -> (r: bool)
        ensures
            r == (self@.rels.len() == 0),
    {
        self.rels.len() == 0
    }

    /// The relationship at position `i`.
    pub fn at(&self, i: usize) -> (r: &Relationship)
        requires
            i < self@.rels.len(),
        ensures
            r@ == self@.rels[i as int],
    {
        &self.rels[i]
    }

    /// All relationships, in order.
    pub fn as_vec(&self) -> (r: &Vec<Relationship>)
        ensures
            rel_views(r@) == self@.rels,
    {
        &self.rels
    }

    /// Position of the first relationship with id `r_id`.
    pub fn index_of(&self, r_id: &str) -> (r: Option<usize>)
        ensures
            r matches Some(i) ==> find_rid(self@.rels, r_id@, 0) == Some(i as int),
            r is None ==> find_rid(self@.rels, r_id@, 0) is None,
    {
        let mut i: usize = 0;
        while i < self.rels.len()
            invariant
                i <= self.rels.len(),
                find_rid(self@.rels, r_id@, 0) == find_rid(self@.rels, r_id@, i as int),
                self@.rels.len() == self.rels@.len(),
            decreases self.rels.len() - i,
        {
            assert(self@.rels[i as int] == self.rels@[i as int]@);
            if str_eq(self.rels[i].r_id.as_str(), r_id) {
                return Some(i);
            }
            proof { lemma_find_rid_step(self@.rels, r_id@, i as int); }
            i = i + 1;
        }
        None
    }

    /// The first relationship with id `r_id`.
    pub fn get(&self, r_id: &str) -> (r: Option<&Relationship>)
        ensures
            match find_rid(self@.rels, r_id@, 0) {
                Some(i) => r matches Some(rel) && rel@ == self@.rels[i],
                None => r is None,
            },
    {
        match self.index_of(r_id) {
            Some(i) => {
                proof { lemma_find_rid_found(self@.rels, r_id@, 0); }
                Some(&self.rels[i])
            },
            None => None,
        }
    }

    /// Position of the first relationship of type `rel_type`.
    pub fn index_of_type(&self, rel_type: &str) -> (r: Option<usize>)
        ensures
            r matches Some(i) ==> find_type(self@.rels, rel_type@, 0) == Some(i as int),
            r is None ==> find_type(self@.rels, rel_type@, 0) is None,
    {
        let mut i: usize = 0;
        while i < self.rels.len()
            invariant
                i <= self.rels.len(),
                find_type(self@.rels, rel_type@, 0) == find_type(self@.rels, rel_type@, i as int),
                self@.rels.len() == self.rels@.len(),
            decreases self.rels.len() - i,
        {
            assert(self@.rels[i as int] == self.rels@[i as int]@);
            if str_eq(self.rels[i].rel_type.as_str(), rel_type) {
                return Some(i);
            }
            proof { lemma_find_type_step(self@.rels, rel_type@, i as int); }
            i = i + 1;
        }
        None
    }

    /// The first relationship of type `rel_type`, or an error when there is none.
    pub fn by_reltype(&self, rel_type: &str) -> (r: Result<&Relationship, PptxError>)
        ensures
            match find_type(self@.rels, rel_type@, 0) {
                Some(i) => r matches Ok(rel) && rel@ == self@.rels[i],
                None => r is Err,
            },
    {
        match self.index_of_type(rel_type) {
            Some(i) => {
                proof { lemma_find_type_found(self@.rels, rel_type@, 0); }
                Ok(&self.rels[i])
            },
            None => Err(PptxError::RelationshipNotFound(rel_type.to_owned())),
        }
    }

    /// All relationships of type `rel_type`, in order.
    pub fn all_by_reltype(&self, rel_type: &str) -> (r: Vec<&Relationship>)
        ensures
            r@.len() == of_type(self@.rels, rel_type@).len(),
            forall|i: int| 0 <= i < r@.len() ==> #[trigger] r@[i]@ == of_type(self@.rels, rel_type@)[i],
    {
        let mut out: Vec<&Relationship> = Vec::new();
        let mut i: usize = 0;
        while i < self.rels.len()
            invariant
                i <= self.rels.len(),
                self@.rels.len() == self.rels@.len(),
                out@.len() == of_type(self@.rels.take(i as int), rel_type@).len(),
                forall|j: int| 0 <= j < out@.len() ==> #[trigger] out@[j]@ == of_type(self@.rels.take(i as int), rel_type@)[j],
            decreases self.rels.len() - i,
        {
            let ghost prev = self@.rels.take(i as int);
            assert(self@.rels.take(i as int + 1) == prev.push(self@.rels[i as int]));
            assert(self@.rels[i as int] == self.rels@[i as int]@);
            proof { lemma_of_type_push(prev, self@.rels[i as int], rel_type@); }
            if str_eq(self.rels[i].rel_type.as_str(), rel_type) {
                out.push(&self.rels[i]);
            }
            i = i + 1;
        }
        assert(self@.rels.take(i as int) == self@.rels);
        out
    }

    fn rid_in_use(&self, rid: &str) -> (r: bool)
        ensures
            r == rid_used(self@.rels, rid@),
    {
        match self.index_of(rid) {
            Some(i) => {
                proof { lemma_find_rid_found(self@.rels, rid@, 0); }
                true
            },
            None => {
                proof { lemma_find_rid_found(self@.rels, rid@, 0); }
                false
            },
        }
    }

    fn max_id_len(&self) -> (r: usize)
        ensures
            r == max_rid_len(self@.rels),
    {
        let mut m: usize = 0;
        let mut i: usize = 0;
        while i < self.rels.len()
            invariant
                i <= self.rels.len(),
                self@.rels.len() == self.rels@.len(),
                m == max_rid_len(self@.rels.take(i as int)),
            decreases self.rels.len() - i,
        {
            let ghost prev = self@.rels.take(i as int);
            assert(self@.rels.take(i as int + 1).drop_last() == prev);
            assert(self@.rels[i as int] == self.rels@[i as int]@);
            let l = crate::text::str_to_chars(self.rels[i].r_id.as_str()).len();
            if l > m {
                m = l;
            }
            i = i + 1;
        }
        assert(self@.rels.take(i as int) == self@.rels);
        m
    }

    /// The id that a new relationship gets.
    pub fn next_r_id(&self) -> (r: String)
        requires
            self@.rels.len() < usize::MAX,
        ensures
            r@ == next_rid(self@.rels),
            !rid_used(self@.rels, r@),
    {
        proof { lemma_next_rid_unused(self@.rels, 1); }
        let mut n: usize = 1;
        while n <= self.rels.len()
            invariant
                1 <= n <= self.rels.len() + 1,
                self@.rels.len() == self.rels@.len(),
                self@.rels.len() < usize::MAX,
                next_rid_from(self@.rels, n as nat) == next_rid(self@.rels),
            decreases self.rels.len() + 1 - n,
        {
            let mut cand = String::new();
            string_push_str(&mut cand, "rId");
            push_u64(&mut cand, n as u64);
            proof { reveal_strlit("rId"); }
            assert(cand@ =~= rid_text(n as nat));
            if !self.rid_in_use(cand.as_str()) {
                return cand;
            }
            n = n + 1;
        }
        // n == len + 1
        let mut cand = String::new();
        string_push_str(&mut cand, "rId");
        push_u64(&mut cand, n as u64);
        proof { reveal_strlit("rId"); }
        assert(cand@ =~= rid_text(n as nat));
        if !self.rid_in_use(cand.as_str()) {
            return cand;
        }
        assert(next_rid_from(self@.rels, (n + 1) as nat) == next_rid(self@.rels));
        let mut fallback = String::new();
        string_push_str(&mut fallback, "rId");
        let m = self.max_id_len();
        let mut k: usize = 0;
        assert(fallback@ =~= seq!['r', 'I', 'd'] + zeros(0));
        while k < m
            invariant
                k <= m,
                m == max_rid_len(self@.rels),
                fallback@ == seq!['r', 'I', 'd'] + zeros(k as nat),
            decreases m - k,
        {
            string_push(&mut fallback, '0');
            assert(fallback@ =~= seq!['r', 'I', 'd'] + zeros(k as nat + 1));
            k = k + 1;
        }
        string_push(&mut fallback, '0');
        assert(fallback@ =~= seq!['r', 'I', 'd'] + zeros(m as nat + 1));
        fallback
    }

    /// Adds a relationship with a fresh id and returns that id.
    pub fn add_relationship(&mut self, rel_type: &str, target_ref: &str, is_external: bool) -> (r: String)
        requires
            old(self)@.rels.len() < usize::MAX,
        ensures
            r@ == next_rid(old(self)@.rels),
            final(self)@.base == old(self)@.base,
            final(self)@.rels == old(self)@.rels.push(RelView {
                r_id: r@,
                rel_type: rel_type@,
                target_ref: target_ref@,
                is_external,
            }),
    {
        let r_id = self.next_r_id();
        let rel = Relationship {
            r_id: r_id.clone(),
            rel_type: rel_type.to_owned(),
            target_ref: target_ref.to_owned(),
            is_external,
        };
        let ghost old_rels = self.rels@;
        self.rels.push(rel);
        assert(rel_views(self.rels@) =~= rel_views(old_rels).push(rel@));
        r_id
    }

    /// The id of an existing relationship with the same type, target and externality, or
    /// else of a newly added one.
    pub fn or_add(&mut self, rel_type: &str, target_ref: &str, is_external: bool) -> (r: String)
        requires
            old(self)@.rels.len() < usize::MAX,
        ensures
            final(self)@.base == old(self)@.base,
            ({
                let want = |x: RelView| x.rel_type == rel_type@ && x.target_ref == target_ref@
                    && x.is_external == is_external;
                if exists|i: int| 0 <= i < old(self)@.rels.len() && want(#[trigger] old(self)@.rels[i]) {
                    final(self)@ == old(self)@ && exists|i: int| 0 <= i < old(self)@.rels.len()
                        && want(#[trigger] old(self)@.rels[i]) && old(self)@.rels[i].r_id == r@
                } else {
                    r@ == next_rid(old(self)@.rels) && final(self)@.rels == old(self)@.rels.push(
                        RelView { r_id: r@, rel_type: rel_type@, target_ref: target_ref@, is_external },
                    )
                }
            }),
    {
        let mut i: usize = 0;
        while i < self.rels.len()
            invariant
                i <= self.rels.len(),
                self@.rels.len() == self.rels@.len(),
                forall|j: int| 0 <= j < i ==> !(self@.rels[j].rel_type == rel_type@ && self@.rels[j].target_ref
                    == target_ref@ && self@.rels[j].is_external == is_external),
            decreases self.rels.len() - i,
        {
            assert(self@.rels[i as int] == self.rels@[i as int]@);
            if str_eq(self.rels[i].rel_type.as_str(), rel_type) && str_eq(
                self.rels[i].target_ref.as_str(),
                target_ref,
            ) && self.rels[i].is_external == is_external {
                return self.rels[i].r_id.clone();
            }
            i = i + 1;
        }
        self.add_relationship(rel_type, target_ref, is_external)
    }

    /// Removes the first relationship with id `r_id` and returns it.
    pub fn remove(&mut self, r_id: &str) -> (r: Option<Relationship>)
        ensures
            final(self)@.base == old(self)@.base,
            match find_rid(old(self)@.rels, r_id@, 0) {
                Some(i) => r matches Some(rel) && rel@ == old(self)@.rels[i] && final(self)@.rels == old(
                    self,
                )@.rels.remove(i),
                None => r is None && final(self)@ == old(self)@,
            },
    {
        match self.index_of(r_id) {
            Some(i) => {
                proof { lemma_find_rid_found(self@.rels, r_id@, 0); }
                let ghost old_rels = self.rels@;
                let rel = self.rels.remove(i);
                assert(rel_views(self.rels@) =~= rel_views(old_rels).remove(i as int));
                Some(rel)
            },
            None => None,
        }
    }
}

/// What a part holds.
pub struct PartView {
    pub partname: Seq<char>,
    pub content_type: Seq<char>,
    pub blob: Seq<u8>,
    pub rels: RelsView,
}

/// A part of the package: its name, content type, bytes and outgoing relationships.
#[derive(Debug, Clone, PartialEq, Eq)]
pub struct Part {
    /// The part name.
    pub partname: PackURI,
    /// The content type.
    pub content_type: String,
    /// The part's bytes (XML text for XML parts).
    pub blob: Vec<u8>,
    /// Relationships from this part.
    pub rels: Relationships,
}

impl View for Part {
    type V = PartView;

    open spec fn view(&self) -> PartView {
        PartView {
            partname: self.partname@,
            content_type: self.content_type@,
            blob: self.blob@,
            rels: self.rels@,
        }
    }
}

impl Part {
    /// A new part without relationships; its relationships resolve against its directory.
    pub fn new(partname: PackURI, content_type: &str, blob: Vec<u8>) -> (r: Part)
        ensures
            r@.partname == partname@,
            r@.content_type == content_type@,
            r@.blob == blob@,
            r@.rels.rels == Seq::<RelView>::empty(),
            r@.rels.base == base_uri_spec(partname@),
    {
        let base = partname.base_uri();
        Part { partname, content_type: content_type.to_owned(), blob, rels: Relationships::new(base.as_str()) }
    }
}

/// The views of a list of parts.
pub open spec fn part_views(v: Seq<Part>) -> Seq<PartView> {
    v.map_values(|p: Part| p@)
}

/// Index of the first part at or after `i` named `name`.
pub open spec fn find_part(parts: Seq<PartView>, name: Seq<char>, i: int) -> Option<int>
    decreases parts.len() - i,
{
    if i < 0 || i >= parts.len() {
        None
    } else if parts[i].partname == name {
        Some(i)
    } else {
        find_part(parts, name, i + 1)
    }
}

/// A found part index is in range and matches; none before it matches.
pub proof fn lemma_find_part_found(parts: Seq<PartView>, name: Seq<char>, i: int)
    requires
        0 <= i,
    ensures
        find_part(parts, name, i) matches Some(j) ==> i <= j < parts.len() && parts[j].partname == name
            && forall|k: int| i <= k < j ==> parts[k].partname != name,
        find_part(parts, name, i) is None ==> forall|k: int| i <= k < parts.len() ==> parts[k].partname != name,
    decreases parts.len() - i,
{
    if i < parts.len() && parts[i].partname != name {
        lemma_find_part_found(parts, name, i + 1);
    }
}

/// `find_part` is determined by the names alone.
pub proof fn lemma_find_part_names(a: Seq<PartView>, b: Seq<PartView>, name: Seq<char>, i: int)
    requires
        a.len() == b.len(),
        forall|k: int| 0 <= k < a.len() ==> a[k].partname == b[k].partname,
    ensures
        find_part(a, name, i) == find_part(b, name, i),
    decreases a.len() - i,
{
    if 0 <= i < a.len() && a[i].partname != name {
        lemma_find_part_names(a, b, name, i + 1);
    }
}

/// Whether some part is named `name`.
pub open spec fn has_part(parts: Seq<PartView>, name: Seq<char>) -> bool {
    exists|i: int| 0 <= i < parts.len() && #[trigger] parts[i].partname == name
}

/// What a package holds: its parts in order, and the package-level relationships.
pub struct PackageView {
    pub parts: Seq<PartView>,
    pub pkg_rels: RelsView,
}

/// The part that the first package relationship of type `rt` points to, if there is one.
pub open spec fn part_by_reltype_spec(pkg: PackageView, rt: Seq<char>) -> Option<int> {
    match find_type(pkg.pkg_rels.rels, rt, 0) {
        Some(i) => if pkg.pkg_rels.rels[i].is_external {
            None
        } else {
            find_part(pkg.parts, resolve(pkg.pkg_rels.base, pkg.pkg_rels.rels[i].target_ref), 0)
        },
        None => None,
    }
}

/// The name that `next_partname` gives: the first `prefix N suffix`, counting from `n`,
/// with `N` at most one more than the number of parts, that no part has; should all be
/// taken, `prefix` followed by more zeros than any part name is long, then `suffix`.
pub open spec fn next_partname_from(parts: Seq<PartView>, prefix: Seq<char>, suffix: Seq<char>, n: nat) -> Seq<char>
    decreases parts.len() + 2 - n,
{
    if n == 0 {
        next_partname_from(parts, prefix, suffix, 1)
    } else if n > parts.len() + 1 {
        prefix + zeros(max_name_len(parts) + 1) + suffix
    } else if !has_part(parts, prefix + nat_digits(n) + suffix) {
        prefix + nat_digits(n) + suffix
    } else {
        next_partname_from(parts, prefix, suffix, n + 1)
    }
}

/// The longest part name length.
pub open spec fn max_name_len(parts: Seq<PartView>) -> nat
    decreases parts.len(),
{
    if parts.len() == 0 {
        0
    } else {
        let m = max_name_len(parts.drop_last());
        if parts.last().partname.len() > m { parts.last().partname.len() } else { m }
    }
}

proof fn lemma_max_name_len(parts: Seq<PartView>)
    ensures
        forall|i: int| 0 <= i < parts.len() ==> #[trigger] parts[i].partname.len() <= max_name_len(parts),
    decreases parts.len(),
{
    if parts.len() > 0 {
        lemma_max_name_len(parts.drop_last());
        assert forall|i: int| 0 <= i < parts.len() implies #[trigger] parts[i].partname.len() <= max_name_len(parts) by {
            if i < parts.len() - 1 {
                assert(parts.drop_last()[i] == parts[i]);
            }
        }
    }
}

/// A name given by `next_partname` is not in use.
pub proof fn lemma_next_partname_unused(parts: Seq<PartView>, prefix: Seq<char>, suffix: Seq<char>, n: nat)
    ensures
        !has_part(parts, next_partname_from(parts, prefix, suffix, n)),
    decreases parts.len() + 2 - n,
{
    if n == 0 {
        lemma_next_partname_unused(parts, prefix, suffix, 1);
    } else if n > parts.len() + 1 {
        lemma_max_name_len(parts);
        lemma_zeros_len(max_name_len(parts) + 1);
        let r = prefix + zeros(max_name_len(parts) + 1) + suffix;
        if has_part(parts, r) {
            let i = choose|i: int| 0 <= i < parts.len() && #[trigger] parts[i].partname == r;
            assert(parts[i].partname.len() <= max_name_len(parts));
        }
    } else if has_part(parts, prefix + nat_digits(n) + suffix) {
        lemma_next_partname_unused(parts, prefix, suffix, n + 1);
    }
}

/// `prefix N suffix`.
pub fn numbered_name(prefix: &str, n: u64, suffix: &str) -> (r: String)
    ensures
        r@ == prefix@ + nat_digits(n as nat) + suffix@,
{
    let mut cand = String::new();
    string_push_str(&mut cand, prefix);
    push_u64(&mut cand, n);
    string_push_str(&mut cand, suffix);
    assert(cand@ =~= prefix@ + nat_digits(n as nat) + suffix@);
    cand
}

/// An OPC package: parts and package-level relationships.
#[derive(Debug, Clone, PartialEq, Eq)]
pub struct OpcPackage {
    parts: Vec<Part>,
    /// Package-level relationships (`/_rels/.rels`), resolved against `/`.
    pub pkg_rels: Relationships,
}

impl View for OpcPackage {
    type V = PackageView;

    closed spec fn view(&self) -> PackageView {
        PackageView { parts: part_views(self.parts@), pkg_rels: self.pkg_rels@ }
    }
}

impl OpcPackage {
    /// A package without parts or relationships.
    pub fn empty() -> (r: OpcPackage)
        ensures
            r@.parts == Seq::<PartView>::empty(),
            r@.pkg_rels.rels == Seq::<RelView>::empty(),
            r@.pkg_rels.base == seq!['/'],
    {
        let r = OpcPackage { parts: Vec::new(), pkg_rels: Relationships::new("/") };
        proof { reveal_strlit("/"); }
        assert(part_views(r.parts@) =~= Seq::<PartView>::empty());
        r
    }

    /// A package holding `parts`, in order, and the package relationships `pkg_rels`.
    pub fn from_parts(parts: Vec<Part>, pkg_rels: Relationships) -> (r: OpcPackage)
        ensures
            r@ == (PackageView { parts: part_views(parts@), pkg_rels: pkg_rels@ }),
    {
        OpcPackage { parts, pkg_rels }
    }

    /// The package-level relationships.
    pub fn pkg_rels(&self) -> (r: &Relationships)
        ensures
            r@ == self@.pkg_rels,
    {
        &self.pkg_rels
    }

    /// The package-level relationships, for changes.
    pub fn pkg_rels_mut(&mut self) -> (r: &mut Relationships)
        ensures
            r@ == old(self)@.pkg_rels,
            final(self)@.pkg_rels == final(r)@,
            final(self)@.parts == old(self)@.parts,
    {
        &mut self.pkg_rels
    }

    /// All parts, in order.
    pub fn parts(&self) -> (r: &Vec<Part>)
        ensures
            part_views(r@) == self@.parts,
    {
        &self.parts
    }

    /// Number of parts.
    pub fn part_count(&self) -> (r: usize)
        ensures
            r == self@.parts.len(),
    {
        self.parts.len()
    }

    /// Position of the first part named `name`.
    pub fn part_index(&self, name: &str) -> (r: Option<usize>)
        ensures
            r matches Some(i) ==> find_part(self@.parts, name@, 0) == Some(i as int),
            r is None ==> find_part(self@.parts, name@, 0) is None,
    {
        let mut i: usize = 0;
        while i < self.parts.len()
            invariant
                i <= self.parts.len(),
                self@.parts.len() == self.parts@.len(),
                find_part(self@.parts, name@, 0) == find_part(self@.parts, name@, i as int),
            decreases self.parts.len() - i,
        {
            assert(self@.parts[i as int] == self.parts@[i as int]@);
            if str_eq(self.parts[i].partname.as_str(), name) {
                return Some(i);
            }
            i = i + 1;
        }
        None
    }

    /// The first part named `name`.
    pub fn part(&self, name: &PackURI) -> (r: Option<&Part>)
        ensures
            match find_part(self@.parts, name@, 0) {
                Some(i) => r matches Some(p) && p@ == self@.parts[i],
                None => r is None,
            },
    {
        match self.part_index(name.as_str()) {
            Some(i) => {
                proof { lemma_find_part_found(self@.parts, name@, 0); }
                Some(&self.parts[i])
            },
            None => None,
        }
    }

    /// The first part named `name`, for changes.
    pub fn part_mut(&mut self, name: &PackURI) -> (r: Option<&mut Part>)
        ensures
            match find_part(old(self)@.parts, name@, 0) {
                Some(i) => r matches Some(p) && p@ == old(self)@.parts[i] && final(self)@.pkg_rels == old(self)@.pkg_rels
                    && final(self)@.parts == old(self)@.parts.update(i, final(p)@),
                None => r is None && final(self)@ == old(self)@,
            },
    {
        match self.part_index(name.as_str()) {
            Some(i) => {
                proof { lemma_find_part_found(self@.parts, name@, 0); }
                Some(&mut self.parts[i])
            },
            None => None,
        }
    }

    /// The part at position `i`.
    pub fn part_at(&self, i: usize) -> (r: &Part)
        requires
            i < self@.parts.len(),
        ensures
            r@ == self@.parts[i as int],
    {
        &self.parts[i]
    }

    /// Replaces the blob of the part at position `i`.
    pub fn set_blob_at(&mut self, i: usize, blob: Vec<u8>)
        requires
            i < old(self)@.parts.len(),
        ensures
            final(self)@.pkg_rels == old(self)@.pkg_rels,
            final(self)@.parts == old(self)@.parts.update(i as int, PartView { blob: blob@, ..old(self)@.parts[i as int] }),
    {
        let ghost old_parts = self.parts@;
        let mut p = self.parts.remove(i);
        p.blob = blob;
        self.parts.insert(i, p);
        assert(part_views(self.parts@) =~= part_views(old_parts).update(
            i as int,
            PartView { blob: blob@, ..part_views(old_parts)[i as int] },
        ));
    }

    /// Replaces the content type of the part at position `i`.
    pub fn set_content_type_at(&mut self, i: usize, content_type: &str)
        requires
            i < old(self)@.parts.len(),
        ensures
            final(self)@.pkg_rels == old(self)@.pkg_rels,
            final(self)@.parts == old(self)@.parts.update(
                i as int,
                PartView { content_type: content_type@, ..old(self)@.parts[i as int] },
            ),
    {
        let ghost old_parts = self.parts@;
        let mut p = self.parts.remove(i);
        p.content_type = content_type.to_owned();
        self.parts.insert(i, p);
        assert(part_views(self.parts@) =~= part_views(old_parts).update(
            i as int,
            PartView { content_type: content_type@, ..part_views(old_parts)[i as int] },
        ));
    }

    /// Takes the relationships of the part at position `i` out, leaving an empty collection
    /// with the same base in their place.
    pub fn take_rels_at(&mut self, i: usize) -> (r: Relationships)
        requires
            i < old(self)@.parts.len(),
        ensures
            r@ == old(self)@.parts[i as int].rels,
            final(self)@.pkg_rels == old(self)@.pkg_rels,
            final(self)@.parts == old(self)@.parts.update(
                i as int,
                PartView { rels: RelsView { rels: Seq::empty(), base: r@.base }, ..old(self)@.parts[i as int] },
            ),
    {
        let ghost old_parts = self.parts@;
        let mut p = self.parts.remove(i);
        let mut rels = Relationships::new(p.rels.base_uri());
        std::mem::swap(&mut rels, &mut p.rels);
        self.parts.insert(i, p);
        assert(part_views(self.parts@) =~= part_views(old_parts).update(
            i as int,
            PartView { rels: RelsView { rels: Seq::empty(), base: rels@.base }, ..part_views(old_parts)[i as int] },
        ));
        rels
    }

    /// Puts relationships back into the part at position `i`.
    pub fn set_rels_at(&mut self, i: usize, rels: Relationships)
        requires
            i < old(self)@.parts.len(),
        ensures
            final(self)@.pkg_rels == old(self)@.pkg_rels,
            final(self)@.parts == old(self)@.parts.update(i as int, PartView { rels: rels@, ..old(self)@.parts[i as int] }),
    {
        let ghost old_parts = self.parts@;
        let mut p = self.parts.remove(i);
        p.rels = rels;
        self.parts.insert(i, p);
        assert(part_views(self.parts@) =~= part_views(old_parts).update(
            i as int,
            PartView { rels: rels@, ..part_views(old_parts)[i as int] },
        ));
    }

    /// Adds a part, replacing the first part with the same name if there is one.
    pub fn put_part(&mut self, part: Part)
        ensures
            final(self)@.pkg_rels == old(self)@.pkg_rels,
            match find_part(old(self)@.parts, part@.partname, 0) {
                Some(i) => final(self)@.parts == old(self)@.parts.update(i, part@),
                None => final(self)@.parts == old(self)@.parts.push(part@),
            },
    {
        let ghost old_parts = self.parts@;
        match self.part_index(part.partname.as_str()) {
            Some(i) => {
                proof { lemma_find_part_found(self@.parts, part@.partname, 0); }
                self.parts.remove(i);
                self.parts.insert(i, part);
                assert(part_views(self.parts@) =~= part_views(old_parts).update(i as int, part@));
            },
            None => {
                self.parts.push(part);
                assert(part_views(self.parts@) =~= part_views(old_parts).push(part@));
            },
        }
    }

    /// Removes the first part named `name` and returns it.
    pub fn remove_part(&mut self, name: &PackURI) -> (r: Option<Part>)
        ensures
            final(self)@.pkg_rels == old(self)@.pkg_rels,
            match find_part(old(self)@.parts, name@, 0) {
                Some(i) => r matches Some(p) && p@ == old(self)@.parts[i] && final(self)@.parts == old(
                    self,
                )@.parts.remove(i),
                None => r is None && final(self)@.parts == old(self)@.parts,
            },
    {
        let ghost old_parts = self.parts@;
        match self.part_index(name.as_str()) {
            Some(i) => {
                proof { lemma_find_part_found(self@.parts, name@, 0); }
                let p = self.parts.remove(i);
                assert(part_views(self.parts@) =~= part_views(old_parts).remove(i as int));
                Some(p)
            },
            None => None,
        }
    }

    /// The part that the first package relationship of type `rel_type` points to.
    pub fn part_by_reltype(&self, rel_type: &str) -> (r: Result<&Part, PptxError>)
        ensures
            match part_by_reltype_spec(self@, rel_type@) {
                Some(i) => r matches Ok(p) && p@ == self@.parts[i],
                None => r is Err,
            },
    {
        let rel = self.pkg_rels.by_reltype(rel_type)?;
        let name = rel.target_partname(self.pkg_rels.base_uri())?;
        match self.part(&name) {
            Some(p) => Ok(p),
            None => Err(PptxError::PartNotFound(name.to_string())),
        }
    }

    fn has_part_named(&self, name: &str) -> (r: bool)
        ensures
            r == has_part(self@.parts, name@),
    {
        proof { lemma_find_part_found(self@.parts, name@, 0); }
        match self.part_index(name) {
            Some(_) => true,
            None => false,
        }
    }

    fn max_part_name_len(&self) -> (r: usize)
        ensures
            r == max_name_len(self@.parts),
    {
        let mut m: usize = 0;
        let mut i: usize = 0;
        while i < self.parts.len()
            invariant
                i <= self.parts.len(),
                self@.parts.len() == self.parts@.len(),
                m == max_name_len(self@.parts.take(i as int)),
            decreases self.parts.len() - i,
        {
            assert(self@.parts.take(i as int + 1).drop_last() == self@.parts.take(i as int));
            assert(self@.parts[i as int] == self.parts@[i as int]@);
            let l = crate::text::str_to_chars(self.parts[i].partname.as_str()).len();
            if l > m {
                m = l;
            }
            i = i + 1;
        }
        assert(self@.parts.take(i as int) == self@.parts);
        m
    }

    /// The first name `prefix N suffix` not used by any part (N counting from 1).
    pub fn next_partname(&self, prefix: &str, suffix: &str) -> (r: PackURI)
        requires
            self@.parts.len() < usize::MAX,
        ensures
            r@ == next_partname_from(self@.parts, prefix@, suffix@, 1),
            !has_part(self@.parts, r@),
    {
        proof { lemma_next_partname_unused(self@.parts, prefix@, suffix@, 1); }
        let mut n: usize = 1;
        while n <= self.parts.len()
            invariant
                1 <= n <= self.parts.len() + 1,
                self@.parts.len() == self.parts@.len(),
                self@.parts.len() < usize::MAX,
                next_partname_from(self@.parts, prefix@, suffix@, n as nat) == next_partname_from(
                    self@.parts,
                    prefix@,
                    suffix@,
                    1,
                ),
            decreases self.parts.len() + 1 - n,
        {
            let cand = numbered_name(prefix, n as u64, suffix);
            if !self.has_part_named(cand.as_str()) {
                return PackURI::from_string(cand);
            }
            n = n + 1;
        }
        let cand = numbered_name(prefix, n as u64, suffix);
        if !self.has_part_named(cand.as_str()) {
            return PackURI::from_string(cand);
        }
        assert(next_partname_from(self@.parts, prefix@, suffix@, (n + 1) as nat) == next_partname_from(
            self@.parts,
            prefix@,
            suffix@,
            1,
        ));
        let mut fallback = String::new();
        string_push_str(&mut fallback, prefix);
        let m = self.max_part_name_len();
        let mut k: usize = 0;
        assert(fallback@ =~= prefix@ + zeros(0));
        while k < m
            invariant
                k <= m,
                m == max_name_len(self@.parts),
                fallback@ == prefix@ + zeros(k as nat),
            decreases m - k,
        {
            string_push(&mut fallback, '0');
            assert(fallback@ =~= prefix@ + zeros(k as nat + 1));
            k = k + 1;
        }
        string_push(&mut fallback, '0');
        assert(fallback@ =~= prefix@ + zeros(m as nat + 1));
        string_push_str(&mut fallback, suffix);
        PackURI::from_string(fallback)
    }
}

} // verus!
