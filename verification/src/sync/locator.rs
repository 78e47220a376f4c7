//! The local view of the block index, the locator built from it, and the
//! diffing of received headers against it.

use crate::chain::block::{BlockHeader, BlockHeaderView};
use crate::error::ProtocolError;
use crate::primitives::BlockId;
use vstd::prelude::*;

verus! {

/// The largest number of headers sent in one reply.
pub const MAX_HEADERS: usize = 2000;

/// The number of locator entries that follow each other without a gap.
pub const LOCATOR_DENSE_ENTRIES: usize = 10;

/// What an indexed header is.
pub struct IndexedHeaderView {
    pub id: BlockId,
    pub header: BlockHeaderView,
}

/// A block header together with the id that its hash gives it.
#[derive(Debug, PartialEq, Eq)]
pub struct IndexedHeader {
    pub id: BlockId,
    pub header: BlockHeader,
}

impl View for IndexedHeader {
    type V = IndexedHeaderView;

    open spec fn view(&self) -> IndexedHeaderView {
        IndexedHeaderView { id: self.id, header: self.header@ }
    }
}

impl Clone for IndexedHeader {
    fn clone(&self) -> (r: Self)
        ensures
            r@ == self@,
    {
        IndexedHeader { id: self.id, header: self.header.clone() }
    }
}

impl IndexedHeader {
    pub fn new(id: BlockId, header: BlockHeader) -> (r: IndexedHeader)
        ensures
            r.id == id,
            r.header == header,
    {
        IndexedHeader { id, header }
    }

    /// The id of the block that this header builds on.
    pub open spec fn prev(&self) -> BlockId {
        self.header.hash_prev_block
    }
}

/// The views of a list of indexed headers, in order.
pub open spec fn headers_view(s: Seq<IndexedHeader>) -> Seq<IndexedHeaderView> {
    s.map_values(|h: IndexedHeader| h@)
}

/// Whether each header but the first builds on the one before it.
pub open spec fn is_contiguous(s: Seq<IndexedHeaderView>) -> bool {
    forall|i: int| 1 <= i < s.len() ==> (#[trigger] s[i]).header.hash_prev_block == s[i - 1].id
}

/// The heights that a locator names, from `h` down to genesis: `step` is the
/// distance to the next entry and `taken` the number of entries before `h`.
/// Once ten entries stand, the distance doubles with each further one.
pub open spec fn locator_heights_from(h: nat, step: nat, taken: nat) -> Seq<nat>
    decreases h,
{
    if h == 0 {
        seq![0nat]
    } else if h <= step || step == 0 {
        seq![h, 0nat]
    } else {
        let next_step = if taken + 1 >= LOCATOR_DENSE_ENTRIES {
            2 * step
        } else {
            step
        };
        seq![h].add(locator_heights_from((h - step) as nat, next_step, taken + 1))
    }
}

/// The heights that the locator of a chain with its tip at height `tip`
/// names: the tip first, the ten most recent heights without a gap, then
/// with doubling distances, and genesis last.
pub open spec fn locator_heights(tip: nat) -> Seq<nat> {
    locator_heights_from(tip, 1, 0)
}

/// The heights of a locator fall strictly, start at the given height, end
/// at genesis and stay at or below the start.
pub proof fn lemma_locator_heights_shape(h: nat, step: nat, taken: nat)
    ensures
        locator_heights_from(h, step, taken).len() >= 1,
        locator_heights_from(h, step, taken)[0] == h,
        locator_heights_from(h, step, taken).last() == 0,
        h == 0 ==> locator_heights_from(h, step, taken).len() == 1,
        h >= 1 ==> locator_heights_from(h, step, taken).len() >= 2,
        forall|i: int|
            0 <= i < locator_heights_from(h, step, taken).len() ==> #[trigger] locator_heights_from(
                h,
                step,
                taken,
            )[i] <= h,
        forall|i: int, j: int|
            0 <= i < j < locator_heights_from(h, step, taken).len() ==> locator_heights_from(
                h,
                step,
                taken,
            )[i] > locator_heights_from(h, step, taken)[j],
    decreases h,
{
    let s = locator_heights_from(h, step, taken);
    if h == 0 {
    } else if h <= step || step == 0 {
    } else {
        let next_step = if taken + 1 >= LOCATOR_DENSE_ENTRIES {
            2 * step
        } else {
            step
        };
        let rest = locator_heights_from((h - step) as nat, next_step, taken + 1);
        lemma_locator_heights_shape((h - step) as nat, next_step, taken + 1);
        assert(s =~= seq![h].add(rest));
        assert forall|i: int| 0 <= i < s.len() implies #[trigger] s[i] <= h by {
            if i > 0 {
                assert(s[i] == rest[i - 1]);
            }
        }
        assert forall|i: int, j: int| 0 <= i < j < s.len() implies s[i] > s[j] by {
            assert(s[j] == rest[j - 1]);
            if i > 0 {
                assert(s[i] == rest[i - 1]);
            }
        }
    }
}

/// While fewer than ten entries stand and the step is one, the next entry of
/// a locator is the height just below.
pub proof fn lemma_locator_dense(tip: nat, i: int)
    requires
        0 <= i <= LOCATOR_DENSE_ENTRIES,
        i <= tip,
    ensures
        i < locator_heights(tip).len(),
        locator_heights(tip)[i] == tip - i,
{
    lemma_locator_dense_from(tip, 0, i);
}

proof fn lemma_locator_dense_from(h: nat, taken: nat, i: int)
    requires
        0 <= i,
        taken + i <= LOCATOR_DENSE_ENTRIES,
        i <= h,
    ensures
        i < locator_heights_from(h, 1, taken).len(),
        locator_heights_from(h, 1, taken)[i] == h - i,
    decreases i,
{
    lemma_locator_heights_shape(h, 1, taken);
    if i > 0 {
        if h <= 1 {
        } else {
            let next_step: nat = if taken + 1 >= LOCATOR_DENSE_ENTRIES {
                2
            } else {
                1
            };
            let rest = locator_heights_from((h - 1) as nat, next_step, taken + 1);
            if i == 1 {
                lemma_locator_heights_shape((h - 1) as nat, next_step, taken + 1);
            } else {
                lemma_locator_dense_from((h - 1) as nat, taken + 1, i - 1);
            }
            assert(locator_heights_from(h, 1, taken) =~= seq![h].add(rest));
            assert(locator_heights_from(h, 1, taken)[i] == rest[i - 1]);
        }
    }
}

/// The local view of the block index: the main chain by height, genesis
/// first, and the headers that are stored off the main chain.
#[derive(Debug, PartialEq, Eq)]
pub struct ChainView {
    pub main: Vec<IndexedHeader>,
    pub side: Vec<IndexedHeader>,
}

impl ChainView {
    /// The main chain is not empty, each of its headers builds on the one
    /// below it, and no id is stored twice.
    pub open spec fn wf(&self) -> bool {
        &&& self.main@.len() >= 1
        &&& forall|i: int|
            1 <= i < self.main@.len() ==> (#[trigger] self.main@[i]).prev() == self.main@[i - 1].id
        &&& forall|i: int, j: int|
            0 <= i < j < self.main@.len() ==> self.main@[i].id != self.main@[j].id
        &&& forall|i: int, j: int|
            0 <= i < j < self.side@.len() ==> self.side@[i].id != self.side@[j].id
        &&& forall|i: int, j: int|
            0 <= i < self.main@.len() && 0 <= j < self.side@.len() ==> self.main@[i].id
                != self.side@[j].id
    }

    /// Whether a block with this id is on the main chain.
    pub open spec fn on_main_chain(&self, id: BlockId) -> bool {
        exists|i: int| 0 <= i < self.main@.len() && (#[trigger] self.main@[i]).id == id
    }

    /// Whether a block with this id is stored, on the main chain or off it.
    pub open spec fn known(&self, id: BlockId) -> bool {
        self.on_main_chain(id) || exists|j: int|
            0 <= j < self.side@.len() && (#[trigger] self.side@[j]).id == id
    }

    /// The height of the tip of the main chain.
    pub open spec fn spec_height(&self) -> nat {
        (self.main@.len() - 1) as nat
    }

    /// The id of the tip of the main chain.
    pub open spec fn spec_best_block_id(&self) -> BlockId {
        self.main@[self.main@.len() - 1].id
    }

    /// The ids of the main chain at the given heights.
    pub open spec fn ids_at(&self, heights: Seq<nat>) -> Seq<BlockId> {
        Seq::new(heights.len(), |i: int| self.main@[heights[i] as int].id)
    }

    /// The locator of this chain.
    pub open spec fn spec_locator(&self) -> Seq<BlockId> {
        self.ids_at(locator_heights(self.spec_height()))
    }

    /// Whether the header at `i` is the place to cut a received list: its
    /// parent is stored and it is not.
    pub open spec fn is_split(&self, headers: Seq<IndexedHeaderView>, i: int) -> bool {
        0 <= i < headers.len() && self.known(headers[i].header.hash_prev_block) && !self.known(
            headers[i].id,
        )
    }

    /// Whether `i` is the first place to cut: no earlier place is one.
    pub open spec fn is_first_split(&self, headers: Seq<IndexedHeaderView>, i: int) -> bool {
        self.is_split(headers, i) && forall|k: int| 0 <= k < i ==> !self.is_split(headers, k)
    }

    /// Whether no place of the list is one to cut at.
    pub open spec fn no_split(&self, headers: Seq<IndexedHeaderView>) -> bool {
        forall|k: int| 0 <= k < headers.len() ==> !self.is_split(headers, k)
    }

    /// Whether every header of the list is stored.
    pub open spec fn all_known(&self, headers: Seq<IndexedHeaderView>) -> bool {
        forall|k: int| 0 <= k < headers.len() ==> self.known((#[trigger] headers[k]).id)
    }

    /// The headers of a received list that are not stored yet: the part of
    /// the list from the first header on whose parent is stored and which is
    /// not stored itself, if that part is a chain; nothing if every header is
    /// stored; and no answer where the list does not connect.
    pub open spec fn spec_filter_unknown(&self, headers: Seq<IndexedHeaderView>) -> Option<
        Seq<IndexedHeaderView>,
    > {
        if exists|i: int| self.is_first_split(headers, i) {
            let i = choose|i: int| self.is_first_split(headers, i);
            if is_contiguous(headers.skip(i)) {
                Some(headers.skip(i))
            } else {
                None
            }
        } else if self.all_known(headers) {
            Some(Seq::empty())
        } else {
            None
        }
    }

    /// Whether `j` is the first entry of the locator that is on the main chain.
    pub open spec fn is_first_common(&self, locator: Seq<BlockId>, j: int) -> bool {
        &&& 0 <= j < locator.len()
        &&& self.on_main_chain(locator[j])
        &&& forall|k: int| 0 <= k < j ==> !self.on_main_chain(#[trigger] locator[k])
    }

    /// Whether `h` is the height of `id` on the main chain.
    pub open spec fn is_height_of(&self, id: BlockId, h: int) -> bool {
        0 <= h < self.main@.len() && self.main@[h].id == id
    }

    /// The place in the locator of its first entry that is on the main chain.
    pub open spec fn spec_first_common(&self, locator: Seq<BlockId>) -> Option<int> {
        if exists|j: int| self.is_first_common(locator, j) {
            Some(choose|j: int| self.is_first_common(locator, j))
        } else {
            None
        }
    }

    /// The height on the main chain of the block with this id.
    pub open spec fn spec_height_of(&self, id: BlockId) -> int {
        choose|h: int| self.is_height_of(id, h)
    }

    /// The headers of the main chain above height `h`, up to the tip and no
    /// more than `MAX_HEADERS`.
    pub open spec fn spec_headers_above(&self, h: int) -> Seq<IndexedHeaderView> {
        let end = if self.main@.len() - 1 - h <= MAX_HEADERS {
            self.main@.len() as int
        } else {
            h + 1 + MAX_HEADERS
        };
        headers_view(self.main@.subrange(h + 1, end))
    }

    /// What is owed to a peer that sent `locator`: the headers of the main
    /// chain above the first locator entry found on it; nothing where no
    /// entry is found.
    pub open spec fn spec_get_headers(&self, locator: Seq<BlockId>) -> Seq<IndexedHeaderView> {
        match self.spec_first_common(locator) {
            Some(j) => self.spec_headers_above(self.spec_height_of(locator[j])),
            None => Seq::empty(),
        }
    }

    /// On a well-formed chain an id stands at one height only.
    pub proof fn lemma_height_unique(&self, id: BlockId, h: int)
        requires
            self.wf(),
            self.is_height_of(id, h),
        ensures
            self.spec_height_of(id) == h,
    {
        let c = self.spec_height_of(id);
        assert(self.is_height_of(id, c));
        if c < h {
            assert(self.main@[c].id != self.main@[h].id);
        }
        if h < c {
            assert(self.main@[h].id != self.main@[c].id);
        }
    }

    /// A locator has one first entry on the main chain at most.
    pub proof fn lemma_first_common_unique(&self, locator: Seq<BlockId>, j: int)
        requires
            self.is_first_common(locator, j),
        ensures
            self.spec_first_common(locator) == Some(j),
    {
        let c = choose|c: int| self.is_first_common(locator, c);
        if c < j {
            assert(!self.on_main_chain(locator[c]));
        }
        if j < c {
            assert(!self.on_main_chain(locator[j]));
        }
    }

    /// A chain that holds the genesis block alone.
    pub fn new(genesis: IndexedHeader) -> (r: ChainView)
        ensures
            r.wf(),
            r.main@ == seq![genesis],
            r.side@.len() == 0,
    {
        let mut main: Vec<IndexedHeader> = Vec::new();
        main.push(genesis);
        ChainView { main, side: Vec::new() }
    }

    /// Builds a view from a main chain and the headers stored beside it.
    /// Gives nothing where the main chain is empty, where one of its headers
    /// does not build on the one below, or where an id occurs twice.
    pub fn from_parts(main: Vec<IndexedHeader>, side: Vec<IndexedHeader>) -> (r: Option<ChainView>)
        ensures
            match r {
                Some(c) => c.wf() && c.main == main && c.side == side,
                None => !(ChainView { main, side }).wf(),
            },
    {
        let c = ChainView { main, side };
        if c.main.len() == 0 {
            return None;
        }
        let mut i: usize = 0;
        while i < c.main.len()
            invariant
                c == (ChainView { main, side }),
                i <= c.main@.len(),
                forall|a: int|
                    1 <= a < i ==> (#[trigger] c.main@[a]).prev() == c.main@[a - 1].id,
                forall|a: int, b: int| 0 <= a < b < i ==> c.main@[a].id != c.main@[b].id,
            decreases c.main@.len() - i,
        {
            if i >= 1 && c.main[i].header.hash_prev_block != c.main[i - 1].id {
                assert(c.main@[i as int].prev() != c.main@[i as int - 1].id);
                return None;
            }
            let mut a: usize = 0;
            while a < i
                invariant
                    c == (ChainView { main, side }),
                    a <= i < c.main@.len(),
                    forall|x: int| 0 <= x < a ==> c.main@[x].id != c.main@[i as int].id,
                decreases i - a,
            {
                if c.main[a].id == c.main[i].id {
                    assert(c.main@[a as int].id == c.main@[i as int].id);
                    return None;
                }
                a = a + 1;
            }
            i = i + 1;
        }
        let mut j: usize = 0;
        while j < c.side.len()
            invariant
                c == (ChainView { main, side }),
                j <= c.side@.len(),
                forall|a: int, b: int| 0 <= a < b < j ==> c.side@[a].id != c.side@[b].id,
                forall|a: int, b: int|
                    0 <= a < c.main@.len() && 0 <= b < j ==> c.main@[a].id != c.side@[b].id,
            decreases c.side@.len() - j,
        {
            let mut a: usize = 0;
            while a < j
                invariant
                    c == (ChainView { main, side }),
                    a <= j < c.side@.len(),
                    forall|x: int| 0 <= x < a ==> c.side@[x].id != c.side@[j as int].id,
                decreases j - a,
            {
                if c.side[a].id == c.side[j].id {
                    assert(c.side@[a as int].id == c.side@[j as int].id);
                    return None;
                }
                a = a + 1;
            }
            let mut b: usize = 0;
            while b < c.main.len()
                invariant
                    c == (ChainView { main, side }),
                    b <= c.main@.len(),
                    j < c.side@.len(),
                    forall|x: int| 0 <= x < b ==> c.main@[x].id != c.side@[j as int].id,
                decreases c.main@.len() - b,
            {
                if c.main[b].id == c.side[j].id {
                    assert(c.main@[b as int].id == c.side@[j as int].id);
                    return None;
                }
                b = b + 1;
            }
            j = j + 1;
        }
        Some(c)
    }

    /// The height of the tip of the main chain.
    pub fn height(&self) -> (r: usize)
        requires
            self.wf(),
        ensures
            r == self.spec_height(),
    {
        self.main.len() - 1
    }

    /// The id of the tip of the main chain.
    pub fn best_block_id(&self) -> (r: BlockId)
        requires
            self.wf(),
        ensures
            r == self.spec_best_block_id(),
    {
        self.main[self.main.len() - 1].id
    }

    /// The height on the main chain of the block with this id.
    pub fn main_chain_height(&self, id: &BlockId) -> (r: Option<usize>)
        ensures
            match r {
                Some(h) => self.is_height_of(*id, h as int),
                None => !self.on_main_chain(*id),
            },
            r.is_some() == self.on_main_chain(*id),
    {
        let mut i: usize = 0;
        while i < self.main.len()
            invariant
                i <= self.main@.len(),
                forall|k: int| 0 <= k < i ==> self.main@[k].id != *id,
            decreases self.main@.len() - i,
        {
            if self.main[i].id == *id {
                return Some(i);
            }
            i = i + 1;
        }
        None
    }

    /// Whether a block with this id is stored.
    pub fn contains(&self, id: &BlockId) -> (r: bool)
        ensures
            r == self.known(*id),
    {
        if self.main_chain_height(id).is_some() {
            return true;
        }
        let mut j: usize = 0;
        while j < self.side.len()
            invariant
                j <= self.side@.len(),
                forall|k: int| 0 <= k < j ==> self.side@[k].id != *id,
            decreases self.side@.len() - j,
        {
            if self.side[j].id == *id {
                return true;
            }
            j = j + 1;
        }
        false
    }

    /// Appends a header to the main chain. It is taken where it builds on
    /// the tip and its id is not stored yet; otherwise nothing changes.
    pub fn extend(&mut self, header: IndexedHeader) -> (r: bool)
        requires
            old(self).wf(),
        ensures
            final(self).wf(),
            r == (header.prev() == old(self).spec_best_block_id() && !old(self).known(header.id)),
            r ==> final(self).main@ == old(self).main@.push(header) && final(self).side@ == old(
                self,
            ).side@,
            !r ==> *final(self) == *old(self),
    {
        if header.header.hash_prev_block != self.best_block_id() {
            return false;
        }
        if self.contains(&header.id) {
            return false;
        }
        self.main.push(header);
        true
    }

    /// The locator of this chain: the ids of recent blocks from the tip
    /// back, the first ten heights without a gap, then with doubling
    /// distances, and genesis last.
    pub fn build_locator(&self) -> (r: Vec<BlockId>)
        requires
            self.wf(),
        ensures
            r@ == self.spec_locator(),
            r@.len() >= 1,
            r@[0] == self.spec_best_block_id(),
            r@.last() == self.main@[0].id,
    {
        let tip: usize = self.main.len() - 1;
        let mut r: Vec<BlockId> = Vec::new();
        let mut h: usize = tip;
        let mut step: usize = 1;
        let mut taken: usize = 0;
        let ghost mut spec_step: nat = 1;
        let ghost mut heights: Seq<nat> = Seq::empty();
        proof {
            lemma_locator_heights_shape(tip as nat, 1, 0);
        }
        while h > 0 && h > step
            invariant
                self.wf(),
                tip == self.main@.len() - 1,
                h <= tip,
                step >= 1,
                spec_step >= 1,
                step == spec_step || (step == usize::MAX && spec_step >= usize::MAX),
                taken == heights.len(),
                taken + h <= tip,
                r@ == self.ids_at(heights),
                forall|i: int| 0 <= i < heights.len() ==> #[trigger] heights[i] <= tip,
                locator_heights(tip as nat) == heights.add(
                    locator_heights_from(h as nat, spec_step, taken as nat),
                ),
            decreases h,
        {
            r.push(self.main[h].id);
            proof {
                let next_step = if taken + 1 >= LOCATOR_DENSE_ENTRIES {
                    2 * spec_step
                } else {
                    spec_step
                };
                let rest = locator_heights_from((h - spec_step) as nat, next_step, taken as nat + 1);
                assert(locator_heights_from(h as nat, spec_step, taken as nat) =~= seq![h as nat].add(
                    rest,
                ));
                assert(heights.add(seq![h as nat].add(rest)) =~= heights.push(h as nat).add(rest));
                assert(r@ =~= self.ids_at(heights.push(h as nat)));
                heights = heights.push(h as nat);
                spec_step = next_step;
            }
            h = h - step;
            if taken + 1 >= LOCATOR_DENSE_ENTRIES {
                step = if step > usize::MAX / 2 {
                    usize::MAX
                } else {
                    2 * step
                };
            }
            taken = taken + 1;
        }
        if h > 0 {
            r.push(self.main[h].id);
            proof {
                assert(r@ =~= self.ids_at(heights.push(h as nat)));
                heights = heights.push(h as nat);
            }
        }
        r.push(self.main[0].id);
        proof {
            assert(r@ =~= self.ids_at(heights.push(0nat)));
            assert(locator_heights(tip as nat) =~= heights.push(0nat));
        }
        r
    }

    /// The first place of the list from `from` on at which to cut, if any.
    fn find_split(&self, headers: &Vec<IndexedHeader>) -> (r: Option<usize>)
        ensures
            match r {
                Some(i) => self.is_first_split(headers_view(headers@), i as int),
                None => self.no_split(headers_view(headers@)),
            },
    {
        let mut i: usize = 0;
        while i < headers.len()
            invariant
                i <= headers@.len(),
                forall|k: int| 0 <= k < i ==> !self.is_split(headers_view(headers@), k),
            decreases headers@.len() - i,
        {
            if self.contains(&headers[i].header.hash_prev_block) && !self.contains(&headers[i].id) {
                return Some(i);
            }
            i = i + 1;
        }
        None
    }

    /// The headers of a received list that are not stored yet.
    ///
    /// The list is cut at the first header whose parent is stored and which
    /// is not stored itself; what comes before is dropped as known, and what
    /// remains is returned if each header builds on the one before it. A list
    /// of stored headers gives an empty list. A list that does not connect
    /// to a stored block gives `UnconnectedHeaders`.
    pub fn filter_unknown(&self, headers: &Vec<IndexedHeader>) -> (r: Result<
        Vec<IndexedHeader>,
        ProtocolError,
    >)
        ensures
            match r {
                Ok(v) => self.spec_filter_unknown(headers_view(headers@)) == Some(headers_view(v@)),
                Err(e) => e == ProtocolError::UnconnectedHeaders && self.spec_filter_unknown(
                    headers_view(headers@),
                ).is_none(),
            },
    {
        let ghost hv = headers_view(headers@);
        match self.find_split(headers) {
            Some(i) => {
                proof {
                    let c = choose|c: int| self.is_first_split(hv, c);
                    assert(c == i) by {
                        if c < i {
                            assert(!self.is_split(hv, c));
                        }
                        if i < c {
                            assert(!self.is_split(hv, i as int));
                        }
                    }
                }
                let mut v: Vec<IndexedHeader> = Vec::new();
                let mut k: usize = i;
                while k < headers.len()
                    invariant
                        i <= k <= headers@.len(),
                        hv == headers_view(headers@),
                        self.spec_filter_unknown(hv) == if is_contiguous(hv.skip(i as int)) {
                            Some(hv.skip(i as int))
                        } else {
                            None
                        },
                        v@.len() == k - i,
                        forall|x: int| 0 <= x < v@.len() ==> (#[trigger] v@[x])@ == hv[i + x],
                        forall|x: int|
                            1 <= x < k - i ==> (#[trigger] hv.skip(i as int)[x]).header.hash_prev_block
                                == hv.skip(i as int)[x - 1].id,
                    decreases headers@.len() - k,
                {
                    if k > i && headers[k].header.hash_prev_block != headers[k - 1].id {
                        proof {
                            let s = hv.skip(i as int);
                            assert(s[k - i].header.hash_prev_block != s[k - i - 1].id);
                            assert(!is_contiguous(s));
                        }
                        return Err(ProtocolError::UnconnectedHeaders);
                    }
                    v.push(headers[k].clone());
                    k = k + 1;
                }
                assert(headers_view(v@) =~= hv.skip(i as int));
                Ok(v)
            },
            None => {
                let mut k: usize = 0;
                while k < headers.len()
                    invariant
                        k <= headers@.len(),
                        hv == headers_view(headers@),
                        self.no_split(hv),
                        forall|x: int| 0 <= x < k ==> self.known((#[trigger] hv[x]).id),
                    decreases headers@.len() - k,
                {
                    if !self.contains(&headers[k].id) {
                        proof {
                            assert(!self.known(hv[k as int].id));
                            assert forall|c: int| !self.is_first_split(hv, c) by {
                                if self.is_first_split(hv, c) {
                                    assert(!self.is_split(hv, c));
                                }
                            }
                        }
                        return Err(ProtocolError::UnconnectedHeaders);
                    }
                    k = k + 1;
                }
                proof {
                    assert forall|c: int| !self.is_first_split(hv, c) by {
                        if self.is_first_split(hv, c) {
                            assert(!self.is_split(hv, c));
                        }
                    }
                    assert(headers_view(Seq::<IndexedHeader>::empty()) =~= Seq::empty());
                }
                Ok(Vec::new())
            },
        }
    }

    /// The first entry of a locator that is on the main chain: its place in
    /// the locator and its height.
    pub fn find_common(&self, locator: &Vec<BlockId>) -> (r: Option<(usize, usize)>)
        ensures
            match r {
                Some((j, h)) => self.is_first_common(locator@, j as int) && self.is_height_of(
                    locator@[j as int],
                    h as int,
                ),
                None => forall|j: int| !self.is_first_common(locator@, j),
            },
    {
        let mut j: usize = 0;
        while j < locator.len()
            invariant
                j <= locator@.len(),
                forall|k: int| 0 <= k < j ==> !self.on_main_chain(#[trigger] locator@[k]),
            decreases locator@.len() - j,
        {
            match self.main_chain_height(&locator[j]) {
                Some(h) => {
                    return Some((j, h));
                },
                None => {},
            }
            j = j + 1;
        }
        None
    }

    /// The headers owed to a peer that sent this locator: those of the main
    /// chain above the first locator entry that is on it, up to the tip and
    /// no more than `MAX_HEADERS`. They form a chain whose first header
    /// builds on that locator entry. Where no entry is on the main chain,
    /// nothing is owed.
    pub fn get_headers(&self, locator: &Vec<BlockId>) -> (r: Vec<IndexedHeader>)
        requires
            self.wf(),
        ensures
            headers_view(r@) == self.spec_get_headers(locator@),
            r@.len() <= MAX_HEADERS,
            is_contiguous(headers_view(r@)),
            r@.len() > 0 ==> exists|j: int|
                self.is_first_common(locator@, j) && headers_view(r@)[0].header.hash_prev_block
                    == #[trigger] locator@[j],
    {
        proof {
            lemma_headers_reply_is_connected(*self, locator@);
        }
        match self.find_common(locator) {
            None => {
                let r: Vec<IndexedHeader> = Vec::new();
                assert(headers_view(r@) =~= Seq::empty());
                r
            },
            Some((j, h)) => {
                proof {
                    self.lemma_first_common_unique(locator@, j as int);
                    self.lemma_height_unique(locator@[j as int], h as int);
                }
                let end: usize = if self.main.len() - 1 - h <= MAX_HEADERS {
                    self.main.len()
                } else {
                    h + 1 + MAX_HEADERS
                };
                let mut r: Vec<IndexedHeader> = Vec::new();
                let mut k: usize = h + 1;
                while k < end
                    invariant
                        h + 1 <= k <= end <= self.main@.len(),
                        r@.len() == k - (h + 1),
                        forall|x: int|
                            0 <= x < r@.len() ==> (#[trigger] r@[x])@ == self.main@[h + 1 + x]@,
                    decreases end - k,
                {
                    r.push(self.main[k].clone());
                    k = k + 1;
                }
                assert(headers_view(r@) =~= headers_view(self.main@.subrange(h + 1, end as int)));
                r
            },
        }
    }
}

/// The headers sent in reply to a locator form a chain whose first header
/// builds on an entry of the locator that is on the local main chain, and
/// they are no more than `MAX_HEADERS`.
pub proof fn lemma_headers_reply_is_connected(chain: ChainView, locator: Seq<BlockId>)
    requires
        chain.wf(),
    ensures
        is_contiguous(chain.spec_get_headers(locator)),
        chain.spec_get_headers(locator).len() <= MAX_HEADERS,
        chain.spec_get_headers(locator).len() > 0 ==> exists|j: int|
            chain.is_first_common(locator, j) && chain.spec_get_headers(
                locator,
            )[0].header.hash_prev_block == #[trigger] locator[j],
        forall|k: int|
            0 <= k < chain.spec_get_headers(locator).len() ==> chain.on_main_chain(
                (#[trigger] chain.spec_get_headers(locator)[k]).id,
            ),
{
    let r = chain.spec_get_headers(locator);
    match chain.spec_first_common(locator) {
        None => {},
        Some(j) => {
            assert(chain.is_first_common(locator, j));
            let w = choose|i: int| 0 <= i < chain.main@.len() && (#[trigger] chain.main@[i]).id == locator[j];
            assert(chain.is_height_of(locator[j], w));
            let h = chain.spec_height_of(locator[j]);
            assert(chain.is_height_of(locator[j], h));
            assert forall|x: int| 0 <= x < r.len() implies #[trigger] r[x] == chain.main@[h + 1 + x]@ by {}
            assert forall|x: int| 1 <= x < r.len() implies (#[trigger] r[x]).header.hash_prev_block
                == r[x - 1].id by {
                assert(r[x] == chain.main@[h + 1 + x]@);
                assert(r[x - 1] == chain.main@[h + 1 + (x - 1)]@);
                assert(chain.main@[h + 1 + x].prev() == chain.main@[h + x].id);
            }
            if r.len() > 0 {
                assert(r[0] == chain.main@[h + 1]@);
                assert(chain.main@[h + 1].prev() == chain.main@[h].id);
            }
            assert forall|k: int| 0 <= k < r.len() implies chain.on_main_chain((#[trigger] r[k]).id) by {
                assert(chain.main@[h + 1 + k].id == r[k].id);
            }
        },
    }
}

/// A list of headers that are all stored holds nothing unknown. In
/// particular, the whole main chain, offered to the chain that a locator
/// was built from, gives an empty list.
pub proof fn lemma_filter_unknown_of_known_is_empty(chain: ChainView, headers: Seq<IndexedHeaderView>)
    requires
        chain.all_known(headers),
    ensures
        chain.spec_filter_unknown(headers) == Some(Seq::<IndexedHeaderView>::empty()),
{
    assert forall|c: int| !chain.is_first_split(headers, c) by {
        if chain.is_first_split(headers, c) {
            assert(chain.known(headers[c].id));
        }
    }
}

/// What is returned for a received list holds no stored header at its
/// start, builds on a stored block, and is a chain.
pub proof fn lemma_filter_unknown_is_rooted(chain: ChainView, headers: Seq<IndexedHeaderView>)
    ensures
        chain.spec_filter_unknown(headers) matches Some(v) ==> is_contiguous(v) && (v.len() > 0
            ==> chain.known(v[0].header.hash_prev_block) && !chain.known(v[0].id)),
{
    if exists|i: int| chain.is_first_split(headers, i) {
        let i = choose|i: int| chain.is_first_split(headers, i);
        assert(chain.is_split(headers, i));
        if is_contiguous(headers.skip(i)) {
            assert(headers.skip(i)[0] == headers[i]);
        }
    }
}

/// Building the locator of a chain and then diffing the whole main chain
/// against that chain gives an empty list.
pub proof fn lemma_locator_then_filter_full_chain(chain: ChainView)
    requires
        chain.wf(),
    ensures
        chain.spec_locator().len() >= 1,
        chain.spec_filter_unknown(headers_view(chain.main@)) == Some(
            Seq::<IndexedHeaderView>::empty(),
        ),
{
    lemma_locator_heights_shape(chain.spec_height(), 1, 0);
    let hv = headers_view(chain.main@);
    assert forall|k: int| 0 <= k < hv.len() implies chain.known((#[trigger] hv[k]).id) by {
        assert(chain.main@[k].id == hv[k].id);
    }
    lemma_filter_unknown_of_known_is_empty(chain, hv);
}

/// The locator of a chain that holds genesis alone is genesis alone; the
/// locator of a longer chain starts at the tip and ends at genesis.
pub proof fn lemma_locator_boundaries(chain: ChainView)
    requires
        chain.wf(),
    ensures
        chain.spec_height() == 0 ==> chain.spec_locator() == seq![chain.main@[0].id],
        chain.spec_height() >= 1 ==> {
            &&& chain.spec_locator().len() >= 2
            &&& chain.spec_locator()[0] == chain.spec_best_block_id()
            &&& chain.spec_locator().last() == chain.main@[0].id
        },
        chain.spec_height() == 1 ==> chain.spec_locator() == seq![
            chain.main@[1].id,
            chain.main@[0].id,
        ],
{
    lemma_locator_heights_shape(chain.spec_height(), 1, 0);
    let hs = locator_heights(chain.spec_height());
    if chain.spec_height() == 0 {
        assert(chain.spec_locator() =~= seq![chain.main@[0].id]);
    }
    if chain.spec_height() == 1 {
        assert(hs =~= seq![1nat, 0nat]);
        assert(chain.spec_locator() =~= seq![chain.main@[1].id, chain.main@[0].id]);
    }
}

/// The blocks that a locator names stand on the main chain at strictly
/// falling heights.
pub proof fn lemma_locator_strictly_decreasing(chain: ChainView, i: int, j: int)
    requires
        chain.wf(),
        0 <= i < j < chain.spec_locator().len(),
    ensures
        exists|hi: int, hj: int|
            #![trigger chain.is_height_of(chain.spec_locator()[i], hi), chain.is_height_of(chain.spec_locator()[j], hj)]
            chain.is_height_of(chain.spec_locator()[i], hi) && chain.is_height_of(
                chain.spec_locator()[j],
                hj,
            ) && hi > hj,
{
    lemma_locator_heights_shape(chain.spec_height(), 1, 0);
    let hs = locator_heights(chain.spec_height());
    assert(hs[i] <= chain.spec_height());
    assert(hs[j] <= chain.spec_height());
    assert(chain.is_height_of(chain.spec_locator()[i], hs[i] as int));
    assert(chain.is_height_of(chain.spec_locator()[j], hs[j] as int));
}

} // verus!
