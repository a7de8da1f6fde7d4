//! Selection regions and the multi-cursor selection container.
//!
//! A [`SelRegion`] is one contiguous span with an anchor (`start`) and an
//! active point (`end`); a caret is a region where both are equal. A
//! [`Selection`] keeps its regions sorted by position and strictly
//! separated; inserting a region merges it with every region it overlaps
//! or touches, the merge policy this container owns.

use vstd::prelude::*;

verus! {

/// A visual column: the byte distance of a position from its line's start.
pub type HorizPos = usize;

/// Which visual side of a line-wrap boundary a caret logically belongs to.
#[derive(Clone, Copy, PartialEq, Eq, Structural)]
pub enum Affinity {
    /// The caret sits at the end of the earlier visual line.
    Upstream,
    /// The caret sits at the start of the later visual line.
    Downstream,
}

impl Default for Affinity {
    fn default() -> (r: Self)
        ensures
            r == Affinity::Downstream,
    {
        Affinity::Downstream
    }
}

/// One selection region.
#[derive(Clone, Copy)]
pub struct SelRegion {
    /// The anchor of the selection: the endpoint that stays put while the
    /// selection is extended.
    pub start: usize,
    /// The active point: the endpoint movement acts on.
    pub end: usize,
    /// The cached visual column, kept across vertical moves; absent until a
    /// move resolves it.
    pub horiz: Option<HorizPos>,
    /// Which side of a line-wrap boundary the caret belongs to.
    pub affinity: Affinity,
}

impl SelRegion {
    /// The smaller endpoint.
    pub open spec fn min_spec(self) -> int {
        if self.start <= self.end {
            self.start as int
        } else {
            self.end as int
        }
    }

    /// The larger endpoint.
    pub open spec fn max_spec(self) -> int {
        if self.start <= self.end {
            self.end as int
        } else {
            self.start as int
        }
    }

    /// A caret: a region whose endpoints coincide.
    pub open spec fn is_caret_spec(self) -> bool {
        self.start == self.end
    }

    /// Both endpoints are positions of a document of `text_len` bytes.
    pub open spec fn valid(self, text_len: nat) -> bool {
        self.start <= text_len && self.end <= text_len
    }

    /// The smaller endpoint.
    pub fn min(&self) -> (r: usize)
        ensures
            r == self.min_spec(),
    {
        if self.start <= self.end {
            self.start
        } else {
            self.end
        }
    }

    /// The larger endpoint.
    pub fn max(&self) -> (r: usize)
        ensures
            r == self.max_spec(),
    {
        if self.start <= self.end {
            self.end
        } else {
            self.start
        }
    }

    /// Whether the region is a caret.
    pub fn is_caret(&self) -> (r: bool)
        ensures
            r == self.is_caret_spec(),
    {
        self.start == self.end
    }
}

/// Regions in a selection are strictly separated and ordered by position.
pub open spec fn regions_sorted(s: Seq<SelRegion>) -> bool {
    forall|i: int, j: int| 0 <= i < j < s.len() ==> #[trigger] s[i].max_spec() < #[trigger] s[j].min_spec()
}

/// Every region of the sequence fits a document of `text_len` bytes.
pub open spec fn regions_valid(s: Seq<SelRegion>, text_len: nat) -> bool {
    forall|i: int| 0 <= i < s.len() ==> (#[trigger] s[i]).valid(text_len)
}

/// The region obtained by merging `a` into the incoming region `b`: the
/// union of the two spans, oriented as `b` is; the cached column and the
/// affinity are reset.
pub open spec fn merge_spec(a: SelRegion, b: SelRegion) -> SelRegion {
    let lo = if a.min_spec() <= b.min_spec() { a.min_spec() } else { b.min_spec() };
    let hi = if a.max_spec() >= b.max_spec() { a.max_spec() } else { b.max_spec() };
    if b.start <= b.end {
        SelRegion { start: lo as usize, end: hi as usize, horiz: None, affinity: Affinity::Downstream }
    } else {
        SelRegion { start: hi as usize, end: lo as usize, horiz: None, affinity: Affinity::Downstream }
    }
}

/// What inserting `r` into the sorted sequence `s` yields: regions wholly
/// before `r` are kept, every region that overlaps or touches `r` is merged
/// into it, and the rest follow it.
pub open spec fn add_region_spec(s: Seq<SelRegion>, r: SelRegion) -> Seq<SelRegion>
    decreases s.len(),
{
    if s.len() == 0 {
        seq![r]
    } else if s[0].max_spec() < r.min_spec() {
        seq![s[0]] + add_region_spec(s.drop_first(), r)
    } else if r.max_spec() < s[0].min_spec() {
        seq![r] + s
    } else {
        add_region_spec(s.drop_first(), merge_spec(s[0], r))
    }
}

/// Every region that insertion yields spans at least the smaller of the
/// incoming region's and the first kept region's lower ends.
proof fn lemma_add_region_lower_bound(s: Seq<SelRegion>, r: SelRegion)
    requires
        regions_sorted(s),
    ensures
        forall|k: int| 0 <= k < add_region_spec(s, r).len()
            ==> #[trigger] add_region_spec(s, r)[k].min_spec()
                >= if s.len() == 0 || r.min_spec() <= s[0].min_spec() { r.min_spec() } else { s[0].min_spec() },
    decreases s.len(),
{
    let out = add_region_spec(s, r);
    if s.len() == 0 {
        assert(out[0] == r);
    } else if s[0].max_spec() < r.min_spec() {
        assert(regions_sorted(s.drop_first()));
        lemma_add_region_lower_bound(s.drop_first(), r);
        assert forall|k: int| 0 <= k < out.len() implies #[trigger] out[k].min_spec() >= s[0].min_spec() by {
            if k > 0 {
                let rest = add_region_spec(s.drop_first(), r);
                assert(out[k] == rest[k - 1]);
                assert(rest[k - 1].min_spec()
                    >= if s.drop_first().len() == 0 || r.min_spec() <= s.drop_first()[0].min_spec() {
                        r.min_spec()
                    } else {
                        s.drop_first()[0].min_spec()
                    });
                if s.len() > 1 {
                    assert(s.drop_first()[0] == s[1]);
                    assert(s[0].max_spec() < s[1].min_spec());
                }
            }
        }
    } else if r.max_spec() < s[0].min_spec() {
        assert forall|k: int| 0 <= k < out.len() implies #[trigger] out[k].min_spec() >= r.min_spec() by {
            if k > 0 {
                assert(out[k] == s[k - 1]);
                if k > 1 {
                    assert(s[0].max_spec() < s[k - 1].min_spec());
                }
            }
        }
    } else {
        let m = merge_spec(s[0], r);
        assert(regions_sorted(s.drop_first()));
        lemma_add_region_lower_bound(s.drop_first(), m);
        assert(m.min_spec() == if s[0].min_spec() <= r.min_spec() { s[0].min_spec() } else { r.min_spec() });
        if s.len() > 1 {
            assert(s.drop_first()[0] == s[1]);
            assert(s[0].max_spec() < s[1].min_spec());
        }
        assert forall|k: int| 0 <= k < out.len() implies #[trigger] out[k].min_spec()
            >= if r.min_spec() <= s[0].min_spec() { r.min_spec() } else { s[0].min_spec() } by {
            let rest = add_region_spec(s.drop_first(), m);
            assert(out[k] == rest[k]);
            assert(rest[k].min_spec()
                >= if s.drop_first().len() == 0 || m.min_spec() <= s.drop_first()[0].min_spec() {
                    m.min_spec()
                } else {
                    s.drop_first()[0].min_spec()
                });
        }
    }
}

/// Insertion keeps the regions sorted and strictly separated.
pub proof fn lemma_add_region_sorted(s: Seq<SelRegion>, r: SelRegion)
    requires
        regions_sorted(s),
    ensures
        regions_sorted(add_region_spec(s, r)),
    decreases s.len(),
{
    let out = add_region_spec(s, r);
    if s.len() == 0 {
    } else if s[0].max_spec() < r.min_spec() {
        let rest = add_region_spec(s.drop_first(), r);
        assert(regions_sorted(s.drop_first()));
        lemma_add_region_sorted(s.drop_first(), r);
        lemma_add_region_lower_bound(s.drop_first(), r);
        assert forall|i: int, j: int| 0 <= i < j < out.len()
            implies #[trigger] out[i].max_spec() < #[trigger] out[j].min_spec() by {
            if i == 0 {
                assert(out[j] == rest[j - 1]);
                if s.len() > 1 {
                    assert(s.drop_first()[0] == s[1]);
                    assert(s[0].max_spec() < s[1].min_spec());
                }
            } else {
                assert(out[i] == rest[i - 1]);
                assert(out[j] == rest[j - 1]);
            }
        }
    } else if r.max_spec() < s[0].min_spec() {
        assert forall|i: int, j: int| 0 <= i < j < out.len()
            implies #[trigger] out[i].max_spec() < #[trigger] out[j].min_spec() by {
            if i == 0 {
                assert(out[j] == s[j - 1]);
                if j > 1 {
                    assert(s[0].min_spec() <= s[0].max_spec() < s[j - 1].min_spec());
                }
            } else {
                assert(out[i] == s[i - 1]);
                assert(out[j] == s[j - 1]);
            }
        }
    } else {
        assert(regions_sorted(s.drop_first()));
        lemma_add_region_sorted(s.drop_first(), merge_spec(s[0], r));
    }
}

/// Insertion keeps every endpoint inside the document.
pub proof fn lemma_add_region_valid(s: Seq<SelRegion>, r: SelRegion, text_len: nat)
    requires
        regions_valid(s, text_len),
        r.valid(text_len),
    ensures
        regions_valid(add_region_spec(s, r), text_len),
    decreases s.len(),
{
    let out = add_region_spec(s, r);
    if s.len() == 0 {
        assert(out[0] == r);
    } else if s[0].max_spec() < r.min_spec() {
        assert(regions_valid(s.drop_first(), text_len));
        lemma_add_region_valid(s.drop_first(), r, text_len);
        let rest = add_region_spec(s.drop_first(), r);
        assert forall|k: int| 0 <= k < out.len() implies (#[trigger] out[k]).valid(text_len) by {
            assert(s[0].valid(text_len));
            if k > 0 {
                assert(out[k] == rest[k - 1]);
            }
        }
    } else if r.max_spec() < s[0].min_spec() {
        assert forall|k: int| 0 <= k < out.len() implies (#[trigger] out[k]).valid(text_len) by {
            if k > 0 {
                assert(out[k] == s[k - 1]);
            }
        }
    } else {
        assert(regions_valid(s.drop_first(), text_len));
        assert(s[0].valid(text_len));
        lemma_add_region_valid(s.drop_first(), merge_spec(s[0], r), text_len);
    }
}

/// An ordered multi-cursor selection: regions sorted by position and
/// strictly separated.
pub struct Selection {
    regions: Vec<SelRegion>,
}

impl View for Selection {
    type V = Seq<SelRegion>;

    closed spec fn view(&self) -> Seq<SelRegion> {
        self.regions@
    }
}

impl Selection {
    /// The container's invariant: regions sorted and strictly separated.
    pub open spec fn wf(&self) -> bool {
        regions_sorted(self@)
    }

    /// Every region fits a document of `text_len` bytes.
    pub open spec fn valid(&self, text_len: nat) -> bool {
        regions_valid(self@, text_len)
    }

    /// An empty selection.
    pub fn new() -> (r: Selection)
        ensures
            r@ == Seq::<SelRegion>::empty(),
            r.wf(),
    {
        Selection { regions: Vec::new() }
    }

    /// The number of regions.
    pub fn len(&self) -> (r: usize)
        ensures
            r == self@.len(),
    {
        self.regions.len()
    }

    /// The region at the given index.
    pub fn get(&self, i: usize) -> (r: SelRegion)
        requires
            i < self@.len(),
        ensures
            r == self@[i as int],
    {
        self.regions[i]
    }

    /// Insert a region, merging it with every region it overlaps or touches.
    pub fn add_region(&mut self, region: SelRegion)
        requires
            old(self).wf(),
        ensures
            final(self)@ == add_region_spec(old(self)@, region),
            final(self).wf(),
    {
        let ghost s0 = self@;
        let mut out: Vec<SelRegion> = Vec::new();
        let mut cur = region;
        let n = self.regions.len();
        let mut i: usize = 0;
        proof {
            assert(s0.skip(0) =~= s0);
            assert(out@ + add_region_spec(s0, region) =~= add_region_spec(s0, region));
        }
        // Regions wholly before the incoming one are kept as they are.
        while i < n && self.regions[i].max() < cur.min()
            invariant
                s0 == self@,
                regions_sorted(s0),
                n == s0.len(),
                i <= n,
                add_region_spec(s0, region) == out@ + add_region_spec(s0.skip(i as int), cur),
            decreases n - i,
        {
            let ghost out0 = out@;
            out.push(self.regions[i]);
            proof {
                assert(s0.skip(i as int)[0] == s0[i as int]);
                assert(s0.skip(i as int).drop_first() =~= s0.skip(i as int + 1));
                assert(add_region_spec(s0.skip(i as int), cur)
                    == seq![s0[i as int]] + add_region_spec(s0.skip(i as int + 1), cur));
                assert(out@ + add_region_spec(s0.skip(i as int + 1), cur)
                    =~= out0 + add_region_spec(s0.skip(i as int), cur));
            }
            i = i + 1;
        }
        // Every region that overlaps or touches the incoming one is merged
        // into it.
        while i < n && self.regions[i].min() <= cur.max()
            invariant
                s0 == self@,
                regions_sorted(s0),
                n == s0.len(),
                i <= n,
                add_region_spec(s0, region) == out@ + add_region_spec(s0.skip(i as int), cur),
                i < n ==> !(s0[i as int].max_spec() < cur.min_spec()),
            decreases n - i,
        {
            let lo = if self.regions[i].min() <= cur.min() { self.regions[i].min() } else { cur.min() };
            let hi = if self.regions[i].max() >= cur.max() { self.regions[i].max() } else { cur.max() };
            let merged = if cur.start <= cur.end {
                SelRegion { start: lo, end: hi, horiz: None, affinity: Affinity::Downstream }
            } else {
                SelRegion { start: hi, end: lo, horiz: None, affinity: Affinity::Downstream }
            };
            proof {
                assert(s0.skip(i as int)[0] == s0[i as int]);
                assert(s0.skip(i as int).drop_first() =~= s0.skip(i as int + 1));
                assert(merged == merge_spec(s0[i as int], cur));
                assert(add_region_spec(s0.skip(i as int), cur)
                    == add_region_spec(s0.skip(i as int + 1), merged));
                if i + 1 < n {
                    assert(s0[i as int].max_spec() < s0[i as int + 1].min_spec());
                    assert(merged.min_spec() <= s0[i as int].min_spec());
                }
            }
            cur = merged;
            i = i + 1;
        }
        proof {
            if i < n {
                assert(s0.skip(i as int)[0] == s0[i as int]);
                assert(cur.max_spec() < s0[i as int].min_spec());
                assert(add_region_spec(s0.skip(i as int), cur) == seq![cur] + s0.skip(i as int));
            } else {
                assert(s0.skip(i as int).len() == 0);
                assert(add_region_spec(s0.skip(i as int), cur) == seq![cur]);
            }
        }
        // The merged region, then everything after it.
        let ghost out1 = out@;
        out.push(cur);
        proof {
            assert(out@ + s0.skip(i as int)
                =~= out1 + add_region_spec(s0.skip(i as int), cur));
        }
        while i < n
            invariant
                s0 == self@,
                n == s0.len(),
                i <= n,
                add_region_spec(s0, region) == out@ + s0.skip(i as int),
            decreases n - i,
        {
            let ghost out2 = out@;
            out.push(self.regions[i]);
            proof {
                assert(s0.skip(i as int)[0] == s0[i as int]);
                assert(out@ + s0.skip(i as int + 1) =~= out2 + s0.skip(i as int));
            }
            i = i + 1;
        }
        proof {
            assert(add_region_spec(s0, region) =~= out@);
            lemma_add_region_sorted(s0, region);
        }
        self.regions = out;
    }
}

} // verus!
