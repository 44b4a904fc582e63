//! Byte-budgeted, least-recently-used cache of uploaded GPU textures.
//!
//! Decoded images, video frames and rasterized assets are uploaded to the GPU
//! once per source identity. The cache keeps the uploads in recency order and
//! charges each one `width * height * 4` bytes against a budget; when the
//! budget is exceeded the least recently used uploads are released first.
use vstd::prelude::*;
use std::collections::VecDeque;

verus! {

/// One cached upload: its source identity, texel size and the GPU resource.
pub struct CachedImage<R> {
    pub key: String,
    pub width: u32,
    pub height: u32,
    pub resource: R,
}

/// The texture cache. Entries are kept least recently used first.
pub struct GpuImageCacheState<R> {
    lru: VecDeque<CachedImage<R>>,
    bytes: usize,
    max_bytes: usize,
    /// Whether charging an upload ever saturated the byte counter.
    saturated: Ghost<bool>,
}

/// Bytes charged for one RGBA8 upload.
pub open spec fn image_bytes(width: u32, height: u32) -> int {
    width as int * height as int * 4
}

pub open spec fn entry_bytes<R>(entry: CachedImage<R>) -> int {
    image_bytes(entry.width, entry.height)
}

/// Sum of the charges of `entries`.
pub open spec fn total_bytes<R>(entries: Seq<CachedImage<R>>) -> int
    decreases entries.len(),
{
    if entries.len() == 0 {
        0
    } else {
        entry_bytes(entries[0]) + total_bytes(entries.drop_first())
    }
}

pub open spec fn saturating_sub_spec(a: int, b: int) -> int {
    if a >= b {
        a - b
    } else {
        0
    }
}

/// How many least-recently-used entries a trim releases: entries are
/// released from the front while the charged bytes exceed the budget.
pub open spec fn trim_count<R>(entries: Seq<CachedImage<R>>, bytes: int, max_bytes: int) -> nat
    decreases entries.len(),
{
    if bytes <= max_bytes || entries.len() == 0 {
        0
    } else {
        1 + trim_count(
            entries.drop_first(),
            saturating_sub_spec(bytes, entry_bytes(entries[0])),
            max_bytes,
        )
    }
}

/// The charged bytes after such a trim.
pub open spec fn trimmed_bytes<R>(entries: Seq<CachedImage<R>>, bytes: int, max_bytes: int) -> int
    decreases entries.len(),
{
    if bytes <= max_bytes || entries.len() == 0 {
        bytes
    } else {
        trimmed_bytes(
            entries.drop_first(),
            saturating_sub_spec(bytes, entry_bytes(entries[0])),
            max_bytes,
        )
    }
}

pub open spec fn keys_distinct<R>(entries: Seq<CachedImage<R>>) -> bool {
    forall|i: int, j: int|
        0 <= i < entries.len() && 0 <= j < entries.len() && i != j ==> #[trigger] entries[i].key@
            != #[trigger] entries[j].key@
}

pub open spec fn has_key<R>(entries: Seq<CachedImage<R>>, key: Seq<char>) -> bool {
    exists|i: int| 0 <= i < entries.len() && #[trigger] entries[i].key@ == key
}

/// `kept` is the longest suffix of `entries` (in recency order) whose total
/// charge fits `max_bytes`: what remains after releasing least recently used
/// uploads first, and no more of them than needed.
pub open spec fn longest_fitting_suffix<R>(
    entries: Seq<CachedImage<R>>,
    kept: Seq<CachedImage<R>>,
    max_bytes: int,
) -> bool {
    let k = entries.len() - kept.len();
    &&& 0 <= k
    &&& kept == entries.skip(k)
    &&& total_bytes(kept) <= max_bytes
    &&& forall|j: int| 0 <= j < k ==> total_bytes(#[trigger] entries.skip(j)) > max_bytes
}

/// Moving the entry at `i` to the most recently used end.
pub open spec fn touched<R>(entries: Seq<CachedImage<R>>, i: int) -> Seq<CachedImage<R>> {
    entries.remove(i).push(entries[i])
}

/// Bytes charged for an upload of this size, computed without overflow.
fn upload_bytes(width: u32, height: u32) -> (r: usize)
    requires
        image_bytes(width, height) <= usize::MAX,
    ensures
        r == image_bytes(width, height),
{
    proof {
        vstd::arithmetic::mul::lemma_mul_inequality(width as int, width as int * 4, height as int);
        assert(width as int * height as int <= width as int * height as int * 4) by (nonlinear_arith)
        ;
    }
    let wh: usize = width as usize * height as usize;
    wh * 4
}

impl<R> GpuImageCacheState<R> {
    /// Uploads in recency order, least recently used first.
    pub closed spec fn entries(&self) -> Seq<CachedImage<R>> {
        self.lru@
    }

    /// The charged byte counter.
    pub closed spec fn charged(&self) -> int {
        self.bytes as int
    }

    /// The byte budget.
    pub closed spec fn budget(&self) -> int {
        self.max_bytes as int
    }

    /// The byte counter never saturated: it is the exact total charge of the
    /// cached uploads (see `entries_ok`).
    pub closed spec fn exact(&self) -> bool {
        !self.saturated@
    }

    /// Keys are distinct, every entry's charge is representable, the budget
    /// is at least one byte, the byte counter is the total charge of the
    /// cached uploads unless it once saturated, and the charged bytes stay
    /// within the budget unless the cache is empty.
    pub open spec fn wf(&self) -> bool {
        &&& self.entries_ok()
        &&& (self.charged() <= self.budget() || self.entries().len() == 0)
    }

    /// `wf` without the budget bound: what holds between charging an
    /// upload or changing the budget and trimming.
    pub open spec fn entries_ok(&self) -> bool {
        &&& keys_distinct(self.entries())
        &&& forall|i: int|
            0 <= i < self.entries().len() ==> entry_bytes(#[trigger] self.entries()[i])
                <= usize::MAX
        &&& self.budget() >= 1
        &&& 0 <= self.charged() <= usize::MAX
        &&& (self.exact() ==> self.charged() == total_bytes(self.entries()))
    }

    /// An empty cache with a budget of `max_bytes` (at least one byte).
    pub fn new(max_bytes: usize) -> (cache: Self)
        ensures
            cache.wf(),
            cache.exact(),
            cache.entries().len() == 0,
            cache.charged() == 0,
            cache.budget() == if max_bytes > 1 {
                max_bytes as int
            } else {
                1
            },
    {
        GpuImageCacheState {
            lru: VecDeque::new(),
            bytes: 0,
            max_bytes: if max_bytes > 1 {
                max_bytes
            } else {
                1
            },
            saturated: Ghost(false),
        }
    }

    pub fn len(&self) -> (n: usize)
        ensures
            n == self.entries().len(),
    {
        self.lru.len()
    }

    pub fn bytes(&self) -> (n: usize)
        ensures
            n == self.charged(),
    {
        self.bytes
    }

    pub fn max_bytes(&self) -> (n: usize)
        ensures
            n == self.budget(),
    {
        self.max_bytes
    }

    /// The most recently used upload.
    pub fn most_recent(&self) -> (r: &R)
        requires
            self.entries().len() > 0,
        ensures
            *r == self.entries().last().resource,
    {
        let n = self.lru.len();
        &self.lru[n - 1].resource
    }

    /// Look `key` up. On a hit the entry becomes the most recently used one;
    /// on a miss nothing changes.
    pub fn lookup(&mut self, key: &String) -> (hit: bool)
        requires
            old(self).wf(),
        ensures
            final(self).wf(),
            hit == has_key(old(self).entries(), key@),
            hit ==> exists|i: int|
                0 <= i < old(self).entries().len() && old(self).entries()[i].key@ == key@
                    && final(self).entries() == touched(old(self).entries(), i),
            !hit ==> final(self).entries() == old(self).entries(),
            final(self).charged() == old(self).charged(),
            final(self).budget() == old(self).budget(),
            final(self).exact() == old(self).exact(),
    {
        let n = self.lru.len();
        let mut i: usize = 0;
        while i < n
            invariant
                old(self).wf(),
                self.lru@ == old(self).lru@,
                self.bytes == old(self).bytes,
                self.max_bytes == old(self).max_bytes,
                self.saturated == old(self).saturated,
                n == self.lru@.len(),
                i <= n,
                forall|k: int| 0 <= k < i ==> self.lru@[k].key@ != key@,
            decreases n - i,
        {
            if self.lru[i].key == *key {
                let ghost before = self.lru@;
                let entry = self.lru.remove(i).unwrap();
                self.lru.push_back(entry);
                proof {
                    let after = self.lru@;
                    assert(after == touched(before, i as int));
                    assert forall|a: int, b: int|
                        0 <= a < after.len() && 0 <= b < after.len() && a != b implies #[trigger] after[a].key@
                            != #[trigger] after[b].key@ by {
                        let ia = if a == after.len() - 1 {
                            i as int
                        } else if a < i {
                            a
                        } else {
                            a + 1
                        };
                        let ib = if b == after.len() - 1 {
                            i as int
                        } else if b < i {
                            b
                        } else {
                            b + 1
                        };
                        assert(after[a] == before[ia]);
                        assert(after[b] == before[ib]);
                    }
                    assert forall|k: int| 0 <= k < after.len() implies entry_bytes(
                        #[trigger] after[k],
                    ) <= usize::MAX by {
                        let ik = if k == after.len() - 1 {
                            i as int
                        } else if k < i {
                            k
                        } else {
                            k + 1
                        };
                        assert(after[k] == before[ik]);
                    }
                    assert(before[i as int].key@ == key@);
                    lemma_total_bytes_touched(before, i as int);
                }
                return true;
            }
            i = i + 1;
        }
        false
    }

    /// Release least recently used uploads while the charged bytes exceed
    /// the budget.
    pub fn trim_to_budget(&mut self)
        requires
            old(self).entries_ok(),
        ensures
            final(self).wf(),
            final(self).entries() == old(self).entries().skip(
                trim_count(old(self).entries(), old(self).charged(), old(self).budget()) as int,
            ),
            final(self).charged() == trimmed_bytes(
                old(self).entries(),
                old(self).charged(),
                old(self).budget(),
            ),
            final(self).budget() == old(self).budget(),
            final(self).exact() == old(self).exact(),
            final(self).charged() <= final(self).budget() || final(self).entries().len() == 0,
    {
        let ghost orig = self.lru@;
        let ghost orig_bytes = self.bytes as int;
        let ghost max = self.max_bytes as int;
        while self.bytes > self.max_bytes && self.lru.len() > 0
            invariant
                self.max_bytes == max,
                self.saturated == old(self).saturated,
                max >= 1,
                0 <= self.lru@.len() <= orig.len(),
                self.lru@ == orig.skip(orig.len() - self.lru@.len()),
                trim_count(orig, orig_bytes, max) == (orig.len() - self.lru@.len()) + trim_count(
                    self.lru@,
                    self.bytes as int,
                    max,
                ),
                trimmed_bytes(orig, orig_bytes, max) == trimmed_bytes(
                    self.lru@,
                    self.bytes as int,
                    max,
                ),
                keys_distinct(orig),
                forall|i: int| 0 <= i < orig.len() ==> entry_bytes(#[trigger] orig[i]) <= usize::MAX,
            decreases self.lru@.len(),
        {
            let ghost before = self.lru@;
            let oldest = self.lru.pop_front().unwrap();
            assert(before.drop_first() =~= before.subrange(1, before.len() as int));
            assert(orig.skip(orig.len() - self.lru@.len()) =~= before.subrange(
                1,
                before.len() as int,
            ));
            assert(oldest == orig[orig.len() - before.len()]);
            let size = upload_bytes(oldest.width, oldest.height);
            self.bytes = self.bytes.saturating_sub(size);
        }
        proof {
            let rest = self.lru@;
            assert(trim_count(rest, self.bytes as int, max) == 0);
            assert forall|a: int, b: int|
                0 <= a < rest.len() && 0 <= b < rest.len() && a != b implies #[trigger] rest[a].key@
                    != #[trigger] rest[b].key@ by {
                let off = orig.len() - rest.len();
                assert(rest[a] == orig[a + off]);
                assert(rest[b] == orig[b + off]);
            }
            assert forall|k: int| 0 <= k < rest.len() implies entry_bytes(#[trigger] rest[k])
                <= usize::MAX by {
                assert(rest[k] == orig[k + orig.len() - rest.len()]);
            }
            if !self.saturated@ {
                lemma_entry_bytes_nonnegative(orig);
                lemma_trim_keeps_exact_accounting(orig, orig_bytes, max);
            }
        }
    }

    /// Record a fresh upload of `key` and charge its bytes, then trim to the
    /// budget. When `key` is already cached (another upload raced ahead) the
    /// cached entry is kept, becomes the most recently used one, and the new
    /// resource is dropped. Returns whether the new resource was recorded.
    pub fn insert(&mut self, key: String, width: u32, height: u32, resource: R) -> (inserted: bool)
        requires
            old(self).wf(),
            image_bytes(width, height) <= usize::MAX,
        ensures
            final(self).wf(),
            final(self).budget() == old(self).budget(),
            inserted == !has_key(old(self).entries(), key@),
            !inserted ==> exists|i: int|
                0 <= i < old(self).entries().len() && old(self).entries()[i].key@ == key@
                    && final(self).entries() == touched(old(self).entries(), i),
            !inserted ==> final(self).charged() == old(self).charged(),
            inserted ==> {
                let pushed = old(self).entries().push(
                    CachedImage { key, width, height, resource },
                );
                let charged = if old(self).charged() + image_bytes(width, height) > usize::MAX {
                    usize::MAX as int
                } else {
                    old(self).charged() + image_bytes(width, height)
                };
                &&& final(self).entries() == pushed.skip(
                    trim_count(pushed, charged, old(self).budget()) as int,
                )
                &&& final(self).charged() == trimmed_bytes(pushed, charged, old(self).budget())
                &&& final(self).exact() ==> longest_fitting_suffix(
                    pushed,
                    final(self).entries(),
                    old(self).budget(),
                )
            },
            final(self).exact() == (old(self).exact() && (inserted ==> old(self).charged()
                + image_bytes(width, height) <= usize::MAX)),
            final(self).charged() <= final(self).budget() || final(self).entries().len() == 0
                || !inserted,
    {
        if self.lookup(&key) {
            return false;
        }
        let size = upload_bytes(width, height);
        let ghost before = self.lru@;
        self.lru.push_back(CachedImage { key, width, height, resource });
        proof {
            self.saturated = Ghost(self.saturated@ || self.bytes + size > usize::MAX);
        }
        self.bytes = self.bytes.saturating_add(size);
        proof {
            let after = self.lru@;
            if !self.saturated@ {
                lemma_total_bytes_push(before, after.last());
                assert(before.push(after.last()) =~= after);
            }
            assert forall|a: int, b: int|
                0 <= a < after.len() && 0 <= b < after.len() && a != b implies #[trigger] after[a].key@
                    != #[trigger] after[b].key@ by {
                if a < before.len() && b < before.len() {
                    assert(after[a] == before[a]);
                    assert(after[b] == before[b]);
                } else if a < before.len() {
                    assert(after[a] == before[a]);
                } else if b < before.len() {
                    assert(after[b] == before[b]);
                }
            }
            assert forall|k: int| 0 <= k < after.len() implies entry_bytes(#[trigger] after[k])
                <= usize::MAX by {
                if k < before.len() {
                    assert(after[k] == before[k]);
                }
            }
        }
        let ghost pushed = self.lru@;
        self.trim_to_budget();
        proof {
            if !self.saturated@ {
                lemma_trim_keeps_longest_fitting_suffix(pushed, self.max_bytes as int);
            }
        }
        true
    }

    /// Change the budget (at least one byte) and trim to it.
    pub fn set_max_bytes(&mut self, max_bytes: usize)
        requires
            old(self).wf(),
        ensures
            final(self).wf(),
            final(self).budget() == if max_bytes > 1 {
                max_bytes as int
            } else {
                1
            },
            final(self).entries() == old(self).entries().skip(
                trim_count(old(self).entries(), old(self).charged(), final(self).budget()) as int,
            ),
            final(self).charged() == trimmed_bytes(
                old(self).entries(),
                old(self).charged(),
                final(self).budget(),
            ),
            final(self).exact() == old(self).exact(),
            old(self).exact() ==> longest_fitting_suffix(
                old(self).entries(),
                final(self).entries(),
                final(self).budget(),
            ),
            final(self).charged() <= final(self).budget() || final(self).entries().len() == 0,
    {
        let ghost entries = self.lru@;
        self.max_bytes = if max_bytes > 1 {
            max_bytes
        } else {
            1
        };
        self.trim_to_budget();
        proof {
            if !self.saturated@ {
                lemma_trim_keeps_longest_fitting_suffix(entries, self.max_bytes as int);
            }
        }
    }
}


pub proof fn lemma_trim_count_bounded<R>(entries: Seq<CachedImage<R>>, bytes: int, max_bytes: int)
    ensures
        trim_count(entries, bytes, max_bytes) <= entries.len(),
    decreases entries.len(),
{
    if !(bytes <= max_bytes || entries.len() == 0) {
        lemma_trim_count_bounded(
            entries.drop_first(),
            saturating_sub_spec(bytes, entry_bytes(entries[0])),
            max_bytes,
        );
    }
}

/// Appending an upload adds exactly its charge to the total.
pub proof fn lemma_total_bytes_push<R>(entries: Seq<CachedImage<R>>, entry: CachedImage<R>)
    ensures
        total_bytes(entries.push(entry)) == total_bytes(entries) + entry_bytes(entry),
    decreases entries.len(),
{
    let pushed = entries.push(entry);
    assert(pushed[0] == if entries.len() == 0 {
        entry
    } else {
        entries[0]
    });
    if entries.len() == 0 {
        assert(pushed.drop_first() =~= Seq::<CachedImage<R>>::empty());
        assert(total_bytes(pushed.drop_first()) == 0);
    } else {
        assert(pushed.drop_first() =~= entries.drop_first().push(entry));
        lemma_total_bytes_push(entries.drop_first(), entry);
    }
}

/// Trimming keeps the byte counter exact: when the counter equals the total
/// charge of the cached uploads, after a trim it equals the total charge of
/// the uploads that remain.
pub proof fn lemma_trim_keeps_exact_accounting<R>(
    entries: Seq<CachedImage<R>>,
    bytes: int,
    max_bytes: int,
)
    requires
        bytes == total_bytes(entries),
        forall|i: int| 0 <= i < entries.len() ==> entry_bytes(#[trigger] entries[i]) >= 0,
    ensures
        trimmed_bytes(entries, bytes, max_bytes) == total_bytes(
            entries.skip(trim_count(entries, bytes, max_bytes) as int),
        ),
    decreases entries.len(),
{
    if bytes <= max_bytes || entries.len() == 0 {
        assert(entries.skip(0) =~= entries);
    } else {
        let rest = entries.drop_first();
        assert(total_bytes(rest) >= 0) by {
            lemma_total_bytes_nonnegative(rest);
        }
        assert(saturating_sub_spec(bytes, entry_bytes(entries[0])) == total_bytes(rest));
        assert forall|i: int| 0 <= i < rest.len() implies entry_bytes(#[trigger] rest[i]) >= 0 by {
            assert(rest[i] == entries[i + 1]);
        }
        lemma_trim_keeps_exact_accounting(rest, total_bytes(rest), max_bytes);
        let k = trim_count(rest, total_bytes(rest), max_bytes);
        lemma_trim_count_bounded(rest, total_bytes(rest), max_bytes);
        assert(entries.skip(1 + k as int) =~= rest.skip(k as int));
    }
}

pub proof fn lemma_total_bytes_nonnegative<R>(entries: Seq<CachedImage<R>>)
    ensures
        total_bytes(entries) >= 0,
    decreases entries.len(),
{
    if entries.len() > 0 {
        lemma_total_bytes_nonnegative(entries.drop_first());
        assert(entry_bytes(entries[0]) >= 0) by (nonlinear_arith);
    }
}

/// Recording a new upload keeps the byte counter exact as long as the sum
/// does not saturate: the counter equals the total charge of the uploads
/// left after the insertion and its trim.
pub proof fn lemma_insert_keeps_exact_accounting<R>(
    entries: Seq<CachedImage<R>>,
    bytes: int,
    max_bytes: int,
    entry: CachedImage<R>,
)
    requires
        bytes == total_bytes(entries),
        bytes + entry_bytes(entry) <= usize::MAX,
    ensures
        ({
            let pushed = entries.push(entry);
            let charged = bytes + entry_bytes(entry);
            trimmed_bytes(pushed, charged, max_bytes) == total_bytes(
                pushed.skip(trim_count(pushed, charged, max_bytes) as int),
            )
        }),
{
    let pushed = entries.push(entry);
    lemma_total_bytes_push(entries, entry);
    assert forall|i: int| 0 <= i < pushed.len() implies entry_bytes(#[trigger] pushed[i]) >= 0 by {
        let e = pushed[i];
        assert(e.width as int * e.height as int * 4 >= 0) by (nonlinear_arith);
    }
    lemma_trim_keeps_exact_accounting(pushed, bytes + entry_bytes(entry), max_bytes);
}

/// With an exact byte counter, a trim keeps the longest suffix of the
/// recency order that fits the budget: the uploads kept fit, and keeping
/// any older upload as well would not. (Together with the exact-accounting
/// laws above: least recently used uploads are evicted first, and no more
/// of them than needed.)
pub proof fn lemma_trim_keeps_longest_fitting_suffix<R>(entries: Seq<CachedImage<R>>, max_bytes: int)
    requires
        max_bytes >= 0,
    ensures
        ({
            let k = trim_count(entries, total_bytes(entries), max_bytes) as int;
            &&& k <= entries.len()
            &&& total_bytes(entries.skip(k)) <= max_bytes
            &&& forall|j: int| 0 <= j < k ==> total_bytes(#[trigger] entries.skip(j)) > max_bytes
        }),
    decreases entries.len(),
{
    let bytes = total_bytes(entries);
    if bytes <= max_bytes || entries.len() == 0 {
        assert(entries.skip(0) =~= entries);
    } else {
        let rest = entries.drop_first();
        lemma_total_bytes_nonnegative(rest);
        let e = entries[0];
        assert(e.width as int * e.height as int * 4 >= 0) by (nonlinear_arith);
        assert(saturating_sub_spec(bytes, entry_bytes(entries[0])) == total_bytes(rest));
        lemma_trim_keeps_longest_fitting_suffix(rest, max_bytes);
        let k = trim_count(rest, total_bytes(rest), max_bytes) as int;
        assert(entries.skip(1 + k) =~= rest.skip(k));
        assert forall|j: int| 0 <= j < 1 + k implies total_bytes(#[trigger] entries.skip(j))
            > max_bytes by {
            if j == 0 {
                assert(entries.skip(0) =~= entries);
            } else {
                assert(entries.skip(j) =~= rest.skip(j - 1));
            }
        }
    }
}

/// Every upload's charge is non-negative.
pub proof fn lemma_entry_bytes_nonnegative<R>(entries: Seq<CachedImage<R>>)
    ensures
        forall|i: int| 0 <= i < entries.len() ==> entry_bytes(#[trigger] entries[i]) >= 0,
{
    assert forall|i: int| 0 <= i < entries.len() implies entry_bytes(#[trigger] entries[i]) >= 0 by {
        let e = entries[i];
        assert(e.width as int * e.height as int * 4 >= 0) by (nonlinear_arith);
    }
}

/// Removing the entry at `i` takes exactly its charge off the total.
pub proof fn lemma_total_bytes_remove<R>(entries: Seq<CachedImage<R>>, i: int)
    requires
        0 <= i < entries.len(),
    ensures
        total_bytes(entries.remove(i)) + entry_bytes(entries[i]) == total_bytes(entries),
    decreases i,
{
    if i == 0 {
        assert(entries.remove(0) =~= entries.drop_first());
    } else {
        let rest = entries.drop_first();
        lemma_total_bytes_remove(rest, i - 1);
        assert(entries.remove(i).drop_first() =~= rest.remove(i - 1));
        assert(entries.remove(i)[0] == entries[0]);
        assert(rest[i - 1] == entries[i]);
    }
}

/// Touching an entry keeps the total charge.
pub proof fn lemma_total_bytes_touched<R>(entries: Seq<CachedImage<R>>, i: int)
    requires
        0 <= i < entries.len(),
    ensures
        total_bytes(touched(entries, i)) == total_bytes(entries),
{
    lemma_total_bytes_remove(entries, i);
    lemma_total_bytes_push(entries.remove(i), entries[i]);
}

} // verus!
