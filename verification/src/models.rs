//! The checkpoints that the engine can serve.

use crate::text::chars_of;
use vstd::prelude::*;
use vstd::set_lib::{lemma_int_range, lemma_subset_equality, set_int_range};

verus! {

/// What is found in a folder of checkpoints.
#[derive(Debug, Clone)]
pub struct Candidate {
    /// Its file name, where that is a text.
    pub name: Option<String>,
    pub path: String,
    pub is_dir: bool,
    /// It holds a `freetoken_weight.json`, which makes it a converted checkpoint.
    pub has_weights: bool,
    /// It holds a `config.json`, which makes it a Transformers checkpoint.
    pub has_config: bool,
    pub size_bytes: u64,
}

/// A checkpoint that the engine can serve.
#[derive(Debug, Clone)]
pub struct ServableModel {
    pub name: String,
    pub path: String,
    /// It is in the format that the engine loads fast.
    pub converted: bool,
    pub size_bytes: u64,
}

/// What `str::to_lowercase` makes of a text.
pub uninterp spec fn lowercase(text: Seq<char>) -> Seq<char>;

/// `str::to_lowercase` gives the lower case of a text, as Unicode defines it whatever the
/// locale: the text that [`lowercase`] names.
pub assume_specification [str::to_lowercase] (text: &str) -> (lower: String)
    ensures
        lower@ == lowercase(text@),
;

/// What is found is a checkpoint: a folder that holds the weights of a converted one, or the
/// configuration of one of Transformers.
pub open spec fn is_checkpoint(is_dir: bool, has_weights: bool, has_config: bool) -> bool {
    is_dir && (has_weights || has_config)
}

impl Candidate {
    /// The engine can serve it: a checkpoint with a name.
    pub open spec fn servable(self) -> bool {
        is_checkpoint(self.is_dir, self.has_weights, self.has_config) && self.name is Some
    }

    /// The checkpoint that it is.
    pub open spec fn model(self) -> ServableModel {
        ServableModel {
            name: self.name->0,
            path: self.path,
            converted: self.has_weights,
            size_bytes: self.size_bytes,
        }
    }

    /// Whether the engine can serve it.
    pub fn is_servable(&self) -> (servable: bool)
        ensures
            servable == self.servable(),
    {
        self.is_dir && (self.has_weights || self.has_config) && self.name.is_some()
    }
}

/// The checkpoints among `candidates`, in their order.
pub open spec fn servable_models(candidates: Seq<Candidate>) -> Seq<ServableModel>
    decreases candidates.len(),
{
    if candidates.len() == 0 {
        seq![]
    } else {
        let front = servable_models(candidates.drop_last());
        if candidates.last().servable() {
            front.push(candidates.last().model())
        } else {
            front
        }
    }
}

/// The names of `models` in lower case, by which they are ordered.
pub open spec fn sort_keys(models: Seq<ServableModel>) -> Seq<Seq<char>> {
    models.map_values(|model: ServableModel| lowercase(model.name@))
}

/// `a` comes before `b` in the order of their code points.
pub open spec fn text_less(a: Seq<char>, b: Seq<char>) -> bool
    decreases a.len(),
{
    if b.len() == 0 {
        false
    } else if a.len() == 0 {
        true
    } else {
        a[0] < b[0] || (a[0] == b[0] && text_less(a.skip(1), b.skip(1)))
    }
}

/// What stands at `i` is to come before what stands at `j`: by its key, or by its place where
/// the keys are the same.
pub open spec fn comes_before(keys: Seq<Seq<char>>, i: usize, j: usize) -> bool {
    text_less(keys[i as int], keys[j as int]) || (keys[i as int] == keys[j as int] && i < j)
}

/// `order` lists the places of `keys`, sorted by key, those with the same key as they stood.
pub open spec fn is_stable_order(keys: Seq<Seq<char>>, order: Seq<usize>) -> bool {
    &&& order.len() == keys.len()
    &&& forall|a: int| 0 <= a < order.len() ==> (#[trigger] order[a]) < keys.len()
    &&& forall|a: int, b: int|
        0 <= a < b < order.len() ==> #[trigger] comes_before(keys, order[a], order[b])
}

/// The models at the places that `order` lists.
pub open spec fn arranged(models: Seq<ServableModel>, order: Seq<usize>) -> Seq<ServableModel> {
    order.map_values(|i: usize| models[i as int])
}

/// `models` without those that have the path of the one just before.
pub open spec fn deduped(models: Seq<ServableModel>) -> Seq<ServableModel>
    decreases models.len(),
{
    if models.len() <= 1 {
        models
    } else {
        let front = deduped(models.drop_last());
        if models.last().path@ == models[models.len() - 2].path@ {
            front
        } else {
            front.push(models.last())
        }
    }
}

/// The checkpoints that the engine can serve among `candidates`: sorted by name, whatever the
/// case, those of the same name as they stood, without one that has the path of the one just
/// before. There is one stable order, see [`law_stable_order_is_unique`].
pub open spec fn listing(candidates: Seq<Candidate>) -> Seq<ServableModel> {
    let models = servable_models(candidates);
    deduped(
        arranged(models, choose|order: Seq<usize>| is_stable_order(sort_keys(models), order)),
    )
}

/// Whether `a` comes before `b` in the order of their code points.
fn is_text_less(a: &str, b: &str) -> (less: bool)
    ensures
        less == text_less(a@, b@),
{
    let x = chars_of(a);
    let y = chars_of(b);
    let mut i: usize = 0;
    assert(x@.skip(0) =~= x@);
    assert(y@.skip(0) =~= y@);
    while i < x.len() && i < y.len() && x[i] == y[i]
        invariant
            i <= x@.len(),
            i <= y@.len(),
            text_less(x@, y@) == text_less(x@.skip(i as int), y@.skip(i as int)),
        decreases x@.len() - i,
    {
        assert(x@.skip(i as int).skip(1) =~= x@.skip(i + 1));
        assert(y@.skip(i as int).skip(1) =~= y@.skip(i + 1));
        i += 1;
    }
    i < y.len() && (i >= x.len() || x[i] < y[i])
}

/// The place among the first of `order` before which the place `i` belongs.
fn insertion_point(keys: &Vec<String>, order: &Vec<usize>, i: usize) -> (at: usize)
    requires
        i < keys@.len(),
        is_stable_order(keys.deep_view().take(i as int), order@),
    ensures
        at <= order@.len(),
        forall|a: int| 0 <= a < at ==> comes_before(keys.deep_view(), #[trigger] order@[a], i),
        forall|a: int|
            at <= a < order@.len() ==> comes_before(keys.deep_view(), i, #[trigger] order@[a]),
{
    let ghost all = keys.deep_view();
    let ghost before = all.take(i as int);
    let mut at: usize = order.len();
    while at > 0 && is_text_less(keys[i].as_str(), keys[order[at - 1]].as_str())
        invariant
            at <= order@.len(),
            i < keys@.len(),
            all == keys.deep_view(),
            before == all.take(i as int),
            is_stable_order(before, order@),
            forall|a: int| 0 <= a < order@.len() ==> (#[trigger] order@[a]) < i,
            forall|a: int| at <= a < order@.len() ==> comes_before(all, i, #[trigger] order@[a]),
        decreases at,
    {
        at -= 1;
    }
    assert forall|a: int| 0 <= a < at implies comes_before(all, #[trigger] order@[a], i) by {
        let last = order@[at - 1];
        assert(order@[a] < i);
        lemma_text_less_is_total(all[last as int], all[i as int]);
        if a < at - 1 {
            assert(comes_before(before, order@[a], last));
            lemma_text_less_is_transitive(
                all[order@[a] as int],
                all[last as int],
                all[i as int],
            );
        }
    }
    at
}

/// The places of `keys`, sorted by key, those with the same key as they stood.
pub fn stable_order(keys: &Vec<String>) -> (order: Vec<usize>)
    ensures
        is_stable_order(keys.deep_view(), order@),
{
    let ghost all = keys.deep_view();
    let mut order: Vec<usize> = Vec::new();
    let mut i: usize = 0;
    while i < keys.len()
        invariant
            i <= keys@.len(),
            all == keys.deep_view(),
            is_stable_order(all.take(i as int), order@),
        decreases keys@.len() - i,
    {
        let at = insertion_point(keys, &order, i);
        let ghost former = order@;
        order.insert(at, i);
        let ghost next = all.take(i + 1);
        assert forall|a: int| 0 <= a < order@.len() implies (#[trigger] order@[a]) < next.len() by {
            if a < at {
                assert(order@[a] == former[a]);
            } else if a > at {
                assert(order@[a] == former[a - 1]);
            }
        }
        assert forall|a: int, b: int| 0 <= a < b < order@.len() implies #[trigger] comes_before(
            next,
            order@[a],
            order@[b],
        ) by {
            let x = if a < at {
                former[a]
            } else if a == at {
                i
            } else {
                former[a - 1]
            };
            let y = if b < at {
                former[b]
            } else if b == at {
                i
            } else {
                former[b - 1]
            };
            assert(order@[a] == x && order@[b] == y);
            if a != at && b != at {
                assert(comes_before(all.take(i as int), x, y));
            }
        }
        i += 1;
    }
    assert(all.take(i as int) =~= all);
    order
}

/// `models`, sorted by `keys`, without those that have the path of the one just before.
pub fn order_models(models: &Vec<ServableModel>, keys: &Vec<String>) -> (result: Vec<ServableModel>)
    requires
        keys@.len() == models@.len(),
    ensures
        exists|order: Seq<usize>| #[trigger]
            is_stable_order(keys.deep_view(), order) && result@ == deduped(
                arranged(models@, order),
            ),
{
    let order = stable_order(keys);
    let ghost sorted = arranged(models@, order@);
    let mut result: Vec<ServableModel> = Vec::new();
    let mut i: usize = 0;
    assert(sorted.take(0) =~= seq![]);
    while i < order.len()
        invariant
            i <= order@.len(),
            keys@.len() == models@.len(),
            is_stable_order(keys.deep_view(), order@),
            sorted == arranged(models@, order@),
            result@ == deduped(sorted.take(i as int)),
        decreases order@.len() - i,
    {
        let place: usize = order[i];
        let model = &models[place];
        assert(sorted[i as int] == *model);
        let repeated: bool = i > 0 && crate::text::same_text(
            model.path.as_str(),
            models[order[i - 1]].path.as_str(),
        );
        if !repeated {
            result.push(
                ServableModel {
                    name: model.name.clone(),
                    path: model.path.clone(),
                    converted: model.converted,
                    size_bytes: model.size_bytes,
                },
            );
        }
        i += 1;
        assert(sorted.take(i as int).drop_last() =~= sorted.take(i - 1));
        assert(sorted.take(i as int).last() == *model);
        if i == 1 {
            assert(sorted.take(i as int) =~= seq![*model]);
        } else {
            assert(sorted.take(i as int)[i - 2] == sorted[i - 2]);
        }
        assert(result@ =~= deduped(sorted.take(i as int)));
    }
    assert(sorted.take(i as int) =~= sorted);
    assert(is_stable_order(keys.deep_view(), order@));
    result
}

/// The checkpoints that the engine can serve among what was found in the folders of
/// checkpoints: those of the user's library, then those that the extension has converted.
///
/// They are sorted by name, whatever the case; one that comes twice in a row, under one path, is
/// listed once.
pub fn list_servable_models(candidates: &Vec<Candidate>) -> (result: Vec<ServableModel>)
    ensures
        exists|order: Seq<usize>| #[trigger]
            is_stable_order(sort_keys(servable_models(candidates@)), order) && result@ == deduped(
                arranged(servable_models(candidates@), order),
            ),
        result@ == listing(candidates@),
{
    let mut models: Vec<ServableModel> = Vec::new();
    let mut keys: Vec<String> = Vec::new();
    let mut i: usize = 0;
    assert(keys.deep_view() =~= sort_keys(models@));
    while i < candidates.len()
        invariant
            i <= candidates@.len(),
            models@ == servable_models(candidates@.take(i as int)),
            keys.deep_view() == sort_keys(models@),
        decreases candidates@.len() - i,
    {
        let candidate = &candidates[i];
        let ghost former_models = models@;
        let ghost former_keys = keys.deep_view();
        if candidate.is_servable() {
            if let Some(name) = &candidate.name {
                keys.push(name.as_str().to_lowercase());
                models.push(
                    ServableModel {
                        name: name.clone(),
                        path: candidate.path.clone(),
                        converted: candidate.has_weights,
                        size_bytes: candidate.size_bytes,
                    },
                );
                assert(models@ =~= former_models.push(candidate.model()));
                assert(keys.deep_view() =~= former_keys.push(lowercase(name@)));
                assert(keys.deep_view() =~= sort_keys(models@));
            }
        }
        i += 1;
        assert(candidates@.take(i as int).drop_last() =~= candidates@.take(i - 1));
        assert(candidates@.take(i as int).last() == *candidate);
    }
    assert(candidates@.take(i as int) =~= candidates@);
    assert(keys.deep_view().len() == models@.len());
    let result = order_models(&models, &keys);
    proof {
        let order = choose|order: Seq<usize>| #[trigger]
            is_stable_order(keys.deep_view(), order) && result@ == deduped(
                arranged(models@, order),
            );
        let listed = choose|order: Seq<usize>| is_stable_order(sort_keys(models@), order);
        law_stable_order_is_unique(keys.deep_view(), order, listed);
    }
    result
}

// ---------------------------------------------------------------------------
// How large a checkpoint is
// ---------------------------------------------------------------------------

/// What a folder holds.
#[derive(Debug)]
pub enum Entry {
    /// A file, with its size in bytes.
    File { size: u64 },
    Folder { entries: Vec<Entry> },
}

/// How many levels of folders count toward the size of a checkpoint.
pub const SIZE_DEPTH: u32 = 3;

/// The size of the files among `entries`, and in the folders among them, `depth` levels of
/// folders in all.
pub open spec fn total(entries: Seq<Entry>, depth: nat) -> nat
    decreases depth, entries.len(),
{
    if depth == 0 || entries.len() == 0 {
        0
    } else {
        total(entries.drop_last(), depth) + match entries.last() {
            Entry::File { size } => size as nat,
            Entry::Folder { entries } => total(entries@, (depth - 1) as nat),
        }
    }
}

/// More entries are not smaller.
proof fn lemma_total_grows(entries: Seq<Entry>, depth: nat, n: int)
    requires
        0 <= n <= entries.len(),
    ensures
        total(entries.take(n), depth) <= total(entries, depth),
    decreases entries.len(),
{
    if n == entries.len() {
        assert(entries.take(n) =~= entries);
    } else {
        lemma_total_grows(entries.drop_last(), depth, n);
        assert(entries.drop_last().take(n) =~= entries.take(n));
    }
}

/// The size of the files among `entries`, and in the folders among them, `depth` levels of
/// folders in all. There is none where it does not fit in 64 bits.
pub fn total_size(entries: &Vec<Entry>, depth: u32) -> (size: Option<u64>)
    ensures
        size is None <==> total(entries@, depth as nat) > u64::MAX,
        size matches Some(size) ==> size == total(entries@, depth as nat),
    decreases depth,
{
    if depth == 0 {
        return Some(0);
    }
    let mut sum: u64 = 0;
    let mut i: usize = 0;
    assert(entries@.take(0) =~= seq![]);
    while i < entries.len()
        invariant
            i <= entries@.len(),
            depth > 0,
            sum == total(entries@.take(i as int), depth as nat),
        decreases entries@.len() - i,
    {
        let ghost next = entries@.take(i + 1);
        proof {
            lemma_total_grows(entries@, depth as nat, i + 1);
            assert(next.drop_last() =~= entries@.take(i as int));
            assert(next.last() == entries@[i as int]);
        }
        let size: u64 = match &entries[i] {
            Entry::File { size } => *size,
            Entry::Folder { entries } => match total_size(entries, depth - 1) {
                Some(size) => size,
                None => return None,
            },
        };
        if size > u64::MAX - sum {
            return None;
        }
        sum = sum + size;
        i += 1;
    }
    assert(entries@.take(i as int) =~= entries@);
    Some(sum)
}

// ---------------------------------------------------------------------------
// Laws
// ---------------------------------------------------------------------------

/// No text comes before itself.
proof fn lemma_text_less_is_strict(a: Seq<char>)
    ensures
        !text_less(a, a),
    decreases a.len(),
{
    if a.len() > 0 {
        lemma_text_less_is_strict(a.skip(1));
    }
}

/// Of two texts that differ, one comes before the other.
proof fn lemma_text_less_is_total(a: Seq<char>, b: Seq<char>)
    ensures
        text_less(a, b) || text_less(b, a) || a == b,
    decreases a.len(),
{
    if a.len() > 0 && b.len() > 0 && a[0] == b[0] {
        lemma_text_less_is_total(a.skip(1), b.skip(1));
        if a.skip(1) == b.skip(1) {
            assert(a =~= seq![a[0]] + a.skip(1));
            assert(b =~= seq![b[0]] + b.skip(1));
        }
    } else if a.len() == 0 && b.len() == 0 {
        assert(a =~= b);
    }
}

/// What comes before a text comes before whatever that text comes before.
proof fn lemma_text_less_is_transitive(a: Seq<char>, b: Seq<char>, c: Seq<char>)
    ensures
        text_less(a, b) && text_less(b, c) ==> text_less(a, c),
    decreases a.len(),
{
    if a.len() > 0 && b.len() > 0 && c.len() > 0 {
        lemma_text_less_is_transitive(a.skip(1), b.skip(1), c.skip(1));
    }
}

/// A place does not come before itself, nor two before each other.
proof fn lemma_comes_before_is_strict(keys: Seq<Seq<char>>, i: usize, j: usize)
    requires
        comes_before(keys, i, j),
    ensures
        i != j,
        !comes_before(keys, j, i),
{
    let a = keys[i as int];
    let b = keys[j as int];
    lemma_text_less_is_strict(a);
    lemma_text_less_is_transitive(a, b, a);
    lemma_text_less_is_strict(b);
}

/// A stable order lists every place.
proof fn lemma_order_lists_all(keys: Seq<Seq<char>>, order: Seq<usize>, i: usize)
    requires
        is_stable_order(keys, order),
        i < keys.len(),
    ensures
        order.contains(i),
{
    let places = order.map_values(|i: usize| i as int);
    assert forall|a: int, b: int|
        0 <= a < places.len() && 0 <= b < places.len() && a != b implies places[a] != places[b] by {
        if a < b {
            lemma_comes_before_is_strict(keys, order[a], order[b]);
        } else {
            lemma_comes_before_is_strict(keys, order[b], order[a]);
        }
    }
    assert(places.no_duplicates());
    places.unique_seq_to_set();
    let all = set_int_range(0, keys.len() as int);
    lemma_int_range(0, keys.len() as int);
    assert(places.to_set().subset_of(all)) by {
        assert forall|x: int| places.to_set().contains(x) implies all.contains(x) by {
            let a = choose|a: int| 0 <= a < places.len() && places[a] == x;
            assert(order[a] < keys.len());
        }
    }
    lemma_subset_equality(places.to_set(), all);
    assert(all.contains(i as int));
    assert(places.to_set().contains(i as int));
    let a = choose|a: int| 0 <= a < places.len() && places[a] == i as int;
    assert(order[a] == i);
}

/// There is one stable order of given keys: what the contract of [`list_servable_models`] says
/// of the listing leaves no choice.
pub proof fn law_stable_order_is_unique(keys: Seq<Seq<char>>, a: Seq<usize>, b: Seq<usize>)
    requires
        is_stable_order(keys, a),
        is_stable_order(keys, b),
    ensures
        a == b,
{
    assert forall|len: int| 0 <= len <= keys.len() implies #[trigger] a.take(len) == b.take(len) by {
        lemma_stable_orders_agree(keys, a, b, len);
    }
    assert(a.take(keys.len() as int) =~= a);
    assert(b.take(keys.len() as int) =~= b);
}

/// Two stable orders agree on their first `len` places.
proof fn lemma_stable_orders_agree(keys: Seq<Seq<char>>, a: Seq<usize>, b: Seq<usize>, len: int)
    requires
        is_stable_order(keys, a),
        is_stable_order(keys, b),
        0 <= len <= keys.len(),
    ensures
        a.take(len) == b.take(len),
    decreases len,
{
    if len > 0 {
        lemma_stable_orders_agree(keys, a, b, len - 1);
        let at = len - 1;
        assert forall|k: int| 0 <= k < at implies a[k] == b[k] by {
            assert(a.take(at)[k] == b.take(at)[k]);
        }
        if a[at] != b[at] {
            lemma_order_lists_all(keys, b, a[at]);
            lemma_order_lists_all(keys, a, b[at]);
            let in_b = choose|k: int| 0 <= k < b.len() && b[k] == a[at];
            let in_a = choose|k: int| 0 <= k < a.len() && a[k] == b[at];
            if in_b < at {
                lemma_comes_before_is_strict(keys, a[in_b], a[at]);
            }
            if in_a < at {
                lemma_comes_before_is_strict(keys, b[in_a], b[at]);
            }
            assert(comes_before(keys, b[at], b[in_b]));
            assert(comes_before(keys, a[at], a[in_a]));
            lemma_comes_before_is_strict(keys, a[at], b[at]);
        }
        assert(a.take(len) =~= a.take(at).push(a[at]));
        assert(b.take(len) =~= b.take(at).push(b[at]));
    } else {
        assert(a.take(len) =~= b.take(len));
    }
}

/// The places in `models` of what [`deduped`] keeps: they rise, the last one kept has the path
/// of the last one, and of two neighbours that are kept the paths differ.
proof fn lemma_deduped(models: Seq<ServableModel>) -> (kept: Seq<int>)
    ensures
        kept.len() == deduped(models).len(),
        forall|a: int|
            0 <= a < kept.len() ==> 0 <= #[trigger] kept[a] < models.len() && deduped(models)[a]
                == models[kept[a]],
        forall|a: int, b: int| 0 <= a < b < kept.len() ==> kept[a] < kept[b],
        models.len() > 0 ==> deduped(models).len() > 0 && deduped(models).last().path@
            == models.last().path@,
        forall|a: int|
            1 <= a < deduped(models).len() ==> (#[trigger] deduped(models)[a]).path@ != deduped(
                models,
            )[a - 1].path@,
        forall|i: int|
            0 <= i < models.len() ==> exists|a: int|
                0 <= a < deduped(models).len() && deduped(models)[a].path@ == (
                #[trigger] models[i]).path@,
    decreases models.len(),
{
    if models.len() == 0 {
        seq![]
    } else if models.len() == 1 {
        assert(deduped(models)[0] == models[0]);
        seq![0]
    } else {
        let front = models.drop_last();
        let kept = lemma_deduped(front);
        let result = deduped(models);
        let same = models.last().path@ == models[models.len() - 2].path@;
        assert(front.last() == models[models.len() - 2]);
        let now = if same {
            kept
        } else {
            kept.push(models.len() - 1)
        };
        assert forall|i: int| 0 <= i < models.len() implies exists|a: int|
            0 <= a < result.len() && result[a].path@ == (#[trigger] models[i]).path@ by {
            if i < models.len() - 1 {
                assert(front[i] == models[i]);
                let a = choose|a: int|
                    0 <= a < deduped(front).len() && deduped(front)[a].path@ == front[i].path@;
                assert(result[a] == deduped(front)[a]);
            } else {
                assert(result[result.len() - 1].path@ == models[i].path@);
            }
        }
        now
    }
}

/// The listing is sorted by name, whatever the case.
pub proof fn law_listing_is_sorted(models: Seq<ServableModel>, order: Seq<usize>, a: int, b: int)
    requires
        is_stable_order(sort_keys(models), order),
        0 <= a < b < deduped(arranged(models, order)).len(),
    ensures
        !text_less(
            lowercase(deduped(arranged(models, order))[b].name@),
            lowercase(deduped(arranged(models, order))[a].name@),
        ),
{
    let keys = sort_keys(models);
    let sorted = arranged(models, order);
    let kept = lemma_deduped(sorted);
    let x = order[kept[a]];
    let y = order[kept[b]];
    assert(kept[a] < kept[b]);
    assert(comes_before(keys, x, y));
    assert(sorted[kept[a]] == models[x as int]);
    assert(sorted[kept[b]] == models[y as int]);
    lemma_text_less_is_strict(keys[x as int]);
    lemma_text_less_is_transitive(keys[x as int], keys[y as int], keys[x as int]);
}

/// Only checkpoints that were found and that the engine can serve are listed.
pub proof fn law_only_servable_models_are_listed(
    candidates: Seq<Candidate>,
    order: Seq<usize>,
    a: int,
)
    requires
        is_stable_order(sort_keys(servable_models(candidates)), order),
        0 <= a < deduped(arranged(servable_models(candidates), order)).len(),
    ensures
        exists|i: int|
            0 <= i < candidates.len() && (#[trigger] candidates[i]).servable()
                && candidates[i].model() == deduped(
                arranged(servable_models(candidates), order),
            )[a],
{
    let models = servable_models(candidates);
    let sorted = arranged(models, order);
    let kept = lemma_deduped(sorted);
    let place = order[kept[a]];
    assert(sorted[kept[a]] == models[place as int]);
    lemma_models_come_from_candidates(candidates, place as int);
}

/// Each checkpoint is one of the candidates.
proof fn lemma_models_come_from_candidates(candidates: Seq<Candidate>, m: int)
    requires
        0 <= m < servable_models(candidates).len(),
    ensures
        exists|i: int|
            0 <= i < candidates.len() && (#[trigger] candidates[i]).servable()
                && candidates[i].model() == servable_models(candidates)[m],
    decreases candidates.len(),
{
    let front = candidates.drop_last();
    if m < servable_models(front).len() {
        lemma_models_come_from_candidates(front, m);
        let i = choose|i: int|
            0 <= i < front.len() && (#[trigger] front[i]).servable() && front[i].model()
                == servable_models(front)[m];
        assert(candidates[i] == front[i]);
    } else {
        assert(candidates[candidates.len() - 1].servable());
    }
}

/// The path of every candidate that the engine can serve is listed.
pub proof fn law_every_servable_path_is_listed(
    candidates: Seq<Candidate>,
    order: Seq<usize>,
    i: int,
)
    requires
        is_stable_order(sort_keys(servable_models(candidates)), order),
        0 <= i < candidates.len(),
        candidates[i].servable(),
        servable_models(candidates).len() <= usize::MAX,
    ensures
        exists|a: int|
            0 <= a < deduped(arranged(servable_models(candidates), order)).len() && (
            #[trigger] deduped(arranged(servable_models(candidates), order))[a]).path@
                == candidates[i].path@,
{
    let models = servable_models(candidates);
    let sorted = arranged(models, order);
    let m = lemma_candidate_is_a_model(candidates, i);
    lemma_order_lists_all(sort_keys(models), order, m as usize);
    let at = choose|at: int| 0 <= at < order.len() && order[at] == m as usize;
    assert(sorted[at] == models[m]);
    let kept = lemma_deduped(sorted);
    let a = choose|a: int| 0 <= a < deduped(sorted).len() && deduped(sorted)[a].path@ == sorted[at].path@;
    assert(deduped(sorted)[a].path@ == candidates[i].path@);
}

/// A candidate that the engine can serve is one of the checkpoints.
proof fn lemma_candidate_is_a_model(candidates: Seq<Candidate>, i: int) -> (m: int)
    requires
        0 <= i < candidates.len(),
        candidates[i].servable(),
    ensures
        0 <= m < servable_models(candidates).len(),
        servable_models(candidates)[m] == candidates[i].model(),
    decreases candidates.len(),
{
    let front = candidates.drop_last();
    if i < front.len() {
        assert(front[i] == candidates[i]);
        lemma_candidate_is_a_model(front, i)
    } else {
        servable_models(candidates).len() - 1
    }
}

/// Of two neighbours in the listing the paths differ.
pub proof fn law_no_path_follows_itself(models: Seq<ServableModel>, a: int)
    requires
        1 <= a < deduped(models).len(),
    ensures
        deduped(models)[a].path@ != deduped(models)[a - 1].path@,
{
    let kept = lemma_deduped(models);
}

/// The listing, by any stable order: there is one.
proof fn lemma_listing(candidates: Seq<Candidate>, order: Seq<usize>)
    requires
        is_stable_order(sort_keys(servable_models(candidates)), order),
    ensures
        listing(candidates) == deduped(arranged(servable_models(candidates), order)),
{
    let keys = sort_keys(servable_models(candidates));
    let chosen = choose|order: Seq<usize>| is_stable_order(keys, order);
    law_stable_order_is_unique(keys, order, chosen);
}

/// Each checkpoint that is listed is one that was found, a folder with a name that holds weights
/// that were converted or a configuration. It has the name, the path and the size that were
/// found, and is listed as converted exactly where it holds such weights.
pub proof fn law_listed_checkpoint_is_as_it_was_found(
    candidates: Seq<Candidate>,
    order: Seq<usize>,
    a: int,
)
    requires
        is_stable_order(sort_keys(servable_models(candidates)), order),
        0 <= a < listing(candidates).len(),
    ensures
        exists|i: int|
            {
                &&& 0 <= i < candidates.len()
                &&& (#[trigger] candidates[i]).is_dir
                &&& candidates[i].has_weights || candidates[i].has_config
                &&& candidates[i].name is Some
                &&& listing(candidates)[a].name@ == candidates[i].name->0@
                &&& listing(candidates)[a].path@ == candidates[i].path@
                &&& listing(candidates)[a].converted == candidates[i].has_weights
                &&& listing(candidates)[a].size_bytes == candidates[i].size_bytes
            },
{
    lemma_listing(candidates, order);
    law_only_servable_models_are_listed(candidates, order, a);
    let i = choose|i: int|
        0 <= i < candidates.len() && (#[trigger] candidates[i]).servable() && candidates[i].model()
            == deduped(arranged(servable_models(candidates), order))[a];
    assert(candidates[i].is_dir);
}

/// Every folder with a name that holds weights that were converted, or a configuration, is listed
/// under its path.
pub proof fn law_every_checkpoint_is_listed(
    candidates: Seq<Candidate>,
    order: Seq<usize>,
    i: int,
)
    requires
        is_stable_order(sort_keys(servable_models(candidates)), order),
        0 <= i < candidates.len(),
        candidates[i].is_dir,
        candidates[i].has_weights || candidates[i].has_config,
        candidates[i].name is Some,
        servable_models(candidates).len() <= usize::MAX,
    ensures
        exists|a: int|
            0 <= a < listing(candidates).len() && (#[trigger] listing(candidates)[a]).path@
                == candidates[i].path@,
{
    lemma_listing(candidates, order);
    law_every_servable_path_is_listed(candidates, order, i);
    let a = choose|a: int|
        0 <= a < deduped(arranged(servable_models(candidates), order)).len() && (
        #[trigger] deduped(arranged(servable_models(candidates), order))[a]).path@
            == candidates[i].path@;
    assert(listing(candidates)[a].path@ == candidates[i].path@);
}

/// Sizes add up: those of the files that stand in a folder, and those of the folders in it, of
/// which one level less counts.
pub proof fn law_sizes_add_up(
    a: Seq<Entry>,
    b: Seq<Entry>,
    size: u64,
    inner: Vec<Entry>,
    depth: nat,
)
    ensures
        total(a + b, depth) == total(a, depth) + total(b, depth),
        depth > 0 ==> total(seq![Entry::File { size }], depth) == size,
        depth > 0 ==> total(seq![Entry::Folder { entries: inner }], depth) == total(
            inner@,
            (depth - 1) as nat,
        ),
        total(a, 0) == 0,
        total(Seq::<Entry>::empty(), depth) == 0,
    decreases b.len(),
{
    assert(seq![Entry::File { size }].drop_last() =~= seq![]);
    assert(seq![Entry::Folder { entries: inner }].drop_last() =~= seq![]);
    reveal_with_fuel(total, 2);
    if b.len() == 0 {
        assert(a + b =~= a);
    } else {
        law_sizes_add_up(a, b.drop_last(), size, inner, depth);
        assert((a + b).drop_last() =~= a + b.drop_last());
        assert((a + b).last() == b.last());
    }
}

/// Two texts come in the order of the first characters in which they differ, and a text comes
/// before one that goes on after it.
pub proof fn law_first_difference_decides(
    common: Seq<char>,
    a: char,
    b: char,
    after_a: Seq<char>,
    after_b: Seq<char>,
)
    ensures
        a < b ==> text_less(common + seq![a] + after_a, common + seq![b] + after_b),
        b < a ==> !text_less(common + seq![a] + after_a, common + seq![b] + after_b),
        text_less(common, common + seq![b] + after_b),
        !text_less(common + seq![a] + after_a, common),
    decreases common.len(),
{
    let x = common + seq![a] + after_a;
    let y = common + seq![b] + after_b;
    if common.len() > 0 {
        let rest = common.skip(1);
        law_first_difference_decides(rest, a, b, after_a, after_b);
        assert(x.skip(1) =~= rest + seq![a] + after_a);
        assert(y.skip(1) =~= rest + seq![b] + after_b);
        assert(x[0] == common[0] && y[0] == common[0]);
    } else {
        assert(x[0] == a && y[0] == b);
    }
}

/// Of checkpoints that follow each other under one path the first is kept, and checkpoints that
/// follow each other under different paths are kept apart.
pub proof fn law_first_of_a_path_is_kept(
    before: Seq<ServableModel>,
    first: ServableModel,
    next: ServableModel,
    after: Seq<ServableModel>,
)
    ensures
        first.path@ == next.path@ ==> deduped(before + seq![first, next] + after) == deduped(
            before + seq![first] + after,
        ),
        first.path@ != next.path@ ==> deduped(before + seq![first, next] + after) == deduped(
            before + seq![first],
        ) + deduped(seq![next] + after),
        deduped(seq![first]) == seq![first],
    decreases after.len(),
{
    let whole = before + seq![first, next] + after;
    let single = before + seq![first] + after;
    let tail = seq![next] + after;
    if after.len() == 0 {
        assert(whole.drop_last() =~= before + seq![first]);
        assert(whole.last() == next);
        assert(whole[whole.len() - 2] == first);
        assert(single =~= before + seq![first]);
        assert(tail =~= seq![next]);
        assert(deduped(before + seq![first]).push(next) =~= deduped(before + seq![first]) + seq![
            next,
        ]);
    } else {
        let front = after.drop_last();
        law_first_of_a_path_is_kept(before, first, next, front);
        assert(whole.drop_last() =~= before + seq![first, next] + front);
        assert(single.drop_last() =~= before + seq![first] + front);
        assert(tail.drop_last() =~= seq![next] + front);
        assert(whole.last() == after.last() && single.last() == after.last() && tail.last()
            == after.last());
        if front.len() == 0 {
            assert(whole[whole.len() - 2] == next);
            assert(single[single.len() - 2] == first);
            assert(tail[tail.len() - 2] == next);
        } else {
            assert(whole[whole.len() - 2] == front.last());
            assert(single[single.len() - 2] == front.last());
            assert(tail[tail.len() - 2] == front.last());
        }
        let kept = deduped(before + seq![first]);
        assert(kept + deduped(seq![next] + front).push(after.last()) =~= (kept + deduped(
            seq![next] + front,
        )).push(after.last()));
    }
}

/// Checkpoints that are found in the order of their names, whatever the case, stay in the order in
/// which they were found, those of one name too: with no path twice in a row, all of them are
/// listed, each in its place.
pub proof fn law_order_of_equal_names_is_kept(candidates: Seq<Candidate>)
    requires
        candidates.len() <= usize::MAX,
        forall|i: int|
            0 <= i < candidates.len() ==> (#[trigger] candidates[i]).is_dir
                && candidates[i].has_weights && candidates[i].name is Some,
        forall|i: int, j: int|
            0 <= i < j < candidates.len() ==> !text_less(
                lowercase((#[trigger] candidates[j]).name->0@),
                lowercase((#[trigger] candidates[i]).name->0@),
            ),
        forall|i: int|
            1 <= i < candidates.len() ==> (#[trigger] candidates[i]).path@ != candidates[i
                - 1].path@,
    ensures
        listing(candidates).len() == candidates.len(),
        forall|i: int|
            0 <= i < candidates.len() ==> (#[trigger] listing(candidates)[i]).name@
                == candidates[i].name->0@ && listing(candidates)[i].path@ == candidates[i].path@,
{
    let models = servable_models(candidates);
    lemma_all_servable(candidates);
    let keys = sort_keys(models);
    let order = Seq::new(models.len(), |i: int| i as usize);
    assert forall|a: int, b: int| 0 <= a < b < order.len() implies #[trigger] comes_before(
        keys,
        order[a],
        order[b],
    ) by {
        assert(keys[a] == lowercase(candidates[a].name->0@));
        assert(keys[b] == lowercase(candidates[b].name->0@));
        lemma_text_less_is_total(keys[a], keys[b]);
    }
    assert(is_stable_order(keys, order));
    lemma_listing(candidates, order);
    assert(arranged(models, order) =~= models);
    assert forall|i: int| 1 <= i < models.len() implies (#[trigger] models[i]).path@ != models[i
        - 1].path@ by {
        assert(models[i] == candidates[i].model());
        assert(models[i - 1] == candidates[i - 1].model());
    }
    lemma_nothing_deduped(models);
}

/// Candidates that are all checkpoints are the checkpoints among them.
proof fn lemma_all_servable(candidates: Seq<Candidate>)
    requires
        forall|i: int| 0 <= i < candidates.len() ==> (#[trigger] candidates[i]).servable(),
    ensures
        servable_models(candidates).len() == candidates.len(),
        forall|i: int|
            0 <= i < candidates.len() ==> #[trigger] servable_models(candidates)[i]
                == candidates[i].model(),
    decreases candidates.len(),
{
    if candidates.len() > 0 {
        let front = candidates.drop_last();
        assert forall|i: int| 0 <= i < front.len() implies (#[trigger] front[i]).servable() by {
            assert(front[i] == candidates[i]);
        }
        lemma_all_servable(front);
        assert(candidates[candidates.len() - 1].servable());
    }
}

/// Where no path comes twice in a row, all is kept.
proof fn lemma_nothing_deduped(models: Seq<ServableModel>)
    requires
        forall|i: int|
            1 <= i < models.len() ==> (#[trigger] models[i]).path@ != models[i - 1].path@,
    ensures
        deduped(models) == models,
    decreases models.len(),
{
    if models.len() > 1 {
        let front = models.drop_last();
        assert forall|i: int| 1 <= i < front.len() implies (#[trigger] front[i]).path@ != front[i
            - 1].path@ by {
            assert(front[i] == models[i]);
        }
        lemma_nothing_deduped(front);
        assert(models[models.len() - 1].path@ != models[models.len() - 2].path@);
        assert(front.push(models.last()) =~= models);
    }
}

/// Of two checkpoints that are listed, the first does not come after the second by name, whatever
/// the case, and no two that follow each other have the same path.
pub proof fn law_listed_checkpoints_are_in_order(
    candidates: Seq<Candidate>,
    order: Seq<usize>,
    a: int,
    b: int,
)
    requires
        is_stable_order(sort_keys(servable_models(candidates)), order),
        0 <= a < b < listing(candidates).len(),
    ensures
        !text_less(
            lowercase(listing(candidates)[b].name@),
            lowercase(listing(candidates)[a].name@),
        ),
        b == a + 1 ==> listing(candidates)[a].path@ != listing(candidates)[b].path@,
{
    lemma_listing(candidates, order);
    law_listing_is_sorted(servable_models(candidates), order, a, b);
    law_no_path_follows_itself(arranged(servable_models(candidates), order), b);
}

} // verus!
