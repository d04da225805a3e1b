//! Grouping of one file's raw captures into a capture set.
use vstd::prelude::*;

verus! {

/// One capture as the query engine reports it: the index of its name in the
/// query's list of capture names, and the byte range it covers in the source.
#[derive(Clone, Copy, Debug, PartialEq, Eq)]
pub struct RawCapture {
    pub name_index: usize,
    pub start: usize,
    pub end: usize,
}

/// The snippets matched under one capture name, in traversal order.
#[derive(Clone, Debug)]
pub struct CaptureGroup {
    pub name_index: usize,
    pub name: String,
    pub snippets: Vec<Vec<u8>>,
}

/// Mapping from capture name to the ordered snippets matched under it.
/// Only names that matched at least once are present; groups stand in the
/// order in which their names first matched.
#[derive(Clone, Debug)]
pub struct CaptureSet {
    pub groups: Vec<CaptureGroup>,
}

/// Why a file's raw captures could not be grouped.
#[derive(Clone, Copy, Debug, PartialEq, Eq)]
pub enum CaptureError {
    /// The capture at this position names no capture of the query.
    UnknownName(usize),
    /// The capture at this position covers no valid range of the source.
    BadRange(usize),
}

/// A capture is usable when its name exists and its range lies in the source.
pub open spec fn capture_ok(c: RawCapture, n_names: nat, src_len: nat) -> bool {
    &&& c.name_index < n_names
    &&& c.start <= c.end
    &&& c.end <= src_len
}

/// The text a capture covers.
pub open spec fn snippet_of(c: RawCapture, source: Seq<u8>) -> Seq<u8> {
    source.subrange(c.start as int, c.end as int)
}

/// The snippets, in order, of the captures among `raw` that carry name `k`.
pub open spec fn snippets_for(raw: Seq<RawCapture>, source: Seq<u8>, k: usize) -> Seq<Seq<u8>>
    decreases raw.len(),
{
    if raw.len() == 0 {
        seq![]
    } else {
        let rest = snippets_for(raw.drop_last(), source, k);
        if raw.last().name_index == k {
            rest.push(snippet_of(raw.last(), source))
        } else {
            rest
        }
    }
}

/// Whether some capture among `raw` carries name `k`.
pub open spec fn has_name(raw: Seq<RawCapture>, k: usize) -> bool {
    exists|i: int| 0 <= i < raw.len() && raw[i].name_index == k
}

/// Whether a capture covers a valid range of a source of length `src_len`.
pub open spec fn range_ok(c: RawCapture, src_len: nat) -> bool {
    c.start <= c.end && c.end <= src_len
}

/// Whether every capture among `raw` covers a valid range of a source of
/// length `src_len`.
pub open spec fn ranges_ok(raw: Seq<RawCapture>, src_len: nat) -> bool {
    forall|i: int| 0 <= i < raw.len() ==> range_ok(#[trigger] raw[i], src_len)
}

/// Whether every capture among `raw` is usable.
pub open spec fn all_ok(raw: Seq<RawCapture>, n_names: nat, src_len: nat) -> bool {
    forall|i: int| 0 <= i < raw.len() ==> capture_ok(#[trigger] raw[i], n_names, src_len)
}

impl CaptureGroup {
    pub open spec fn snippets_view(&self) -> Seq<Seq<u8>> {
        self.snippets@.map_values(|v: Vec<u8>| v@)
    }
}

impl CaptureSet {
    /// The name indices of the groups, in order.
    pub open spec fn keys(&self) -> Seq<usize> {
        self.groups@.map_values(|g: CaptureGroup| g.name_index)
    }

    /// The snippets under each name index that matched.
    pub open spec fn snippet_map(&self) -> Map<usize, Seq<Seq<u8>>> {
        Map::new(
            |k: usize| self.keys().contains(k),
            |k: usize| self.groups@[self.keys().index_of(k)].snippets_view(),
        )
    }

    /// The capture set that grouping `raw` over `source` gives, with `names`
    /// as the query's capture names: one group per name that matched, its
    /// snippets those of the captures with that name in traversal order, and
    /// the groups ordered by the first match of their name.
    pub open spec fn is_grouping_of(
        &self,
        raw: Seq<RawCapture>,
        source: Seq<u8>,
        names: Seq<String>,
    ) -> bool {
        &&& forall|a: int, b: int|
            0 <= a < b < self.groups@.len() ==> self.groups@[a].name_index
                != self.groups@[b].name_index
        &&& forall|k: usize| has_name(raw, k) <==> self.keys().contains(k)
        &&& forall|j: int|
            0 <= j < self.groups@.len() ==> {
                let g = #[trigger] self.groups@[j];
                &&& g.name_index < names.len()
                &&& g.name@ == names[g.name_index as int]@
                &&& g.snippets_view() == snippets_for(raw, source, g.name_index)
            }
    }
}

proof fn lemma_take_step(raw: Seq<RawCapture>, i: int)
    requires
        0 <= i < raw.len(),
    ensures
        raw.take(i + 1).drop_last() =~= raw.take(i),
        raw.take(i + 1).last() == raw[i],
{
}

proof fn lemma_has_name_step(raw: Seq<RawCapture>, i: int, k: usize)
    requires
        0 <= i < raw.len(),
    ensures
        has_name(raw.take(i + 1), k) <==> (has_name(raw.take(i), k) || raw[i].name_index == k),
{
    let t1 = raw.take(i + 1);
    let t0 = raw.take(i);
    if has_name(t1, k) {
        let w = choose|w: int| 0 <= w < t1.len() && (#[trigger] t1[w]).name_index == k;
        if w < i {
            assert(t0[w] == raw[w]);
        }
    }
    if has_name(t0, k) {
        let w = choose|w: int| 0 <= w < t0.len() && (#[trigger] t0[w]).name_index == k;
        assert(t1[w] == raw[w]);
    }
    if raw[i].name_index == k {
        assert(t1[i] == raw[i]);
    }
}

/// Finds the first capture among `raw` that names no capture of the query or
/// covers no valid range of `source`.
fn check_captures(raw: &Vec<RawCapture>, n_names: usize, source: &[u8]) -> (r: Result<(), CaptureError>)
    ensures
        r is Ok <==> all_ok(raw@, n_names as nat, source@.len()),
        r matches Err(CaptureError::UnknownName(i)) ==> {
            &&& i < raw@.len()
            &&& raw@[i as int].name_index >= n_names
            &&& all_ok(raw@.take(i as int), n_names as nat, source@.len())
        },
        r matches Err(CaptureError::BadRange(i)) ==> {
            &&& i < raw@.len()
            &&& raw@[i as int].name_index < n_names
            &&& !capture_ok(raw@[i as int], n_names as nat, source@.len())
            &&& all_ok(raw@.take(i as int), n_names as nat, source@.len())
        },
{
    let mut i: usize = 0;
    while i < raw.len()
        invariant
            i <= raw@.len(),
            forall|j: int| 0 <= j < i ==> capture_ok(#[trigger] raw@[j], n_names as nat, source@.len()),
        decreases raw@.len() - i,
    {
        let c = raw[i];
        if c.name_index >= n_names {
            assert(all_ok(raw@.take(i as int), n_names as nat, source@.len()));
            return Err(CaptureError::UnknownName(i));
        }
        if c.start > c.end || c.end > source.len() {
            assert(all_ok(raw@.take(i as int), n_names as nat, source@.len()));
            return Err(CaptureError::BadRange(i));
        }
        i = i + 1;
    }
    Ok(())
}

/// The name indices that occur among `raw`, each once, in order of first
/// occurrence.
fn distinct_names(raw: &Vec<RawCapture>) -> (keys: Vec<usize>)
    ensures
        forall|a: int, b: int| 0 <= a < b < keys@.len() ==> keys@[a] != keys@[b],
        forall|k: usize| has_name(raw@, k) <==> keys@.contains(k),
{
    let mut keys: Vec<usize> = Vec::new();
    let mut i: usize = 0;
    while i < raw.len()
        invariant
            i <= raw@.len(),
            forall|a: int, b: int| 0 <= a < b < keys@.len() ==> keys@[a] != keys@[b],
            forall|k: usize| has_name(raw@.take(i as int), k) <==> keys@.contains(k),
        decreases raw@.len() - i,
    {
        let k = raw[i].name_index;
        let mut j: usize = 0;
        let mut found = false;
        while j < keys.len()
            invariant
                j <= keys@.len(),
                found ==> keys@.contains(k),
                !found ==> forall|a: int| 0 <= a < j ==> keys@[a] != k,
            decreases keys@.len() - j,
        {
            if keys[j] == k {
                found = true;
            }
            j = j + 1;
        }
        let ghost old_keys = keys@;
        if !found {
            keys.push(k);
            assert forall|m: usize| old_keys.contains(m) implies keys@.contains(m) by {
                let w = choose|w: int| 0 <= w < old_keys.len() && old_keys[w] == m;
                assert(keys@[w] == m);
            }
            assert(keys@[old_keys.len() as int] == k);
            assert forall|m: usize| keys@.contains(m) implies (old_keys.contains(m) || m == k) by {
                let w = choose|w: int| 0 <= w < keys@.len() && keys@[w] == m;
                if w < old_keys.len() {
                    assert(old_keys[w] == m);
                }
            }
        }
        proof {
            assert forall|m: usize| has_name(raw@.take(i + 1), m) <==> keys@.contains(m) by {
                lemma_has_name_step(raw@, i as int, m);
                assert(has_name(raw@.take(i as int), m) <==> old_keys.contains(m));
                if found {
                    assert(keys@ == old_keys);
                } else {
                    assert(keys@.contains(m) <==> (old_keys.contains(m) || m == k));
                }
            }
        }
        i = i + 1;
    }
    assert(raw@.take(raw@.len() as int) =~= raw@);
    keys
}

/// The snippets of the captures among `raw` that carry name `k`, in order.
fn collect_snippets(raw: &Vec<RawCapture>, source: &[u8], k: usize) -> (r: Vec<Vec<u8>>)
    requires
        ranges_ok(raw@, source@.len()),
    ensures
        r@.map_values(|v: Vec<u8>| v@) == snippets_for(raw@, source@, k),
{
    let mut out: Vec<Vec<u8>> = Vec::new();
    let mut i: usize = 0;
    while i < raw.len()
        invariant
            i <= raw@.len(),
            ranges_ok(raw@, source@.len()),
            out@.map_values(|v: Vec<u8>| v@) == snippets_for(raw@.take(i as int), source@, k),
        decreases raw@.len() - i,
    {
        let c = raw[i];
        proof {
            lemma_take_step(raw@, i as int);
        }
        if c.name_index == k {
            assert(range_ok(raw@[i as int], source@.len()));
            let piece = vstd::slice::slice_to_vec(vstd::slice::slice_subrange(source, c.start, c.end));
            let ghost before = out@;
            out.push(piece);
            assert(out@.map_values(|v: Vec<u8>| v@) =~= before.map_values(|v: Vec<u8>| v@).push(
                snippet_of(c, source@),
            ));
        }
        i = i + 1;
    }
    assert(raw@.take(raw@.len() as int) =~= raw@);
    out
}

/// Groups one file's raw captures, in traversal order, into a capture set:
/// each capture's text is cut from `source` at its byte range and appended
/// under its name (`names` is the query's list of capture names). A capture
/// that names no capture of the query, or whose range does not lie in the
/// source, makes the whole file fail; the first such capture is reported.
pub fn aggregate(names: &Vec<String>, raw: &Vec<RawCapture>, source: &[u8]) -> (r: Result<
    CaptureSet,
    CaptureError,
>)
    ensures
        r is Ok <==> all_ok(raw@, names@.len(), source@.len()),
        r matches Ok(set) ==> set.is_grouping_of(raw@, source@, names@),
        r matches Err(CaptureError::UnknownName(i)) ==> {
            &&& i < raw@.len()
            &&& raw@[i as int].name_index >= names@.len()
            &&& all_ok(raw@.take(i as int), names@.len(), source@.len())
        },
        r matches Err(CaptureError::BadRange(i)) ==> {
            &&& i < raw@.len()
            &&& raw@[i as int].name_index < names@.len()
            &&& !range_ok(raw@[i as int], source@.len())
            &&& all_ok(raw@.take(i as int), names@.len(), source@.len())
        },
{
    match check_captures(raw, names.len(), source) {
        Err(e) => {
            return Err(e);
        },
        Ok(()) => {},
    }
    assert(ranges_ok(raw@, source@.len()));
    let keys = distinct_names(raw);
    let mut groups: Vec<CaptureGroup> = Vec::new();
    let mut j: usize = 0;
    while j < keys.len()
        invariant
            j <= keys@.len(),
            groups@.len() == j,
            all_ok(raw@, names@.len(), source@.len()),
            ranges_ok(raw@, source@.len()),
            forall|a: int, b: int| 0 <= a < b < keys@.len() ==> keys@[a] != keys@[b],
            forall|k: usize| has_name(raw@, k) <==> keys@.contains(k),
            forall|t: int| 0 <= t < j ==> {
                let g = #[trigger] groups@[t];
                &&& g.name_index == keys@[t]
                &&& g.name_index < names@.len()
                &&& g.name@ == names@[g.name_index as int]@
                &&& g.snippets_view() == snippets_for(raw@, source@, g.name_index)
            },
        decreases keys@.len() - j,
    {
        let k = keys[j];
        assert(keys@.contains(k));
        assert(has_name(raw@, k));
        proof {
            let w = choose|w: int| 0 <= w < raw@.len() && (#[trigger] raw@[w]).name_index == k;
            assert(capture_ok(raw@[w], names@.len(), source@.len()));
        }
        let name = names[k].clone();
        let snippets = collect_snippets(raw, source, k);
        groups.push(CaptureGroup { name_index: k, name, snippets });
        j = j + 1;
    }
    let set = CaptureSet { groups };
    assert(set.keys() =~= keys@);
    Ok(set)
}

/// The grouping of a file's captures is determined by the captures and the
/// source: two capture sets that both group the same captures hold the same
/// snippets under each name index, whatever strings label the names.
pub proof fn lemma_grouping_is_determined(
    a: CaptureSet,
    b: CaptureSet,
    raw: Seq<RawCapture>,
    source: Seq<u8>,
    names_a: Seq<String>,
    names_b: Seq<String>,
)
    requires
        a.is_grouping_of(raw, source, names_a),
        b.is_grouping_of(raw, source, names_b),
    ensures
        a.snippet_map() == b.snippet_map(),
{
    assert forall|k: usize| #[trigger] a.snippet_map().contains_key(k) implies a.snippet_map()[k]
        == snippets_for(raw, source, k) by {
        let i = a.keys().index_of(k);
        assert(a.keys()[i] == a.groups@[i].name_index);
    }
    assert forall|k: usize| #[trigger] b.snippet_map().contains_key(k) implies b.snippet_map()[k]
        == snippets_for(raw, source, k) by {
        let i = b.keys().index_of(k);
        assert(b.keys()[i] == b.groups@[i].name_index);
    }
    assert forall|k: usize| a.snippet_map().contains_key(k) <==> #[trigger] b.snippet_map().contains_key(
        k,
    ) by {
        assert(has_name(raw, k) <==> a.keys().contains(k));
        assert(has_name(raw, k) <==> b.keys().contains(k));
    }
    assert forall|k: usize| #[trigger] a.snippet_map().contains_key(k) implies a.snippet_map()[k]
        == b.snippet_map()[k] by {
        assert(b.snippet_map().contains_key(k));
    }
    assert(a.snippet_map().dom() =~= b.snippet_map().dom());
    assert(a.snippet_map() =~= b.snippet_map());
}

} // verus!
