use vstd::prelude::*;

use crate::json::{Json, JsonNumber};
use crate::text::{
    lemma_split_on_pieces, lemma_split_on_whole, lemma_trim_idempotent,
    lemma_trim_shape, split_on, split_str, strings_view, trim, trim_str,
};

verus! {

/// Result of a remember or memorize call (server shape).
#[derive(Debug, Clone, Default, PartialEq)]
pub struct RememberResult {
    pub memory_id: Option<String>,
    pub namespace: Option<String>,
    /// False when the write was absorbed by a near-duplicate (never billed).
    pub stored: Option<bool>,
    /// Present and true only on a dedup absorb.
    pub deduplicated: Option<bool>,
    /// The id of the existing memory that absorbed this write.
    pub deduped_against: Option<String>,
    pub total_memories: Option<i64>,
}

/// A namespace with its logical memory count and chunk row count.
#[derive(Debug, Clone, Default, PartialEq)]
pub struct NamespaceInfo {
    pub namespace: String,
    pub memories: Option<i64>,
    pub chunks: Option<i64>,
}

/// One file for a multipart `ingest_files` upload.
#[derive(Debug, Clone, PartialEq)]
pub struct IngestFile {
    pub name: String,
    pub content: Vec<u8>,
}

/// Machine-readable error inside an [`OpResult`].
#[derive(Debug, Clone, Default, PartialEq)]
pub struct OpError {
    pub code: String,
    pub message: String,
    pub capability: Option<String>,
}

/// The native OpResult envelope (execute and stats).
#[derive(Debug, Clone, PartialEq)]
pub struct OpResult {
    pub ok: bool,
    pub payload: Option<Json>,
    pub error: Option<OpError>,
}

/// Single entry in an execute batch.
#[derive(Debug, Clone, PartialEq)]
pub struct Operation {
    pub op: String,
    pub args: Option<Json>,
    pub select: Option<Vec<String>>,
}

/// One entry passed to remember_batch.
#[derive(Debug, Clone, PartialEq)]
pub struct RememberItem {
    pub text: String,
    pub tags: Option<Vec<String>>,
    pub source: Option<String>,
}

/// Options of a recall. `margin` is carried as the JSON number the request
/// body holds.
#[derive(Debug, Clone, Default)]
pub struct RecallOptions {
    pub namespace: Option<String>,
    pub top_k: Option<u32>,
    pub verbose: Option<bool>,
    /// Token-optimal preset (see the recall docs). Reserved.
    pub golden: Option<bool>,
    /// Hit text rendering: `full | lossless | exact | snippet | meta`.
    pub format: Option<String>,
    /// Window size in characters for `format: "snippet"`.
    pub snippet_chars: Option<u64>,
    /// Trim hits past a similarity cliff.
    pub adaptive: Option<bool>,
    /// Similarity margin used by the adaptive cutoff.
    pub margin: Option<JsonNumber>,
}

#[derive(Debug, Clone, Default)]
pub struct InvestigateOptions {
    pub namespace_hint: Option<String>,
    pub top_k: Option<u32>,
}

#[derive(Debug, Clone, Default)]
pub struct RememberOptions {
    pub namespace: Option<String>,
    pub source: Option<String>,
    /// Always serialized as an array; entries containing commas are split.
    pub tags: Option<Vec<String>>,
}

#[derive(Debug, Clone, Default)]
pub struct ForgetOptions {
    pub namespace: Option<String>,
}

#[derive(Debug, Clone, Default)]
pub struct ListOptions {
    pub namespace: Option<String>,
    /// Semantic search instead of a listing; results carry `score`.
    pub query: Option<String>,
    pub limit: Option<u32>,
}

/// Options of the older `list_recent` call (superseded by [`ListOptions`]).
#[derive(Debug, Clone, Default)]
pub struct ListRecentOptions {
    pub namespace: Option<String>,
    pub n: Option<u32>,
}

#[derive(Debug, Clone, Default)]
pub struct IngestOptions {
    /// Target namespace (default `default`).
    pub namespace: Option<String>,
    /// Extra tag applied to every ingested chunk.
    pub tag_prefix: Option<String>,
}

/// The trimmed, non-empty pieces, in order.
pub open spec fn clean_pieces(pieces: Seq<Seq<char>>) -> Seq<Seq<char>>
    decreases pieces.len(),
{
    if pieces.len() == 0 {
        Seq::empty()
    } else {
        let rest = clean_pieces(pieces.drop_last());
        let t = trim(pieces.last());
        if t.len() > 0 {
            rest.push(t)
        } else {
            rest
        }
    }
}

/// Tags as the API expects them: every entry split at commas, each piece
/// trimmed, empty pieces dropped, order kept.
pub open spec fn normalized_tags(tags: Seq<Seq<char>>) -> Seq<Seq<char>>
    decreases tags.len(),
{
    if tags.len() == 0 {
        Seq::empty()
    } else {
        normalized_tags(tags.drop_last()) + clean_pieces(split_on(tags.last(), ','))
    }
}

/// Splits comma-joined entries, trims, and drops empties — the API
/// expects tags as an array.
pub fn normalize_tags(tags: &[String]) -> (r: Vec<String>)
    ensures
        strings_view(r@) == normalized_tags(strings_view(tags@)),
{
    let mut out: Vec<String> = Vec::new();
    let mut i: usize = 0;
    proof {
        assert(strings_view(tags@.take(0)) =~= Seq::<Seq<char>>::empty());
        assert(strings_view(out@) =~= Seq::<Seq<char>>::empty());
    }
    while i < tags.len()
        invariant
            i <= tags.len(),
            strings_view(out@) == normalized_tags(strings_view(tags@.take(i as int))),
        decreases tags.len() - i,
    {
        let pieces = split_str(tags[i].as_str(), ',');
        let ghost base = strings_view(out@);
        let ghost all = split_on(tags@[i as int]@, ',');
        let mut j: usize = 0;
        proof {
            assert(strings_view(pieces@).take(0) =~= Seq::<Seq<char>>::empty());
            assert(base + clean_pieces(Seq::empty()) =~= base);
        }
        while j < pieces.len()
            invariant
                j <= pieces.len(),
                strings_view(pieces@) == all,
                strings_view(out@) == base + clean_pieces(all.take(j as int)),
            decreases pieces.len() - j,
        {
            let t = trim_str(pieces[j].as_str());
            proof {
                assert(all.take(j + 1).drop_last() =~= all.take(j as int));
                assert(all.take(j + 1).last() == pieces@[j as int]@);
            }
            let ghost before = strings_view(out@);
            if !t.as_str().is_empty() {
                out.push(t);
                proof {
                    assert(strings_view(out@) =~= before.push(t@));
                    assert(base + clean_pieces(all.take(j + 1)) =~= (base + clean_pieces(
                        all.take(j as int),
                    )).push(t@));
                }
            }
            j = j + 1;
        }
        proof {
            assert(all.take(pieces.len() as int) =~= all);
            let sv = strings_view(tags@.take(i + 1));
            assert(sv.drop_last() =~= strings_view(tags@.take(i as int)));
            assert(sv.last() == tags@[i as int]@);
        }
        i = i + 1;
    }
    proof {
        assert(tags@.take(tags.len() as int) =~= tags@);
    }
    out
}


/// A tag as [`normalize_tags`] emits it: non-empty, trimmed, comma-free.
pub open spec fn is_clean_tag(t: Seq<char>) -> bool {
    &&& t.len() > 0
    &&& trim(t) == t
    &&& forall|j: int| 0 <= j < t.len() ==> t[j] != ','
}

proof fn lemma_clean_pieces_clean(pieces: Seq<Seq<char>>)
    requires
        forall|i: int, j: int| 0 <= i < pieces.len() && 0 <= j < pieces[i].len() ==> pieces[i][j] != ',',
    ensures
        forall|i: int| 0 <= i < clean_pieces(pieces).len() ==> is_clean_tag(#[trigger] clean_pieces(pieces)[i]),
    decreases pieces.len(),
{
    if pieces.len() > 0 {
        let d = pieces.drop_last();
        assert forall|i: int, j: int| 0 <= i < d.len() && 0 <= j < d[i].len() implies d[i][j] != ',' by {
            assert(d[i] == pieces[i]);
        }
        lemma_clean_pieces_clean(d);
        let p = pieces.last();
        let t = trim(p);
        if t.len() > 0 {
            lemma_trim_idempotent(p);
            lemma_trim_shape(p);
            let (a, b) = choose|a: int, b: int| 0 <= a <= b <= p.len() && t == p.subrange(a, b);
            assert forall|j: int| 0 <= j < t.len() implies t[j] != ',' by {
                assert(t[j] == p[a + j]);
                assert(p == pieces[pieces.len() - 1]);
            }
            assert(is_clean_tag(t));
            let rest = clean_pieces(d);
            assert forall|i: int| 0 <= i < rest.push(t).len() implies is_clean_tag(#[trigger] rest.push(t)[i]) by {
                if i < rest.len() {
                    assert(rest.push(t)[i] == rest[i]);
                }
            }
        }
    }
}

/// Every tag that [`normalize_tags`] emits is clean.
pub proof fn lemma_normalized_tags_clean(tags: Seq<Seq<char>>)
    ensures
        forall|i: int| 0 <= i < normalized_tags(tags).len() ==> is_clean_tag(#[trigger] normalized_tags(tags)[i]),
    decreases tags.len(),
{
    if tags.len() > 0 {
        lemma_normalized_tags_clean(tags.drop_last());
        let pieces = split_on(tags.last(), ',');
        lemma_split_on_pieces(tags.last(), ',');
        lemma_clean_pieces_clean(pieces);
        let a = normalized_tags(tags.drop_last());
        let b = clean_pieces(pieces);
        assert forall|i: int| 0 <= i < (a + b).len() implies is_clean_tag(#[trigger] (a + b)[i]) by {
            if i < a.len() {
                assert((a + b)[i] == a[i]);
            } else {
                assert((a + b)[i] == b[i - a.len()]);
            }
        }
    }
}

/// Normalizing already-clean tags changes nothing.
pub proof fn lemma_normalized_tags_of_clean(w: Seq<Seq<char>>)
    requires
        forall|i: int| 0 <= i < w.len() ==> is_clean_tag(#[trigger] w[i]),
    ensures
        normalized_tags(w) == w,
    decreases w.len(),
{
    if w.len() > 0 {
        let d = w.drop_last();
        assert forall|i: int| 0 <= i < d.len() implies is_clean_tag(#[trigger] d[i]) by {
            assert(d[i] == w[i]);
        }
        lemma_normalized_tags_of_clean(d);
        let e = w.last();
        assert(is_clean_tag(w[w.len() - 1]));
        lemma_split_on_whole(e, ',');
        let one = seq![e];
        assert(one.drop_last() =~= Seq::<Seq<char>>::empty());
        assert(one.last() == e);
        assert(trim(e) == e);
        assert(clean_pieces(one.drop_last()) =~= Seq::<Seq<char>>::empty());
        assert(clean_pieces(one) == clean_pieces(one.drop_last()).push(trim(one.last())));
        assert(clean_pieces(one) =~= one);
        assert(d + seq![e] =~= w);
    }
}

/// Normalizing tags twice gives what normalizing once gives.
pub proof fn law_normalize_tags_idempotent(tags: Seq<Seq<char>>)
    ensures
        normalized_tags(normalized_tags(tags)) == normalized_tags(tags),
{
    lemma_normalized_tags_clean(tags);
    lemma_normalized_tags_of_clean(normalized_tags(tags));
}

} // verus!
