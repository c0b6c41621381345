//! Attention masks: which keys a query may attend to.
use super::config::Gemma4LayerType;
use vstd::arithmetic::div_mod::lemma_fundamental_div_mod_converse;
use vstd::prelude::*;

verus! {

/// A mask over the keys of a chunk of queries, row by row: a query's row holds a cell per key.
#[derive(Debug)]
pub struct AttentionMask {
    /// The number of queries.
    pub chunk_len: usize,
    /// The number of keys.
    pub key_len: usize,
    /// Whether each query sees each key.
    pub visible: Vec<bool>,
}

/// The masks of a forward pass, one per attention kind; none where nothing is hidden.
#[derive(Debug)]
pub struct Gemma4Masks {
    pub full: Option<AttentionMask>,
    pub sliding: Option<AttentionMask>,
}

/// Whether the query at a position sees the key at a position: the key is not later, and within
/// the window where there is one.
pub open spec fn sees(query: nat, key: nat, window: Option<usize>) -> bool {
    key <= query && (window matches Some(width) ==> query - key < width)
}

/// The cells of the mask of `chunk_len` queries from position `offset` on, over `key_len` keys
/// from position `key_start` on.
pub open spec fn mask_cells(
    offset: nat,
    chunk_len: nat,
    key_start: nat,
    key_len: nat,
    window: Option<usize>,
) -> Seq<bool> {
    Seq::new(
        chunk_len * key_len,
        |cell: int|
            sees(
                offset + (cell as nat) / key_len,
                key_start + (cell as nat) % key_len,
                window,
            ),
    )
}

impl AttentionMask {
    /// Whether the mask is that of the given queries and keys.
    pub open spec fn covers(
        self,
        offset: nat,
        chunk_len: nat,
        key_start: nat,
        key_len: nat,
        window: Option<usize>,
    ) -> bool {
        &&& self.chunk_len == chunk_len
        &&& self.key_len == key_len
        &&& self.visible@ == mask_cells(offset, chunk_len, key_start, key_len, window)
    }
}

/// Builds the mask of `chunk_len` queries from position `offset` on, over `key_len` keys from
/// position `key_start` on.
pub fn attention_mask_for_keys(
    offset: usize,
    chunk_len: usize,
    key_start: usize,
    key_len: usize,
    sliding_window: Option<usize>,
) -> (mask: AttentionMask)
    requires
        offset + chunk_len <= usize::MAX,
        key_start + key_len <= usize::MAX,
        chunk_len * key_len <= usize::MAX,
    ensures
        mask.covers(
            offset as nat,
            chunk_len as nat,
            key_start as nat,
            key_len as nat,
            sliding_window,
        ),
{
    let ghost cells = mask_cells(
        offset as nat,
        chunk_len as nat,
        key_start as nat,
        key_len as nat,
        sliding_window,
    );
    let mut visible: Vec<bool> = Vec::new();
    let mut i: usize = 0;
    while i < chunk_len
        invariant
            i <= chunk_len,
            offset + chunk_len <= usize::MAX,
            key_start + key_len <= usize::MAX,
            cells == mask_cells(
                offset as nat,
                chunk_len as nat,
                key_start as nat,
                key_len as nat,
                sliding_window,
            ),
            visible@.len() == i * key_len,
            visible@ == cells.take(i * key_len),
            i * key_len <= chunk_len * key_len,
        decreases chunk_len - i,
    {
        let query: usize = offset + i;
        let mut j: usize = 0;
        proof {
            vstd::arithmetic::mul::lemma_mul_inequality(
                (i + 1) as int,
                chunk_len as int,
                key_len as int,
            );
            assert((i + 1) * key_len == i * key_len + key_len) by (nonlinear_arith);
        }
        while j < key_len
            invariant
                i < chunk_len,
                j <= key_len,
                query == offset + i,
                key_start + key_len <= usize::MAX,
                cells == mask_cells(
                    offset as nat,
                    chunk_len as nat,
                    key_start as nat,
                    key_len as nat,
                    sliding_window,
                ),
                visible@.len() == i * key_len + j,
                visible@ == cells.take(i * key_len + j),
                i * key_len + key_len <= chunk_len * key_len,
            decreases key_len - j,
        {
            let key: usize = key_start + j;
            let causal: bool = key <= query;
            let in_window: bool = match sliding_window {
                None => true,
                Some(width) => if key <= query {
                    query - key < width
                } else {
                    0 < width
                },
            };
            proof {
                let cell = i * key_len + j;
                lemma_fundamental_div_mod_converse(cell, key_len as int, i as int, j as int);
                assert(cells[cell] == sees(query as nat, key as nat, sliding_window));
                assert(cells.take(cell + 1) =~= cells.take(cell).push(cells[cell]));
            }
            visible.push(causal && in_window);
            j = j + 1;
        }
        i = i + 1;
    }
    assert(cells.take(chunk_len * key_len) =~= cells);
    AttentionMask { chunk_len, key_len, visible }
}

/// Builds the mask of `chunk_len` queries from position `offset` on, over all keys from the
/// start.
pub fn attention_mask_at(
    offset: usize,
    chunk_len: usize,
    total_keys: usize,
    sliding_window: Option<usize>,
) -> (mask: AttentionMask)
    requires
        offset + chunk_len <= usize::MAX,
        chunk_len * total_keys <= usize::MAX,
    ensures
        mask.covers(offset as nat, chunk_len as nat, 0, total_keys as nat, sliding_window),
{
    attention_mask_for_keys(offset, chunk_len, 0, total_keys, sliding_window)
}

/// Whether a mask is left out exactly when asked, and else is that of all keys so far.
pub open spec fn mask_or_none(
    mask: Option<AttentionMask>,
    left_out: bool,
    offset: nat,
    chunk_len: nat,
    window: Option<usize>,
) -> bool {
    match mask {
        None => left_out,
        Some(mask) => !left_out && mask.covers(offset, chunk_len, 0, offset + chunk_len, window),
    }
}

/// Builds the masks of an uncached pass over `chunk_len` queries from position `offset` on. A
/// single query needs none, nor does it under the window while all keys are within.
pub fn masks_at(offset: usize, chunk_len: usize, sliding_window: usize) -> (masks: Gemma4Masks)
    requires
        offset + chunk_len <= usize::MAX,
        chunk_len * (offset + chunk_len) <= usize::MAX,
    ensures
        mask_or_none(masks.full, chunk_len == 1, offset as nat, chunk_len as nat, None),
        mask_or_none(
            masks.sliding,
            chunk_len == 1 && offset + chunk_len <= sliding_window,
            offset as nat,
            chunk_len as nat,
            Some(sliding_window),
        ),
{
    let total: usize = offset + chunk_len;
    let full = if chunk_len == 1 {
        None
    } else {
        Some(attention_mask_at(offset, chunk_len, total, None))
    };
    let sliding = if chunk_len == 1 && total <= sliding_window {
        None
    } else {
        Some(attention_mask_at(offset, chunk_len, total, Some(sliding_window)))
    };
    Gemma4Masks { full, sliding }
}

/// Builds the masks of a cached pass: sliding layers build their own, over what their cache
/// retains.
pub fn merged_masks_at(offset: usize, chunk_len: usize) -> (masks: Gemma4Masks)
    requires
        offset + chunk_len <= usize::MAX,
        chunk_len * (offset + chunk_len) <= usize::MAX,
    ensures
        mask_or_none(masks.full, chunk_len == 1, offset as nat, chunk_len as nat, None),
        masks.sliding is None,
{
    let total: usize = offset + chunk_len;
    let full = if chunk_len == 1 {
        None
    } else {
        Some(attention_mask_at(offset, chunk_len, total, None))
    };
    Gemma4Masks { full, sliding: None }
}

impl Gemma4Masks {
    /// The mask of an attention kind.
    pub open spec fn of(self, kind: Gemma4LayerType) -> Option<AttentionMask> {
        match kind {
            Gemma4LayerType::FullAttention => self.full,
            Gemma4LayerType::SlidingAttention => self.sliding,
        }
    }

    /// The mask of an attention kind.
    pub fn get(&self, kind: Gemma4LayerType) -> (mask: Option<&AttentionMask>)
        ensures
            match mask {
                Some(mask) => self.of(kind) == Some(*mask),
                None => self.of(kind) is None,
            },
    {
        match kind {
            Gemma4LayerType::FullAttention => self.full.as_ref(),
            Gemma4LayerType::SlidingAttention => self.sliding.as_ref(),
        }
    }
}

/// A mask has a row of cells per query. The cell of a query and a key is open exactly when the
/// key's position is not behind the query's and, under a window, less than the window before it.
pub proof fn law_cells_of_a_mask(
    mask: AttentionMask,
    offset: nat,
    chunk_len: nat,
    key_start: nat,
    key_len: nat,
    window: Option<usize>,
    query: int,
    key: int,
)
    requires
        mask.covers(offset, chunk_len, key_start, key_len, window),
        0 <= query < chunk_len,
        0 <= key < key_len,
    ensures
        mask.chunk_len == chunk_len,
        mask.key_len == key_len,
        mask.visible@.len() == chunk_len * key_len,
        0 <= query * key_len + key < chunk_len * key_len,
        mask.visible@[query * key_len + key] <==> key_start + key <= offset + query && (window is Some
            ==> offset + query < key_start + key + window->0),
{
    let cell = query * key_len + key;
    vstd::arithmetic::mul::lemma_mul_inequality(query + 1, chunk_len as int, key_len as int);
    vstd::arithmetic::mul::lemma_mul_is_distributive_add_other_way(key_len as int, query, 1);
    vstd::arithmetic::mul::lemma_mul_nonnegative(query, key_len as int);
    lemma_fundamental_div_mod_converse(cell, key_len as int, query, key);
}

/// A mask that may be left out is left out exactly when it is asked to, and else has a row per
/// query over all keys from the start to the last query.
pub proof fn law_masks_reach_the_last_query(
    mask: Option<AttentionMask>,
    left_out: bool,
    offset: nat,
    chunk_len: nat,
    window: Option<usize>,
    query: int,
    key: int,
)
    requires
        mask_or_none(mask, left_out, offset, chunk_len, window),
        0 <= query < chunk_len,
        0 <= key < offset + chunk_len,
    ensures
        mask is None <==> left_out,
        mask matches Some(mask) ==> {
            &&& mask.chunk_len == chunk_len
            &&& mask.key_len == offset + chunk_len
            &&& mask.visible@[query * (offset + chunk_len) + key] <==> key <= offset + query && (
            window is Some ==> offset + query < key + window->0)
        },
{
    if let Some(mask) = mask {
        law_cells_of_a_mask(mask, offset, chunk_len, 0, offset + chunk_len, window, query, key);
    }
}

/// A mask lookup gives each attention kind its own mask.
pub proof fn law_kinds_have_their_own_masks(masks: Gemma4Masks)
    ensures
        masks.of(Gemma4LayerType::FullAttention) == masks.full,
        masks.of(Gemma4LayerType::SlidingAttention) == masks.sliding,
{
}

/// A mask that an uncached pass leaves out would hide no key from its query.
pub proof fn law_omitted_masks_hide_nothing(offset: nat, key: nat, window: usize)
    requires
        key < offset + 1,
    ensures
        sees(offset, key, None),
        offset + 1 <= window ==> sees(offset, key, Some(window)),
{
}

/// Every query sees at least itself, so that no softmax runs over nothing, and a wider window
/// never hides a key.
pub proof fn law_queries_see_themselves(query: nat, key: nat, narrow: usize, wide: usize)
    requires
        0 < narrow <= wide,
    ensures
        sees(query, query, None),
        sees(query, query, Some(narrow)),
        sees(query, key, Some(narrow)) ==> sees(query, key, Some(wide)) && sees(query, key, None),
{
}

} // verus!
