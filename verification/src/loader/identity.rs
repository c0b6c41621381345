//! The identity of a policy: a digest of everything that makes two loads of a checkpoint the same
//! policy, and of nothing else.
use super::options::{LoaderError, LoaderOpts};
use crate::frames::{framed, push_bytes, push_frame};
use crate::json::{encode_record, JsonScalar, JsonTree};
use crate::sha256::sha256_digest;
use crate::text::{hex, little_endian, little_endian_u64};
use vstd::prelude::*;
use vstd::utf8::encode_utf8;

verus! {

/// A shard that belongs to an identity.
#[derive(Debug)]
pub struct ShardIdentity {
    pub name: String,
    pub len: u64,
    pub digest: [u8; 32],
}

/// A shard that belongs to an identity, over mathematical sequences.
#[verifier::ext_equal]
pub struct ShardView {
    pub name: Seq<char>,
    pub len: u64,
    pub digest: Seq<u8>,
}

impl View for ShardIdentity {
    type V = ShardView;

    open spec fn view(&self) -> ShardView {
        ShardView { name: self.name@, len: self.len, digest: self.digest@ }
    }
}

/// The contents of a list of shards.
pub open spec fn shard_views(shards: Seq<ShardIdentity>) -> Seq<ShardView> {
    shards.map_values(|shard: ShardIdentity| shard@)
}

/// The contents of a weight map.
pub open spec fn map_views(weight_map: Seq<(String, String)>) -> Seq<(Seq<char>, Seq<char>)> {
    weight_map.map_values(|entry: (String, String)| (entry.0@, entry.1@))
}

/// The options that belong to an identity. The seed, the temperature and the rank do not: they
/// make no other policy.
pub open spec fn recipe_fields(opts: LoaderOpts, layout: Seq<char>) -> Seq<(Seq<char>, JsonTree)> {
    seq![
        ("lora_rank"@, JsonTree::Number(Some(opts.lora_rank as u64))),
        ("lora_alpha_bits"@, JsonTree::Number(Some(opts.lora_alpha.bits))),
        ("base_dtype"@, JsonTree::Text(opts.base_dtype.lower_name())),
        ("adapter_dtype"@, JsonTree::Text(opts.adapter_dtype.lower_name())),
        ("memory_efficient_cached_gqa"@, JsonTree::Bool(opts.memory_efficient_cached_gqa)),
        ("base_quantization"@, JsonTree::Text(opts.base_quantization.name())),
        ("activation_checkpointing"@, JsonTree::Bool(opts.activation_checkpointing)),
        (
            "tensor_parallel_world_size"@,
            JsonTree::Number(Some(opts.tensor_parallel.of_world() as u64)),
        ),
        ("tensor_parallel_layout"@, JsonTree::Text(layout)),
    ]
}

/// The options that belong to an identity, as bytes.
pub open spec fn encoded_recipe(opts: LoaderOpts, layout: Seq<char>) -> Seq<u8> {
    crate::json::json_encoding(recipe_fields(opts, layout))
}

/// The names of the options that belong to an identity differ.
proof fn lemma_recipe_keys(opts: LoaderOpts, layout: Seq<char>)
    ensures
        crate::json::keys_distinct(recipe_fields(opts, layout)),
{
    reveal_strlit("lora_rank");
    reveal_strlit("lora_alpha_bits");
    reveal_strlit("base_dtype");
    reveal_strlit("adapter_dtype");
    reveal_strlit("memory_efficient_cached_gqa");
    reveal_strlit("base_quantization");
    reveal_strlit("activation_checkpointing");
    reveal_strlit("tensor_parallel_world_size");
    reveal_strlit("tensor_parallel_layout");
    let fields = recipe_fields(opts, layout);
    assert forall|i: int, j: int| 0 <= i < j < fields.len() implies (#[trigger] fields[i]).0 != (
    #[trigger] fields[j]).0 by {
        assert(fields[i].0.len() != fields[j].0.len());
    }
}

/// Encodes the options that belong to an identity, in a form that they can be read back from.
pub fn encode_recipe(opts: &LoaderOpts, layout: &str) -> (recipe: Result<
    Vec<u8>,
    serde_json::Error,
>)
    ensures
        recipe matches Ok(bytes) && bytes@ == encoded_recipe(*opts, layout@) && crate::json::reads_back(bytes@, recipe_fields(*opts, layout@)),
{
    let mut fields: Vec<(String, JsonScalar)> = Vec::new();
    fields.push(("lora_rank".to_owned(), JsonScalar::Number(opts.lora_rank as u64)));
    fields.push(("lora_alpha_bits".to_owned(), JsonScalar::Number(opts.lora_alpha.bits)));
    fields.push(
        ("base_dtype".to_owned(), JsonScalar::Text(opts.base_dtype.as_str().to_owned())),
    );
    fields.push(
        ("adapter_dtype".to_owned(), JsonScalar::Text(opts.adapter_dtype.as_str().to_owned())),
    );
    fields.push(
        (
            "memory_efficient_cached_gqa".to_owned(),
            JsonScalar::Flag(opts.memory_efficient_cached_gqa),
        ),
    );
    fields.push(
        (
            "base_quantization".to_owned(),
            JsonScalar::Text(opts.base_quantization.as_str().to_owned()),
        ),
    );
    fields.push(
        ("activation_checkpointing".to_owned(), JsonScalar::Flag(opts.activation_checkpointing)),
    );
    fields.push(
        (
            "tensor_parallel_world_size".to_owned(),
            JsonScalar::Number(opts.tensor_parallel.world_size() as u64),
        ),
    );
    fields.push(("tensor_parallel_layout".to_owned(), JsonScalar::Text(layout.to_owned())));
    assert(crate::json::record_fields(fields@) =~= recipe_fields(*opts, layout@));
    proof {
        lemma_recipe_keys(*opts, layout@);
    }
    encode_record(&fields)
}

/// A text with its length in front.
pub open spec fn framed_text(text: Seq<char>) -> Seq<u8> {
    framed(encode_utf8(text), 8)
}

/// The entries of a weight map, one after the other.
pub open spec fn map_bytes(weight_map: Seq<(Seq<char>, Seq<char>)>) -> Seq<u8>
    decreases weight_map.len(),
{
    if weight_map.len() == 0 {
        Seq::empty()
    } else {
        framed_text(weight_map[0].0) + framed_text(weight_map[0].1) + map_bytes(weight_map.skip(1))
    }
}

/// The shards of an identity, one after the other, each behind a marker.
pub open spec fn shard_bytes(shards: Seq<ShardView>) -> Seq<u8>
    decreases shards.len(),
{
    if shards.len() == 0 {
        Seq::empty()
    } else {
        framed_text("selected-shard"@) + framed_text(shards[0].name) + little_endian(
            shards[0].len as nat,
            8,
        ) + shards[0].digest + shard_bytes(shards.skip(1))
    }
}

/// What an identity is taken of: the options, the config, which shard each selected tensor is
/// in, and the shards themselves. The path of the checkpoint is not part of it.
pub open spec fn identity_bytes(
    recipe: Seq<u8>,
    config: Seq<u8>,
    weight_map: Seq<(Seq<char>, Seq<char>)>,
    shards: Seq<ShardView>,
) -> Seq<u8> {
    framed_text("ferrl.checkpoint-policy.v2"@) + framed(recipe, 8) + framed_text("config.json"@)
        + framed(config, 8) + framed_text("selected-weight-map"@) + map_bytes(weight_map)
        + shard_bytes(shards)
}

/// Appends the entries of a weight map.
fn push_map(buffer: &mut Vec<u8>, weight_map: &Vec<(String, String)>)
    ensures
        final(buffer)@ == old(buffer)@ + map_bytes(map_views(weight_map@)),
{
    let ghost head = buffer@;
    let ghost all = map_views(weight_map@);
    let mut done: usize = 0;
    assert(all.skip(0) =~= all);
    while done < weight_map.len()
        invariant
            done <= weight_map@.len(),
            all == map_views(weight_map@),
            buffer@ + map_bytes(all.skip(done as int)) == head + map_bytes(all),
        decreases weight_map@.len() - done,
    {
        let ghost now = buffer@;
        push_frame(buffer, weight_map[done].0.as_str().as_bytes());
        push_frame(buffer, weight_map[done].1.as_str().as_bytes());
        proof {
            let rest = all.skip(done as int);
            assert(rest[0] == (weight_map@[done as int].0@, weight_map@[done as int].1@));
            assert(rest.skip(1) =~= all.skip(done + 1));
            assert(buffer@ + map_bytes(rest.skip(1)) =~= now + map_bytes(rest));
        }
        done = done + 1;
    }
    assert(buffer@ =~= head + map_bytes(all));
}

/// Appends the shards of an identity.
fn push_shards(buffer: &mut Vec<u8>, shards: &Vec<ShardIdentity>)
    ensures
        final(buffer)@ == old(buffer)@ + shard_bytes(shard_views(shards@)),
{
    let ghost head = buffer@;
    let ghost all = shard_views(shards@);
    let mut done: usize = 0;
    assert(all.skip(0) =~= all);
    while done < shards.len()
        invariant
            done <= shards@.len(),
            all == shard_views(shards@),
            buffer@ + shard_bytes(all.skip(done as int)) == head + shard_bytes(all),
        decreases shards@.len() - done,
    {
        let ghost now = buffer@;
        push_frame(buffer, "selected-shard".as_bytes());
        push_frame(buffer, shards[done].name.as_str().as_bytes());
        push_bytes(buffer, &little_endian_u64(shards[done].len));
        push_bytes(buffer, &shards[done].digest);
        proof {
            let rest = all.skip(done as int);
            assert(rest[0] == shards@[done as int]@);
            assert(rest.skip(1) =~= all.skip(done + 1));
            assert(buffer@ + shard_bytes(rest.skip(1)) =~= now + shard_bytes(rest));
        }
        done = done + 1;
    }
    assert(buffer@ =~= head + shard_bytes(all));
}

/// Lays out what an identity is taken of.
pub fn identity_preimage(
    recipe: &Vec<u8>,
    config: &Vec<u8>,
    weight_map: &Vec<(String, String)>,
    shards: &Vec<ShardIdentity>,
) -> (bytes: Vec<u8>)
    ensures
        bytes@ == identity_bytes(recipe@, config@, map_views(weight_map@), shard_views(shards@)),
{
    let mut buffer: Vec<u8> = Vec::new();
    push_frame(&mut buffer, "ferrl.checkpoint-policy.v2".as_bytes());
    push_frame(&mut buffer, recipe);
    push_frame(&mut buffer, "config.json".as_bytes());
    push_frame(&mut buffer, config);
    push_frame(&mut buffer, "selected-weight-map".as_bytes());
    push_map(&mut buffer, weight_map);
    push_shards(&mut buffer, shards);
    assert(buffer@ =~= identity_bytes(
        recipe@,
        config@,
        map_views(weight_map@),
        shard_views(shards@),
    ));
    buffer
}

/// The identity of a policy: the hexadecimal digest of what it is taken of.
pub open spec fn identity_text(
    opts: LoaderOpts,
    layout: Seq<char>,
    config: Seq<u8>,
    weight_map: Seq<(Seq<char>, Seq<char>)>,
    shards: Seq<ShardView>,
) -> Seq<char> {
    crate::text::hex_text(
        crate::sha256::sha256(
            identity_bytes(encoded_recipe(opts, layout), config, weight_map, shards),
        ),
    )
}

/// Whether a text is 64 lower-case hexadecimal digits.
pub open spec fn is_digest_text(text: Seq<char>) -> bool {
    &&& text.len() == 64
    &&& forall|i: int| 0 <= i < text.len() ==> crate::text::is_hex_digit(#[trigger] text[i])
}

/// Takes the identity of a policy: the hexadecimal digest of its options, its config, its weight
/// map and its shards. `layout` names the layout that a tensor-parallel checkpoint continues in.
pub fn checkpoint_policy_digest(
    config: &Vec<u8>,
    weight_map: &Vec<(String, String)>,
    shards: &Vec<ShardIdentity>,
    opts: &LoaderOpts,
    layout: &str,
) -> (identity: Result<String, LoaderError>)
    ensures
        identity matches Ok(text) && is_digest_text(text@) && text@ == identity_text(
            *opts,
            layout@,
            config@,
            map_views(weight_map@),
            shard_views(shards@),
        ),
        crate::json::reads_back(
            encoded_recipe(*opts, layout@),
            recipe_fields(*opts, layout@),
        ),
{
    match encode_recipe(opts, layout) {
        Err(source) => Err(LoaderError::Config { path: "config.json".to_owned(), source }),
        Ok(recipe) => {
            let bytes = identity_preimage(&recipe, config, weight_map, shards);
            let digest = sha256_digest(&bytes);
            proof {
                crate::text::lemma_hex_text(digest@);
            }
            Ok(hex(&digest))
        },
    }
}

/// Options that differ only in the seed, the temperature or the rank belong to the same
/// identity: the ranks of a world, and runs that sample differently, load the same policy.
/// Neither does it matter where the checkpoint lies.
pub proof fn law_identity_ignores_seed_temperature_and_rank(
    left: LoaderOpts,
    right: LoaderOpts,
    layout: Seq<char>,
    config: Seq<u8>,
    weight_map: Seq<(Seq<char>, Seq<char>)>,
    shards: Seq<ShardView>,
)
    requires
        left.lora_rank == right.lora_rank,
        left.lora_alpha == right.lora_alpha,
        left.base_dtype == right.base_dtype,
        left.adapter_dtype == right.adapter_dtype,
        left.memory_efficient_cached_gqa == right.memory_efficient_cached_gqa,
        left.base_quantization == right.base_quantization,
        left.activation_checkpointing == right.activation_checkpointing,
        left.tensor_parallel.of_world() == right.tensor_parallel.of_world(),
    ensures
        recipe_fields(left, layout) == recipe_fields(right, layout),
        identity_text(left, layout, config, weight_map, shards) == identity_text(
            right,
            layout,
            config,
            weight_map,
            shards,
        ),
{
}

/// Options that differ in anything else belong to different recipes.
pub proof fn law_recipe_identifies_the_options(
    left: LoaderOpts,
    left_layout: Seq<char>,
    right: LoaderOpts,
    right_layout: Seq<char>,
)
    requires
        recipe_fields(left, left_layout) == recipe_fields(right, right_layout),
    ensures
        left.lora_rank == right.lora_rank,
        left.lora_alpha == right.lora_alpha,
        left.base_dtype == right.base_dtype,
        left.adapter_dtype == right.adapter_dtype,
        left.memory_efficient_cached_gqa == right.memory_efficient_cached_gqa,
        left.base_quantization == right.base_quantization,
        left.activation_checkpointing == right.activation_checkpointing,
        left.tensor_parallel.of_world() == right.tensor_parallel.of_world(),
        left_layout == right_layout,
{
    let (a, b) = (recipe_fields(left, left_layout), recipe_fields(right, right_layout));
    assert(a[0] == b[0]);
    assert(a[1] == b[1]);
    assert(a[2] == b[2]);
    assert(a[3] == b[3]);
    assert(a[4] == b[4]);
    assert(a[5] == b[5]);
    assert(a[6] == b[6]);
    assert(a[7] == b[7]);
    assert(a[8] == b[8]);
    crate::dtype::lemma_lower_names(left.base_dtype, right.base_dtype);
    crate::dtype::lemma_lower_names(left.adapter_dtype, right.adapter_dtype);
    reveal_strlit("none");
    reveal_strlit("q8_0");
    assert("none"@[0] != "q8_0"@[0]);
}

/// Whether lengths fit the eight bytes that hold them, as those of machine words do.
pub open spec fn text_fits(text: Seq<char>) -> bool {
    encode_utf8(text).len() <= u64::MAX
}

/// Whether an entry of a weight map can be laid out and is not mistaken for a shard.
pub open spec fn entry_fits(entry: (Seq<char>, Seq<char>)) -> bool {
    text_fits(entry.0) && text_fits(entry.1) && entry.0 != "selected-shard"@
}

/// Whether a shard can be laid out.
pub open spec fn shard_fits(shard: ShardView) -> bool {
    text_fits(shard.name) && shard.digest.len() == 32
}

proof fn lemma_text_splits(left: Seq<char>, after_left: Seq<u8>, right: Seq<char>, after_right: Seq<u8>)
    requires
        text_fits(left),
        text_fits(right),
        framed_text(left) + after_left == framed_text(right) + after_right,
    ensures
        left == right,
        after_left == after_right,
{
    crate::text::lemma_word_capacities();
    crate::frames::lemma_frame_splits(
        encode_utf8(left),
        after_left,
        encode_utf8(right),
        after_right,
        8,
    );
    vstd::utf8::encode_utf8_decode_utf8(left);
    vstd::utf8::encode_utf8_decode_utf8(right);
}

/// The marker in front of a shard can be laid out.
proof fn lemma_marker_fits()
    ensures
        text_fits("selected-shard"@),
{
    reveal_strlit("selected-shard");
    vstd::utf8::is_ascii_chars_encode_utf8("selected-shard"@);
}

proof fn lemma_shards_split(left: Seq<ShardView>, right: Seq<ShardView>)
    requires
        forall|i: int| 0 <= i < left.len() ==> shard_fits(#[trigger] left[i]),
        forall|i: int| 0 <= i < right.len() ==> shard_fits(#[trigger] right[i]),
        shard_bytes(left) == shard_bytes(right),
    ensures
        left == right,
    decreases left.len(),
{
    let marker = framed_text("selected-shard"@);
    crate::text::lemma_little_endian_len(encode_utf8("selected-shard"@).len(), 8);
    if left.len() == 0 || right.len() == 0 {
        if left.len() > 0 {
            assert(shard_bytes(left).len() >= marker.len() > 0);
        }
        if right.len() > 0 {
            assert(shard_bytes(right).len() >= marker.len() > 0);
        }
        assert(left =~= right);
    } else {
        let (a, b) = (left[0], right[0]);
        let (rest_a, rest_b) = (left.skip(1), right.skip(1));
        let (tail_a, tail_b) = (a.digest + shard_bytes(rest_a), b.digest + shard_bytes(rest_b));
        let (len_a, len_b) = (
            little_endian(a.len as nat, 8) + tail_a,
            little_endian(b.len as nat, 8) + tail_b,
        );
        assert(shard_fits(left[0]) && shard_fits(right[0]));
        assert(shard_bytes(left) =~= marker + (framed_text(a.name) + len_a));
        assert(shard_bytes(right) =~= marker + (framed_text(b.name) + len_b));
        crate::frames::lemma_prefix_cancels(
            marker,
            framed_text(a.name) + len_a,
            framed_text(b.name) + len_b,
        );
        lemma_text_splits(a.name, len_a, b.name, len_b);
        crate::text::lemma_word_capacities();
        crate::frames::lemma_number_splits(a.len as nat, tail_a, b.len as nat, tail_b, 8);
        assert(tail_a.take(32) =~= a.digest);
        assert(tail_b.take(32) =~= b.digest);
        assert(tail_a.skip(32) =~= shard_bytes(rest_a));
        assert(tail_b.skip(32) =~= shard_bytes(rest_b));
        assert forall|i: int| 0 <= i < rest_a.len() implies shard_fits(#[trigger] rest_a[i]) by {
            assert(rest_a[i] == left[i + 1]);
        }
        assert forall|i: int| 0 <= i < rest_b.len() implies shard_fits(#[trigger] rest_b[i]) by {
            assert(rest_b[i] == right[i + 1]);
        }
        lemma_shards_split(rest_a, rest_b);
        assert(a == b);
        assert(left =~= seq![a] + rest_a);
        assert(right =~= seq![b] + rest_b);
    }
}

/// A weight map is told apart from the shards behind it.
proof fn lemma_map_splits(
    left: Seq<(Seq<char>, Seq<char>)>,
    left_shards: Seq<ShardView>,
    right: Seq<(Seq<char>, Seq<char>)>,
    right_shards: Seq<ShardView>,
)
    requires
        forall|i: int| 0 <= i < left.len() ==> entry_fits(#[trigger] left[i]),
        forall|i: int| 0 <= i < right.len() ==> entry_fits(#[trigger] right[i]),
        forall|i: int| 0 <= i < left_shards.len() ==> shard_fits(#[trigger] left_shards[i]),
        forall|i: int| 0 <= i < right_shards.len() ==> shard_fits(#[trigger] right_shards[i]),
        map_bytes(left) + shard_bytes(left_shards) == map_bytes(right) + shard_bytes(right_shards),
    ensures
        left == right,
        left_shards == right_shards,
    decreases left.len() + right.len(),
{
    let (a, b) = (shard_bytes(left_shards), shard_bytes(right_shards));
    if left.len() == 0 && right.len() == 0 {
        assert(map_bytes(left) + a =~= a);
        assert(map_bytes(right) + b =~= b);
        lemma_shards_split(left_shards, right_shards);
        assert(left =~= right);
    } else if left.len() == 0 {
        assert(map_bytes(left) + a =~= a);
        lemma_entry_is_no_shard(right, b, left_shards);
    } else if right.len() == 0 {
        assert(map_bytes(right) + b =~= b);
        lemma_entry_is_no_shard(left, a, right_shards);
    } else {
        let (rest_left, rest_right) = (left.skip(1), right.skip(1));
        let (tail_left, tail_right) = (map_bytes(rest_left) + a, map_bytes(rest_right) + b);
        assert(entry_fits(left[0]) && entry_fits(right[0]));
        assert(map_bytes(left) + a =~= framed_text(left[0].0) + (framed_text(left[0].1)
            + tail_left));
        assert(map_bytes(right) + b =~= framed_text(right[0].0) + (framed_text(right[0].1)
            + tail_right));
        lemma_text_splits(
            left[0].0,
            framed_text(left[0].1) + tail_left,
            right[0].0,
            framed_text(right[0].1) + tail_right,
        );
        lemma_text_splits(left[0].1, tail_left, right[0].1, tail_right);
        assert forall|i: int| 0 <= i < rest_left.len() implies entry_fits(
            #[trigger] rest_left[i],
        ) by {
            assert(rest_left[i] == left[i + 1]);
        }
        assert forall|i: int| 0 <= i < rest_right.len() implies entry_fits(
            #[trigger] rest_right[i],
        ) by {
            assert(rest_right[i] == right[i + 1]);
        }
        lemma_map_splits(rest_left, left_shards, rest_right, right_shards);
        assert(left =~= seq![left[0]] + rest_left);
        assert(right =~= seq![right[0]] + rest_right);
    }
}

/// An entry of a weight map is not the start of a list of shards.
proof fn lemma_entry_is_no_shard(
    weight_map: Seq<(Seq<char>, Seq<char>)>,
    after: Seq<u8>,
    shards: Seq<ShardView>,
)
    requires
        weight_map.len() > 0,
        forall|i: int| 0 <= i < weight_map.len() ==> entry_fits(#[trigger] weight_map[i]),
    ensures
        map_bytes(weight_map) + after != shard_bytes(shards),
{
    let entry = weight_map[0];
    let tail = framed_text(entry.1) + map_bytes(weight_map.skip(1)) + after;
    assert(entry_fits(entry));
    assert(map_bytes(weight_map) + after =~= framed_text(entry.0) + tail);
    crate::text::lemma_little_endian_len(encode_utf8(entry.0).len(), 8);
    if shards.len() > 0 {
        let shard = shards[0];
        let rest = framed_text(shard.name) + little_endian(shard.len as nat, 8) + shard.digest
            + shard_bytes(shards.skip(1));
        assert(shard_bytes(shards) =~= framed_text("selected-shard"@) + rest);
        lemma_marker_fits();
        if map_bytes(weight_map) + after == shard_bytes(shards) {
            lemma_text_splits(entry.0, tail, "selected-shard"@, rest);
        }
    }
}

proof fn lemma_nested(
    a: Seq<u8>,
    b: Seq<u8>,
    c: Seq<u8>,
    d: Seq<u8>,
    e: Seq<u8>,
    f: Seq<u8>,
    g: Seq<u8>,
)
    ensures
        a + b + c + d + e + f + g == a + (b + (c + (d + (e + (f + g))))),
{
    assert(a + b + c + d + e + f + g =~= a + b + c + d + e + (f + g));
    assert(a + b + c + d + e + (f + g) =~= a + b + c + d + (e + (f + g)));
    assert(a + b + c + d + (e + (f + g)) =~= a + b + c + (d + (e + (f + g))));
    assert(a + b + c + (d + (e + (f + g))) =~= a + b + (c + (d + (e + (f + g)))));
    assert(a + b + (c + (d + (e + (f + g)))) =~= a + (b + (c + (d + (e + (f + g))))));
}

/// What an identity is taken of determines the recipe, the config, the weight map and every
/// shard, whatever the names in them, as long as no tensor is called like the marker of a shard:
/// no field can pass for a part of another.
pub proof fn law_identity_is_injective(
    left_recipe: Seq<u8>,
    left_config: Seq<u8>,
    left: Seq<(Seq<char>, Seq<char>)>,
    left_shards: Seq<ShardView>,
    right_recipe: Seq<u8>,
    right_config: Seq<u8>,
    right: Seq<(Seq<char>, Seq<char>)>,
    right_shards: Seq<ShardView>,
)
    requires
        left_recipe.len() <= u64::MAX,
        right_recipe.len() <= u64::MAX,
        left_config.len() <= u64::MAX,
        right_config.len() <= u64::MAX,
        forall|i: int| 0 <= i < left.len() ==> entry_fits(#[trigger] left[i]),
        forall|i: int| 0 <= i < right.len() ==> entry_fits(#[trigger] right[i]),
        forall|i: int| 0 <= i < left_shards.len() ==> shard_fits(#[trigger] left_shards[i]),
        forall|i: int| 0 <= i < right_shards.len() ==> shard_fits(#[trigger] right_shards[i]),
        identity_bytes(left_recipe, left_config, left, left_shards) == identity_bytes(
            right_recipe,
            right_config,
            right,
            right_shards,
        ),
    ensures
        left_recipe == right_recipe,
        left_config == right_config,
        left == right,
        left_shards == right_shards,
{
    let tag = framed_text("ferrl.checkpoint-policy.v2"@);
    let config_tag = framed_text("config.json"@);
    let map_tag = framed_text("selected-weight-map"@);
    let (map_a, map_b) = (
        map_bytes(left) + shard_bytes(left_shards),
        map_bytes(right) + shard_bytes(right_shards),
    );
    let (config_a, config_b) = (
        framed(left_config, 8) + (map_tag + map_a),
        framed(right_config, 8) + (map_tag + map_b),
    );
    let (recipe_a, recipe_b) = (
        framed(left_recipe, 8) + (config_tag + config_a),
        framed(right_recipe, 8) + (config_tag + config_b),
    );
    lemma_nested(
        tag,
        framed(left_recipe, 8),
        config_tag,
        framed(left_config, 8),
        map_tag,
        map_bytes(left),
        shard_bytes(left_shards),
    );
    lemma_nested(
        tag,
        framed(right_recipe, 8),
        config_tag,
        framed(right_config, 8),
        map_tag,
        map_bytes(right),
        shard_bytes(right_shards),
    );
    crate::text::lemma_word_capacities();
    crate::frames::lemma_prefix_cancels(tag, recipe_a, recipe_b);
    crate::frames::lemma_frame_splits(
        left_recipe,
        config_tag + config_a,
        right_recipe,
        config_tag + config_b,
        8,
    );
    crate::frames::lemma_prefix_cancels(config_tag, config_a, config_b);
    crate::frames::lemma_frame_splits(
        left_config,
        map_tag + map_a,
        right_config,
        map_tag + map_b,
        8,
    );
    crate::frames::lemma_prefix_cancels(map_tag, map_a, map_b);
    lemma_map_splits(left, left_shards, right, right_shards);
}

/// Bytes that two sets of options can be read back from determine all of the options that belong
/// to an identity.
pub proof fn law_encoded_recipe_identifies_the_options(
    recipe: Seq<u8>,
    left: LoaderOpts,
    left_layout: Seq<char>,
    right: LoaderOpts,
    right_layout: Seq<char>,
)
    requires
        crate::json::reads_back(recipe, recipe_fields(left, left_layout)),
        crate::json::reads_back(recipe, recipe_fields(right, right_layout)),
    ensures
        recipe_fields(left, left_layout) == recipe_fields(right, right_layout),
{
    let (a, b) = (recipe_fields(left, left_layout), recipe_fields(right, right_layout));
    let tree = crate::json::json_document(recipe)->0;
    lemma_recipe_keys(left, left_layout);
    lemma_recipe_keys(right, right_layout);
    assert forall|at: int| 0 <= at < a.len() implies a[at] == b[at] by {
        crate::json::lemma_entry_value(a, at);
        crate::json::lemma_entry_value(b, at);
        assert(a[at].0 == b[at].0);
        assert(tree.field(a[at].0) == crate::json::entry_value(a, a[at].0));
        assert(tree.field(b[at].0) == crate::json::entry_value(b, b[at].0));
    }
    assert(a =~= b);
}

/// What the identity of a policy is taken of determines the policy: the options that make it,
/// its config, which shard each selected tensor is in, and every shard.
pub proof fn law_identity_determines_the_policy(
    left_opts: LoaderOpts,
    left_layout: Seq<char>,
    left_config: Seq<u8>,
    left: Seq<(Seq<char>, Seq<char>)>,
    left_shards: Seq<ShardView>,
    right_opts: LoaderOpts,
    right_layout: Seq<char>,
    right_config: Seq<u8>,
    right: Seq<(Seq<char>, Seq<char>)>,
    right_shards: Seq<ShardView>,
)
    requires
        encoded_recipe(left_opts, left_layout).len() <= u64::MAX,
        encoded_recipe(right_opts, right_layout).len() <= u64::MAX,
        crate::json::reads_back(
            encoded_recipe(left_opts, left_layout),
            recipe_fields(left_opts, left_layout),
        ),
        crate::json::reads_back(
            encoded_recipe(right_opts, right_layout),
            recipe_fields(right_opts, right_layout),
        ),
        left_config.len() <= u64::MAX,
        right_config.len() <= u64::MAX,
        forall|i: int| 0 <= i < left.len() ==> entry_fits(#[trigger] left[i]),
        forall|i: int| 0 <= i < right.len() ==> entry_fits(#[trigger] right[i]),
        forall|i: int| 0 <= i < left_shards.len() ==> shard_fits(#[trigger] left_shards[i]),
        forall|i: int| 0 <= i < right_shards.len() ==> shard_fits(#[trigger] right_shards[i]),
        identity_bytes(encoded_recipe(left_opts, left_layout), left_config, left, left_shards)
            == identity_bytes(
            encoded_recipe(right_opts, right_layout),
            right_config,
            right,
            right_shards,
        ),
    ensures
        left_opts.lora_rank == right_opts.lora_rank,
        left_opts.lora_alpha == right_opts.lora_alpha,
        left_opts.base_dtype == right_opts.base_dtype,
        left_opts.adapter_dtype == right_opts.adapter_dtype,
        left_opts.memory_efficient_cached_gqa == right_opts.memory_efficient_cached_gqa,
        left_opts.base_quantization == right_opts.base_quantization,
        left_opts.activation_checkpointing == right_opts.activation_checkpointing,
        left_opts.tensor_parallel.of_world() == right_opts.tensor_parallel.of_world(),
        left_layout == right_layout,
        left_config == right_config,
        left == right,
        left_shards == right_shards,
{
    law_identity_is_injective(
        encoded_recipe(left_opts, left_layout),
        left_config,
        left,
        left_shards,
        encoded_recipe(right_opts, right_layout),
        right_config,
        right,
        right_shards,
    );
    law_encoded_recipe_identifies_the_options(
        encoded_recipe(left_opts, left_layout),
        left_opts,
        left_layout,
        right_opts,
        right_layout,
    );
    law_recipe_identifies_the_options(left_opts, left_layout, right_opts, right_layout);
}

/// Whether two byte strings have the same digest though they differ.
pub open spec fn collide(left: Seq<u8>, right: Seq<u8>) -> bool {
    left != right && crate::sha256::sha256(left) == crate::sha256::sha256(right)
}

/// Policies of the same identity are the same, or a collision of the digest is at hand: what the
/// two identities are taken of differs and has the same digest.
pub proof fn law_different_policies_have_different_identities(
    left_opts: LoaderOpts,
    left_layout: Seq<char>,
    left_config: Seq<u8>,
    left: Seq<(Seq<char>, Seq<char>)>,
    left_shards: Seq<ShardView>,
    right_opts: LoaderOpts,
    right_layout: Seq<char>,
    right_config: Seq<u8>,
    right: Seq<(Seq<char>, Seq<char>)>,
    right_shards: Seq<ShardView>,
)
    requires
        encoded_recipe(left_opts, left_layout).len() <= u64::MAX,
        encoded_recipe(right_opts, right_layout).len() <= u64::MAX,
        crate::json::reads_back(
            encoded_recipe(left_opts, left_layout),
            recipe_fields(left_opts, left_layout),
        ),
        crate::json::reads_back(
            encoded_recipe(right_opts, right_layout),
            recipe_fields(right_opts, right_layout),
        ),
        left_config.len() <= u64::MAX,
        right_config.len() <= u64::MAX,
        forall|i: int| 0 <= i < left.len() ==> entry_fits(#[trigger] left[i]),
        forall|i: int| 0 <= i < right.len() ==> entry_fits(#[trigger] right[i]),
        forall|i: int| 0 <= i < left_shards.len() ==> shard_fits(#[trigger] left_shards[i]),
        forall|i: int| 0 <= i < right_shards.len() ==> shard_fits(#[trigger] right_shards[i]),
        identity_text(left_opts, left_layout, left_config, left, left_shards) == identity_text(
            right_opts,
            right_layout,
            right_config,
            right,
            right_shards,
        ),
    ensures
        collide(
            identity_bytes(encoded_recipe(left_opts, left_layout), left_config, left, left_shards),
            identity_bytes(
                encoded_recipe(right_opts, right_layout),
                right_config,
                right,
                right_shards,
            ),
        ) || {
            &&& recipe_fields(left_opts, left_layout) == recipe_fields(right_opts, right_layout)
            &&& left_config == right_config
            &&& left == right
            &&& left_shards == right_shards
        },
{
    let a = identity_bytes(encoded_recipe(left_opts, left_layout), left_config, left, left_shards);
    let b = identity_bytes(
        encoded_recipe(right_opts, right_layout),
        right_config,
        right,
        right_shards,
    );
    crate::text::lemma_hex_text(crate::sha256::sha256(a));
    assert(crate::text::hex_text(crate::sha256::sha256(b)) == crate::text::hex_text(
        crate::sha256::sha256(a),
    ));
    if a == b {
        law_identity_determines_the_policy(
            left_opts,
            left_layout,
            left_config,
            left,
            left_shards,
            right_opts,
            right_layout,
            right_config,
            right,
            right_shards,
        );
        assert(recipe_fields(left_opts, left_layout) =~= recipe_fields(right_opts, right_layout));
    }
}

/// What an identity is taken of, part by part: the version, the options, the config, the entries of
/// the weight map in their order, and the shards in theirs. An entry is its tensor and its shard; a
/// shard stands behind a marker, as its name, its length in eight bytes, the lowest first, and its
/// digest.
pub proof fn law_identity_layout(
    recipe: Seq<u8>,
    config: Seq<u8>,
    weight_map: Seq<(Seq<char>, Seq<char>)>,
    entry: (Seq<char>, Seq<char>),
    shards: Seq<ShardView>,
    shard: ShardView,
)
    ensures
        identity_bytes(recipe, config, Seq::empty(), Seq::empty()) == framed(
            encode_utf8("ferrl.checkpoint-policy.v2"@),
            8,
        ) + framed(recipe, 8) + framed(encode_utf8("config.json"@), 8) + framed(config, 8) + framed(
            encode_utf8("selected-weight-map"@),
            8,
        ),
        identity_bytes(recipe, config, weight_map.push(entry), Seq::empty()) == identity_bytes(
            recipe,
            config,
            weight_map,
            Seq::empty(),
        ) + framed(encode_utf8(entry.0), 8) + framed(encode_utf8(entry.1), 8),
        identity_bytes(recipe, config, weight_map, shards.push(shard)) == identity_bytes(
            recipe,
            config,
            weight_map,
            shards,
        ) + framed(encode_utf8("selected-shard"@), 8) + framed(encode_utf8(shard.name), 8)
            + little_endian(shard.len as nat, 8) + shard.digest,
{
    lemma_map_bytes_push(weight_map, entry);
    lemma_shard_bytes_push(shards, shard);
    assert(identity_bytes(recipe, config, Seq::empty(), Seq::empty()) =~= framed(
        encode_utf8("ferrl.checkpoint-policy.v2"@),
        8,
    ) + framed(recipe, 8) + framed(encode_utf8("config.json"@), 8) + framed(config, 8) + framed(
        encode_utf8("selected-weight-map"@),
        8,
    ));
    assert(identity_bytes(recipe, config, weight_map.push(entry), Seq::empty())
        =~= identity_bytes(recipe, config, weight_map, Seq::empty()) + framed(
        encode_utf8(entry.0),
        8,
    ) + framed(encode_utf8(entry.1), 8));
    assert(identity_bytes(recipe, config, weight_map, shards.push(shard)) =~= identity_bytes(
        recipe,
        config,
        weight_map,
        shards,
    ) + framed(encode_utf8("selected-shard"@), 8) + framed(encode_utf8(shard.name), 8)
        + little_endian(shard.len as nat, 8) + shard.digest);
}

proof fn lemma_map_bytes_push(
    weight_map: Seq<(Seq<char>, Seq<char>)>,
    entry: (Seq<char>, Seq<char>),
)
    ensures
        map_bytes(weight_map.push(entry)) == map_bytes(weight_map) + (framed_text(entry.0)
            + framed_text(entry.1)),
    decreases weight_map.len(),
{
    let all = weight_map.push(entry);
    let own = framed_text(entry.0) + framed_text(entry.1);
    if weight_map.len() == 0 {
        assert(all.skip(1) =~= Seq::empty());
        assert(map_bytes(all.skip(1)) =~= Seq::<u8>::empty());
        assert(map_bytes(all) =~= map_bytes(weight_map) + own);
    } else {
        assert(all.skip(1) =~= weight_map.skip(1).push(entry));
        lemma_map_bytes_push(weight_map.skip(1), entry);
        assert(map_bytes(all) =~= map_bytes(weight_map) + own);
    }
}

proof fn lemma_shard_bytes_push(shards: Seq<ShardView>, shard: ShardView)
    ensures
        shard_bytes(shards.push(shard)) == shard_bytes(shards) + (framed_text("selected-shard"@)
            + framed_text(shard.name) + little_endian(shard.len as nat, 8) + shard.digest),
    decreases shards.len(),
{
    let all = shards.push(shard);
    let own = framed_text("selected-shard"@) + framed_text(shard.name) + little_endian(
        shard.len as nat,
        8,
    ) + shard.digest;
    if shards.len() == 0 {
        assert(all.skip(1) =~= Seq::empty());
        assert(shard_bytes(all.skip(1)) =~= Seq::<u8>::empty());
        assert(shard_bytes(all) =~= shard_bytes(shards) + own);
    } else {
        assert(all.skip(1) =~= shards.skip(1).push(shard));
        lemma_shard_bytes_push(shards.skip(1), shard);
        assert(shard_bytes(all) =~= shard_bytes(shards) + own);
    }
}

/// The options that belong to an identity, each under its name and in this order.
pub proof fn law_recipe_fields(opts: LoaderOpts, layout: Seq<char>)
    ensures
        ({
            let fields = recipe_fields(opts, layout);
            &&& fields.len() == 9
            &&& fields[0].0 == "lora_rank"@ && fields[0].1 == JsonTree::Number(
                Some(opts.lora_rank as u64),
            )
            &&& fields[1].0 == "lora_alpha_bits"@ && fields[1].1 == JsonTree::Number(
                Some(opts.lora_alpha.bits),
            )
            &&& fields[2].0 == "base_dtype"@ && fields[2].1 == JsonTree::Text(
                opts.base_dtype.lower_name(),
            )
            &&& fields[3].0 == "adapter_dtype"@ && fields[3].1 == JsonTree::Text(
                opts.adapter_dtype.lower_name(),
            )
            &&& fields[4].0 == "memory_efficient_cached_gqa"@ && fields[4].1 == JsonTree::Bool(
                opts.memory_efficient_cached_gqa,
            )
            &&& fields[5].0 == "base_quantization"@ && fields[5].1 == JsonTree::Text(
                if opts.base_quantization == crate::lora::BaseQuantization::Q8_0 {
                    "q8_0"@
                } else {
                    "none"@
                },
            )
            &&& fields[6].0 == "activation_checkpointing"@ && fields[6].1 == JsonTree::Bool(
                opts.activation_checkpointing,
            )
            &&& fields[7].0 == "tensor_parallel_world_size"@ && fields[7].1 == JsonTree::Number(
                Some(opts.tensor_parallel.of_world() as u64),
            )
            &&& fields[8].0 == "tensor_parallel_layout"@ && fields[8].1 == JsonTree::Text(layout)
        }),
{
}

/// An identity is 64 digits, each a decimal one or a letter from `a` to `f`.
pub proof fn law_identities_are_digits(text: Seq<char>, at: int)
    requires
        is_digest_text(text),
        0 <= at < text.len(),
    ensures
        text.len() == 64,
        ('0' <= text[at] && text[at] <= '9') || ('a' <= text[at] && text[at] <= 'f'),
{
}

} // verus!
