//! The safetensors layout of a Gemma 4 checkpoint: which of its tensors belong to the text
//! decoder, and which files have to be read for them.
use crate::names::sort_distinct;
use crate::text::{same_text, starts_with};
use vstd::prelude::*;

verus! {

/// The prefix of the text decoder's tensors.
pub const CKPT_PREFIX: &'static str = "model.language_model";

/// Whether a tensor belongs to the text decoder: its name goes on with a dot after the prefix.
pub open spec fn text_tensor(name: Seq<char>) -> bool {
    (CKPT_PREFIX@ + seq!['.']).is_prefix_of(name)
}

/// Whether a tensor belongs to the text decoder.
pub fn is_gemma4_text_tensor(name: &str) -> (text: bool)
    ensures
        text == text_tensor(name@),
{
    let ghost marked = CKPT_PREFIX@ + seq!['.'];
    let length: usize = CKPT_PREFIX.unicode_len();
    if !starts_with(name, CKPT_PREFIX) || name.unicode_len() <= length {
        proof {
            if marked.is_prefix_of(name@) {
                assert(CKPT_PREFIX@ =~= name@.subrange(0, length as int));
            }
        }
        return false;
    }
    proof {
        if name@[length as int] == '.' {
            assert(marked =~= name@.subrange(0, length + 1));
        } else if marked.is_prefix_of(name@) {
            assert(marked[length as int] == name@.subrange(0, length + 1)[length as int]);
        }
    }
    name.get_char(length) == '.'
}

/// A checkpoint without a tensor of the text decoder.
#[derive(Debug, Clone, Copy, PartialEq, Eq, Structural)]
pub struct NoTextTensors;

/// Whether a list is the shards with tensors of the text decoder, sorted and without repetition.
/// There is exactly one such list.
pub open spec fn lists_text_shards(
    names: Seq<Seq<char>>,
    weight_map: Seq<(String, String)>,
) -> bool {
    &&& crate::names::strictly_sorted(names)
    &&& forall|shard: Seq<char>| #[trigger] names.contains(shard) <==> holds_text(weight_map, shard)
}

/// Whether the kept tensors are those of the text decoder, each from the last file that holds it.
pub open spec fn keeps_text_tensors(kept: Seq<(String, usize)>, files: Seq<Vec<String>>) -> bool {
    &&& kept.len() > 0
    &&& distinct_names(kept)
    &&& forall|name: Seq<char>, file: usize| #[trigger]
        takes(kept, name, file) <==> text_tensor(name) && last_holder(files, files.len(), name)
            == Some(file as nat)
}

/// Whether an index puts some tensor of the text decoder into a shard.
pub open spec fn holds_text(weight_map: Seq<(String, String)>, shard: Seq<char>) -> bool {
    exists|entry: int|
        0 <= entry < weight_map.len() && text_tensor((#[trigger] weight_map[entry]).0@)
            && weight_map[entry].1@ == shard
}

/// Selects the shards that hold tensors of the text decoder, sorted and without repetition. The
/// order of the index does not matter.
pub fn select_text_shards(weight_map: &Vec<(String, String)>) -> (shards: Result<
    Vec<String>,
    NoTextTensors,
>)
    ensures
        match shards {
            Ok(shards) => shards@.len() > 0 && lists_text_shards(
                crate::names::texts(shards@),
                weight_map@,
            ),
            Err(_) => forall|shard: Seq<char>| !#[trigger] holds_text(weight_map@, shard),
        },
{
    let mut found: Vec<String> = Vec::new();
    let mut entry: usize = 0;
    while entry < weight_map.len()
        invariant
            entry <= weight_map@.len(),
            forall|shard: Seq<char>| #[trigger]
                crate::names::texts(found@).contains(shard) <==> holds_text(
                    weight_map@.take(entry as int),
                    shard,
                ),
        decreases weight_map@.len() - entry,
    {
        let ghost before = found@;
        let text: bool = is_gemma4_text_tensor(&weight_map[entry].0);
        if text {
            found.push(weight_map[entry].1.clone());
        }
        proof {
            lemma_one_more_entry(weight_map@, entry as int, before, found@);
        }
        entry = entry + 1;
    }
    assert(weight_map@.take(entry as int) =~= weight_map@);
    if found.len() == 0 {
        assert forall|shard: Seq<char>| !#[trigger] holds_text(weight_map@, shard) by {
            assert(!crate::names::texts(found@).contains(shard));
        }
        return Err(NoTextTensors);
    }
    let shards = sort_distinct(&found);
    proof {
        let text = crate::names::texts(found@);
        assert(text.contains(text[0]));
        assert(crate::names::texts(shards@).contains(text[0]));
        assert forall|shard: Seq<char>| #[trigger]
            crate::names::texts(shards@).contains(shard) <==> holds_text(weight_map@, shard) by {
            assert(text.contains(shard) <==> holds_text(weight_map@, shard));
        }
    }
    Ok(shards)
}

proof fn lemma_one_more_entry(
    weight_map: Seq<(String, String)>,
    entry: int,
    before: Seq<String>,
    after: Seq<String>,
)
    requires
        0 <= entry < weight_map.len(),
        forall|shard: Seq<char>| #[trigger]
            crate::names::texts(before).contains(shard) <==> holds_text(
                weight_map.take(entry),
                shard,
            ),
        after == if text_tensor(weight_map[entry].0@) {
            before.push(weight_map[entry].1)
        } else {
            before
        },
    ensures
        forall|shard: Seq<char>| #[trigger]
            crate::names::texts(after).contains(shard) <==> holds_text(
                weight_map.take(entry + 1),
                shard,
            ),
{
    let (old_names, names) = (crate::names::texts(before), crate::names::texts(after));
    let (shorter, longer) = (weight_map.take(entry), weight_map.take(entry + 1));
    assert forall|shard: Seq<char>| #[trigger] names.contains(shard) <==> holds_text(
        longer,
        shard,
    ) by {
        assert(old_names.contains(shard) <==> holds_text(shorter, shard));
        if names.contains(shard) {
            let i = choose|i: int| 0 <= i < names.len() && names[i] == shard;
            if i < old_names.len() {
                assert(old_names[i] == shard);
                assert(old_names.contains(shard));
                let e = choose|e: int|
                    0 <= e < shorter.len() && text_tensor((#[trigger] shorter[e]).0@)
                        && shorter[e].1@ == shard;
                assert(longer[e] == shorter[e]);
            } else {
                assert(longer[entry] == weight_map[entry]);
            }
        }
        if holds_text(longer, shard) {
            let e = choose|e: int|
                0 <= e < longer.len() && text_tensor((#[trigger] longer[e]).0@) && longer[e].1@
                    == shard;
            if e < entry {
                assert(shorter[e] == longer[e]);
                let i = choose|i: int| 0 <= i < old_names.len() && old_names[i] == shard;
                assert(names[i] == shard);
            } else {
                assert(names[names.len() - 1] == shard);
            }
        }
    }
}

/// The last of the first `files` files that holds a tensor of the given name.
pub open spec fn last_holder(files: Seq<Vec<String>>, count: nat, name: Seq<char>) -> Option<nat>
    decreases count,
{
    if count == 0 {
        None
    } else if crate::names::texts(files[count - 1]@).contains(name) {
        Some((count - 1) as nat)
    } else {
        last_holder(files, (count - 1) as nat, name)
    }
}

/// Whether a list of kept tensors takes a name from a file.
pub open spec fn takes(kept: Seq<(String, usize)>, name: Seq<char>, file: usize) -> bool {
    exists|entry: int|
        0 <= entry < kept.len() && (#[trigger] kept[entry]).0@ == name && kept[entry].1 == file
}

/// Whether no name is kept twice.
pub open spec fn distinct_names(kept: Seq<(String, usize)>) -> bool {
    forall|i: int, j: int|
        0 <= i < j < kept.len() ==> (#[trigger] kept[i]).0@ != (#[trigger] kept[j]).0@
}

/// Takes a name from a file, in place of an earlier file that had it.
fn take_from(kept: &mut Vec<(String, usize)>, name: &String, file: usize)
    requires
        distinct_names(old(kept)@),
    ensures
        distinct_names(final(kept)@),
        forall|other: Seq<char>, f: usize| #[trigger]
            takes(final(kept)@, other, f) <==> if other == name@ {
                f == file
            } else {
                takes(old(kept)@, other, f)
            },
{
    let ghost before = kept@;
    let mut entry: usize = 0;
    while entry < kept.len()
        invariant
            entry <= kept@.len(),
            kept@ == before,
            distinct_names(before),
            before == old(kept)@,
            forall|i: int| 0 <= i < entry ==> (#[trigger] before[i]).0@ != name@,
        decreases kept@.len() - entry,
    {
        if same_text(&kept[entry].0, name) {
            let ghost spot = entry as int;
            kept.set(entry, (name.clone(), file));
            proof {
                let after = kept@;
                assert forall|i: int, j: int| 0 <= i < j < after.len() implies (
                #[trigger] after[i]).0@ != (#[trigger] after[j]).0@ by {
                    assert(before[i].0@ == after[i].0@ && before[j].0@ == after[j].0@);
                }
                assert forall|other: Seq<char>, f: usize| #[trigger]
                    takes(after, other, f) <==> if other == name@ {
                        f == file
                    } else {
                        takes(before, other, f)
                    } by {
                    if other == name@ {
                        assert(after[spot].0@ == name@);
                        if takes(after, other, f) {
                            let e = choose|e: int|
                                0 <= e < after.len() && (#[trigger] after[e]).0@ == other
                                    && after[e].1 == f;
                            assert(e == spot) by {
                                assert(before[e].0@ == name@);
                                assert(before[spot].0@ == name@);
                            }
                        }
                    } else {
                        if takes(after, other, f) {
                            let e = choose|e: int|
                                0 <= e < after.len() && (#[trigger] after[e]).0@ == other
                                    && after[e].1 == f;
                            assert(before[e] == after[e]);
                        }
                        if takes(before, other, f) {
                            let e = choose|e: int|
                                0 <= e < before.len() && (#[trigger] before[e]).0@ == other
                                    && before[e].1 == f;
                            assert(before[e] == after[e]);
                        }
                    }
                }
            }
            return;
        }
        entry = entry + 1;
    }
    kept.push((name.clone(), file));
    proof {
        let after = kept@;
        let spot = before.len() as int;
        assert forall|other: Seq<char>, f: usize| #[trigger]
            takes(after, other, f) <==> if other == name@ {
                f == file
            } else {
                takes(before, other, f)
            } by {
            assert(after[spot].0@ == name@ && after[spot].1 == file);
            if takes(after, other, f) {
                let e = choose|e: int|
                    0 <= e < after.len() && (#[trigger] after[e]).0@ == other && after[e].1 == f;
                if e < spot {
                    assert(before[e] == after[e]);
                }
            }
            if takes(before, other, f) {
                let e = choose|e: int|
                    0 <= e < before.len() && (#[trigger] before[e]).0@ == other && before[e].1 == f;
                assert(after[e] == before[e]);
            }
        }
    }
}

/// The last holder of a name when of the file at `count` only the first `read` names are read.
spec fn holder_so_far(files: Seq<Vec<String>>, count: nat, read: int, name: Seq<char>) -> Option<
    nat,
> {
    if crate::names::texts(files[count as int]@).take(read).contains(name) {
        Some(count)
    } else {
        last_holder(files, count, name)
    }
}

/// Gathers the tensors of the text decoder from the files that were read, given the tensor names
/// of each: a name in several files is taken from the last. The order of the list is not part of
/// the contract.
pub fn gather_text_tensors(files: &Vec<Vec<String>>) -> (kept: Result<
    Vec<(String, usize)>,
    NoTextTensors,
>)
    ensures
        match kept {
            Ok(kept) => keeps_text_tensors(kept@, files@),
            Err(_) => forall|name: Seq<char>| #[trigger]
                text_tensor(name) ==> last_holder(files@, files@.len(), name) is None,
        },
{
    let mut kept: Vec<(String, usize)> = Vec::new();
    let mut file: usize = 0;
    while file < files.len()
        invariant
            file <= files@.len(),
            distinct_names(kept@),
            forall|name: Seq<char>, f: usize| #[trigger]
                takes(kept@, name, f) <==> text_tensor(name) && last_holder(
                    files@,
                    file as nat,
                    name,
                ) == Some(f as nat),
        decreases files@.len() - file,
    {
        let names = &files[file];
        let ghost texts = crate::names::texts(names@);
        let mut read: usize = 0;
        proof {
            assert forall|name: Seq<char>| #[trigger]
                holder_so_far(files@, file as nat, 0, name) == last_holder(
                    files@,
                    file as nat,
                    name,
                ) by {}
        }
        while read < names.len()
            invariant
                file < files@.len(),
                names == files@[file as int],
                texts == crate::names::texts(names@),
                read <= names@.len(),
                distinct_names(kept@),
                forall|name: Seq<char>, f: usize| #[trigger]
                    takes(kept@, name, f) <==> text_tensor(name) && holder_so_far(
                        files@,
                        file as nat,
                        read as int,
                        name,
                    ) == Some(f as nat),
            decreases names@.len() - read,
        {
            let name = &names[read];
            let ghost before = kept@;
            let text: bool = is_gemma4_text_tensor(name);
            if text {
                take_from(&mut kept, name, file);
            }
            proof {
                assert(texts.take(read + 1) =~= texts.take(read as int).push(name@));
                assert forall|other: Seq<char>, f: usize| #[trigger]
                    takes(kept@, other, f) <==> text_tensor(other) && holder_so_far(
                        files@,
                        file as nat,
                        read + 1,
                        other,
                    ) == Some(f as nat) by {
                    let (less, more) = (texts.take(read as int), texts.take(read + 1));
                    assert(more[read as int] == name@);
                    if other != name@ {
                        if more.contains(other) {
                            let i = choose|i: int| 0 <= i < more.len() && more[i] == other;
                            assert(less[i] == other);
                        }
                        if less.contains(other) {
                            let i = choose|i: int| 0 <= i < less.len() && less[i] == other;
                            assert(more[i] == other);
                        }
                    }
                    assert(takes(before, other, f) <==> text_tensor(other) && holder_so_far(
                        files@,
                        file as nat,
                        read as int,
                        other,
                    ) == Some(f as nat));
                }
            }
            read = read + 1;
        }
        proof {
            assert(texts.take(read as int) =~= texts);
            assert forall|name: Seq<char>, f: usize| #[trigger]
                takes(kept@, name, f) <==> text_tensor(name) && last_holder(
                    files@,
                    (file + 1) as nat,
                    name,
                ) == Some(f as nat) by {
                assert(holder_so_far(files@, file as nat, read as int, name) == last_holder(
                    files@,
                    (file + 1) as nat,
                    name,
                ));
            }
        }
        file = file + 1;
    }
    if kept.len() == 0 {
        proof {
            assert forall|name: Seq<char>| #[trigger] text_tensor(name) implies last_holder(
                files@,
                files@.len(),
                name,
            ) is None by {
                lemma_holder_in_range(files@, files@.len(), name);
                let holder = last_holder(files@, files@.len(), name);
                if holder is Some {
                    assert(takes(kept@, name, holder->0 as usize));
                }
            }
        }
        Err(NoTextTensors)
    } else {
        Ok(kept)
    }
}

proof fn lemma_holder_in_range(files: Seq<Vec<String>>, count: nat, name: Seq<char>)
    ensures
        last_holder(files, count, name) matches Some(file) ==> file < count,
    decreases count,
{
    if count > 0 {
        lemma_holder_in_range(files, (count - 1) as nat, name);
    }
}

/// The shards selected from an index do not depend on the order in which the index lists its
/// tensors.
pub proof fn law_shard_selection_is_order_free(
    left: Seq<(String, String)>,
    right: Seq<(String, String)>,
    from_left: Seq<Seq<char>>,
    from_right: Seq<Seq<char>>,
)
    requires
        forall|entry: (String, String)| #[trigger] left.contains(entry) <==> right.contains(entry),
        lists_text_shards(from_left, left),
        lists_text_shards(from_right, right),
    ensures
        from_left == from_right,
{
    assert forall|shard: Seq<char>| #[trigger] from_left.contains(shard) <==> from_right.contains(
        shard,
    ) by {
        if holds_text(left, shard) {
            let e = choose|e: int|
                0 <= e < left.len() && text_tensor((#[trigger] left[e]).0@) && left[e].1@ == shard;
            assert(left.contains(left[e]));
            let f = choose|f: int| 0 <= f < right.len() && right[f] == left[e];
            assert(text_tensor(right[f].0@));
        }
        if holds_text(right, shard) {
            let e = choose|e: int|
                0 <= e < right.len() && text_tensor((#[trigger] right[e]).0@) && right[e].1@
                    == shard;
            assert(right.contains(right[e]));
            assert(left.contains(right[e]));
            let f = choose|f: int| 0 <= f < left.len() && left[f] == right[e];
            assert(text_tensor(left[f].0@));
        }
        assert(from_right.contains(shard) <==> holds_text(right, shard));
    }
    crate::names::law_sorted_names_are_unique(from_left, from_right);
}

/// The file of a checkpoint that has no index.
pub const SINGLE_FILE: &'static str = "model.safetensors";

/// Why a checkpoint directory cannot be loaded.
#[derive(Debug)]
pub enum CheckpointFault {
    /// The index at this path lists no tensor of the text decoder.
    NoneListed(String),
    /// This directory has neither an index nor a single file.
    NoWeights(String),
    /// The files of this directory hold no tensor of the text decoder.
    NoneLoaded(String),
}

impl CheckpointFault {
    /// What the fault says.
    pub open spec fn text(self) -> Seq<char> {
        match self {
            CheckpointFault::NoneListed(path) => "gemma4 loader: no model.language_model.* tensors listed in "@
                + path@,
            CheckpointFault::NoWeights(path) => "gemma4 loader: neither model.safetensors.index.json nor model.safetensors found in "@
                + path@,
            CheckpointFault::NoneLoaded(path) => "gemma4 loader: no model.language_model.* tensors loaded from "@
                + path@,
        }
    }

    /// What the fault says.
    pub fn message(&self) -> (text: String)
        ensures
            text@ == self.text(),
    {
        let (lead, path) = match self {
            CheckpointFault::NoneListed(path) => (
                "gemma4 loader: no model.language_model.* tensors listed in ",
                path,
            ),
            CheckpointFault::NoWeights(path) => (
                "gemma4 loader: neither model.safetensors.index.json nor model.safetensors found in ",
                path,
            ),
            CheckpointFault::NoneLoaded(path) => (
                "gemma4 loader: no model.language_model.* tensors loaded from ",
                path,
            ),
        };
        let mut text = String::from_str(lead);
        text.append(path);
        text
    }
}

/// What is known of a checkpoint directory so far.
#[derive(Debug, Clone)]
pub struct CheckpointObservations {
    /// Whether there is an index.
    pub has_index: Option<bool>,
    /// The tensors of the index, each with its shard.
    pub weight_map: Option<Vec<(String, String)>>,
    /// Whether there is a single file.
    pub has_single: Option<bool>,
    /// The tensor names of the files loaded so far.
    pub loaded: Vec<Vec<String>>,
}

/// What is done next to load a checkpoint directory.
#[derive(Debug)]
pub enum CheckpointStep {
    /// Look whether there is an index.
    LookForIndex,
    /// Read the index.
    ReadIndex,
    /// Look whether there is a single file.
    LookForSingle,
    /// Load this file.
    Load(String),
    /// Keep these tensors, each from the loaded file of that number.
    Keep(Vec<(String, usize)>),
    /// The checkpoint is refused.
    Refused(CheckpointFault),
}

/// The step that follows a list of files of which some are loaded: the next file, or what is kept
/// of them all.
pub open spec fn load_step(
    names: Seq<Seq<char>>,
    loaded: Seq<Vec<String>>,
    dir: Seq<char>,
    step: CheckpointStep,
) -> bool {
    if loaded.len() < names.len() {
        step matches CheckpointStep::Load(name) && name@ == names[loaded.len() as int]
    } else {
        match step {
            CheckpointStep::Keep(kept) => keeps_text_tensors(kept@, loaded),
            CheckpointStep::Refused(CheckpointFault::NoneLoaded(path)) => {
                &&& path@ == dir
                &&& forall|name: Seq<char>| #[trigger]
                    text_tensor(name) ==> last_holder(loaded, loaded.len(), name) is None
            },
            _ => false,
        }
    }
}

/// Says what is done next to load the tensors of the text decoder from a checkpoint directory,
/// given what has been learned so far. An index has precedence over a single file; only shards
/// that it says hold tensors of the text decoder are loaded, in the order of their names.
pub fn tensors_from_pretrained(
    dir: &str,
    index_path: &str,
    seen: &CheckpointObservations,
) -> (step: CheckpointStep)
    ensures
        match (seen.has_index, seen.weight_map, seen.has_single) {
            (None, _, _) => step == CheckpointStep::LookForIndex,
            (Some(true), None, _) => step == CheckpointStep::ReadIndex,
            (Some(true), Some(map), _) => exists|names: Seq<Seq<char>>|
                #![trigger lists_text_shards(names, map@)]
                lists_text_shards(names, map@) && if names.len() == 0 {
                    match step {
                        CheckpointStep::Refused(CheckpointFault::NoneListed(path)) => path@
                            == index_path@,
                        _ => false,
                    }
                } else {
                    load_step(names, seen.loaded@, dir@, step)
                },
            (Some(false), _, None) => step == CheckpointStep::LookForSingle,
            (Some(false), _, Some(false)) => match step {
                CheckpointStep::Refused(CheckpointFault::NoWeights(path)) => path@ == dir@,
                _ => false,
            },
            (Some(false), _, Some(true)) => load_step(seq![SINGLE_FILE@], seen.loaded@, dir@, step),
        },
{
    let has_index: bool = match seen.has_index {
        None => return CheckpointStep::LookForIndex,
        Some(has_index) => has_index,
    };
    let mut names: Vec<String> = Vec::new();
    if has_index {
        let weight_map = match &seen.weight_map {
            None => return CheckpointStep::ReadIndex,
            Some(weight_map) => weight_map,
        };
        match select_text_shards(weight_map) {
            Ok(shards) => {
                names = shards;
            },
            Err(_) => {
                proof {
                    let none = Seq::<Seq<char>>::empty();
                    assert forall|shard: Seq<char>| #[trigger] none.contains(shard) <==> holds_text(
                        weight_map@,
                        shard,
                    ) by {}
                    assert(lists_text_shards(none, weight_map@));
                }
                return CheckpointStep::Refused(
                    CheckpointFault::NoneListed(String::from_str(index_path)),
                );
            },
        }
        assert(lists_text_shards(crate::names::texts(names@), weight_map@));
    } else {
        match seen.has_single {
            None => return CheckpointStep::LookForSingle,
            Some(false) => {
                return CheckpointStep::Refused(CheckpointFault::NoWeights(String::from_str(dir)));
            },
            Some(true) => {},
        }
        names.push(String::from_str(SINGLE_FILE));
        assert(crate::names::texts(names@) =~= seq![SINGLE_FILE@]);
    }
    load_files(dir, &names, &seen.loaded)
}

/// Says what follows a list of files of which some are loaded.
fn load_files(dir: &str, names: &Vec<String>, loaded: &Vec<Vec<String>>) -> (step: CheckpointStep)
    ensures
        load_step(crate::names::texts(names@), loaded@, dir@, step),
{
    if loaded.len() < names.len() {
        return CheckpointStep::Load(names[loaded.len()].clone());
    }
    match gather_text_tensors(loaded) {
        Ok(kept) => CheckpointStep::Keep(kept),
        Err(_) => CheckpointStep::Refused(CheckpointFault::NoneLoaded(String::from_str(dir))),
    }
}

/// A tensor is one of the text decoder exactly when its name starts with the decoder's prefix and a
/// dot.
pub proof fn law_text_tensors_start_with_the_prefix(name: Seq<char>)
    ensures
        text_tensor(name) <==> "model.language_model."@.is_prefix_of(name),
{
    reveal_strlit("model.language_model");
    reveal_strlit("model.language_model.");
    assert(CKPT_PREFIX@ + seq!['.'] =~= "model.language_model."@);
}

/// Whether a file holds a tensor of the given name.
pub open spec fn file_holds(file: Vec<String>, name: Seq<char>) -> bool {
    exists|at: int| 0 <= at < file@.len() && (#[trigger] file@[at])@ == name
}

/// The last holder of a name is a file that holds it, and no file behind it does; there is none
/// exactly when no file holds the name.
pub proof fn law_last_holder(files: Seq<Vec<String>>, count: nat, name: Seq<char>)
    requires
        count <= files.len(),
    ensures
        match last_holder(files, count, name) {
            Some(file) => {
                &&& file < count
                &&& file_holds(files[file as int], name)
                &&& forall|later: int|
                    file < later < count ==> !file_holds(#[trigger] files[later], name)
            },
            None => forall|file: int| 0 <= file < count ==> !file_holds(#[trigger] files[file], name),
        },
    decreases count,
{
    if count > 0 {
        let file = files[count - 1];
        law_last_holder(files, (count - 1) as nat, name);
        if file_holds(file, name) {
            let at = choose|at: int| 0 <= at < file@.len() && (#[trigger] file@[at])@ == name;
            assert(crate::names::texts(file@)[at] == name);
        }
        if crate::names::texts(file@).contains(name) {
            let at = choose|at: int|
                0 <= at < crate::names::texts(file@).len() && crate::names::texts(file@)[at]
                    == name;
            assert(file@[at]@ == name);
        }
    }
}

/// What is kept: every tensor of the text decoder that some file holds, from the last file that
/// holds it, and nothing else.
pub proof fn law_kept_tensors(kept: Seq<(String, usize)>, files: Seq<Vec<String>>, name: Seq<char>)
    requires
        keeps_text_tensors(kept, files),
        files.len() <= usize::MAX,
    ensures
        forall|entry: int|
            0 <= entry < kept.len() ==> {
                &&& "model.language_model."@.is_prefix_of((#[trigger] kept[entry]).0@)
                &&& kept[entry].1 < files.len()
                &&& file_holds(files[kept[entry].1 as int], kept[entry].0@)
                &&& forall|later: int|
                    kept[entry].1 < later < files.len() ==> !file_holds(
                        #[trigger] files[later],
                        kept[entry].0@,
                    )
            },
        "model.language_model."@.is_prefix_of(name) && (exists|file: int|
            0 <= file < files.len() && file_holds(#[trigger] files[file], name))
            ==> exists|entry: int| 0 <= entry < kept.len() && (#[trigger] kept[entry]).0@ == name,
{
    assert forall|entry: int| 0 <= entry < kept.len() implies {
        &&& "model.language_model."@.is_prefix_of((#[trigger] kept[entry]).0@)
        &&& kept[entry].1 < files.len()
        &&& file_holds(files[kept[entry].1 as int], kept[entry].0@)
        &&& forall|later: int|
            kept[entry].1 < later < files.len() ==> !file_holds(
                #[trigger] files[later],
                kept[entry].0@,
            )
    } by {
        assert(takes(kept, kept[entry].0@, kept[entry].1));
        law_text_tensors_start_with_the_prefix(kept[entry].0@);
        law_last_holder(files, files.len(), kept[entry].0@);
    }
    law_text_tensors_start_with_the_prefix(name);
    law_last_holder(files, files.len(), name);
    if let Some(file) = last_holder(files, files.len(), name) {
        if text_tensor(name) {
            assert(takes(kept, name, file as usize));
        }
    }
}

/// Files are loaded one by one in the order of the list, and what is kept or refused is decided
/// when all are.
pub proof fn law_files_are_loaded_in_order(
    names: Seq<Seq<char>>,
    loaded: Seq<Vec<String>>,
    dir: Seq<char>,
    step: CheckpointStep,
)
    requires
        load_step(names, loaded, dir, step),
    ensures
        step is Load <==> loaded.len() < names.len(),
        step matches CheckpointStep::Load(name) ==> name@ == names[loaded.len() as int],
        step matches CheckpointStep::Keep(kept) ==> keeps_text_tensors(kept@, loaded),
        step is Load || step is Keep || step is Refused,
{
}

/// A shard is selected exactly when the index puts some tensor of the text decoder into it.
pub proof fn law_selected_shards_hold_text(
    names: Seq<Seq<char>>,
    weight_map: Seq<(String, String)>,
    shard: Seq<char>,
)
    requires
        lists_text_shards(names, weight_map),
    ensures
        names.contains(shard) <==> exists|entry: int|
            0 <= entry < weight_map.len() && "model.language_model."@.is_prefix_of(
                (#[trigger] weight_map[entry]).0@,
            ) && weight_map[entry].1@ == shard,
{
    assert forall|entry: int| 0 <= entry < weight_map.len() implies (text_tensor(
        (#[trigger] weight_map[entry]).0@,
    ) <==> "model.language_model."@.is_prefix_of(weight_map[entry].0@)) by {
        law_text_tensors_start_with_the_prefix(weight_map[entry].0@);
    }
    assert(names.contains(shard) <==> holds_text(weight_map, shard));
    if holds_text(weight_map, shard) {
        let entry = choose|entry: int|
            0 <= entry < weight_map.len() && text_tensor((#[trigger] weight_map[entry]).0@)
                && weight_map[entry].1@ == shard;
        assert("model.language_model."@.is_prefix_of(weight_map[entry].0@));
    }
}

/// What each fault says, word for word, of its path.
pub proof fn law_words_of_checkpoint_fault(fault: CheckpointFault)
    ensures
        fault matches CheckpointFault::NoneListed(path) ==> fault.text() == ("gemma4 loader: no model.language_model.* tensors listed in "@ + path@),
        fault matches CheckpointFault::NoWeights(path) ==> fault.text() == ("gemma4 loader: neither model.safetensors.index.json nor model.safetensors found in "@ + path@),
        fault matches CheckpointFault::NoneLoaded(path) ==> fault.text() == ("gemma4 loader: no model.language_model.* tensors loaded from "@ + path@),
{
}

} // verus!
