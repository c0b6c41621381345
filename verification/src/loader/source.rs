//! The files of a checkpoint that a policy is loaded from: how each is read, which ones are
//! selected, and the identity of what was captured.
use super::identity::{checkpoint_policy_digest, ShardIdentity};
use super::options::{LoaderError, LoaderOpts, ModelType, SourceFault};
use crate::gemma4::checkpoint::SINGLE_FILE;
use crate::gemma4::checkpoint::is_gemma4_text_tensor;
use crate::names::sort_distinct;
use crate::sha256::sha256_digest;
use crate::tensor_file::tensor_names;
use vstd::prelude::*;

verus! {

/// What the path of a file says of it.
#[derive(Debug, Clone, Copy, PartialEq, Eq, Structural)]
pub struct PathFacts {
    /// Whether the path is of a regular file, and not of a link to one.
    pub regular: bool,
    pub device: u64,
    pub inode: u64,
}

/// What an open file says of itself.
#[derive(Debug, Clone, Copy, PartialEq, Eq, Structural)]
pub struct OpenFacts {
    pub device: u64,
    pub inode: u64,
    pub length: u64,
}

/// What has been learned of a file so far.
#[derive(Debug, Clone, Copy, PartialEq, Eq, Structural)]
pub struct FileObservations {
    pub path: Option<PathFacts>,
    pub opened: Option<OpenFacts>,
    /// The number of bytes read.
    pub read: Option<u64>,
}

/// What is done next to read a file.
#[derive(Debug)]
pub enum FileStep {
    /// Look at the path, without following a link.
    LookAtPath,
    /// Open the file and look at it.
    Open,
    /// Read to the end, expecting so many bytes.
    Read { expected: u64 },
    /// What was read is the file.
    Accept,
    /// The file is refused.
    Refuse(SourceFault),
}

/// Says what is done next to read a regular file, given what has been learned so far. The file
/// that was opened must be the one that the path named, and what was read must have the length
/// that it had when it was opened.
pub fn read_regular_file(seen: &FileObservations) -> (step: FileStep)
    ensures
        match seen.path {
            None => step == FileStep::LookAtPath,
            Some(path) => if !path.regular {
                step == FileStep::Refuse(SourceFault::NotRegular)
            } else {
                match seen.opened {
                    None => step == FileStep::Open,
                    Some(opened) => if path.device != opened.device || path.inode != opened.inode {
                        step == FileStep::Refuse(SourceFault::ChangedWhileOpening)
                    } else {
                        match seen.read {
                            None => step == (FileStep::Read { expected: opened.length }),
                            Some(read) => if read != opened.length {
                                step == FileStep::Refuse(SourceFault::ChangedLength)
                            } else {
                                step == FileStep::Accept
                            },
                        }
                    },
                }
            },
        },
{
    let path = match seen.path {
        None => return FileStep::LookAtPath,
        Some(path) => path,
    };
    if !path.regular {
        return FileStep::Refuse(SourceFault::NotRegular);
    }
    let opened = match seen.opened {
        None => return FileStep::Open,
        Some(opened) => opened,
    };
    if path.device != opened.device || path.inode != opened.inode {
        return FileStep::Refuse(SourceFault::ChangedWhileOpening);
    }
    match seen.read {
        None => FileStep::Read { expected: opened.length },
        Some(read) => if read != opened.length {
            FileStep::Refuse(SourceFault::ChangedLength)
        } else {
            FileStep::Accept
        },
    }
}

/// How a platform reads a path.
#[derive(Debug, Clone, Copy, PartialEq, Eq, Structural)]
pub enum PathStyle {
    /// A slash separates.
    Unix,
    /// A slash and a backslash separate, and a letter with a colon in front names a drive.
    Windows,
}

impl PathStyle {
    /// Whether a character separates the components of a path.
    pub open spec fn separates(self, c: char) -> bool {
        c == '/' || (self == PathStyle::Windows && c == '\\')
    }

    /// Whether a path starts with the name of a drive.
    pub open spec fn names_drive(self, path: Seq<char>) -> bool {
        &&& self == PathStyle::Windows
        &&& path.len() >= 2
        &&& path[1] == ':'
        &&& ('a' <= path[0] && path[0] <= 'z') || ('A' <= path[0] && path[0] <= 'Z')
    }

    /// Whether a character separates the components of a path.
    fn is_separator(self, c: char) -> (separator: bool)
        ensures
            separator == self.separates(c),
    {
        c == '/' || (self == PathStyle::Windows && c == '\\')
    }

    /// Whether a path starts with the name of a drive.
    fn has_drive(self, path: &str) -> (drive: bool)
        ensures
            drive == self.names_drive(path@),
    {
        if self != PathStyle::Windows || path.unicode_len() < 2 {
            return false;
        }
        let letter: char = path.get_char(0);
        path.get_char(1) == ':' && (('a' <= letter && letter <= 'z') || ('A' <= letter && letter
            <= 'Z'))
    }
}

/// The end of the first component of a relative path.
pub open spec fn first_component_end(style: PathStyle, name: Seq<char>, from: int) -> int
    decreases name.len() - from,
{
    if from < 0 || from >= name.len() || style.separates(name[from]) {
        from
    } else {
        first_component_end(style, name, from + 1)
    }
}

/// Whether a file name has the extension of a safetensors file, and a stem in front of it.
pub open spec fn has_safetensors_extension(name: Seq<char>) -> bool {
    name.len() > ".safetensors"@.len() && name.skip(name.len() - ".safetensors"@.len())
        == ".safetensors"@
}

/// Whether nothing of a path behind its first component names another: only separators, and
/// dots that stand for the directory itself.
pub open spec fn idle_behind(style: PathStyle, name: Seq<char>, end: int) -> bool {
    forall|i: int|
        end <= i < name.len() ==> style.separates(#[trigger] name[i]) || (name[i] == '.' && i > end
            && style.separates(name[i - 1]))
}

/// Whether a shard name is a single file name with the extension of a safetensors file: it
/// stays in the directory of its index.
pub open spec fn safe_shard_name(style: PathStyle, name: Seq<char>) -> bool {
    let end = first_component_end(style, name, 0);
    &&& !style.names_drive(name)
    &&& has_safetensors_extension(name.take(end))
    &&& idle_behind(style, name, end)
}

proof fn lemma_component_end(style: PathStyle, name: Seq<char>, from: int)
    requires
        0 <= from <= name.len(),
    ensures
        from <= first_component_end(style, name, from) <= name.len(),
    decreases name.len() - from,
{
    if from < name.len() && !style.separates(name[from]) {
        lemma_component_end(style, name, from + 1);
    }
}

/// Finds the end of the first component of a relative path.
fn find_component_end(style: PathStyle, name: &str) -> (end: usize)
    ensures
        end == first_component_end(style, name@, 0),
        end <= name@.len(),
{
    let length: usize = name.unicode_len();
    let mut at: usize = 0;
    while at < length && !style.is_separator(name.get_char(at))
        invariant
            at <= length == name@.len(),
            first_component_end(style, name@, 0) == first_component_end(style, name@, at as int),
        decreases length - at,
    {
        at = at + 1;
    }
    at
}

/// Whether the text up to `end` has the extension of a safetensors file, and a stem in front.
fn extension_matches(name: &str, end: usize) -> (matches: bool)
    requires
        end <= name@.len(),
    ensures
        matches == has_safetensors_extension(name@.take(end as int)),
{
    let extension = ".safetensors";
    let length: usize = extension.unicode_len();
    if end <= length {
        return false;
    }
    let ghost file = name@.take(end as int);
    let ghost tail = file.skip(end - length);
    let mut at: usize = 0;
    while at < length
        invariant
            at <= length < end <= name@.len(),
            length == extension@.len(),
            extension@ == ".safetensors"@,
            file == name@.take(end as int),
            tail == file.skip(end - length),
            forall|i: int| 0 <= i < at ==> tail[i] == extension@[i],
        decreases length - at,
    {
        assert(tail[at as int] == name@[end - length + at]);
        if name.get_char(end - length + at) != extension.get_char(at) {
            assert(tail != extension@);
            return false;
        }
        at = at + 1;
    }
    assert(tail =~= extension@);
    true
}

/// Whether an error refuses a shard name of the index at a path.
pub open spec fn refuses_shard(error: LoaderError, path: Seq<char>, shard: Seq<char>) -> bool {
    match error {
        LoaderError::Source { path: named, fault: SourceFault::UnsafeShardName(name) } => named@
            == path && name@ == shard,
        _ => false,
    }
}

/// Whether an error refuses the source at a path for a reason.
pub open spec fn refuses_source(error: LoaderError, path: Seq<char>, reason: SourceFault) -> bool {
    match error {
        LoaderError::Source { path: named, fault } => named@ == path && fault == reason,
        _ => false,
    }
}

/// Accepts a shard name that stays in the directory of its index.
pub fn validate_shard_name(style: PathStyle, index_path: &str, shard: &str) -> (verdict: Result<
    (),
    LoaderError,
>)
    ensures
        match verdict {
            Ok(()) => safe_shard_name(style, shard@),
            Err(error) => !safe_shard_name(style, shard@) && refuses_shard(
                error,
                index_path@,
                shard@,
            ),
        },
{
    if is_safe_shard_name(style, shard) {
        Ok(())
    } else {
        Err(
            LoaderError::Source {
                path: index_path.to_owned(),
                fault: SourceFault::UnsafeShardName(shard.to_owned()),
            },
        )
    }
}

/// Whether a shard name stays in the directory of its index.
pub fn is_safe_shard_name(style: PathStyle, shard: &str) -> (safe: bool)
    ensures
        safe == safe_shard_name(style, shard@),
{
    if style.has_drive(shard) {
        return false;
    }
    let end: usize = find_component_end(style, shard);
    if !extension_matches(shard, end) {
        return false;
    }
    let length: usize = shard.unicode_len();
    let mut at: usize = end;
    while at < length
        invariant
            end <= at <= length == shard@.len(),
            end == first_component_end(style, shard@, 0),
            forall|i: int|
                end <= i < at ==> style.separates(#[trigger] shard@[i]) || (shard@[i] == '.' && i
                    > end && style.separates(shard@[i - 1])),
        decreases length - at,
    {
        let c: char = shard.get_char(at);
        let idle: bool = style.is_separator(c) || (c == '.' && at > end && style.is_separator(
            shard.get_char(at - 1),
        ));
        if !idle {
            assert(!idle_behind(style, shard@, end as int)) by {
                assert(shard@[at as int] == c);
            }
            return false;
        }
        at = at + 1;
    }
    true
}

/// A shard name that is accepted names exactly one file: no separator, no drive, no parent
/// directory and no absolute path is in front of its end, and nothing behind it leads on.
pub proof fn law_safe_names_stay_in_the_directory(style: PathStyle, name: Seq<char>, i: int)
    requires
        safe_shard_name(style, name),
        0 <= i < name.len(),
    ensures
        name.len() > 0 && !style.separates(name[0]) && !style.names_drive(name),
        i < first_component_end(style, name, 0) ==> !style.separates(name[i]),
        i >= first_component_end(style, name, 0) ==> style.separates(name[i]) || name[i] == '.',
        name.take(first_component_end(style, name, 0)) != ".."@,
{
    lemma_component_end(style, name, 0);
    lemma_no_separator(style, name, 0, i);
    reveal_strlit(".safetensors");
    reveal_strlit("..");
}

proof fn lemma_no_separator(style: PathStyle, name: Seq<char>, from: int, i: int)
    requires
        0 <= from <= name.len(),
    ensures
        from <= i < first_component_end(style, name, from) ==> !style.separates(name[i]),
    decreases name.len() - from,
{
    if from < name.len() && !style.separates(name[from]) {
        lemma_no_separator(style, name, from + 1, i);
    }
}

/// Whether a loader of a family uses the index of a checkpoint that has one. Qwen 3, and a
/// config that declares no family, load the single file.
pub fn uses_index(model_type: &Option<ModelType>, has_index: bool) -> (uses: bool)
    ensures
        uses == (has_index && !(model_type is None || model_type->0 is Qwen3)),
{
    match model_type {
        None => false,
        Some(ModelType::Qwen3) => false,
        Some(_) => has_index,
    }
}

/// Whether a loader of a family selects a tensor: Gemma 4 selects those of the text decoder,
/// other families all.
pub open spec fn selects(model_type: Option<ModelType>, tensor: Seq<char>) -> bool {
    model_type matches Some(ModelType::Gemma4) ==> crate::gemma4::checkpoint::text_tensor(tensor)
}

fn is_selected(model_type: &Option<ModelType>, tensor: &str) -> (selected: bool)
    ensures
        selected == selects(*model_type, tensor@),
{
    match model_type {
        Some(ModelType::Gemma4) => is_gemma4_text_tensor(tensor),
        _ => true,
    }
}

/// The tensors that a single file is selected for: one entry for all of them, or for Gemma 4 one
/// for each of the text decoder, sorted.
pub open spec fn single_map(
    model_type: Option<ModelType>,
    names: Set<Seq<char>>,
    weight_map: Seq<(Seq<char>, Seq<char>)>,
) -> bool {
    &&& forall|i: int|
        0 <= i < weight_map.len() ==> (#[trigger] weight_map[i]).1 == SINGLE_FILE@
    &&& if model_type matches Some(ModelType::Gemma4) {
        let tensors = weight_map.map_values(|entry: (Seq<char>, Seq<char>)| entry.0);
        &&& crate::names::strictly_sorted(tensors)
        &&& forall|tensor: Seq<char>| #[trigger]
            tensors.contains(tensor) <==> names.contains(tensor)
                && crate::gemma4::checkpoint::text_tensor(tensor)
    } else {
        weight_map == seq![("*"@, SINGLE_FILE@)]
    }
}

/// The first components of a weight map.
pub open spec fn tensors_of(weight_map: Seq<(Seq<char>, Seq<char>)>) -> Seq<Seq<char>> {
    weight_map.map_values(|entry: (Seq<char>, Seq<char>)| entry.0)
}

/// Lists the names of a list that belong to the text decoder.
fn text_names(names: &Vec<String>) -> (text: Vec<String>)
    ensures
        forall|name: Seq<char>| #[trigger]
            crate::names::texts(text@).contains(name) <==> crate::names::texts(names@).contains(
                name,
            ) && crate::gemma4::checkpoint::text_tensor(name),
{
    let mut text: Vec<String> = Vec::new();
    let mut done: usize = 0;
    let ghost all = crate::names::texts(names@);
    while done < names.len()
        invariant
            done <= names@.len(),
            all == crate::names::texts(names@),
            forall|name: Seq<char>| #[trigger]
                crate::names::texts(text@).contains(name) <==> all.take(done as int).contains(name)
                    && crate::gemma4::checkpoint::text_tensor(name),
        decreases names@.len() - done,
    {
        let ghost before = crate::names::texts(text@);
        let ghost less = all.take(done as int);
        let keep: bool = is_gemma4_text_tensor(&names[done]);
        if keep {
            text.push(names[done].clone());
        }
        done = done + 1;
        proof {
            let one = names@[done - 1]@;
            let after = crate::names::texts(text@);
            let more = all.take(done as int);
            assert(more =~= less.push(one));
            assert forall|name: Seq<char>| #[trigger] after.contains(name) <==> more.contains(name)
                && crate::gemma4::checkpoint::text_tensor(name) by {
                assert(before.contains(name) <==> less.contains(name)
                    && crate::gemma4::checkpoint::text_tensor(name));
                lemma_push_contains(less, one, name);
                if keep {
                    assert(after =~= before.push(one));
                    lemma_push_contains(before, one, name);
                } else {
                    assert(after =~= before);
                }
            }
        }
    }
    assert(all.take(done as int) =~= all);
    text
}

proof fn lemma_push_contains(names: Seq<Seq<char>>, one: Seq<char>, name: Seq<char>)
    ensures
        names.push(one).contains(name) <==> names.contains(name) || name == one,
{
    let longer = names.push(one);
    assert(longer[names.len() as int] == one);
    if names.contains(name) {
        let i = choose|i: int| 0 <= i < names.len() && names[i] == name;
        assert(longer[i] == name);
    }
    if longer.contains(name) && name != one {
        let i = choose|i: int| 0 <= i < longer.len() && longer[i] == name;
        assert(names[i] == name);
    }
}

/// Selects the tensors of a single file that was captured from `path`.
pub fn select_single(model_type: &Option<ModelType>, path: &str, bytes: &[u8]) -> (selected: Result<
    Vec<(String, String)>,
    LoaderError,
>)
    ensures
        match selected {
            Ok(weight_map) => {
                &&& weight_map@.len() > 0
                &&& if *model_type matches Some(ModelType::Gemma4) {
                    &&& crate::tensor_file::safetensors_names(bytes@) is Some
                    &&& single_map(
                        *model_type,
                        crate::tensor_file::safetensors_names(bytes@)->0,
                        super::identity::map_views(weight_map@),
                    )
                } else {
                    super::identity::map_views(weight_map@) == seq![("*"@, SINGLE_FILE@)]
                }
            },
            Err(LoaderError::Tensors(_)) => {
                &&& *model_type matches Some(ModelType::Gemma4)
                &&& !crate::tensor_file::extent_fits(bytes@)
                    || crate::tensor_file::safetensors_names(bytes@) is None
            },
            Err(error) => {
                &&& *model_type matches Some(ModelType::Gemma4)
                &&& refuses_source(error, path@, SourceFault::NoTextTensors)
                &&& crate::tensor_file::safetensors_names(bytes@) is Some
                &&& forall|tensor: Seq<char>| #[trigger]
                    crate::tensor_file::safetensors_names(bytes@)->0.contains(tensor)
                        ==> !crate::gemma4::checkpoint::text_tensor(tensor)
            },
        },
{
    match model_type {
        Some(ModelType::Gemma4) => {},
        _ => {
            let mut weight_map: Vec<(String, String)> = Vec::new();
            weight_map.push(("*".to_owned(), SINGLE_FILE.to_owned()));
            assert(super::identity::map_views(weight_map@) =~= seq![("*"@, SINGLE_FILE@)]);
            return Ok(weight_map);
        },
    }
    let names = match tensor_names(bytes) {
        Ok(names) => names,
        Err(fault) => return Err(LoaderError::Tensors(fault)),
    };
    let text = text_names(&names);
    if text.len() == 0 {
        proof {
            assert forall|tensor: Seq<char>| #[trigger]
                crate::tensor_file::safetensors_names(bytes@)->0.contains(
                    tensor,
                ) implies !crate::gemma4::checkpoint::text_tensor(tensor) by {
                assert(crate::names::texts(names@).contains(tensor));
                assert(!crate::names::texts(text@).contains(tensor));
            }
        }
        return Err(
            LoaderError::Source { path: path.to_owned(), fault: SourceFault::NoTextTensors },
        );
    }
    let sorted = sort_distinct(&text);
    let mut weight_map: Vec<(String, String)> = Vec::new();
    let mut done: usize = 0;
    while done < sorted.len()
        invariant
            done <= sorted@.len(),
            weight_map@.len() == done,
            forall|i: int|
                0 <= i < done ==> (#[trigger] weight_map@[i]).0@ == sorted@[i]@
                    && weight_map@[i].1@ == SINGLE_FILE@,
        decreases sorted@.len() - done,
    {
        weight_map.push((sorted[done].clone(), SINGLE_FILE.to_owned()));
        done = done + 1;
    }
    proof {
        let views = super::identity::map_views(weight_map@);
        let tensors = tensors_of(views);
        assert(tensors =~= crate::names::texts(sorted@));
        assert(views.map_values(|entry: (Seq<char>, Seq<char>)| entry.0) =~= tensors);
        let found = crate::names::texts(text@);
        assert(found.contains(found[0]));
        assert(crate::names::texts(sorted@).contains(found[0]));
        assert forall|tensor: Seq<char>| #[trigger]
            tensors.contains(tensor) <==> crate::tensor_file::safetensors_names(bytes@)->0.contains(
                tensor,
            ) && crate::gemma4::checkpoint::text_tensor(tensor) by {
            assert(found.contains(tensor) <==> crate::names::texts(names@).contains(tensor)
                && crate::gemma4::checkpoint::text_tensor(tensor));
        }
    }
    Ok(weight_map)
}

/// The entries of an index that a loader of a family selects, in the order of the index.
pub open spec fn selected_entries(
    model_type: Option<ModelType>,
    entries: Seq<(String, String)>,
    count: nat,
) -> Seq<(Seq<char>, Seq<char>)>
    decreases count,
{
    if count == 0 {
        Seq::empty()
    } else {
        let before = selected_entries(model_type, entries, (count - 1) as nat);
        let entry = entries[count - 1];
        if selects(model_type, entry.0@) {
            before.push((entry.0@, entry.1@))
        } else {
            before
        }
    }
}

/// Whether a weight map lists its tensors in the order of their names, each once.
pub open spec fn sorted_by_tensor(weight_map: Seq<(Seq<char>, Seq<char>)>) -> bool {
    crate::names::strictly_sorted(tensors_of(weight_map))
}

/// A selection of a sorted index is sorted, and ends with an entry of the index.
proof fn lemma_selection_is_sorted(
    model_type: Option<ModelType>,
    entries: Seq<(String, String)>,
    count: nat,
)
    requires
        count <= entries.len(),
        sorted_by_tensor(super::identity::map_views(entries)),
    ensures
        sorted_by_tensor(selected_entries(model_type, entries, count)),
        forall|i: int|
            0 <= i < selected_entries(model_type, entries, count).len() ==> exists|j: int|
                0 <= j < count && (#[trigger] entries[j]).0@ == (#[trigger] selected_entries(
                    model_type,
                    entries,
                    count,
                )[i]).0,
    decreases count,
{
    if count > 0 {
        let shorter = (count - 1) as nat;
        lemma_selection_is_sorted(model_type, entries, shorter);
        let before = selected_entries(model_type, entries, shorter);
        let all = selected_entries(model_type, entries, count);
        let last = entries[count - 1];
        if selects(model_type, last.0@) {
            let names = tensors_of(all);
            let listed = tensors_of(super::identity::map_views(entries));
            assert forall|i: int, j: int| 0 <= i < j < names.len() implies crate::names::name_before(
                #[trigger] names[i],
                #[trigger] names[j],
            ) by {
                assert(names[i] == tensors_of(before)[i]);
                if j < before.len() {
                    assert(names[j] == tensors_of(before)[j]);
                } else {
                    let at = choose|at: int|
                        0 <= at < shorter && (#[trigger] entries[at]).0@ == before[i].0;
                    assert(listed[at] == names[i]);
                    assert(listed[count - 1] == names[j]);
                }
            }
            assert forall|i: int| 0 <= i < all.len() implies exists|j: int|
                0 <= j < count && (#[trigger] entries[j]).0@ == (#[trigger] all[i]).0 by {
                if i < before.len() {
                    let at = choose|at: int|
                        0 <= at < shorter && (#[trigger] entries[at]).0@ == before[i].0;
                    assert(entries[at].0@ == all[i].0);
                } else {
                    assert(entries[count - 1].0@ == all[i].0);
                }
            }
        } else {
            assert forall|i: int| 0 <= i < all.len() implies exists|j: int|
                0 <= j < count && (#[trigger] entries[j]).0@ == (#[trigger] all[i]).0 by {
                let at = choose|at: int|
                    0 <= at < shorter && (#[trigger] entries[at]).0@ == before[i].0;
                assert(entries[at].0@ == all[i].0);
            }
        }
    }
}

/// Selects the tensors of an index that was read from `path`, given its weight map.
pub fn select_from_index(
    model_type: &Option<ModelType>,
    path: &str,
    entries: &Vec<(String, String)>,
) -> (selected: Result<Vec<(String, String)>, LoaderError>)
    ensures
        match selected {
            Ok(weight_map) => weight_map@.len() > 0 && super::identity::map_views(weight_map@)
                == selected_entries(*model_type, entries@, entries@.len()),
            Err(error) => refuses_source(error, path@, SourceFault::NothingSelected)
                && selected_entries(*model_type, entries@, entries@.len()).len() == 0,
        },
{
    let mut weight_map: Vec<(String, String)> = Vec::new();
    let mut done: usize = 0;
    assert(super::identity::map_views(weight_map@) =~= Seq::empty());
    while done < entries.len()
        invariant
            done <= entries@.len(),
            super::identity::map_views(weight_map@) == selected_entries(
                *model_type,
                entries@,
                done as nat,
            ),
        decreases entries@.len() - done,
    {
        let ghost before = super::identity::map_views(weight_map@);
        let (tensor, shard) = (&entries[done].0, &entries[done].1);
        if is_selected(model_type, tensor) {
            weight_map.push((tensor.clone(), shard.clone()));
            assert(super::identity::map_views(weight_map@) =~= before.push((tensor@, shard@)));
        }
        done = done + 1;
    }
    if weight_map.len() == 0 {
        assert(super::identity::map_views(weight_map@).len() == 0);
        Err(LoaderError::Source { path: path.to_owned(), fault: SourceFault::NothingSelected })
    } else {
        assert(super::identity::map_views(weight_map@).len() > 0);
        Ok(weight_map)
    }
}

/// The shards of a weight map, entry by entry.
pub open spec fn shards_of(weight_map: Seq<(String, String)>) -> Seq<Seq<char>> {
    weight_map.map_values(|entry: (String, String)| entry.1@)
}

/// Lists the shards of a weight map, sorted and without repetition.
pub fn shard_names(weight_map: &Vec<(String, String)>) -> (names: Vec<String>)
    ensures
        crate::names::strictly_sorted(crate::names::texts(names@)),
        forall|name: Seq<char>| #[trigger]
            crate::names::texts(names@).contains(name) <==> shards_of(weight_map@).contains(name),
{
    let mut shards: Vec<String> = Vec::new();
    let mut done: usize = 0;
    while done < weight_map.len()
        invariant
            done <= weight_map@.len(),
            crate::names::texts(shards@) == shards_of(weight_map@).take(done as int),
        decreases weight_map@.len() - done,
    {
        let ghost before = crate::names::texts(shards@);
        shards.push(weight_map[done].1.clone());
        done = done + 1;
        proof {
            let one = shards_of(weight_map@)[done - 1];
            assert(crate::names::texts(shards@) =~= before.push(one));
            assert(shards_of(weight_map@).take(done as int) =~= before.push(one));
        }
    }
    assert(shards_of(weight_map@).take(done as int) =~= shards_of(weight_map@));
    sort_distinct(&shards)
}

/// Says which shard is captured next, after so many: the next one of the list, if its name stays
/// in the directory of the index. A name is looked at only once its turn comes.
pub fn next_shard(
    style: PathStyle,
    index_path: &str,
    names: &Vec<String>,
    captured: usize,
) -> (next: Result<Option<String>, LoaderError>)
    requires
        captured <= names@.len(),
    ensures
        match next {
            Ok(None) => captured == names@.len(),
            Ok(Some(name)) => captured < names@.len() && name@ == names@[captured as int]@
                && safe_shard_name(style, name@),
            Err(error) => captured < names@.len() && !safe_shard_name(
                style,
                names@[captured as int]@,
            ) && refuses_shard(error, index_path@, names@[captured as int]@),
        },
{
    if captured == names.len() {
        return Ok(None);
    }
    let name = &names[captured];
    match validate_shard_name(style, index_path, name) {
        Ok(()) => Ok(Some(name.clone())),
        Err(error) => Err(error),
    }
}

/// A captured file.
#[derive(Debug)]
pub struct CapturedShard {
    pub name: String,
    pub bytes: Vec<u8>,
}

/// The files that a checkpoint was captured from, as they were read.
#[derive(Debug)]
pub struct CapturedPolicySource {
    pub config_bytes: Vec<u8>,
    pub weight_map: Vec<(String, String)>,
    pub shards: Vec<CapturedShard>,
}

/// The identity of a captured file.
pub open spec fn shard_identity(shard: CapturedShard) -> super::identity::ShardView {
    super::identity::ShardView {
        name: shard.name@,
        len: shard.bytes@.len() as u64,
        digest: crate::sha256::sha256(shard.bytes@),
    }
}

/// The identities of captured files.
pub open spec fn shard_identities(shards: Seq<CapturedShard>) -> Seq<super::identity::ShardView> {
    shards.map_values(|shard: CapturedShard| shard_identity(shard))
}

impl CapturedPolicySource {
    /// What the identity of the policy that the source holds is taken of.
    pub open spec fn identity_of(self, opts: LoaderOpts, layout: Seq<char>) -> Seq<u8> {
        super::identity::identity_bytes(
            super::identity::encoded_recipe(opts, layout),
            self.config_bytes@,
            super::identity::map_views(self.weight_map@),
            shard_identities(self.shards@),
        )
    }

    /// Takes the identity of the policy that the source holds, under the given options.
    pub fn digest(&self, opts: &LoaderOpts, layout: &str) -> (identity: Result<String, LoaderError>)
        ensures
            identity matches Ok(text) && super::identity::is_digest_text(text@) && text@
                == super::identity::identity_text(
                *opts,
                layout@,
                self.config_bytes@,
                super::identity::map_views(self.weight_map@),
                shard_identities(self.shards@),
            ),
            crate::json::reads_back(
                super::identity::encoded_recipe(*opts, layout@),
                super::identity::recipe_fields(*opts, layout@),
            ),
    {
        let mut shards: Vec<ShardIdentity> = Vec::new();
        let mut done: usize = 0;
        let ghost all = shard_identities(self.shards@);
        while done < self.shards.len()
            invariant
                done <= self.shards@.len(),
                all == shard_identities(self.shards@),
                super::identity::shard_views(shards@) == all.take(done as int),
            decreases self.shards@.len() - done,
        {
            let ghost before = super::identity::shard_views(shards@);
            let shard = &self.shards[done];
            let identity = ShardIdentity {
                name: shard.name.clone(),
                len: shard.bytes.len() as u64,
                digest: sha256_digest(&shard.bytes),
            };
            let ghost one = identity@;
            shards.push(identity);
            done = done + 1;
            proof {
                assert(one == all[done - 1]);
                assert(super::identity::shard_views(shards@) =~= before.push(one));
                assert(super::identity::shard_views(shards@) =~= all.take(done as int));
            }
        }
        assert(all.take(done as int) =~= all);
        checkpoint_policy_digest(&self.config_bytes, &self.weight_map, &shards, opts, layout)
    }
}

/// What has been learned so far in capturing a checkpoint.
#[derive(Debug)]
pub struct CaptureObservations {
    /// Whether there is an index.
    pub has_index: Option<bool>,
    /// The bytes of the single file.
    pub single: Option<Vec<u8>>,
    /// The weight map of the index, sorted by tensor.
    pub index: Option<Vec<(String, String)>>,
    /// The number of shards captured.
    pub captured: usize,
}

/// What is done next to capture a checkpoint.
#[derive(Debug)]
pub enum CaptureStep {
    /// Look whether there is an index.
    LookForIndex,
    /// Capture the single file.
    ReadSingle,
    /// Capture and parse the index.
    ReadIndex,
    /// Capture a shard.
    ReadShard(String),
    /// Everything is captured; this is the selected weight map.
    Complete(Vec<(String, String)>),
    /// The checkpoint is refused.
    Refused(LoaderError),
}

/// Whether a loader of a family ever uses an index.
pub open spec fn family_uses_index(model_type: Option<ModelType>) -> bool {
    !(model_type is None || model_type->0 is Qwen3)
}

/// The step that follows the bytes of the single file.
pub open spec fn single_step(
    model_type: Option<ModelType>,
    path: Seq<char>,
    single: Option<Vec<u8>>,
    step: CaptureStep,
) -> bool {
    match single {
        None => step == CaptureStep::ReadSingle,
        Some(bytes) => {
            let names = crate::tensor_file::safetensors_names(bytes@);
            match step {
                CaptureStep::Complete(weight_map) => {
                    let views = super::identity::map_views(weight_map@);
                    if model_type matches Some(ModelType::Gemma4) {
                        names is Some && views.len() > 0 && single_map(model_type, names->0, views)
                    } else {
                        views == seq![("*"@, SINGLE_FILE@)]
                    }
                },
                CaptureStep::Refused(error) => {
                    &&& model_type matches Some(ModelType::Gemma4)
                    &&& match error {
                        LoaderError::Tensors(_) => !crate::tensor_file::extent_fits(bytes@)
                            || names is None,
                        _ => {
                            &&& refuses_source(error, path, SourceFault::NoTextTensors)
                            &&& names is Some
                            &&& forall|tensor: Seq<char>| #[trigger]
                                names->0.contains(tensor)
                                    ==> !crate::gemma4::checkpoint::text_tensor(tensor)
                        },
                    }
                },
                _ => false,
            }
        },
    }
}

/// The step that follows the weight map of the index and a number of captured shards.
pub open spec fn index_step(
    style: PathStyle,
    model_type: Option<ModelType>,
    path: Seq<char>,
    index: Option<Vec<(String, String)>>,
    captured: nat,
    step: CaptureStep,
) -> bool {
    match index {
        None => step == CaptureStep::ReadIndex,
        Some(entries) => {
            let selected = selected_entries(model_type, entries@, entries@.len());
            if selected.len() == 0 {
                step matches CaptureStep::Refused(error) && refuses_source(
                    error,
                    path,
                    SourceFault::NothingSelected,
                )
            } else {
                exists|names: Seq<Seq<char>>|
                    {
                        &&& #[trigger] lists_shards(names, selected)
                        &&& if captured >= names.len() {
                            step matches CaptureStep::Complete(weight_map)
                                && super::identity::map_views(weight_map@) == selected
                        } else if safe_shard_name(style, names[captured as int]) {
                            step matches CaptureStep::ReadShard(name) && name@
                                == names[captured as int]
                        } else {
                            step matches CaptureStep::Refused(error) && refuses_shard(
                                error,
                                path,
                                names[captured as int],
                            )
                        }
                    }
            }
        },
    }
}

/// Whether a list is the shards of the selected tensors, sorted and without repetition. There is
/// exactly one such list.
pub open spec fn lists_shards(names: Seq<Seq<char>>, selected: Seq<(Seq<char>, Seq<char>)>) -> bool {
    &&& crate::names::strictly_sorted(names)
    &&& forall|name: Seq<char>| #[trigger]
        names.contains(name) <==> exists|i: int|
            0 <= i < selected.len() && (#[trigger] selected[i]).1 == name
}

impl CapturedPolicySource {
    /// Says what is done next to capture the checkpoint of a model family, given what has been
    /// learned so far. Gemma 4 captures only what holds tensors of the text decoder. The shards of
    /// an index are captured in the order of their names, and a name is looked at when its turn
    /// comes, as the platform reads it. The selected weight map is sorted by tensor, as that of the index is.
    pub fn capture_with_config(
        style: PathStyle,
        model_type: &Option<ModelType>,
        single_path: &str,
        index_path: &str,
        seen: &CaptureObservations,
    ) -> (step: CaptureStep)
        requires
            seen.index matches Some(entries) ==> sorted_by_tensor(
                super::identity::map_views(entries@),
            ),
        ensures
            step matches CaptureStep::Complete(weight_map) ==> sorted_by_tensor(
                super::identity::map_views(weight_map@),
            ),
            if !family_uses_index(*model_type) || seen.has_index == Some(false) {
                single_step(*model_type, single_path@, seen.single, step)
            } else if seen.has_index is None {
                step == CaptureStep::LookForIndex
            } else {
                index_step(
                    style,
                    *model_type,
                    index_path@,
                    seen.index,
                    seen.captured as nat,
                    step,
                )
            },
    {
        if uses_index(model_type, true) {
            match seen.has_index {
                None => return CaptureStep::LookForIndex,
                Some(false) => {},
                Some(true) => {
                    return match &seen.index {
                        None => CaptureStep::ReadIndex,
                        Some(entries) => Self::capture_shards(
                            style,
                            model_type,
                            index_path,
                            entries,
                            seen.captured,
                        ),
                    };
                },
            }
        }
        match &seen.single {
            None => CaptureStep::ReadSingle,
            Some(bytes) => match select_single(model_type, single_path, bytes) {
                Ok(weight_map) => CaptureStep::Complete(weight_map),
                Err(error) => CaptureStep::Refused(error),
            },
        }
    }

    /// Says what is done next to capture the shards of an index.
    fn capture_shards(
        style: PathStyle,
        model_type: &Option<ModelType>,
        path: &str,
        entries: &Vec<(String, String)>,
        captured: usize,
    ) -> (step: CaptureStep)
        requires
            sorted_by_tensor(super::identity::map_views(entries@)),
        ensures
            step matches CaptureStep::Complete(weight_map) ==> sorted_by_tensor(
                super::identity::map_views(weight_map@),
            ),
            index_step(style, *model_type, path@, Some(*entries), captured as nat, step),
    {
        let weight_map = match select_from_index(model_type, path, entries) {
            Ok(weight_map) => weight_map,
            Err(error) => return CaptureStep::Refused(error),
        };
        let names = shard_names(&weight_map);
        proof {
            lemma_selection_is_sorted(*model_type, entries@, entries@.len());
            let selected = selected_entries(*model_type, entries@, entries@.len());
            let list = crate::names::texts(names@);
            assert forall|name: Seq<char>| #[trigger] list.contains(name) <==> exists|i: int|
                0 <= i < selected.len() && (#[trigger] selected[i]).1 == name by {
                let shards = shards_of(weight_map@);
                assert(list.contains(name) <==> shards.contains(name));
                if shards.contains(name) {
                    let i = choose|i: int| 0 <= i < shards.len() && shards[i] == name;
                    assert(selected[i].1 == name);
                }
                if exists|i: int| 0 <= i < selected.len() && (#[trigger] selected[i]).1 == name {
                    let i = choose|i: int|
                        0 <= i < selected.len() && (#[trigger] selected[i]).1 == name;
                    assert(shards[i] == name);
                }
            }
            assert(lists_shards(list, selected));
        }
        if captured >= names.len() {
            return CaptureStep::Complete(weight_map);
        }
        match next_shard(style, path, &names, captured) {
            Ok(Some(name)) => CaptureStep::ReadShard(name),
            Ok(None) => CaptureStep::Complete(weight_map),
            Err(error) => CaptureStep::Refused(error),
        }
    }
}

/// The list of shards of a selection is determined by the selection: every capture of the same
/// index reads the same shards in the same order.
pub proof fn law_capture_order_is_determined(
    left: Seq<Seq<char>>,
    right: Seq<Seq<char>>,
    selected: Seq<(Seq<char>, Seq<char>)>,
)
    requires
        lists_shards(left, selected),
        lists_shards(right, selected),
    ensures
        left == right,
{
    assert forall|name: Seq<char>| #[trigger] left.contains(name) <==> right.contains(name) by {}
    crate::names::law_sorted_names_are_unique(left, right);
}

/// Whether a captured file can be laid out in an identity.
pub open spec fn shards_fit(source: CapturedPolicySource) -> bool {
    &&& source.config_bytes@.len() <= u64::MAX
    &&& forall|i: int|
        0 <= i < source.weight_map@.len() ==> super::identity::entry_fits(
            #[trigger] super::identity::map_views(source.weight_map@)[i],
        )
    &&& forall|i: int|
        0 <= i < source.shards@.len() ==> super::identity::shard_fits(
            #[trigger] shard_identities(source.shards@)[i],
        )
}

/// Captured checkpoints of the same identity are the same, or a collision of the digest is at
/// hand: of what the identities are taken of, or of the bytes of a file.
pub proof fn law_different_sources_have_different_identities(
    left: CapturedPolicySource,
    left_opts: LoaderOpts,
    right: CapturedPolicySource,
    right_opts: LoaderOpts,
    layout: Seq<char>,
)
    requires
        shards_fit(left),
        shards_fit(right),
        super::identity::encoded_recipe(left_opts, layout).len() <= u64::MAX,
        super::identity::encoded_recipe(right_opts, layout).len() <= u64::MAX,
        crate::json::reads_back(
            super::identity::encoded_recipe(left_opts, layout),
            super::identity::recipe_fields(left_opts, layout),
        ),
        crate::json::reads_back(
            super::identity::encoded_recipe(right_opts, layout),
            super::identity::recipe_fields(right_opts, layout),
        ),
        super::identity::identity_text(
            left_opts,
            layout,
            left.config_bytes@,
            super::identity::map_views(left.weight_map@),
            shard_identities(left.shards@),
        ) == super::identity::identity_text(
            right_opts,
            layout,
            right.config_bytes@,
            super::identity::map_views(right.weight_map@),
            shard_identities(right.shards@),
        ),
    ensures
        super::identity::collide(
            left.identity_of(left_opts, layout),
            right.identity_of(right_opts, layout),
        ) || (exists|i: int|
            0 <= i < left.shards@.len() && 0 <= i < right.shards@.len()
                && super::identity::collide(
                (#[trigger] left.shards@[i]).bytes@,
                right.shards@[i].bytes@,
            )) || {
            &&& super::identity::recipe_fields(left_opts, layout)
                == super::identity::recipe_fields(right_opts, layout)
            &&& left.config_bytes@ == right.config_bytes@
            &&& super::identity::map_views(left.weight_map@) == super::identity::map_views(
                right.weight_map@,
            )
            &&& left.shards@.len() == right.shards@.len()
            &&& forall|i: int|
                0 <= i < left.shards@.len() ==> (#[trigger] left.shards@[i]).name@
                    == right.shards@[i].name@ && left.shards@[i].bytes@ == right.shards@[i].bytes@
        },
{
    let (a, b) = (shard_identities(left.shards@), shard_identities(right.shards@));
    super::identity::law_different_policies_have_different_identities(
        left_opts,
        layout,
        left.config_bytes@,
        super::identity::map_views(left.weight_map@),
        a,
        right_opts,
        layout,
        right.config_bytes@,
        super::identity::map_views(right.weight_map@),
        b,
    );
    if a == b {
        assert forall|i: int| 0 <= i < left.shards@.len() implies (#[trigger] left.shards@[i]).name@
            == right.shards@[i].name@ && (left.shards@[i].bytes@ == right.shards@[i].bytes@
            || super::identity::collide(left.shards@[i].bytes@, right.shards@[i].bytes@)) by {
            assert(a[i] == b[i]);
            assert(a[i] == shard_identity(left.shards@[i]));
            assert(b[i] == shard_identity(right.shards@[i]));
        }
    }
}

/// What separates the components of a path, and what names a drive.
pub proof fn law_path_styles(c: char, path: Seq<char>)
    ensures
        PathStyle::Unix.separates(c) <==> c == '/',
        PathStyle::Windows.separates(c) <==> c == '/' || c == '\\',
        !PathStyle::Unix.names_drive(path),
        PathStyle::Windows.names_drive(path) <==> path.len() >= 2 && path[1] == ':' && (('a'
            <= path[0] && path[0] <= 'z') || ('A' <= path[0] && path[0] <= 'Z')),
{
}

/// A shard name is accepted exactly when what stands in front of its first separator is a stem with
/// the extension of a safetensors file, it names no drive, and what follows is separators and dots
/// that each follow one.
pub proof fn law_shard_names_are_accepted(style: PathStyle, name: Seq<char>, end: int)
    requires
        0 <= end <= name.len(),
        forall|i: int| 0 <= i < end ==> !style.separates(#[trigger] name[i]),
        end < name.len() ==> style.separates(name[end]),
    ensures
        safe_shard_name(style, name) <==> {
            &&& !style.names_drive(name)
            &&& end > 12
            &&& name.subrange(end - 12, end) == ".safetensors"@
            &&& forall|i: int|
                end <= i < name.len() ==> style.separates(#[trigger] name[i]) || (name[i] == '.' && i
                    > end && style.separates(name[i - 1]))
        },
{
    lemma_component_end_is(style, name, 0, end);
    reveal_strlit(".safetensors");
    assert(".safetensors"@.len() == 12);
    if end > 12 {
        assert(name.take(end).skip(end - 12) =~= name.subrange(end - 12, end));
    }
}

proof fn lemma_component_end_is(style: PathStyle, name: Seq<char>, from: int, end: int)
    requires
        0 <= from <= end <= name.len(),
        forall|i: int| 0 <= i < end ==> !style.separates(#[trigger] name[i]),
        end < name.len() ==> style.separates(name[end]),
    ensures
        first_component_end(style, name, from) == end,
    decreases end - from,
{
    if from < end {
        lemma_component_end_is(style, name, from + 1, end);
    }
}

/// Gemma 4 selects from an index the entries of tensors of the text decoder; every other family
/// selects all of them. The order of the index is kept.
pub proof fn law_selected_entries(model_type: Option<ModelType>, entries: Seq<(String, String)>)
    ensures
        !(model_type is Some && model_type->0 is Gemma4) ==> selected_entries(
            model_type,
            entries,
            entries.len(),
        ) == entries.map_values(|entry: (String, String)| (entry.0@, entry.1@)),
        model_type is Some && model_type->0 is Gemma4 ==> selected_entries(
            model_type,
            entries,
            entries.len(),
        ) == entries.filter(
            |entry: (String, String)| "model.language_model."@.is_prefix_of(entry.0@),
        ).map_values(|entry: (String, String)| (entry.0@, entry.1@)),
{
    lemma_selected_entries(model_type, entries, entries.len());
    assert(entries.take(entries.len() as int) =~= entries);
}

proof fn lemma_selected_entries(
    model_type: Option<ModelType>,
    entries: Seq<(String, String)>,
    count: nat,
)
    requires
        count <= entries.len(),
    ensures
        !(model_type is Some && model_type->0 is Gemma4) ==> selected_entries(
            model_type,
            entries,
            count,
        ) == entries.take(count as int).map_values(
            |entry: (String, String)| (entry.0@, entry.1@),
        ),
        model_type is Some && model_type->0 is Gemma4 ==> selected_entries(
            model_type,
            entries,
            count,
        ) == entries.take(count as int).filter(
            |entry: (String, String)| "model.language_model."@.is_prefix_of(entry.0@),
        ).map_values(|entry: (String, String)| (entry.0@, entry.1@)),
    decreases count,
{
    let view = |entry: (String, String)| (entry.0@, entry.1@);
    let kept = |entry: (String, String)| "model.language_model."@.is_prefix_of(entry.0@);
    reveal(Seq::filter);
    if count == 0 {
        assert(entries.take(0) =~= Seq::empty());
        assert(entries.take(0).map_values(view) =~= Seq::empty());
        assert(entries.take(0).filter(kept).map_values(view) =~= Seq::empty());
    } else {
        let shorter = entries.take(count - 1);
        let longer = entries.take(count as int);
        let last = entries[count - 1];
        lemma_selected_entries(model_type, entries, (count - 1) as nat);
        crate::gemma4::checkpoint::law_text_tensors_start_with_the_prefix(last.0@);
        assert(longer =~= shorter.push(last));
        assert(longer.drop_last() =~= shorter);
        assert(longer.map_values(view) =~= shorter.map_values(view).push(view(last)));
        assert(shorter.filter(kept).push(last).map_values(view) =~= shorter.filter(kept).map_values(
            view,
        ).push(view(last)));
    }
}

/// The identity of a captured file is its name, its length and the digest of its bytes.
pub proof fn law_shard_identities(shards: Seq<CapturedShard>, at: int)
    requires
        0 <= at < shards.len(),
    ensures
        shard_identities(shards).len() == shards.len(),
        shard_identities(shards)[at].name == shards[at].name@,
        shard_identities(shards)[at].len == shards[at].bytes@.len() as u64,
        shard_identities(shards)[at].digest == crate::sha256::sha256(shards[at].bytes@),
{
}

/// What a capture from an index does, given the one sorted list of the shards that it selects: it
/// reads the shards of the list in turn, refuses a name that leaves the directory when its turn
/// comes, and is complete with all that it selected when the list is read.
pub proof fn law_index_decisions(
    style: PathStyle,
    model_type: Option<ModelType>,
    path: Seq<char>,
    entries: Vec<(String, String)>,
    captured: nat,
    step: CaptureStep,
    names: Seq<Seq<char>>,
)
    requires
        index_step(style, model_type, path, Some(entries), captured, step),
        selected_entries(model_type, entries@, entries@.len()).len() > 0,
        lists_shards(names, selected_entries(model_type, entries@, entries@.len())),
    ensures
        step is Complete <==> captured >= names.len(),
        step matches CaptureStep::Complete(weight_map) ==> super::identity::map_views(weight_map@)
            == selected_entries(model_type, entries@, entries@.len()),
        step is ReadShard <==> captured < names.len() && safe_shard_name(
            style,
            names[captured as int],
        ),
        step matches CaptureStep::ReadShard(name) ==> name@ == names[captured as int],
        step is Refused <==> captured < names.len() && !safe_shard_name(
            style,
            names[captured as int],
        ),
{
    let selected = selected_entries(model_type, entries@, entries@.len());
    let found = choose|found: Seq<Seq<char>>|
        {
            &&& #[trigger] lists_shards(found, selected)
            &&& if captured >= found.len() {
                step matches CaptureStep::Complete(weight_map) && super::identity::map_views(
                    weight_map@,
                ) == selected
            } else if safe_shard_name(style, found[captured as int]) {
                step matches CaptureStep::ReadShard(name) && name@ == found[captured as int]
            } else {
                step matches CaptureStep::Refused(error) && refuses_shard(
                    error,
                    path,
                    found[captured as int],
                )
            }
        };
    law_capture_order_is_determined(found, names, selected);
}

/// What a capture from a single file does: it reads the file first; Gemma 4 then lists the tensors
/// of the text decoder that the file holds, sorted, all of them in that file; every other family
/// takes the file whole.
pub proof fn law_single_file_decisions(
    model_type: Option<ModelType>,
    path: Seq<char>,
    single: Option<Vec<u8>>,
    step: CaptureStep,
    tensor: Seq<char>,
)
    requires
        single_step(model_type, path, single, step),
    ensures
        step is ReadSingle <==> single is None,
        !(model_type is Some && model_type->0 is Gemma4) && single is Some ==> {
            &&& step is Complete
            &&& step->Complete_0@.len() == 1
            &&& step->Complete_0@[0].0@ == "*"@
            &&& step->Complete_0@[0].1@ == "model.safetensors"@
        },
        model_type is Some && model_type->0 is Gemma4 && step is Complete ==> {
            let weight_map = step->Complete_0@;
            let held = crate::tensor_file::safetensors_names(single->0@);
            &&& single is Some
            &&& held is Some
            &&& weight_map.len() > 0
            &&& forall|i: int|
                0 <= i < weight_map.len() ==> (#[trigger] weight_map[i]).1@
                    == "model.safetensors"@
            &&& (exists|i: int| 0 <= i < weight_map.len() && (#[trigger] weight_map[i]).0@ == tensor)
                <==> held->0.contains(tensor) && "model.language_model."@.is_prefix_of(tensor)
        },
{
    crate::gemma4::checkpoint::law_text_tensors_start_with_the_prefix(tensor);
    if let CaptureStep::Complete(map) = step {
        let weight_map = map@;
        let views = super::identity::map_views(weight_map);
        assert forall|i: int| 0 <= i < weight_map.len() implies #[trigger] views[i] == (
            weight_map[i].0@,
            weight_map[i].1@,
        ) by {}
        if model_type is Some && model_type->0 is Gemma4 {
            let tensors = views.map_values(|entry: (Seq<char>, Seq<char>)| entry.0);
            assert forall|i: int| 0 <= i < weight_map.len() implies (#[trigger] weight_map[i]).1@
                == "model.safetensors"@ by {
                assert(views[i].1 == SINGLE_FILE@);
            }
            assert forall|i: int| 0 <= i < weight_map.len() implies #[trigger] tensors[i]
                == weight_map[i].0@ by {
                assert(views[i].0 == weight_map[i].0@);
            }
            if tensors.contains(tensor) {
                let i = choose|i: int| 0 <= i < tensors.len() && tensors[i] == tensor;
                assert(weight_map[i].0@ == tensor);
            }
            if exists|i: int| 0 <= i < weight_map.len() && (#[trigger] weight_map[i]).0@ == tensor {
                let i = choose|i: int|
                    0 <= i < weight_map.len() && (#[trigger] weight_map[i]).0@ == tensor;
                assert(tensors[i] == tensor);
            }
        } else {
            assert(views[0] == ("*"@, SINGLE_FILE@));
        }
    }
}

/// The shards of a weight map are what its entries name.
pub proof fn law_shards_of_a_map(weight_map: Seq<(String, String)>, name: Seq<char>)
    ensures
        shards_of(weight_map).contains(name) <==> exists|i: int|
            0 <= i < weight_map.len() && (#[trigger] weight_map[i]).1@ == name,
{
    let shards = shards_of(weight_map);
    if shards.contains(name) {
        let i = choose|i: int| 0 <= i < shards.len() && shards[i] == name;
        assert(weight_map[i].1@ == name);
    }
    if exists|i: int| 0 <= i < weight_map.len() && (#[trigger] weight_map[i]).1@ == name {
        let i = choose|i: int| 0 <= i < weight_map.len() && (#[trigger] weight_map[i]).1@ == name;
        assert(shards[i] == name);
    }
}

/// An index is used by every family but Qwen 3 and a config that declares none.
pub proof fn law_families_with_an_index(model_type: Option<ModelType>)
    ensures
        !family_uses_index(model_type) <==> model_type is None || model_type->0 is Qwen3,
{
}

} // verus!
