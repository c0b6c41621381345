//! Checkpoint metadata of a Hugging Face model: the end-of-sequence ids and the vocabulary size
//! that `config.json` declares, how a run picks its end-of-sequence id out of them, and the
//! ChatML framing that instruct models of the Qwen family expect.
use crate::binary64::Real64;
use crate::json::{parse_json, Json, JsonTree};
use crate::text::decimal;
use vstd::prelude::*;

verus! {

/// Why checkpoint metadata cannot be used.
#[derive(Debug)]
#[non_exhaustive]
pub enum HfError {
    /// `config.json` is not a JSON document.
    Parse {
        /// The path of the file.
        path: String,
        /// What the parser reports.
        source: serde_json::Error,
    },
    /// `eos_token_id` exists but is neither a token id nor a list of token ids.
    InvalidEos {
        /// The config that declares it.
        path: String,
        /// The shape or range failure.
        reason: String,
    },
    /// A caller that takes one id found several.
    AmbiguousEos {
        /// The config that declares them.
        path: String,
        /// The declared ids, in checkpoint order.
        token_ids: Vec<u32>,
    },
    /// `vocab_size` is absent or not a positive integer that fits a `usize`.
    InvalidVocabSize {
        /// The config that declares it.
        path: String,
        /// The shape or range failure.
        reason: String,
    },
    /// The requested mode cannot be resolved against the metadata.
    InvalidEosSelection {
        /// The config whose ids were selected from.
        path: String,
        /// The missing, ambiguous, membership or vocabulary failure.
        reason: String,
    },
    /// Ranks did not resolve the same end-of-sequence id.
    EosConsensus {
        /// The collective failure or the disagreement.
        reason: String,
    },
}

/// End-of-sequence ids that a checkpoint declares.
#[derive(Debug, Clone, PartialEq, Eq)]
pub enum CheckpointEos {
    /// No id is declared.
    Missing,
    /// Exactly one id is declared.
    Single(u32),
    /// Several distinct ids are declared and one has to be selected.
    Multiple(Vec<u32>),
}

/// What a [`CheckpointEos`] declares, over a mathematical sequence.
#[verifier::ext_equal]
pub enum EosDeclaration {
    Missing,
    Single(u32),
    Multiple(Seq<u32>),
}

impl View for CheckpointEos {
    type V = EosDeclaration;

    open spec fn view(&self) -> EosDeclaration {
        match *self {
            CheckpointEos::Missing => EosDeclaration::Missing,
            CheckpointEos::Single(id) => EosDeclaration::Single(id),
            CheckpointEos::Multiple(ids) => EosDeclaration::Multiple(ids@),
        }
    }
}

/// How a run picks its end-of-sequence id.
#[derive(Debug, Clone, Copy, PartialEq, Eq, Structural)]
pub enum CheckpointEosSelection {
    /// The one id that the checkpoint declares.
    CheckpointDefault,
    /// This id: it must be a member where the checkpoint declares several.
    Explicit(u32),
    /// None: continuations run to full width.
    Disabled,
}

/// The vocabulary of a loaded tokenizer: the ids that its tokens have.
#[derive(Debug, Clone)]
pub struct TokenizerVocabulary {
    /// One id per token.
    pub token_ids: Vec<u32>,
}

impl TokenizerVocabulary {
    /// Whether some token has the id.
    pub fn contains_id(&self, id: u32) -> (found: bool)
        ensures
            found == self.token_ids@.contains(id),
    {
        holds_id(&self.token_ids, id)
    }

    /// The number of tokens.
    pub fn vocab_size(&self) -> (count: usize)
        ensures
            count == self.token_ids@.len(),
    {
        self.token_ids.len()
    }
}

/// Whether a list holds an id.
fn holds_id(ids: &Vec<u32>, id: u32) -> (found: bool)
    ensures
        found == ids@.contains(id),
{
    let mut at: usize = 0;
    while at < ids.len()
        invariant
            at <= ids@.len(),
            forall|i: int| 0 <= i < at ==> ids@[i] != id,
        decreases ids@.len() - at,
    {
        if ids[at] == id {
            return true;
        }
        at = at + 1;
    }
    false
}

/// A field of the nested `text_config`, or else of the document itself.
pub open spec fn preferred(document: JsonTree, field: Seq<char>) -> Option<JsonTree> {
    let nested = match document.field("text_config"@) {
        Some(text) => text.field(field),
        None => None,
    };
    if nested is Some {
        nested
    } else {
        document.field(field)
    }
}

/// The token id that a value stands for: a number that fits a `u32`.
pub open spec fn token_id(value: JsonTree) -> Option<u32> {
    match value {
        JsonTree::Number(Some(n)) => if n <= u32::MAX {
            Some(n as u32)
        } else {
            None
        },
        _ => None,
    }
}

/// The ids of the first `count` entries of a list, or the first failure among them: an entry
/// that is no token id, or one that repeats an earlier id.
pub open spec fn listed_ids(values: Seq<JsonTree>, count: nat) -> Result<Seq<u32>, Seq<char>>
    decreases count,
{
    if count == 0 {
        Ok(Seq::empty())
    } else {
        let last = (count - 1) as nat;
        match listed_ids(values, last) {
            Err(reason) => Err(reason),
            Ok(ids) => match token_id(values[last as int]) {
                None => Err(
                    "EOS token list entry "@ + crate::text::decimal_text(last)
                        + " is not a u32 integer"@,
                ),
                Some(id) => if ids.contains(id) {
                    Err(
                        "EOS token list contains duplicate id "@ + crate::text::decimal_text(
                            id as nat,
                        ),
                    )
                } else {
                    Ok(ids.push(id))
                },
            },
        }
    }
}

/// The end-of-sequence ids that a document declares, or what is wrong with them.
pub open spec fn declared_eos(document: JsonTree) -> Result<EosDeclaration, Seq<char>> {
    match preferred(document, "eos_token_id"@) {
        None => Ok(EosDeclaration::Missing),
        Some(raw) => match token_id(raw) {
            Some(id) => Ok(EosDeclaration::Single(id)),
            None => match raw {
                JsonTree::List(values) => if values.len() == 0 {
                    Err("EOS token list must not be empty"@)
                } else {
                    match listed_ids(values, values.len()) {
                        Err(reason) => Err(reason),
                        Ok(ids) => if ids.len() == 1 {
                            Ok(EosDeclaration::Single(ids[0]))
                        } else {
                            Ok(EosDeclaration::Multiple(ids))
                        },
                    }
                },
                _ => Err("expected a non-negative integer or a non-empty integer list"@),
            },
        },
    }
}

/// The vocabulary size that a document declares, or what is wrong with it.
pub open spec fn declared_vocab_size(document: JsonTree) -> Result<nat, Seq<char>> {
    match preferred(document, "vocab_size"@) {
        None => Err("field is missing"@),
        Some(raw) => match raw {
            JsonTree::Number(Some(n)) => if n == 0 {
                Err("must be >= 1"@)
            } else if n > usize::MAX {
                Err("does not fit usize"@)
            } else {
                Ok(n as nat)
            },
            _ => Err("expected a positive integer"@),
        },
    }
}

/// Finds a field of the nested `text_config`, or else of the document itself.
pub fn preferred_field<'a>(json: &'a Json, field: &str) -> (found: Option<&'a Json>)
    ensures
        match found {
            Some(value) => preferred(json@, field@) == Some(value@),
            None => preferred(json@, field@) is None,
        },
        json@.field("text_config"@) matches Some(text) && text.field(field@) is Some ==> found is Some
            && Some(found->0@) == json@.field("text_config"@)->0.field(field@),
        !(json@.field("text_config"@) matches Some(text) && text.field(field@) is Some) ==> (found is Some
            <==> json@.field(field@) is Some) && (found is Some ==> Some(found->0@) == json@.field(
            field@,
        )),
{
    if let Some(text) = json.get("text_config") {
        if let Some(value) = text.get(field) {
            return Some(value);
        }
    }
    json.get(field)
}

/// Reads a token id.
pub fn parse_token_id(value: &Json) -> (id: Option<u32>)
    ensures
        id == token_id(value@),
        id matches Some(n) ==> value@ == JsonTree::Number(Some(n as u64)),
        id is None ==> !(value@ matches JsonTree::Number(Some(n)) && n <= u32::MAX),
{
    match value {
        Json::Number(Some(n)) => if *n <= u32::MAX as u64 {
            Some(*n as u32)
        } else {
            None
        },
        _ => None,
    }
}

/// Reads the end-of-sequence ids that a document declares.
pub fn eos_from_json(json: &Json) -> (eos: Result<CheckpointEos, String>)
    ensures
        match eos {
            Ok(declared) => declared_eos(json@) == Ok::<EosDeclaration, Seq<char>>(declared@),
            Err(reason) => declared_eos(json@) == Err::<EosDeclaration, Seq<char>>(reason@),
        },
{
    let raw = match preferred_field(json, "eos_token_id") {
        None => return Ok(CheckpointEos::Missing),
        Some(raw) => raw,
    };
    if let Some(id) = parse_token_id(raw) {
        return Ok(CheckpointEos::Single(id));
    }
    let values = match raw {
        Json::List(values) => values,
        _ => return Err(
            String::from_str("expected a non-negative integer or a non-empty integer list"),
        ),
    };
    if values.len() == 0 {
        return Err(String::from_str("EOS token list must not be empty"));
    }
    let ghost trees = raw@->List_0;
    let mut ids: Vec<u32> = Vec::new();
    let mut index: usize = 0;
    while index < values.len()
        invariant
            index <= values@.len() == trees.len(),
            values@.len() > 0,
            forall|i: int| 0 <= i < trees.len() ==> #[trigger] trees[i] == values@[i]@,
            listed_ids(trees, index as nat) == Ok::<Seq<u32>, Seq<char>>(ids@),
            preferred(json@, "eos_token_id"@) == Some(JsonTree::List(trees)),
        decreases values@.len() - index,
    {
        assert(trees[index as int] == values@[index as int]@);
        match parse_token_id(&values[index]) {
            None => {
                let mut reason = String::from_str("EOS token list entry ");
                reason.append(&decimal(index as u64));
                reason.append(" is not a u32 integer");
                proof {
                    lemma_list_fault_lasts(trees, (index + 1) as nat, trees.len());
                }
                return Err(reason);
            },
            Some(id) => {
                if holds_id(&ids, id) {
                    let mut reason = String::from_str("EOS token list contains duplicate id ");
                    reason.append(&decimal(id as u64));
                    proof {
                        lemma_list_fault_lasts(trees, (index + 1) as nat, trees.len());
                    }
                    return Err(reason);
                }
                ids.push(id);
            },
        }
        index = index + 1;
    }
    if ids.len() == 1 {
        Ok(CheckpointEos::Single(ids[0]))
    } else {
        Ok(CheckpointEos::Multiple(ids))
    }
}

/// A failure among the first entries of a list is the failure of every longer part.
proof fn lemma_list_fault_lasts(values: Seq<JsonTree>, part: nat, whole: nat)
    requires
        part <= whole,
        listed_ids(values, part) is Err,
    ensures
        listed_ids(values, whole) == listed_ids(values, part),
    decreases whole,
{
    if part < whole {
        lemma_list_fault_lasts(values, part, (whole - 1) as nat);
    }
}

/// Reads the vocabulary size that a document declares.
pub fn vocab_size_from_json(json: &Json) -> (size: Result<usize, String>)
    ensures
        match size {
            Ok(count) => declared_vocab_size(json@) == Ok::<nat, Seq<char>>(count as nat),
            Err(reason) => declared_vocab_size(json@) == Err::<nat, Seq<char>>(reason@),
        },
{
    match preferred_field(json, "vocab_size") {
        None => Err(String::from_str("field is missing")),
        Some(Json::Number(Some(value))) => if *value == 0 {
            Err(String::from_str("must be >= 1"))
        } else if *value > usize::MAX as u64 {
            Err(String::from_str("does not fit usize"))
        } else {
            Ok(*value as usize)
        },
        Some(_) => Err(String::from_str("expected a positive integer")),
    }
}

/// A field that `text_config` does not hold is read from the top level, as in a document without
/// a `text_config`; one that it holds is read there, as from a document that holds it alone.
pub proof fn law_nested_fields_come_first(document: JsonTree, plain: JsonTree, field: Seq<char>)
    requires
        plain.field("text_config"@) is None,
    ensures
        (document.field("text_config"@) is None || document.field("text_config"@)->0.field(field) is None)
            && plain.field(field) == document.field(field) ==> preferred(document, field)
            == preferred(plain, field),
        (document.field("text_config"@) is Some && document.field("text_config"@)->0.field(field) is Some)
            && plain.field(field) == document.field("text_config"@)->0.field(field) ==> preferred(
            document,
            field,
        ) == preferred(plain, field),
        preferred(plain, field) == plain.field(field),
{
}

/// The ids that a document declares are those of a document without `text_config` that holds
/// the nested field where there is one, and else the top-level field. Nothing else in the
/// document matters.
pub proof fn law_declared_eos_is_nested_or_top_level(document: JsonTree, plain: JsonTree)
    requires
        plain.field("text_config"@) is None,
        plain.field("eos_token_id"@) == if document.field("text_config"@) is Some
            && document.field("text_config"@)->0.field("eos_token_id"@) is Some {
            document.field("text_config"@)->0.field("eos_token_id"@)
        } else {
            document.field("eos_token_id"@)
        },
    ensures
        declared_eos(document) == declared_eos(plain),
        declared_eos(document) == Ok::<EosDeclaration, Seq<char>>(EosDeclaration::Missing)
            <==> plain.field("eos_token_id"@) is None,
{
    law_nested_fields_come_first(document, plain, "eos_token_id"@);
}

/// The vocabulary size that a document declares is that of a document without `text_config` that
/// holds the nested field where there is one, and else the top-level field.
pub proof fn law_declared_vocab_size_is_nested_or_top_level(document: JsonTree, plain: JsonTree)
    requires
        plain.field("text_config"@) is None,
        plain.field("vocab_size"@) == if document.field("text_config"@) is Some
            && document.field("text_config"@)->0.field("vocab_size"@) is Some {
            document.field("text_config"@)->0.field("vocab_size"@)
        } else {
            document.field("vocab_size"@)
        },
    ensures
        declared_vocab_size(document) == declared_vocab_size(plain),
{
    law_nested_fields_come_first(document, plain, "vocab_size"@);
}

/// What a document with a top-level `vocab_size` alone declares: its whole number, when it is
/// neither zero nor too large.
pub proof fn law_vocab_size_is_the_number(document: JsonTree)
    requires
        document.field("text_config"@) is None,
    ensures
        declared_vocab_size(document) matches Ok(size) ==> document.field("vocab_size"@) == Some(
            JsonTree::Number(Some(size as u64)),
        ) && 1 <= size <= usize::MAX,
        declared_vocab_size(document) is Ok <==> (document.field("vocab_size"@) matches Some(
            JsonTree::Number(Some(n)),
        ) && 1 <= n <= usize::MAX),
{
}

/// What a document with a top-level `eos_token_id` alone declares: nothing, one id, or a list of
/// distinct ids in their order.
pub proof fn law_declared_ids_are_the_values(document: JsonTree)
    requires
        document.field("text_config"@) is None,
    ensures
        declared_eos(document) matches Ok(EosDeclaration::Single(id)) ==> document.field(
            "eos_token_id"@,
        ) == Some(JsonTree::Number(Some(id as u64))) || document.field("eos_token_id"@) == Some(
            JsonTree::List(seq![JsonTree::Number(Some(id as u64))]),
        ),
        declared_eos(document) matches Ok(EosDeclaration::Multiple(ids)) ==> ids.len() >= 2
            && ids.no_duplicates() && document.field("eos_token_id"@) == Some(
            JsonTree::List(
                Seq::new(ids.len(), |i: int| JsonTree::Number(Some(ids[i] as u64))),
            ),
        ),
        document.field("eos_token_id"@) matches Some(JsonTree::Number(Some(n))) && n <= u32::MAX
            ==> declared_eos(document) == Ok::<EosDeclaration, Seq<char>>(
            EosDeclaration::Single(document.field("eos_token_id"@)->0->Number_0->0 as u32),
        ),
        forall|ids: Seq<u32>|
            #![trigger ids.no_duplicates()]
            ids.len() >= 1 && ids.no_duplicates() && document.field("eos_token_id"@) == Some(
                JsonTree::List(
                    Seq::new(ids.len(), |i: int| JsonTree::Number(Some(ids[i] as u64))),
                ),
            ) ==> declared_eos(document) == Ok::<EosDeclaration, Seq<char>>(
                if ids.len() == 1 {
                    EosDeclaration::Single(ids[0])
                } else {
                    EosDeclaration::Multiple(ids)
                },
            ),
{
    if let Some(JsonTree::List(values)) = document.field("eos_token_id"@) {
        law_listed_ids_are_the_values(values, values.len());
        if let Ok(ids) = listed_ids(values, values.len()) {
            assert(values =~= Seq::new(
                ids.len(),
                |i: int| JsonTree::Number(Some(ids[i] as u64)),
            ));
            if ids.len() == 1 {
                assert(values =~= seq![JsonTree::Number(Some(ids[0] as u64))]);
            }
        }
        assert forall|ids: Seq<u32>|
            #![trigger ids.no_duplicates()]
            ids.len() >= 1 && ids.no_duplicates() && values == Seq::new(
                ids.len(),
                |i: int| JsonTree::Number(Some(ids[i] as u64)),
            ) implies declared_eos(document) == Ok::<EosDeclaration, Seq<char>>(
            if ids.len() == 1 {
                EosDeclaration::Single(ids[0])
            } else {
                EosDeclaration::Multiple(ids)
            },
        ) by {
            assert forall|i: int| 0 <= i < values.len() implies #[trigger] values[i]
                == JsonTree::Number(Some(ids[i] as u64)) by {}
            lemma_distinct_ids_are_listed(values, ids, values.len());
            assert(ids.take(values.len() as int) =~= ids);
        }
    }
}

/// A list gives its ids in their order, none twice; a list that does not is refused for its
/// first entry that is no id or repeats one before it.
pub proof fn law_listed_ids_are_the_values(values: Seq<JsonTree>, count: nat)
    requires
        count <= values.len(),
    ensures
        listed_ids(values, count) matches Ok(ids) ==> {
            &&& ids.len() == count
            &&& forall|i: int|
                0 <= i < count ==> values[i] == JsonTree::Number(Some(#[trigger] ids[i] as u64))
            &&& ids.no_duplicates()
        },
        listed_ids(values, count) matches Err(reason) ==> exists|at: int|
            {
                &&& 0 <= at < count
                &&& #[trigger] listed_ids(values, at as nat) is Ok
                &&& if values[at] is Number && values[at]->Number_0 is Some
                    && values[at]->Number_0->0 <= u32::MAX {
                    let id = values[at]->Number_0->0;
                    &&& exists|before: int| 0 <= before < at && values[before] == values[at]
                    &&& reason == "EOS token list contains duplicate id "@
                        + crate::text::decimal_text(id as nat)
                } else {
                    reason == "EOS token list entry "@ + crate::text::decimal_text(at as nat)
                        + " is not a u32 integer"@
                }
            },
    decreases count,
{
    if count > 0 {
        let last = (count - 1) as nat;
        law_listed_ids_are_the_values(values, last);
        if let Ok(ids) = listed_ids(values, last) {
            if let Some(id) = token_id(values[last as int]) {
                if ids.contains(id) {
                    let before = choose|i: int| 0 <= i < ids.len() && ids[i] == id;
                    assert(values[before] == JsonTree::Number(Some(ids[before] as u64)));
                    assert(values[before] == values[last as int]);
                }
            }
        }
    }
}

proof fn lemma_distinct_ids_are_listed(values: Seq<JsonTree>, ids: Seq<u32>, count: nat)
    requires
        count <= values.len() == ids.len(),
        ids.no_duplicates(),
        forall|i: int|
            0 <= i < values.len() ==> #[trigger] values[i] == JsonTree::Number(
                Some(ids[i] as u64),
            ),
    ensures
        listed_ids(values, count) == Ok::<Seq<u32>, Seq<char>>(ids.take(count as int)),
    decreases count,
{
    if count > 0 {
        let last = count - 1;
        lemma_distinct_ids_are_listed(values, ids, last as nat);
        assert(values[last] == JsonTree::Number(Some(ids[last] as u64)));
        assert(ids.take(last).push(ids[last]) =~= ids.take(count as int));
    } else {
        assert(ids.take(0) =~= Seq::empty());
    }
}

/// The first `count` ids in decimal, separated by commas.
pub open spec fn joined_ids(ids: Seq<u32>, count: nat) -> Seq<char>
    decreases count,
{
    if count == 0 {
        Seq::empty()
    } else if count == 1 {
        crate::text::decimal_text(ids[0] as nat)
    } else {
        joined_ids(ids, (count - 1) as nat) + ", "@ + crate::text::decimal_text(
            ids[count - 1] as nat,
        )
    }
}

/// A list of ids as std's `Debug` renders it.
pub open spec fn ids_text(ids: Seq<u32>) -> Seq<char> {
    "["@ + joined_ids(ids, ids.len()) + "]"@
}

/// Renders a list of ids as std's `Debug` does.
pub fn list_ids(ids: &Vec<u32>) -> (text: String)
    ensures
        text@ == ids_text(ids@),
{
    let mut text = String::from_str("[");
    let mut done: usize = 0;
    while done < ids.len()
        invariant
            done <= ids@.len(),
            text@ == "["@ + joined_ids(ids@, done as nat),
        decreases ids@.len() - done,
    {
        let ghost before = text@;
        if done > 0 {
            text.append(", ");
        }
        text.append(&decimal(ids[done] as u64));
        done = done + 1;
        assert(text@ =~= "["@ + joined_ids(ids@, done as nat));
    }
    text.append("]");
    text
}

/// What comes of resolving a checkpoint's end-of-sequence id.
pub enum EosOutcome {
    /// The id to retire rows on, or none.
    Resolved(Option<u32>),
    /// The config is no JSON document.
    Unparsed,
    /// The declaration is malformed.
    InvalidEos(Seq<char>),
    /// Several ids are declared where one is taken.
    AmbiguousEos(Seq<u32>),
    /// The declared vocabulary size is malformed.
    InvalidVocabSize(Seq<char>),
    /// The selection does not fit the metadata.
    InvalidSelection(Seq<char>),
}

/// Whether a result reports an outcome, under the path that was read.
pub open spec fn reports(
    result: Result<Option<u32>, HfError>,
    path: Seq<char>,
    outcome: EosOutcome,
) -> bool {
    match result {
        Ok(id) => outcome == EosOutcome::Resolved(id),
        Err(HfError::Parse { path: named, .. }) => named@ == path && outcome == EosOutcome::Unparsed,
        Err(HfError::InvalidEos { path: named, reason }) => named@ == path && outcome
            == EosOutcome::InvalidEos(reason@),
        Err(HfError::AmbiguousEos { path: named, token_ids }) => named@ == path && outcome
            == EosOutcome::AmbiguousEos(token_ids@),
        Err(HfError::InvalidVocabSize { path: named, reason }) => named@ == path && outcome
            == EosOutcome::InvalidVocabSize(reason@),
        Err(HfError::InvalidEosSelection { path: named, reason }) => named@ == path && outcome
            == EosOutcome::InvalidSelection(reason@),
        Err(HfError::EosConsensus { .. }) => false,
    }
}

/// What a caller that takes at most one id reads out of a document.
pub open spec fn single_eos(document: JsonTree) -> EosOutcome {
    match declared_eos(document) {
        Err(reason) => EosOutcome::InvalidEos(reason),
        Ok(EosDeclaration::Missing) => EosOutcome::Resolved(None),
        Ok(EosDeclaration::Single(id)) => EosOutcome::Resolved(Some(id)),
        Ok(EosDeclaration::Multiple(ids)) => EosOutcome::AmbiguousEos(ids),
    }
}

/// The id that a mode selects out of a declaration, or why it selects none.
pub open spec fn selected_eos(
    declaration: EosDeclaration,
    selection: CheckpointEosSelection,
) -> Result<u32, Seq<char>> {
    match selection {
        CheckpointEosSelection::Explicit(id) => match declaration {
            EosDeclaration::Multiple(ids) => if ids.contains(id) {
                Ok(id)
            } else {
                Err(
                    "explicit EOS id "@ + crate::text::decimal_text(id as nat)
                        + " is not a member of the checkpoint's declared EOS ids "@ + ids_text(ids),
                )
            },
            _ => Ok(id),
        },
        _ => match declaration {
            EosDeclaration::Single(id) => Ok(id),
            EosDeclaration::Missing => Err(
                "checkpoint declares no eos_token_id; select one explicit id or disable EOS explicitly"@,
            ),
            EosDeclaration::Multiple(ids) => Err(
                "checkpoint declares multiple EOS ids "@ + ids_text(ids)
                    + "; select one declared id explicitly or disable EOS explicitly"@,
            ),
        },
    }
}

/// What a mode resolves to, given the config document and the tokenizer's ids.
pub open spec fn resolved_eos(
    document: JsonTree,
    token_ids: Seq<u32>,
    selection: CheckpointEosSelection,
) -> EosOutcome {
    if selection == CheckpointEosSelection::Disabled {
        EosOutcome::Resolved(None)
    } else {
        match declared_eos(document) {
            Err(reason) => EosOutcome::InvalidEos(reason),
            Ok(declaration) => match selected_eos(declaration, selection) {
                Err(reason) => EosOutcome::InvalidSelection(reason),
                Ok(id) => match declared_vocab_size(document) {
                    Err(reason) => EosOutcome::InvalidVocabSize(reason),
                    Ok(size) => if id >= size {
                        EosOutcome::InvalidSelection(
                            "EOS id "@ + crate::text::decimal_text(id as nat)
                                + " is outside model vocab_size "@ + crate::text::decimal_text(size),
                        )
                    } else if !token_ids.contains(id) {
                        EosOutcome::InvalidSelection(
                            "EOS id "@ + crate::text::decimal_text(id as nat)
                                + " is not present in the loaded tokenizer vocabulary (token count "@
                                + crate::text::decimal_text(token_ids.len()) + ")"@,
                        )
                    } else {
                        EosOutcome::Resolved(Some(id))
                    },
                },
            },
        }
    }
}

/// Reads all end-of-sequence ids that the config at `path`, of the given bytes, declares. A
/// nested `text_config.eos_token_id` has precedence. A list must be non-empty and hold distinct
/// ids.
pub fn checkpoint_eos_from_config(path: &str, bytes: &[u8]) -> (eos: Result<CheckpointEos, HfError>)
    ensures
        match eos {
            Ok(declared) => crate::json::json_document(bytes@) matches Some(document)
                && declared_eos(document) == Ok::<EosDeclaration, Seq<char>>(declared@),
            Err(HfError::Parse { path: named, .. }) => named@ == path@
                && crate::json::json_document(bytes@) is None,
            Err(HfError::InvalidEos { path: named, reason }) => named@ == path@
                && crate::json::json_document(bytes@) is Some && declared_eos(
                crate::json::json_document(bytes@)->0,
            ) == Err::<EosDeclaration, Seq<char>>(reason@),
            Err(_) => false,
        },
{
    match parse_json(bytes) {
        Err(source) => Err(HfError::Parse { path: path.to_owned(), source }),
        Ok(json) => match eos_from_json(&json) {
            Ok(declared) => Ok(declared),
            Err(reason) => Err(HfError::InvalidEos { path: path.to_owned(), reason }),
        },
    }
}

/// Reads the one end-of-sequence id that the config at `path`, of the given bytes, declares, or
/// none. A declaration of several ids is refused.
pub fn eos_from_config(path: &str, bytes: &[u8]) -> (eos: Result<Option<u32>, HfError>)
    ensures
        reports(
            eos,
            path@,
            match crate::json::json_document(bytes@) {
                None => EosOutcome::Unparsed,
                Some(document) => single_eos(document),
            },
        ),
{
    match checkpoint_eos_from_config(path, bytes) {
        Err(error) => Err(error),
        Ok(CheckpointEos::Missing) => Ok(None),
        Ok(CheckpointEos::Single(id)) => Ok(Some(id)),
        Ok(CheckpointEos::Multiple(token_ids)) => Err(
            HfError::AmbiguousEos { path: path.to_owned(), token_ids },
        ),
    }
}

/// Reads the vocabulary size that the config at `path`, of the given bytes, declares. A nested
/// `text_config.vocab_size` has precedence.
pub fn vocab_size_from_config(path: &str, bytes: &[u8]) -> (size: Result<usize, HfError>)
    ensures
        match size {
            Ok(count) => crate::json::json_document(bytes@) matches Some(document)
                && declared_vocab_size(document) == Ok::<nat, Seq<char>>(count as nat),
            Err(HfError::Parse { path: named, .. }) => named@ == path@
                && crate::json::json_document(bytes@) is None,
            Err(HfError::InvalidVocabSize { path: named, reason }) => named@ == path@
                && crate::json::json_document(bytes@) is Some && declared_vocab_size(
                crate::json::json_document(bytes@)->0,
            ) == Err::<nat, Seq<char>>(reason@),
            Err(_) => false,
        },
{
    match parse_json(bytes) {
        Err(source) => Err(HfError::Parse { path: path.to_owned(), source }),
        Ok(json) => match vocab_size_from_json(&json) {
            Ok(count) => Ok(count),
            Err(reason) => Err(HfError::InvalidVocabSize { path: path.to_owned(), reason }),
        },
    }
}

/// Selects an id out of a declaration.
fn select_eos(checkpoint: &CheckpointEos, selection: CheckpointEosSelection) -> (selected: Result<
    u32,
    String,
>)
    ensures
        match selected {
            Ok(id) => selected_eos(checkpoint@, selection) == Ok::<u32, Seq<char>>(id),
            Err(reason) => selected_eos(checkpoint@, selection) == Err::<u32, Seq<char>>(reason@),
        },
{
    match selection {
        CheckpointEosSelection::Explicit(id) => match checkpoint {
            CheckpointEos::Multiple(ids) => if holds_id(ids, id) {
                Ok(id)
            } else {
                let mut reason = String::from_str("explicit EOS id ");
                reason.append(&decimal(id as u64));
                reason.append(" is not a member of the checkpoint's declared EOS ids ");
                reason.append(&list_ids(ids));
                Err(reason)
            },
            _ => Ok(id),
        },
        _ => match checkpoint {
            CheckpointEos::Single(id) => Ok(*id),
            CheckpointEos::Missing => Err(
                String::from_str(
                    "checkpoint declares no eos_token_id; select one explicit id or disable EOS explicitly",
                ),
            ),
            CheckpointEos::Multiple(ids) => {
                let mut reason = String::from_str("checkpoint declares multiple EOS ids ");
                reason.append(&list_ids(ids));
                reason.append("; select one declared id explicitly or disable EOS explicitly");
                Err(reason)
            },
        },
    }
}

/// Resolves a mode against a config document and a tokenizer.
pub fn resolve_eos_from_json(
    path: &str,
    json: &Json,
    tokenizer: &TokenizerVocabulary,
    selection: CheckpointEosSelection,
) -> (eos: Result<Option<u32>, HfError>)
    ensures
        reports(eos, path@, resolved_eos(json@, tokenizer.token_ids@, selection)),
{
    if selection == CheckpointEosSelection::Disabled {
        return Ok(None);
    }
    let checkpoint = match eos_from_json(json) {
        Ok(checkpoint) => checkpoint,
        Err(reason) => return Err(HfError::InvalidEos { path: path.to_owned(), reason }),
    };
    let selected: u32 = match select_eos(&checkpoint, selection) {
        Ok(id) => id,
        Err(reason) => return Err(HfError::InvalidEosSelection { path: path.to_owned(), reason }),
    };
    let model_vocab: usize = match vocab_size_from_json(json) {
        Ok(size) => size,
        Err(reason) => return Err(HfError::InvalidVocabSize { path: path.to_owned(), reason }),
    };
    if selected as usize >= model_vocab {
        let mut reason = String::from_str("EOS id ");
        reason.append(&decimal(selected as u64));
        reason.append(" is outside model vocab_size ");
        reason.append(&decimal(model_vocab as u64));
        return Err(HfError::InvalidEosSelection { path: path.to_owned(), reason });
    }
    if !tokenizer.contains_id(selected) {
        let mut reason = String::from_str("EOS id ");
        reason.append(&decimal(selected as u64));
        reason.append(" is not present in the loaded tokenizer vocabulary (token count ");
        reason.append(&decimal(tokenizer.vocab_size() as u64));
        reason.append(")");
        return Err(HfError::InvalidEosSelection { path: path.to_owned(), reason });
    }
    Ok(Some(selected))
}

/// Resolves a mode against the config at `path`, of the given bytes, and a tokenizer.
///
/// The checkpoint's default requires exactly one declared id. An explicit id may stand in for a
/// missing declaration or override a single one, and must be a member of several. Every id must
/// fit the model vocabulary and be the id of a token. Only a disabled mode gives none, and it
/// gives it whatever the config holds.
pub fn resolve_checkpoint_eos(
    path: &str,
    bytes: &[u8],
    tokenizer: &TokenizerVocabulary,
    selection: CheckpointEosSelection,
) -> (eos: Result<Option<u32>, HfError>)
    ensures
        reports(
            eos,
            path@,
            if selection == CheckpointEosSelection::Disabled {
                EosOutcome::Resolved(None)
            } else {
                match crate::json::json_document(bytes@) {
                    None => EosOutcome::Unparsed,
                    Some(document) => resolved_eos(document, tokenizer.token_ids@, selection),
                }
            },
        ),
{
    if selection == CheckpointEosSelection::Disabled {
        return Ok(None);
    }
    match parse_json(bytes) {
        Err(source) => Err(HfError::Parse { path: path.to_owned(), source }),
        Ok(json) => resolve_eos_from_json(path, &json, tokenizer, selection),
    }
}

/// Only a disabled mode resolves to no id, and a resolved id fits the model vocabulary, is the
/// id of a token, is the explicit one where one was given, and is declared where several are.
pub proof fn law_resolved_eos(
    document: JsonTree,
    token_ids: Seq<u32>,
    selection: CheckpointEosSelection,
)
    ensures
        resolved_eos(document, token_ids, selection) == EosOutcome::Resolved(None) <==> selection
            == CheckpointEosSelection::Disabled,
        resolved_eos(document, token_ids, selection) matches EosOutcome::Resolved(Some(id)) ==> {
            &&& declared_vocab_size(document) matches Ok(size) && id < size
            &&& token_ids.contains(id)
            &&& selection matches CheckpointEosSelection::Explicit(given) ==> id == given
            &&& declared_eos(document) matches Ok(EosDeclaration::Multiple(ids)) ==> ids.contains(id)
            &&& declared_eos(document) matches Ok(EosDeclaration::Single(only)) ==> selection
                == CheckpointEosSelection::CheckpointDefault ==> id == only
        },
{
}

/// A mode resolves to an id exactly when it selects that one, the declaration and the vocabulary
/// size are well formed, and the id fits the vocabulary and is the id of a token. The
/// declaration is reported before the selection, and the selection before the vocabulary size.
pub proof fn law_resolution_is_owed(
    document: JsonTree,
    token_ids: Seq<u32>,
    selection: CheckpointEosSelection,
    id: u32,
)
    requires
        selection != CheckpointEosSelection::Disabled,
    ensures
        resolved_eos(document, token_ids, selection) == EosOutcome::Resolved(Some(id)) <==> {
            &&& declared_eos(document) is Ok
            &&& declared_eos(document) == Ok::<EosDeclaration, Seq<char>>(
                EosDeclaration::Single(id),
            ) || selection == CheckpointEosSelection::Explicit(id)
            &&& selection is Explicit ==> selection == CheckpointEosSelection::Explicit(id)
            &&& declared_eos(document) matches Ok(EosDeclaration::Multiple(ids)) ==> ids.contains(
                id,
            )
            &&& declared_vocab_size(document) matches Ok(size) && id < size
            &&& token_ids.contains(id)
        },
        resolved_eos(document, token_ids, selection) is InvalidEos <==> declared_eos(
            document,
        ) is Err,
        resolved_eos(document, token_ids, selection) is InvalidVocabSize ==> declared_vocab_size(
            document,
        ) is Err,
        resolved_eos(document, token_ids, selection) is InvalidSelection ==> declared_eos(
            document,
        ) is Ok,
{
}

/// A caller that takes at most one id gets the declared one, and none where none is declared.
pub proof fn law_single_declarations(document: JsonTree)
    ensures
        declared_eos(document) matches Ok(EosDeclaration::Single(id)) ==> single_eos(document)
            == EosOutcome::Resolved(Some(id)),
        single_eos(document) == EosOutcome::Resolved(None) <==> declared_eos(document) == Ok::<
            EosDeclaration,
            Seq<char>,
        >(EosDeclaration::Missing),
        single_eos(document) is InvalidEos <==> declared_eos(document) is Err,
        declared_eos(document) matches Ok(EosDeclaration::Multiple(ids)) ==> single_eos(document)
            == EosOutcome::AmbiguousEos(ids),
{
}

impl HfError {
    /// What the error says.
    pub open spec fn text(self) -> Seq<char> {
        match self {
            HfError::Parse { path, .. } => "failed to parse "@ + path@ + " as JSON"@,
            HfError::InvalidEos { path, reason } => "invalid eos_token_id in "@ + path@ + ": "@ + reason@,
            HfError::AmbiguousEos { path, token_ids } => "ambiguous multi-token eos_token_id in "@ + path@ + ": "@ + ids_text(token_ids@),
            HfError::InvalidVocabSize { path, reason } => "invalid vocab_size in "@ + path@ + ": "@ + reason@,
            HfError::InvalidEosSelection { path, reason } => "invalid EOS selection for "@ + path@ + ": "@ + reason@,
            HfError::EosConsensus { reason } => "resolved EOS consensus failed: "@ + reason@,
        }
    }

    /// What the error says.
    pub fn message(&self) -> (text: String)
        ensures
            text@ == self.text(),
    {
        match self {
            HfError::Parse { path, .. } => {
                let mut text = String::from_str("failed to parse ");
                text.append(path);
                text.append(" as JSON");
                text
            },
            HfError::InvalidEos { path, reason } => {
                let mut text = String::from_str("invalid eos_token_id in ");
                text.append(path);
                text.append(": ");
                text.append(reason);
                text
            },
            HfError::AmbiguousEos { path, token_ids } => {
                let mut text = String::from_str("ambiguous multi-token eos_token_id in ");
                text.append(path);
                text.append(": ");
                text.append(&list_ids(token_ids));
                text
            },
            HfError::InvalidVocabSize { path, reason } => {
                let mut text = String::from_str("invalid vocab_size in ");
                text.append(path);
                text.append(": ");
                text.append(reason);
                text
            },
            HfError::InvalidEosSelection { path, reason } => {
                let mut text = String::from_str("invalid EOS selection for ");
                text.append(path);
                text.append(": ");
                text.append(reason);
                text
            },
            HfError::EosConsensus { reason } => {
                let mut text = String::from_str("resolved EOS consensus failed: ");
                text.append(reason);
                text
            },
        }
    }
}

/// One byte of the comparison of end-of-sequence ids: first whether there is an id, then its
/// four bytes, the lowest first.
pub open spec fn eos_byte(eos_token_id: Option<u32>, place: int) -> u8 {
    match eos_token_id {
        None => 0,
        Some(id) => if place == 0 {
            1
        } else {
            crate::text::little_endian(id as nat, 4)[place - 1]
        },
    }
}

/// What a rank does next in the comparison of end-of-sequence ids.
#[derive(Debug, Clone, Copy, PartialEq, Eq, Structural)]
pub enum EosConsensusStep {
    /// Contribute this whole number to an all-reduce sum, and append the sum.
    Reduce(u8),
    /// Every rank has the same id.
    Agreed,
    /// Some rank has another id.
    Disagreed,
}

/// Whether one of the first five sums, rank zero's bytes, is not this rank's byte.
pub open spec fn eos_differs(eos_token_id: Option<u32>, sums: Seq<Real64>) -> bool {
    exists|place: int|
        0 <= place < 5 && !(#[trigger] sums[place]).equals_whole(
            eos_byte(eos_token_id, place) as nat,
        )
}

/// The step that follows the given sums.
pub open spec fn eos_consensus_step(
    eos_token_id: Option<u32>,
    rank: nat,
    world_size: nat,
    sums: Seq<Real64>,
) -> EosConsensusStep {
    if world_size <= 1 {
        EosConsensusStep::Agreed
    } else if sums.len() < 5 {
        EosConsensusStep::Reduce(
            if rank == 0 {
                eos_byte(eos_token_id, sums.len() as int)
            } else {
                0
            },
        )
    } else if sums.len() == 5 {
        EosConsensusStep::Reduce(
            if eos_differs(eos_token_id, sums) {
                1
            } else {
                0
            },
        )
    } else if sums[5].zero() {
        EosConsensusStep::Agreed
    } else {
        EosConsensusStep::Disagreed
    }
}

/// Says what a rank does next in requiring that every rank has the same end-of-sequence id,
/// given the sums that the reductions so far gave it: five reductions spread rank zero's bytes,
/// a sixth counts the ranks that differ. A world of one rank agrees at once.
pub fn validate_resolved_eos_consensus(
    eos_token_id: Option<u32>,
    rank: usize,
    world_size: usize,
    sums: &Vec<Real64>,
) -> (step: EosConsensusStep)
    ensures
        step == eos_consensus_step(eos_token_id, rank as nat, world_size as nat, sums@),
{
    if world_size <= 1 {
        return EosConsensusStep::Agreed;
    }
    let bytes: Vec<u8> = eos_bytes(eos_token_id);
    if sums.len() < 5 {
        return EosConsensusStep::Reduce(if rank == 0 { bytes[sums.len()] } else { 0 });
    }
    if sums.len() == 5 {
        let mut mismatch: bool = false;
        let mut place: usize = 0;
        while place < 5
            invariant
                place <= 5 == bytes@.len() == sums@.len(),
                forall|i: int| 0 <= i < 5 ==> bytes@[i] == #[trigger] eos_byte(eos_token_id, i),
                mismatch <==> exists|i: int|
                    0 <= i < place && !(#[trigger] sums@[i]).equals_whole(
                        eos_byte(eos_token_id, i) as nat,
                    ),
            decreases 5 - place,
        {
            let same: bool = sums[place].is_whole(bytes[place] as u128);
            assert(bytes@[place as int] == eos_byte(eos_token_id, place as int));
            mismatch = mismatch || !same;
            place = place + 1;
        }
        return EosConsensusStep::Reduce(if mismatch { 1 } else { 0 });
    }
    if sums[5].is_zero() {
        EosConsensusStep::Agreed
    } else {
        EosConsensusStep::Disagreed
    }
}

/// The five bytes of the comparison.
fn eos_bytes(eos_token_id: Option<u32>) -> (bytes: Vec<u8>)
    ensures
        bytes@.len() == 5,
        forall|place: int|
            0 <= place < 5 ==> bytes@[place] == #[trigger] eos_byte(eos_token_id, place),
{
    match eos_token_id {
        None => vec![0u8, 0u8, 0u8, 0u8, 0u8],
        Some(id) => {
            let low: Vec<u8> = crate::text::little_endian_low(id as u64, 4);
            proof {
                crate::text::lemma_little_endian_len(id as nat, 4);
            }
            vec![1u8, low[0], low[1], low[2], low[3]]
        },
    }
}

/// Different ids, or an id and none, differ in a byte.
proof fn lemma_eos_bytes_identify(left: Option<u32>, right: Option<u32>)
    requires
        forall|place: int| 0 <= place < 5 ==> #[trigger] eos_byte(left, place) == eos_byte(right, place),
    ensures
        left == right,
{
    assert(eos_byte(left, 0) == eos_byte(right, 0));
    if left is Some {
        let (a, b) = (
            crate::text::little_endian(left->0 as nat, 4),
            crate::text::little_endian(right->0 as nat, 4),
        );
        crate::text::lemma_little_endian_len(left->0 as nat, 4);
        crate::text::lemma_little_endian_len(right->0 as nat, 4);
        assert forall|i: int| 0 <= i < 4 implies a[i] == b[i] by {
            assert(eos_byte(left, i + 1) == eos_byte(right, i + 1));
        }
        assert(a =~= b);
        crate::text::lemma_u32_bytes_injective(left->0, right->0);
    }
}

/// The ranks that differ from rank zero, as the sixth reduction counts them.
pub open spec fn differing_ranks(ids: Seq<Option<u32>>) -> Seq<bool> {
    Seq::new(ids.len(), |rank: int| ids[rank] != ids[0])
}

/// Each reduction gives every rank the sum of the contributions: rank zero's bytes, and then
/// the number of ranks that differ.
pub open spec fn sums_of_world(ids: Seq<Option<u32>>, sums: Seq<Real64>) -> bool {
    &&& sums.len() == 6
    &&& forall|place: int|
        0 <= place < 5 ==> (#[trigger] sums[place]).equals_whole(eos_byte(ids[0], place) as nat)
    &&& sums[5].equals_whole(crate::votes::tally(differing_ranks(ids)))
}

/// A rank votes that it differs exactly when its id is not rank zero's.
pub proof fn law_eos_votes(ids: Seq<Option<u32>>, rank: int, sums: Seq<Real64>)
    requires
        0 <= rank < ids.len(),
        sums_of_world(ids, sums),
    ensures
        eos_differs(ids[rank], sums.take(5)) == differing_ranks(ids)[rank],
{
    lemma_eos_vote(ids[0], ids[rank], sums.take(5));
}

proof fn lemma_eos_vote(first: Option<u32>, own: Option<u32>, shown: Seq<Real64>)
    requires
        shown.len() == 5,
        forall|place: int|
            0 <= place < 5 ==> (#[trigger] shown[place]).equals_whole(eos_byte(first, place) as nat),
    ensures
        eos_differs(own, shown) <==> own != first,
{
    if eos_differs(own, shown) {
        let place = choose|place: int|
            0 <= place < 5 && !(#[trigger] shown[place]).equals_whole(eos_byte(own, place) as nat);
        assert(shown[place].equals_whole(eos_byte(first, place) as nat));
    } else {
        assert forall|place: int| 0 <= place < 5 implies #[trigger] eos_byte(own, place)
            == eos_byte(first, place) by {
            let (a, b) = (eos_byte(own, place) as nat, eos_byte(first, place) as nat);
            assert(shown[place].equals_whole(a));
            assert(shown[place].equals_whole(b));
            crate::binary64::lemma_small_whole(a);
            crate::binary64::lemma_small_whole(b);
            crate::binary64::lemma_equals_one_whole(shown[place], a, b);
        }
        lemma_eos_bytes_identify(own, first);
    }
}

/// Every rank of a world ends with the same verdict, and agrees exactly when all ranks have the
/// same end-of-sequence id; an id and none are never the same.
pub proof fn law_eos_consensus(ids: Seq<Option<u32>>, rank: int, sums: Seq<Real64>)
    requires
        2 <= ids.len(),
        0 <= rank < ids.len(),
        sums_of_world(ids, sums),
    ensures
        eos_consensus_step(ids[rank], rank as nat, ids.len(), sums)
            == if forall|left: int, right: int|
            0 <= left < ids.len() && 0 <= right < ids.len() ==> #[trigger] ids[left]
                == #[trigger] ids[right] {
            EosConsensusStep::Agreed
        } else {
            EosConsensusStep::Disagreed
        },
{
    let votes = differing_ranks(ids);
    crate::votes::lemma_tally(votes);
    crate::binary64::lemma_equals_one_whole(sums[5], crate::votes::tally(votes), 0);
    if crate::votes::tally(votes) == 0 {
        assert forall|left: int, right: int|
            0 <= left < ids.len() && 0 <= right < ids.len() implies #[trigger] ids[left]
            == #[trigger] ids[right] by {
            assert(!votes[left] && !votes[right]);
        }
    } else {
        let other = choose|r: int| 0 <= r < votes.len() && votes[r];
        assert(ids[other] != ids[0]);
    }
}

/// The reductions of a world as its ranks run them: every sum is that of what all ranks
/// contribute, each given its own id and the sums before.
pub open spec fn sums_as_run(ids: Seq<Option<u32>>, sums: Seq<Real64>) -> bool {
    &&& sums.len() == 6
    &&& forall|done: int|
        0 <= done < 6 ==> (#[trigger] sums[done]).equals_whole(
            crate::votes::total(
                Seq::new(
                    ids.len(),
                    |rank: int|
                        eos_consensus_step(
                            ids[rank],
                            rank as nat,
                            ids.len(),
                            sums.take(done),
                        )->Reduce_0 as nat,
                ),
            ),
        )
}

/// Of the first five reductions rank zero tells whether it has an id and the four bytes of it,
/// the lowest first, and the other ranks add nothing.
pub proof fn law_rank_zero_tells_its_id(id: Option<u32>, rank: nat, world: nat, sums: Seq<Real64>)
    requires
        world >= 2,
        sums.len() >= 5,
    ensures
        forall|done: int|
            0 <= done < 5 ==> (#[trigger] eos_consensus_step(id, rank, world, sums.take(done))) is Reduce,
        rank != 0 ==> forall|done: int|
            0 <= done < 5 ==> (#[trigger] eos_consensus_step(id, rank, world, sums.take(done)))
                == EosConsensusStep::Reduce(0),
        rank == 0 ==> eos_consensus_step(id, rank, world, sums.take(0)) == EosConsensusStep::Reduce(
            if id is Some {
                1
            } else {
                0
            },
        ),
        rank == 0 ==> (if id is Some {
            id->0 as int
        } else {
            0
        }) == eos_consensus_step(id, rank, world, sums.take(1))->Reduce_0 + 0x100
            * eos_consensus_step(id, rank, world, sums.take(2))->Reduce_0 + 0x1_0000
            * eos_consensus_step(id, rank, world, sums.take(3))->Reduce_0 + 0x100_0000
            * eos_consensus_step(id, rank, world, sums.take(4))->Reduce_0,
{
    if let Some(id) = id {
        reveal_with_fuel(crate::text::little_endian, 5);
        let n = id as nat;
        assert(n == n % 256 + 0x100 * (n / 256 % 256) + 0x1_0000 * (n / 256 / 256 % 256) + 0x100_0000
            * (n / 256 / 256 / 256 % 256));
    }
}

/// A rank that is alone agrees with itself, and a world of more decides after six reductions and not
/// before.
pub proof fn law_eos_consensus_takes_six_reductions(
    id: Option<u32>,
    rank: nat,
    world: nat,
    sums: Seq<Real64>,
)
    ensures
        world <= 1 ==> eos_consensus_step(id, rank, world, sums) == EosConsensusStep::Agreed,
        world >= 2 ==> (eos_consensus_step(id, rank, world, sums) is Reduce <==> sums.len() < 6),
{
}

/// What the sixth contribution is: one exactly when the rank's id is not rank zero's.
pub proof fn law_every_rank_votes(ids: Seq<Option<u32>>, rank: int, sums: Seq<Real64>)
    requires
        2 <= ids.len(),
        0 <= rank < ids.len(),
        sums_as_run(ids, sums),
    ensures
        eos_consensus_step(ids[rank], rank as nat, ids.len(), sums.take(5))
            == EosConsensusStep::Reduce(
            if ids[rank] != ids[0] {
                1
            } else {
                0
            },
        ),
{
    lemma_first_five_sums(ids, sums);
    lemma_eos_vote(ids[0], ids[rank], sums.take(5));
}

/// After the six reductions of a world of at least two ranks, every rank agrees when all ids are
/// equal, and every rank refuses when they are not.
pub proof fn law_eos_consensus_as_run(ids: Seq<Option<u32>>, rank: int, sums: Seq<Real64>)
    requires
        2 <= ids.len(),
        0 <= rank < ids.len(),
        sums_as_run(ids, sums),
    ensures
        eos_consensus_step(ids[rank], rank as nat, ids.len(), sums)
            == if forall|left: int, right: int|
            0 <= left < ids.len() && 0 <= right < ids.len() ==> #[trigger] ids[left]
                == #[trigger] ids[right] {
            EosConsensusStep::Agreed
        } else {
            EosConsensusStep::Disagreed
        },
{
    lemma_first_five_sums(ids, sums);
    let contributions = Seq::new(
        ids.len(),
        |r: int|
            eos_consensus_step(ids[r], r as nat, ids.len(), sums.take(5))->Reduce_0 as nat,
    );
    let votes = differing_ranks(ids);
    assert forall|r: int| 0 <= r < votes.len() implies #[trigger] contributions[r] == if votes[r] {
        1nat
    } else {
        0nat
    } by {
        law_every_rank_votes(ids, r, sums);
    }
    crate::votes::lemma_total_of_votes(votes, contributions);
    assert(sums[5].equals_whole(crate::votes::total(contributions)));
    law_eos_consensus(ids, rank, sums);
}

proof fn lemma_first_five_sums(ids: Seq<Option<u32>>, sums: Seq<Real64>)
    requires
        2 <= ids.len(),
        sums_as_run(ids, sums),
    ensures
        forall|place: int|
            0 <= place < 5 ==> (#[trigger] sums[place]).equals_whole(
                eos_byte(ids[0], place) as nat,
            ),
{
    assert forall|place: int| 0 <= place < 5 implies (#[trigger] sums[place]).equals_whole(
        eos_byte(ids[0], place) as nat,
    ) by {
        let contributions = Seq::new(
            ids.len(),
            |r: int|
                eos_consensus_step(ids[r], r as nat, ids.len(), sums.take(place))->Reduce_0 as nat,
        );
        crate::votes::lemma_total_of_first(contributions);
        assert(contributions[0] == eos_byte(ids[0], place));
    }
}

/// The prompt of a ChatML turn: an optional system turn, the user turn, and an open assistant
/// turn.
pub open spec fn chatml_text(system: Option<Seq<char>>, user: Seq<char>) -> Seq<char> {
    let opening = match system {
        Some(system) => "<|im_start|>system\n"@ + system + "<|im_end|>\n"@,
        None => Seq::empty(),
    };
    opening + "<|im_start|>user\n"@ + user + "<|im_end|>\n<|im_start|>assistant\n"@
}

/// Frames a user turn, with an optional system turn, in the ChatML template, ending with an
/// open assistant turn.
pub fn chatml(system: Option<&str>, user: &str) -> (prompt: String)
    ensures
        prompt@ == chatml_text(
            match system {
                Some(system) => Some(system@),
                None => None,
            },
            user@,
        ),
{
    let mut out = String::new();
    if let Some(system) = system {
        out.append("<|im_start|>system\n");
        out.append(system);
        out.append("<|im_end|>\n");
        assert(out@ =~= "<|im_start|>system\n"@ + system@ + "<|im_end|>\n"@);
    }
    out.append("<|im_start|>user\n");
    out.append(user);
    out.append("<|im_end|>\n<|im_start|>assistant\n");
    out
}

/// A prompt frames the user's text between fixed words, and a system text stands before it in a
/// frame of its own.
pub proof fn law_chatml_frames(system: Seq<char>, user: Seq<char>)
    ensures
        chatml_text(None, user) == "<|im_start|>user\n"@ + user
            + "<|im_end|>\n<|im_start|>assistant\n"@,
        chatml_text(Some(system), user) == "<|im_start|>system\n"@ + system + "<|im_end|>\n"@
            + chatml_text(None, user),
{
    assert(chatml_text(None, user) =~= "<|im_start|>user\n"@ + user
        + "<|im_end|>\n<|im_start|>assistant\n"@);
    assert(chatml_text(Some(system), user) =~= "<|im_start|>system\n"@ + system + "<|im_end|>\n"@
        + chatml_text(None, user));
}

/// A list of ids reads as its parts do: joined lists are joined by a comma and a space, one id is
/// its decimal number, and brackets stand around it all.
pub proof fn law_lists_read_as_their_parts(ids: Seq<u32>, id: u32)
    ensures
        ids_text(ids) == "["@ + joined_ids(ids, ids.len()) + "]"@,
        ids.len() == 0 ==> joined_ids(ids.push(id), ids.len() + 1) == crate::text::decimal_text(
            id as nat,
        ),
        ids.len() > 0 ==> joined_ids(ids.push(id), ids.len() + 1) == joined_ids(ids, ids.len())
            + ", "@ + crate::text::decimal_text(id as nat),
        joined_ids(Seq::empty(), 0) == Seq::<char>::empty(),
{
    lemma_joined_prefix(ids.push(id), ids, ids.len());
}

proof fn lemma_joined_prefix(left: Seq<u32>, right: Seq<u32>, count: nat)
    requires
        count <= left.len(),
        count <= right.len(),
        forall|i: int| 0 <= i < count ==> left[i] == right[i],
    ensures
        joined_ids(left, count) == joined_ids(right, count),
    decreases count,
{
    if count > 1 {
        lemma_joined_prefix(left, right, (count - 1) as nat);
    }
}

/// What each error says, word for word.
pub proof fn law_words_of_hf_error(error: HfError)
    ensures
        error matches HfError::Parse { path, .. } ==> error.text() == ("failed to parse "@ + path@ + " as JSON"@),
        error matches HfError::InvalidEos { path, reason } ==> error.text() == ("invalid eos_token_id in "@ + path@ + ": "@ + reason@),
        error matches HfError::AmbiguousEos { path, token_ids } ==> error.text() == ("ambiguous multi-token eos_token_id in "@ + path@ + ": "@ + ids_text(token_ids@)),
        error matches HfError::InvalidVocabSize { path, reason } ==> error.text() == ("invalid vocab_size in "@ + path@ + ": "@ + reason@),
        error matches HfError::InvalidEosSelection { path, reason } ==> error.text() == ("invalid EOS selection for "@ + path@ + ": "@ + reason@),
        error matches HfError::EosConsensus { reason } ==> error.text() == ("resolved EOS consensus failed: "@ + reason@),
{
}

} // verus!
