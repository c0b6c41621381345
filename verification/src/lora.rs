//! Which projections carry trainable low-rank adapters, and how the frozen base is stored.
use vstd::prelude::*;

verus! {

/// How frozen base projections are stored.
#[derive(Debug, Clone, Copy, PartialEq, Eq, Structural)]
pub enum BaseQuantization {
    /// As loaded.
    Unquantized,
    /// In eight-bit blocks.
    Q8_0,
}

impl BaseQuantization {
    /// The name of the mode.
    pub open spec fn name(self) -> Seq<char> {
        match self {
            BaseQuantization::Unquantized => "none"@,
            BaseQuantization::Q8_0 => "q8_0"@,
        }
    }

    /// The name of the mode.
    pub fn as_str(&self) -> (name: &'static str)
        ensures
            name@ == self.name(),
    {
        match self {
            BaseQuantization::Unquantized => "none",
            BaseQuantization::Q8_0 => "q8_0",
        }
    }
}

/// Which projections of a dense block carry adapters.
#[derive(Debug, Clone, Copy, PartialEq, Eq, Structural)]
pub struct DenseLoraTargets {
    pub attn_q: bool,
    pub attn_k: bool,
    pub attn_v: bool,
    pub attn_o: bool,
    pub mlp_gate: bool,
    pub mlp_up: bool,
    pub mlp_down: bool,
}

impl DenseLoraTargets {
    /// Every projection.
    pub fn industrial() -> (targets: Self)
        ensures
            targets.attn_q && targets.attn_k && targets.attn_v && targets.attn_o,
            targets.mlp_gate && targets.mlp_up && targets.mlp_down,
    {
        DenseLoraTargets {
            attn_q: true,
            attn_k: true,
            attn_v: true,
            attn_o: true,
            mlp_gate: true,
            mlp_up: true,
            mlp_down: true,
        }
    }

    /// Queries and values only.
    pub fn legacy() -> (targets: Self)
        ensures
            targets.attn_q && targets.attn_v,
            !targets.attn_k && !targets.attn_o,
            !targets.mlp_gate && !targets.mlp_up && !targets.mlp_down,
    {
        DenseLoraTargets {
            attn_q: true,
            attn_k: false,
            attn_v: true,
            attn_o: false,
            mlp_gate: false,
            mlp_up: false,
            mlp_down: false,
        }
    }

    /// Whether some projection is selected.
    pub open spec fn selects_any(self) -> bool {
        ||| self.attn_q || self.attn_k || self.attn_v || self.attn_o
        ||| self.mlp_gate || self.mlp_up || self.mlp_down
    }

    /// Whether some projection is selected.
    pub fn any(&self) -> (any: bool)
        ensures
            any == self.selects_any(),
    {
        self.attn_q || self.attn_k || self.attn_v || self.attn_o || self.mlp_gate || self.mlp_up
            || self.mlp_down
    }

    /// The letter of a selected projection.
    pub open spec fn letter(selected: bool, letter: Seq<char>) -> Seq<char> {
        if selected {
            letter
        } else {
            Seq::empty()
        }
    }

    /// The letters of a block, or a dash for none.
    pub open spec fn letters(letters: Seq<char>) -> Seq<char> {
        if letters.len() == 0 {
            "-"@
        } else {
            letters
        }
    }

    /// The selection as text: the letters of the attention projections, then those of the MLP.
    pub open spec fn recipe(self) -> Seq<char> {
        let attn = Self::letter(self.attn_q, "q"@) + Self::letter(self.attn_k, "k"@) + Self::letter(
            self.attn_v,
            "v"@,
        ) + Self::letter(self.attn_o, "o"@);
        let mlp = Self::letter(self.mlp_gate, "g"@) + Self::letter(self.mlp_up, "u"@)
            + Self::letter(self.mlp_down, "d"@);
        "attn:"@ + Self::letters(attn) + "|mlp:"@ + Self::letters(mlp)
    }

    /// The selection as text.
    pub fn canonical(&self) -> (recipe: String)
        ensures
            recipe@ == self.recipe(),
    {
        let mut attn = String::new();
        push_letter(&mut attn, self.attn_q, "q");
        push_letter(&mut attn, self.attn_k, "k");
        push_letter(&mut attn, self.attn_v, "v");
        push_letter(&mut attn, self.attn_o, "o");
        let mut mlp = String::new();
        push_letter(&mut mlp, self.mlp_gate, "g");
        push_letter(&mut mlp, self.mlp_up, "u");
        push_letter(&mut mlp, self.mlp_down, "d");
        proof {
            assert(attn@ =~= Self::letter(self.attn_q, "q"@) + Self::letter(self.attn_k, "k"@)
                + Self::letter(self.attn_v, "v"@) + Self::letter(self.attn_o, "o"@));
            assert(mlp@ =~= Self::letter(self.mlp_gate, "g"@) + Self::letter(self.mlp_up, "u"@)
                + Self::letter(self.mlp_down, "d"@));
        }
        let mut recipe = String::from_str("attn:");
        if attn.as_str().is_empty() {
            recipe.append("-");
        } else {
            recipe.append(&attn);
        }
        recipe.append("|mlp:");
        if mlp.as_str().is_empty() {
            recipe.append("-");
        } else {
            recipe.append(&mlp);
        }
        recipe
    }
}

fn push_letter(text: &mut String, selected: bool, letter: &str)
    ensures
        final(text)@ == old(text)@ + DenseLoraTargets::letter(selected, letter@),
{
    if selected {
        text.append(letter);
    }
}

/// A recipe lists the letter of every selected projection, and no other, in the order of the
/// block: those of the attention, then those of the feed-forward part, and a dash where none is
/// selected.
pub proof fn law_recipe_lists_the_selected(targets: DenseLoraTargets)
    ensures
        targets.recipe() == "attn:"@ + (if !targets.attn_q && !targets.attn_k && !targets.attn_v
            && !targets.attn_o {
            "-"@
        } else {
            (if targets.attn_q {
                "q"@
            } else {
                Seq::empty()
            }) + (if targets.attn_k {
                "k"@
            } else {
                Seq::empty()
            }) + (if targets.attn_v {
                "v"@
            } else {
                Seq::empty()
            }) + (if targets.attn_o {
                "o"@
            } else {
                Seq::empty()
            })
        }) + "|mlp:"@ + (if !targets.mlp_gate && !targets.mlp_up && !targets.mlp_down {
            "-"@
        } else {
            (if targets.mlp_gate {
                "g"@
            } else {
                Seq::empty()
            }) + (if targets.mlp_up {
                "u"@
            } else {
                Seq::empty()
            }) + (if targets.mlp_down {
                "d"@
            } else {
                Seq::empty()
            })
        }),
{
    lemma_letters_are_not_empty();
}

proof fn lemma_letters_are_not_empty()
    ensures
        "q"@.len() == 1 && "k"@.len() == 1 && "v"@.len() == 1 && "o"@.len() == 1,
        "g"@.len() == 1 && "u"@.len() == 1 && "d"@.len() == 1,
{
    reveal_strlit("q");
    reveal_strlit("k");
    reveal_strlit("v");
    reveal_strlit("o");
    reveal_strlit("g");
    reveal_strlit("u");
    reveal_strlit("d");
}

/// The name of each mode.
pub proof fn law_words_of_base_quantization(mode: BaseQuantization)
    ensures
        mode == BaseQuantization::Unquantized ==> mode.name() == ("none"@),
        mode == BaseQuantization::Q8_0 ==> mode.name() == ("q8_0"@),
{
}

/// A selection is empty exactly when no projection is in it.
pub proof fn law_empty_selections(targets: DenseLoraTargets)
    ensures
        !targets.selects_any() <==> targets == (DenseLoraTargets {
            attn_q: false,
            attn_k: false,
            attn_v: false,
            attn_o: false,
            mlp_gate: false,
            mlp_up: false,
            mlp_down: false,
        }),
{
}

} // verus!
