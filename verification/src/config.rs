//! Which pretrained classifier to load, as plain values.

use vstd::prelude::*;

verus! {

/// The closed choice of classifier that a caller can ask for.
#[derive(Clone, Copy, Debug, PartialEq, Eq)]
pub enum ModelConfig {
    /// Whatever the model library loads when nothing is named.
    Default,
    /// The BART checkpoint tuned on multi-genre natural-language inference.
    BartMNLI,
}

/// Architecture family of a checkpoint.
#[derive(Clone, Copy, Debug, PartialEq, Eq)]
pub enum Architecture {
    Bart,
}

/// The role that an artifact plays when a classifier is loaded.
#[derive(Clone, Copy, Debug, PartialEq, Eq)]
pub enum Role {
    Weights,
    Settings,
    Vocabulary,
    Merges,
}

/// A stable identifier of a remote artifact. The model library resolves it
/// to a cached file or a download when the classifier is loaded.
#[derive(Clone, Copy, Debug, PartialEq, Eq)]
pub enum Resource {
    BartMnliWeights,
    BartMnliSettings,
    BartMnliVocabulary,
    BartMnliMerges,
}

impl Resource {
    /// The role that this artifact was published for.
    pub open spec fn role(self) -> Role {
        match self {
            Resource::BartMnliWeights => Role::Weights,
            Resource::BartMnliSettings => Role::Settings,
            Resource::BartMnliVocabulary => Role::Vocabulary,
            Resource::BartMnliMerges => Role::Merges,
        }
    }

    /// The architecture of the checkpoint that this artifact belongs to.
    pub open spec fn architecture(self) -> Architecture {
        Architecture::Bart
    }
}

impl Architecture {
    /// Whether tokenizers of this family need a merge table.
    pub open spec fn uses_merges(self) -> bool {
        match self {
            Architecture::Bart => true,
        }
    }
}

/// Everything the loader needs to know to build a classifier.
#[derive(Clone, Copy, Debug, PartialEq, Eq)]
pub struct ClassificationConfig {
    pub architecture: Architecture,
    pub weights: Resource,
    pub settings: Resource,
    pub vocabulary: Resource,
    /// Absent for architectures whose tokenizer has no merge table.
    pub merges: Option<Resource>,
    /// Whether the tokenizer lower-cases its input.
    pub lower_case: bool,
    /// Optional override, unset unless a caller fills it in.
    pub strip_accents: Option<bool>,
    /// Optional override, unset unless a caller fills it in.
    pub add_prefix_space: Option<bool>,
}

impl ClassificationConfig {
    /// Each artifact stands in the slot of its role and belongs to the
    /// configured architecture, and a merge table is named exactly when the
    /// architecture uses one.
    pub open spec fn wf(self) -> bool {
        &&& self.weights.role() == Role::Weights
        &&& self.settings.role() == Role::Settings
        &&& self.vocabulary.role() == Role::Vocabulary
        &&& self.weights.architecture() == self.architecture
        &&& self.settings.architecture() == self.architecture
        &&& self.vocabulary.architecture() == self.architecture
        &&& self.merges.is_some() == self.architecture.uses_merges()
        &&& self.merges matches Some(m) ==> m.role() == Role::Merges && m.architecture()
            == self.architecture
    }
}

/// What to hand to the loader: the model library's own default, or a
/// configuration spelled out here.
#[derive(Clone, Copy, Debug, PartialEq, Eq)]
pub enum ConfigSource {
    LibraryDefault,
    Explicit(ClassificationConfig),
}

/// The configuration of the BART checkpoint tuned on natural-language inference.
pub open spec fn bart_mnli() -> ClassificationConfig {
    ClassificationConfig {
        architecture: Architecture::Bart,
        weights: Resource::BartMnliWeights,
        settings: Resource::BartMnliSettings,
        vocabulary: Resource::BartMnliVocabulary,
        merges: Some(Resource::BartMnliMerges),
        lower_case: false,
        strip_accents: None,
        add_prefix_space: None,
    }
}

/// The configuration source that each choice stands for.
pub open spec fn config_for(choice: ModelConfig) -> ConfigSource {
    match choice {
        ModelConfig::Default => ConfigSource::LibraryDefault,
        ModelConfig::BartMNLI => ConfigSource::Explicit(bart_mnli()),
    }
}

/// Maps the caller's choice to what the loader is given.
pub fn model_config(config: ModelConfig) -> (source: ConfigSource)
    ensures
        source == config_for(config),
        source matches ConfigSource::Explicit(c) ==> c.wf(),
{
    match config {
        ModelConfig::Default => ConfigSource::LibraryDefault,
        ModelConfig::BartMNLI => ConfigSource::Explicit(
            ClassificationConfig {
                architecture: Architecture::Bart,
                weights: Resource::BartMnliWeights,
                settings: Resource::BartMnliSettings,
                vocabulary: Resource::BartMnliVocabulary,
                merges: Some(Resource::BartMnliMerges),
                lower_case: false,
                strip_accents: None,
                add_prefix_space: None,
            },
        ),
    }
}

} // verus!
