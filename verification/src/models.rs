//! Which model is asked.
use vstd::prelude::*;
use crate::request_laws::three;
use crate::rewrite::glue;
use crate::rewrite::{glued, slices};
use crate::text::same_text;

verus! {

pub const TEXT_SMALL: &'static str = "TEXT_SMALL";

pub const TEXT_LARGE: &'static str = "TEXT_LARGE";

pub const TEXT_REASONING_SMALL: &'static str = "TEXT_REASONING_SMALL";

pub const TEXT_REASONING_LARGE: &'static str = "TEXT_REASONING_LARGE";

pub const TEXT_COMPLETION: &'static str = "TEXT_COMPLETION";

pub const TEXT_SMALL_STREAM: &'static str = "TEXT_SMALL_STREAM";

pub const TEXT_LARGE_STREAM: &'static str = "TEXT_LARGE_STREAM";

pub const TEXT_REASONING_SMALL_STREAM: &'static str = "TEXT_REASONING_SMALL_STREAM";

pub const TEXT_REASONING_LARGE_STREAM: &'static str = "TEXT_REASONING_LARGE_STREAM";

/// Which model takes the place of the one that is asked for.
#[derive(Clone, Copy, Debug, PartialEq, Eq, Structural)]
pub enum LLMMode {
    /// None: the model that is asked for.
    Default,
    /// The small model for all text.
    Small,
    /// The large model for all text.
    Large,
}

/// A model that generates text.
pub open spec fn is_text_model(model: Seq<char>) -> bool {
    model == TEXT_SMALL@ || model == TEXT_LARGE@ || model == TEXT_REASONING_SMALL@ || model
        == TEXT_REASONING_LARGE@ || model == TEXT_COMPLETION@
}

/// A model that generates text piece by piece.
pub open spec fn is_text_stream(model: Seq<char>) -> bool {
    model == TEXT_SMALL_STREAM@ || model == TEXT_LARGE_STREAM@ || model == TEXT_REASONING_SMALL_STREAM@
        || model == TEXT_REASONING_LARGE_STREAM@
}

/// The model that is asked in place of `model`.
pub open spec fn effective(model: Seq<char>, mode: LLMMode) -> Seq<char> {
    if is_text_model(model) {
        match mode {
            LLMMode::Small => TEXT_SMALL@,
            LLMMode::Large => TEXT_LARGE@,
            LLMMode::Default => model,
        }
    } else {
        model
    }
}

/// The model that is asked in place of `model`, where the answer comes piece by
/// piece.
pub open spec fn effective_stream(model: Seq<char>, mode: LLMMode) -> Seq<char> {
    if is_text_stream(model) {
        match mode {
            LLMMode::Small => TEXT_SMALL_STREAM@,
            LLMMode::Large => TEXT_LARGE_STREAM@,
            LLMMode::Default => model,
        }
    } else {
        model
    }
}

/// Whether a model generates text.
pub fn generates_text(model: &str) -> (r: bool)
    ensures
        r == is_text_model(model@),
{
    same_text(model, TEXT_SMALL) || same_text(model, TEXT_LARGE) || same_text(
        model,
        TEXT_REASONING_SMALL,
    ) || same_text(model, TEXT_REASONING_LARGE) || same_text(model, TEXT_COMPLETION)
}

/// Whether a model generates text piece by piece.
pub fn streams_text(model: &str) -> (r: bool)
    ensures
        r == is_text_stream(model@),
{
    same_text(model, TEXT_SMALL_STREAM) || same_text(model, TEXT_LARGE_STREAM) || same_text(
        model,
        TEXT_REASONING_SMALL_STREAM,
    ) || same_text(model, TEXT_REASONING_LARGE_STREAM)
}

/// The model that is asked in place of `model`.
pub fn effective_model(model: &str, mode: LLMMode) -> (r: String)
    ensures
        r@ == effective(model@, mode),
{
    if generates_text(model) {
        match mode {
            LLMMode::Small => TEXT_SMALL.to_owned(),
            LLMMode::Large => TEXT_LARGE.to_owned(),
            LLMMode::Default => model.to_owned(),
        }
    } else {
        model.to_owned()
    }
}

/// The model that is asked in place of `model`, where the answer comes piece by
/// piece.
pub fn effective_stream_model(model: &str, mode: LLMMode) -> (r: String)
    ensures
        r@ == effective_stream(model@, mode),
{
    if streams_text(model) {
        match mode {
            LLMMode::Small => TEXT_SMALL_STREAM.to_owned(),
            LLMMode::Large => TEXT_LARGE_STREAM.to_owned(),
            LLMMode::Default => model.to_owned(),
        }
    } else {
        model.to_owned()
    }
}

/// What is said where no handler is registered for a model.
pub open spec fn no_handler_text(model: Seq<char>) -> Seq<char> {
    glued(
        seq![
            "No model handler registered for type: "@,
            model,
            ". Register a model handler using register_model() or pass a plugin with model handlers."@,
        ],
    )
}

/// What is said where no handler is registered for a model whose answer comes
/// piece by piece.
pub open spec fn no_stream_text(model: Seq<char>) -> Seq<char> {
    glued(
        seq![
            "No streaming model handler registered for type: "@,
            model,
            ". Register a streaming model handler using register_streaming_model()."@,
        ],
    )
}

/// What is said where no handler is registered for a model.
pub fn no_handler_message(model: &str) -> (r: String)
    ensures
        r@ == no_handler_text(model@),
{
    let parts: Vec<&str> = vec![
        "No model handler registered for type: ",
        model,
        ". Register a model handler using register_model() or pass a plugin with model handlers.",
    ];
    assert(slices(parts@) =~= seq![
        "No model handler registered for type: "@,
        model@,
        ". Register a model handler using register_model() or pass a plugin with model handlers."@,
    ]);
    glue(&parts)
}

/// What is said where no handler is registered for a model whose answer comes
/// piece by piece.
pub fn no_stream_message(model: &str) -> (r: String)
    ensures
        r@ == no_stream_text(model@),
{
    let parts: Vec<&str> = vec![
        "No streaming model handler registered for type: ",
        model,
        ". Register a streaming model handler using register_streaming_model().",
    ];
    assert(slices(parts@) =~= seq![
        "No streaming model handler registered for type: "@,
        model@,
        ". Register a streaming model handler using register_streaming_model()."@,
    ]);
    glue(&parts)
}

// ---------------------------------------------------------------------------
// Laws
// ---------------------------------------------------------------------------
/// Without a mode, the model that is asked for is the one that is asked.
pub proof fn default_mode_changes_nothing(model: Seq<char>)
    ensures
        effective(model, LLMMode::Default) == model,
        effective_stream(model, LLMMode::Default) == model,
{
}

/// A model that generates no text is asked in every mode.
pub proof fn other_models_are_kept(model: Seq<char>, mode: LLMMode)
    ensures
        !is_text_model(model) ==> effective(model, mode) == model,
        !is_text_stream(model) ==> effective_stream(model, mode) == model,
{
}

/// In the mode for small models all text comes from the small model, in the mode for
/// large ones from the large model.
pub proof fn mode_decides(model: Seq<char>)
    ensures
        is_text_model(model) ==> effective(model, LLMMode::Small) == TEXT_SMALL@ && effective(
            model,
            LLMMode::Large,
        ) == TEXT_LARGE@,
        is_text_stream(model) ==> effective_stream(model, LLMMode::Small) == TEXT_SMALL_STREAM@
            && effective_stream(model, LLMMode::Large) == TEXT_LARGE_STREAM@,
{
}

/// The model that is asked in place of another stands for itself.
pub proof fn effective_twice(model: Seq<char>, mode: LLMMode)
    ensures
        effective(effective(model, mode), mode) == effective(model, mode),
        effective_stream(effective_stream(model, mode), mode) == effective_stream(model, mode),
{
}

/// In place of each of the five models for text the small or the large one is asked, as
/// the mode says, and in place of no other; likewise of the four whose answer comes piece
/// by piece.
pub proof fn text_models_follow_the_mode(model: Seq<char>, mode: LLMMode)
    ensures
        model == "TEXT_SMALL"@ || model == "TEXT_LARGE"@ || model == "TEXT_REASONING_SMALL"@ || model
            == "TEXT_REASONING_LARGE"@ || model == "TEXT_COMPLETION"@ ==> effective(model, LLMMode::Small)
            == "TEXT_SMALL"@ && effective(model, LLMMode::Large) == "TEXT_LARGE"@,
        model != "TEXT_SMALL"@ && model != "TEXT_LARGE"@ && model != "TEXT_REASONING_SMALL"@ && model
            != "TEXT_REASONING_LARGE"@ && model != "TEXT_COMPLETION"@ ==> effective(model, mode) == model,
        model == "TEXT_SMALL_STREAM"@ || model == "TEXT_LARGE_STREAM"@ || model
            == "TEXT_REASONING_SMALL_STREAM"@ || model == "TEXT_REASONING_LARGE_STREAM"@
            ==> effective_stream(model, LLMMode::Small) == "TEXT_SMALL_STREAM"@ && effective_stream(
            model,
            LLMMode::Large,
        ) == "TEXT_LARGE_STREAM"@,
        model != "TEXT_SMALL_STREAM"@ && model != "TEXT_LARGE_STREAM"@ && model
            != "TEXT_REASONING_SMALL_STREAM"@ && model != "TEXT_REASONING_LARGE_STREAM"@
            ==> effective_stream(model, mode) == model,
{
}

/// Where a handler is missing, it is said for which model.
pub proof fn missing_handler_is_named(model: Seq<char>)
    ensures
        no_handler_text(model) == "No model handler registered for type: "@ + model
            + ". Register a model handler using register_model() or pass a plugin with model handlers."@,
        no_stream_text(model) == "No streaming model handler registered for type: "@ + model
            + ". Register a streaming model handler using register_streaming_model()."@,
{
    three(
        "No model handler registered for type: "@,
        model,
        ". Register a model handler using register_model() or pass a plugin with model handlers."@,
    );
    three(
        "No streaming model handler registered for type: "@,
        model,
        ". Register a streaming model handler using register_streaming_model()."@,
    );
}

}
