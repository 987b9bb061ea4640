//! The per-unit pipeline (comments removed, model extracted, both texts rendered) and the
//! batch over many units, where a failing unit does not stop the others.
use vstd::prelude::*;
use crate::extract::class_of;
use crate::model::{Class, ClassView, ParserError, result_view};
use crate::render::{markup, summary};
use crate::comments::{remove_comments, strip_comments};

verus! {

/// The model of a raw source text: comments removed first.
pub open spec fn analysis_of(text: Seq<char>) -> Result<ClassView, ParserError> {
    class_of(strip_comments(text))
}

/// The summary and the markup of a raw source text.
pub open spec fn rendered_of(text: Seq<char>) -> Result<(Seq<char>, Seq<char>), ParserError> {
    match analysis_of(text) {
        Err(e) => Err(e),
        Ok(c) => Ok((summary(c), markup(c))),
    }
}

/// The outcome of each unit of a batch, in order.
pub open spec fn batch_of(texts: Seq<Seq<char>>) -> Seq<Result<ClassView, ParserError>> {
    texts.map_values(|t: Seq<char>| analysis_of(t))
}

/// The positions of the failed units of a batch outcome.
pub open spec fn failed_units(outcome: Seq<Result<ClassView, ParserError>>) -> Set<int> {
    Set::new(|i: int| 0 <= i < outcome.len() && outcome[i] is Err)
}

/// The model of the raw source text `source`.
pub fn analyse_source(source: &str) -> (r: Result<Class, ParserError>)
    ensures
        result_view(r) == analysis_of(source@),
{
    let clean = remove_comments(source);
    Class::from_source(clean.as_str())
}

/// The summary and the markup of the raw source text `source`.
pub fn render_source(source: &str) -> (r: Result<(String, String), ParserError>)
    ensures
        result_view(r) == rendered_of(source@),
{
    match analyse_source(source) {
        Err(e) => Err(e),
        Ok(c) => Ok((c.to_str(), c.to_plantuml())),
    }
}

/// The model of each source text, in order; each unit succeeds or fails on its own.
pub fn analyse_sources(sources: &Vec<String>) -> (r: Vec<Result<Class, ParserError>>)
    ensures
        r.len() == sources.len(),
        forall|i: int| 0 <= i < r.len() ==> result_view(#[trigger] r[i]) == batch_of(sources.deep_view())[i],
{
    let mut out: Vec<Result<Class, ParserError>> = Vec::new();
    let mut i: usize = 0;
    while i < sources.len()
        invariant
            i <= sources.len(),
            out.len() == i,
            forall|j: int| 0 <= j < i ==> result_view(#[trigger] out[j]) == analysis_of(sources[j]@),
        decreases sources.len() - i,
    {
        out.push(analyse_source(sources[i].as_str()));
        i = i + 1;
    }
    out
}

/// The program that runs the diagram renderer: `java` when no custom one is given (empty),
/// else the one given.
pub fn renderer_program(custom_java: &str) -> (r: String)
    ensures
        custom_java@.len() == 0 ==> r@ == "java"@,
        custom_java@.len() > 0 ==> r@ == custom_java@,
{
    if custom_java.unicode_len() == 0 {
        String::from_str("java")
    } else {
        String::from_str(custom_java)
    }
}

/// The progress message sent when the diagram of `class` is exported.
pub fn exporting_message(class: &Class) -> (r: String)
    ensures
        r@ == "Exporting "@ + class@.signature.name,
{
    let mut m = String::from_str("Exporting ");
    m.append(class.class_signature.class_name.as_str());
    m
}

/// Rendering is deterministic: equal source texts give equal models, summaries and markup.
pub proof fn lemma_rendering_deterministic(a: Seq<char>, b: Seq<char>)
    requires
        a == b,
    ensures
        analysis_of(a) == analysis_of(b),
        rendered_of(a) == rendered_of(b),
{
}

/// In a batch where unit `k` has no recognizable header and every other unit succeeds,
/// exactly unit `k` fails, with `NoSignatureFound`, and every other unit gets its own model.
pub proof fn lemma_batch_isolates_failure(texts: Seq<Seq<char>>, k: int)
    requires
        0 <= k < texts.len(),
        analysis_of(texts[k]) == Err::<ClassView, ParserError>(ParserError::NoSignatureFound),
        forall|i: int| 0 <= i < texts.len() && i != k ==> (#[trigger] analysis_of(texts[i])) is Ok,
    ensures
        batch_of(texts).len() == texts.len(),
        batch_of(texts)[k] == Err::<ClassView, ParserError>(ParserError::NoSignatureFound),
        forall|i: int|
            0 <= i < texts.len() && i != k ==> #[trigger] batch_of(texts)[i] == analysis_of(texts[i])
                && batch_of(texts)[i] is Ok,
        failed_units(batch_of(texts)) == set![k],
{
    let b = batch_of(texts);
    assert(failed_units(b) =~= set![k]);
}

} // verus!
