//! The system prompt.
use crate::tool_error::ToolError;
use vstd::prelude::*;

verus! {

pub uninterp spec fn rendered_prompt(template: Seq<char>, working_directory: Seq<char>) -> Result<
    Seq<char>,
    Seq<char>,
>;

/// Relies on handlebars' Handlebars::render_template: renders `template` with
/// `workingDirectory` bound to `working_directory`; the text, or the renderer's
/// message, depends on the two texts alone.
#[verifier::external_body]
fn render(template: &str, working_directory: &str) -> (r: Result<String, String>)
    ensures
        text_result_view(r) == rendered_prompt(template@, working_directory@),
{
    let mut data = std::collections::BTreeMap::new();
    data.insert("workingDirectory".to_string(), working_directory.to_string());
    handlebars::Handlebars::new().render_template(template, &data).map_err(|e| e.to_string())
}

pub open spec fn text_result_view(r: Result<String, String>) -> Result<Seq<char>, Seq<char>> {
    match r {
        Ok(s) => Ok(s@),
        Err(m) => Err(m@),
    }
}

/// The system prompt: the template with the working directory filled in.
pub fn build_system_prompt(template: &str, working_directory: &str) -> (r: Result<String, ToolError>)
    ensures
        r matches Ok(s) ==> rendered_prompt(template@, working_directory@) == Ok::<Seq<char>, Seq<char>>(s@),
        r matches Err(e) ==> (e matches ToolError::Error { message } && rendered_prompt(
            template@,
            working_directory@,
        ) == Err::<Seq<char>, Seq<char>>(message@)),
{
    match render(template, working_directory) {
        Ok(s) => Ok(s),
        Err(message) => Err(ToolError::Error { message }),
    }
}

} // verus!
