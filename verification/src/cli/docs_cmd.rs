//! Arguments and output of the documentation commands.

use vstd::prelude::*;

use crate::docs::{resolve, spec_docs_lookup, spec_topic_key, spec_topic_label};
use crate::error::{Error, ErrorCode};

verus! {

/// The docs command's arguments: the topic to show.
#[derive(Debug, Clone)]
pub struct DocsArgs {
    pub topic: Vec<String>,
}

/// The init help command's arguments.
#[derive(Debug, Clone)]
pub struct InitArgs {}

/// The changelog command's output.
#[derive(Debug, Clone)]
pub struct ChangelogOutput {
    pub topic_label: String,
    pub content: String,
}

/// Shows the embedded changelog page. Fails when the documentation table has
/// no changelog entry.
pub fn run(docs: &Vec<(String, String)>) -> (r: Result<(ChangelogOutput, i32), Error>)
    ensures
        match r {
            Ok(out) => {
                let topic = seq!["changelog"@];
                &&& out.0.topic_label@ == spec_topic_label(topic)
                &&& spec_docs_lookup(docs.deep_view(), spec_topic_key(topic)) matches Some(c)
                    && out.0.content@ == c && c.len() > 0
                &&& out.1 == 0
            },
            Err(e) => e.code == ErrorCode::Other,
        },
{
    let mut topic: Vec<String> = Vec::new();
    topic.push(String::from_str("changelog"));
    proof {
        assert(topic.deep_view() =~~= seq!["changelog"@]);
    }
    let (topic_label, content) = resolve(&topic, docs);
    if content.as_str().is_empty() {
        return Err(Error::other(String::from_str("No changelog found")));
    }
    Ok((ChangelogOutput { topic_label, content }, 0))
}

/// Shows the embedded initialization guide as markdown. Fails when the
/// documentation table has no such page.
pub fn run_markdown(docs: &Vec<(String, String)>) -> (r: Result<(String, i32), Error>)
    ensures
        match r {
            Ok(out) => {
                let topic = seq!["commands/homeboy-init"@];
                &&& spec_docs_lookup(docs.deep_view(), spec_topic_key(topic)) matches Some(c)
                    && out.0@ == c && c.len() > 0
                &&& out.1 == 0
            },
            Err(e) => e.code == ErrorCode::Other,
        },
{
    let mut topic: Vec<String> = Vec::new();
    topic.push(String::from_str("commands/homeboy-init"));
    proof {
        assert(topic.deep_view() =~~= seq!["commands/homeboy-init"@]);
    }
    let (_, content) = resolve(&topic, docs);
    if content.as_str().is_empty() {
        return Err(Error::other(String::from_str("No documentation found")));
    }
    Ok((content, 0))
}

} // verus!
