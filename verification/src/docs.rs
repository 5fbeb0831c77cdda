//! The Markdown reference of the AI command API: one section per command,
//! in ascending id order, with its description and its input and output
//! JSON schemas.
use vstd::prelude::*;
use vstd::multiset::Multiset;
use crate::text::{lemma_str_lt_total, lemma_str_lt_transitive, owned, push_str, str_less, str_lt};

verus! {

/// What the reference says of one command. The schemas are the pretty
/// printed JSON documents; `None` where a schema could not be rendered.
pub struct CommandDoc {
    pub id: String,
    pub description: String,
    pub input_schema: Option<String>,
    pub output_schema: Option<String>,
}

/// The ids ascend (equal ids in any order).
pub open spec fn by_id(cs: Seq<CommandDoc>) -> bool {
    forall|i: int, j: int| 0 <= i < j < cs.len() ==> !str_lt(cs[j].id@, cs[i].id@)
}

/// The commands ordered by id.
pub fn sort_by_id(commands: Vec<CommandDoc>) -> (out: Vec<CommandDoc>)
    ensures
        by_id(out@),
        out@.to_multiset() == commands@.to_multiset(),
{
    broadcast use vstd::seq_lib::group_to_multiset_ensures;

    let ghost all = commands@;
    let mut rest = commands;
    let mut out: Vec<CommandDoc> = Vec::new();
    proof {
        assert(out@.to_multiset() =~= Multiset::empty());
        assert(out@.to_multiset().add(rest@.to_multiset()) =~= all.to_multiset());
    }
    while rest.len() > 0
        invariant
            by_id(out@),
            out@.to_multiset().add(rest@.to_multiset()) == all.to_multiset(),
        decreases rest.len(),
    {
        let ghost r0 = rest@;
        let x = rest.pop().unwrap();
        proof {
            assert(r0 =~= rest@.push(x));
        }
        let mut p: usize = 0;
        while p < out.len() && !str_less(x.id.as_str(), out[p].id.as_str())
            invariant
                p <= out.len(),
                forall|k: int| 0 <= k < p ==> !str_lt(x.id@, #[trigger] out@[k].id@),
            decreases out.len() - p,
        {
            p += 1;
        }
        let ghost o0 = out@;
        proof {
            assert forall|k: int| p <= k < o0.len() implies str_lt(x.id@, #[trigger] o0[k].id@) by {
                if k > p {
                    lemma_str_lt_total(o0[p as int].id@, o0[k].id@);
                    if o0[p as int].id@ != o0[k].id@ {
                        lemma_str_lt_transitive(x.id@, o0[p as int].id@, o0[k].id@);
                    }
                }
            }
        }
        out.insert(p, x);
        proof {
            let n = out@;
            assert(n =~= o0.insert(p as int, x));
            assert forall|i: int, j: int| 0 <= i < j < n.len() implies !str_lt(
                n[j].id@,
                n[i].id@,
            ) by {
                if i == p {
                    lemma_str_lt_total(x.id@, o0[j - 1].id@);
                } else if j == p {
                    assert(!str_lt(x.id@, o0[i].id@));
                } else if i < p && j < p {
                    assert(n[i] == o0[i] && n[j] == o0[j]);
                } else if i < p {
                    assert(n[i] == o0[i] && n[j] == o0[j - 1]);
                } else {
                    assert(n[i] == o0[i - 1] && n[j] == o0[j - 1]);
                }
            }
            vstd::seq_lib::to_multiset_insert(o0, p as int, x);
            vstd::seq_lib::to_multiset_build(rest@, x);
            assert(out@.to_multiset().add(rest@.to_multiset()) =~= o0.to_multiset().add(
                r0.to_multiset(),
            ));
        }
    }
    proof {
        assert(rest@.to_multiset() =~= Multiset::empty());
        assert(out@.to_multiset().add(rest@.to_multiset()) =~= out@.to_multiset());
    }
    out
}

/// A schema block: the JSON fenced as code, or a note that there is none.
pub open spec fn schema_text(schema: Option<String>, missing: Seq<char>) -> Seq<char> {
    match schema {
        Some(s) => "```json\n"@ + s@ + "\n```\n\n"@,
        None => missing,
    }
}

/// The section of one command.
pub open spec fn section_text(c: CommandDoc) -> Seq<char> {
    "## `"@ + c.id@ + "`\n\n"@ + "**Description:** "@ + c.description@ + "\n\n"@
        + "### Input Schema\n\n"@ + schema_text(c.input_schema, "*(No input schema available)*\n\n"@)
        + "### Output Schema\n\n"@ + schema_text(
        c.output_schema,
        "*(No output schema available)*\n\n"@,
    ) + "---\n\n"@
}

pub open spec fn sections_text(cs: Seq<CommandDoc>) -> Seq<char>
    decreases cs.len(),
{
    if cs.len() == 0 {
        Seq::empty()
    } else {
        sections_text(cs.drop_last()) + section_text(cs.last())
    }
}

/// The document's title and introduction.
pub open spec fn docs_intro() -> Seq<char> {
    "# AI Command API Documentation\n\n"@
        + "This document defines the list of typed JSON commands supported by the AI workspace interface.\n\n"@
}

fn push_schema(docs: &mut String, schema: &Option<String>, missing: &str)
    ensures
        final(docs)@ == old(docs)@ + schema_text(*schema, missing@),
{
    match schema {
        Some(s) => {
            push_str(docs, "```json\n");
            push_str(docs, s.as_str());
            push_str(docs, "\n```\n\n");
        },
        None => push_str(docs, missing),
    }
}

fn push_section(docs: &mut String, c: &CommandDoc)
    ensures
        final(docs)@ == old(docs)@ + section_text(*c),
{
    push_str(docs, "## `");
    push_str(docs, c.id.as_str());
    push_str(docs, "`\n\n");
    push_str(docs, "**Description:** ");
    push_str(docs, c.description.as_str());
    push_str(docs, "\n\n");
    push_str(docs, "### Input Schema\n\n");
    push_schema(docs, &c.input_schema, "*(No input schema available)*\n\n");
    push_str(docs, "### Output Schema\n\n");
    push_schema(docs, &c.output_schema, "*(No output schema available)*\n\n");
    push_str(docs, "---\n\n");
}

/// The reference document for the registered commands: the introduction,
/// then one section per command in ascending id order.
pub fn generate_command_docs(commands: Vec<CommandDoc>) -> (docs: String)
    ensures
        exists|sorted: Seq<CommandDoc>|
            {
                &&& by_id(sorted)
                &&& sorted.to_multiset() == commands@.to_multiset()
                &&& docs@ == docs_intro() + sections_text(sorted)
            },
{
    let cs = sort_by_id(commands);
    let mut docs = owned("# AI Command API Documentation\n\n");
    push_str(
        &mut docs,
        "This document defines the list of typed JSON commands supported by the AI workspace interface.\n\n",
    );
    let ghost head = docs@;
    let mut i: usize = 0;
    while i < cs.len()
        invariant
            i <= cs.len(),
            docs@ == head + sections_text(cs@.take(i as int)),
        decreases cs.len() - i,
    {
        push_section(&mut docs, &cs[i]);
        assert(cs@.take(i + 1).drop_last() =~= cs@.take(i as int));
        i += 1;
    }
    assert(cs@.take(i as int) =~= cs@);
    docs
}

} // verus!
