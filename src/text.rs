//! The texts handed to the language model.
use vstd::prelude::*;
use crate::interaction::{Interaction, InteractionView};
use crate::buffer::items_view;
use crate::node::MemoryNode;

verus! {

pub open spec fn digit_char(d: nat) -> char {
    if d == 0 { '0' } else if d == 1 { '1' } else if d == 2 { '2' } else if d == 3 { '3' }
    else if d == 4 { '4' } else if d == 5 { '5' } else if d == 6 { '6' } else if d == 7 { '7' }
    else if d == 8 { '8' } else { '9' }
}

/// The decimal digits of `n`, most significant first, without leading zeros.
pub open spec fn decimal(n: nat) -> Seq<char>
    decreases n,
{
    if n < 10 {
        seq![digit_char(n)]
    } else {
        decimal(n / 10) + seq![digit_char(n % 10)]
    }
}

fn digit_str(d: u64) -> (r: &'static str)
    requires
        d < 10,
    ensures
        r@ == seq![digit_char(d as nat)],
{
    proof {
        reveal_strlit("0");
        reveal_strlit("1");
        reveal_strlit("2");
        reveal_strlit("3");
        reveal_strlit("4");
        reveal_strlit("5");
        reveal_strlit("6");
        reveal_strlit("7");
        reveal_strlit("8");
        reveal_strlit("9");
    }
    if d == 0 { "0" } else if d == 1 { "1" } else if d == 2 { "2" } else if d == 3 { "3" }
    else if d == 4 { "4" } else if d == 5 { "5" } else if d == 6 { "6" } else if d == 7 { "7" }
    else if d == 8 { "8" } else { "9" }
}

/// The decimal text of `n`.
pub fn decimal_text(n: u64) -> (r: String)
    ensures
        r@ == decimal(n as nat),
    decreases n,
{
    if n < 10 {
        String::from_str(digit_str(n))
    } else {
        let mut s = decimal_text(n / 10);
        s.append(digit_str(n % 10));
        s
    }
}

/// The prompt that asks the model for a concise summary of `text`.
pub open spec fn summary_prompt_of(text: Seq<char>) -> Seq<char> {
    "Summarize the following text concisely:\n\n"@ + text + "\n\nSummary:"@
}

/// The prompt that asks the model for a concise summary of `text`.
pub fn summary_prompt(text: &str) -> (r: String)
    ensures
        r@ == summary_prompt_of(text@),
{
    let mut p = String::from_str("Summarize the following text concisely:\n\n");
    p.append(text);
    p.append("\n\nSummary:");
    p
}

/// One transcript entry: `User: {input}\nAI: {response}\n`.
pub open spec fn transcript_entry(i: InteractionView) -> Seq<char> {
    "User: "@ + i.user_input + "\nAI: "@ + i.ai_response + "\n"@
}

/// The entries of a batch, concatenated in batch order.
pub open spec fn transcript_of(batch: Seq<InteractionView>) -> Seq<char>
    decreases batch.len(),
{
    if batch.len() == 0 {
        Seq::empty()
    } else {
        transcript_of(batch.drop_last()) + transcript_entry(batch.last())
    }
}

/// The transcript of a batch of interactions.
pub fn transcript(batch: &Vec<Interaction>) -> (r: String)
    ensures
        r@ == transcript_of(items_view(batch@)),
{
    let mut t = String::new();
    let mut i: usize = 0;
    while i < batch.len()
        invariant
            i <= batch@.len(),
            t@ == transcript_of(items_view(batch@).take(i as int)),
        decreases batch.len() - i,
    {
        let ghost before = t@;
        t.append("User: ");
        t.append(batch[i].user_input.as_str());
        t.append("\nAI: ");
        t.append(batch[i].ai_response.as_str());
        t.append("\n");
        proof {
            let v = items_view(batch@);
            assert(v.take(i + 1).drop_last() =~= v.take(i as int));
            assert(v.take(i + 1).last() == batch@[i as int]@);
            assert(t@ =~= before + transcript_entry(batch@[i as int]@));
        }
        i = i + 1;
    }
    assert(items_view(batch@).take(batch@.len() as int) =~= items_view(batch@));
    t
}

/// Entry `n` of an enumeration: `{n}. {content}`.
pub open spec fn enumeration_item(n: nat, content: Seq<char>) -> Seq<char> {
    decimal(n) + ". "@ + content
}

/// The numbered enumeration `1. {c_1}\n2. {c_2}\n...` of `contents`.
pub open spec fn enumeration_of(contents: Seq<Seq<char>>) -> Seq<char>
    decreases contents.len(),
{
    if contents.len() == 0 {
        Seq::empty()
    } else if contents.len() == 1 {
        enumeration_item(1, contents[0])
    } else {
        enumeration_of(contents.drop_last()) + "\n"@ + enumeration_item(contents.len(), contents.last())
    }
}

/// The prompt that asks the model to summarise the enumerated `contents`.
pub open spec fn consolidation_prompt_of(contents: Seq<Seq<char>>) -> Seq<char> {
    "Summarize the following "@ + decimal(contents.len()) + " items into a concise overview:\n\n"@
        + enumeration_of(contents)
}


/// The contents of a sequence of nodes.
pub open spec fn contents_of(nodes: Seq<MemoryNode>) -> Seq<Seq<char>> {
    nodes.map_values(|n: MemoryNode| n.content@)
}

/// The prompt that asks the model to summarise the contents of `nodes`.
pub fn consolidation_prompt(nodes: &Vec<MemoryNode>) -> (r: String)
    ensures
        r@ == consolidation_prompt_of(contents_of(nodes@)),
{
    let mut body = String::new();
    let mut i: usize = 0;
    while i < nodes.len()
        invariant
            i <= nodes@.len(),
            body@ == enumeration_of(contents_of(nodes@).take(i as int)),
        decreases nodes.len() - i,
    {
        let ghost before = body@;
        if i > 0 {
            body.append("\n");
        }
        let num = decimal_text((i + 1) as u64);
        body.append(num.as_str());
        body.append(". ");
        body.append(nodes[i].content.as_str());
        proof {
            let c = contents_of(nodes@);
            assert(c.take(i + 1).drop_last() =~= c.take(i as int));
            assert(c.take(i + 1).last() == nodes@[i as int].content@);
            if i == 0 {
                assert(body@ =~= enumeration_item(1, c.take(1)[0]));
            } else {
                assert(body@ =~= before + "\n"@ + enumeration_item((i + 1) as nat, c.take(i + 1).last()));
            }
        }
        i = i + 1;
    }
    assert(contents_of(nodes@).take(nodes@.len() as int) =~= contents_of(nodes@));
    let mut p = String::from_str("Summarize the following ");
    let count = decimal_text(nodes.len() as u64);
    p.append(count.as_str());
    p.append(" items into a concise overview:\n\n");
    p.append(body.as_str());
    p
}

} // verus!
